//! The four timers.
//!
//! Each counts up from a reload value to `0xFFFF` and overflows back to that reload value. Writes go
//! to the reload latch and reads come from the counter, at the same address. A cascading timer
//! ignores the clock and counts the overflows of the timer below it; timer 0 has nothing below it.

pub mod control;

use vstd::prelude::*;
use crate::state::{self, StateError, StateReader, StateWriter};

verus! {

pub const CHANNELS: usize = 4;

/// Base address of timer 0's registers. Each channel is four bytes further on.
pub const BASE: u32 = 0x0400_0100;

/// Cycles per tick for each prescaler setting.
pub const PRESCALERS: [u32; 4] = [1, 64, 256, 1024];

/// How far each prescaler setting shifts the clock down.
pub const PRESCALER_SHIFTS: [u32; 4] = [0, 6, 8, 10];

/// One timer.
#[derive(Debug, Clone, Copy, PartialEq, Eq, Structural)]
pub struct Timer {
    /// The live count.
    pub counter: u16,
    /// What an overflow reloads. Written through the same address that the counter is read from.
    pub reload: u16,
    pub control: u16,
    /// Cycles seen but not yet worth a tick, at the current prescaler.
    pub remainder: u32,
}

/// A control value with only the bits that exist.
#[verifier::allow_in_spec]
pub fn masked(value: u16) -> u16
    returns
        (value % 8 + value / 0x40 % 4 * 0x40) as u16,
{
    value % 8 + value / 0x40 % 4 * 0x40
}

/// The count after `n` ticks: past `0xFFFF` it goes round from the reload value.
pub open spec fn count_after(counter: u16, reload: u16, n: int) -> int {
    if counter + n <= 0xFFFF {
        counter + n
    } else {
        reload + (counter + n - 0x1_0000) % (0x1_0000 - reload)
    }
}

/// How many of `n` ticks overflow.
pub open spec fn overflows(counter: u16, reload: u16, n: int) -> int {
    if counter + n <= 0xFFFF {
        0
    } else {
        1 + (counter + n - 0x1_0000) / (0x1_0000 - reload)
    }
}

impl Timer {
    pub open spec fn initial() -> Timer {
        Timer { counter: 0, reload: 0, control: 0, remainder: 0 }
    }

    #[verifier::allow_in_spec]
    pub fn enabled(&self) -> bool
        returns
            self.control / 0x80 % 2 == 1,
    {
        self.control / 0x80 % 2 == 1
    }

    #[verifier::allow_in_spec]
    pub fn cascading(&self) -> bool
        returns
            self.control / 4 % 2 == 1,
    {
        self.control / 4 % 2 == 1
    }

    #[verifier::allow_in_spec]
    pub fn irq_enabled(&self) -> bool
        returns
            self.control / 0x40 % 2 == 1,
    {
        self.control / 0x40 % 2 == 1
    }

    /// How many cycles one tick takes.
    #[verifier::allow_in_spec]
    pub fn prescaler(&self) -> u32
        returns
            PRESCALERS[self.control as int % 4],
    {
        PRESCALERS[(self.control % 4) as usize]
    }

    /// Whether the clock drives this timer.
    pub open spec fn clocked(self) -> bool {
        self.enabled() && !self.cascading()
    }

    /// The timer after `n` ticks.
    pub open spec fn ticked(self, n: int) -> Timer {
        Timer { counter: count_after(self.counter, self.reload, n) as u16, ..self }
    }

    /// The timer after reading the stream at `at`, as far as `limit` lets it be read.
    pub open spec fn restored(self, d: Seq<u8>, limit: int, at: int) -> Timer {
        Timer {
            counter: state::or16(d, limit, at, self.counter),
            reload: state::or16(d, limit, at + 2, self.reload),
            control: state::or16(d, limit, at + 4, self.control),
            remainder: state::or32(d, limit, at + 6, self.remainder),
        }
    }

    fn new() -> (r: Self)
        ensures
            r == Timer::initial(),
    {
        Timer { counter: 0, reload: 0, control: 0, remainder: 0 }
    }

    /// Advance by some ticks. Returns how many of them overflowed.
    fn tick(&mut self, n: u64) -> (r: u64)
        requires
            n <= 0x2_0000_0000,
        ensures
            *final(self) == old(self).ticked(n as int),
            r == overflows(old(self).counter, old(self).reload, n as int),
            r <= n,
    {
        let total: u64 = self.counter as u64 + n;
        if total <= 0xFFFF {
            self.counter = total as u16;
            0
        } else {
            let past: u64 = total - 0x1_0000;
            let period: u64 = 0x1_0000 - self.reload as u64;
            proof {
                lemma_round(past as int, period as int);
            }
            self.counter = (self.reload as u64 + past % period) as u16;
            1 + past / period
        }
    }

    fn save(&self, w: &mut StateWriter)
        ensures
            state::continues(old(w)@, final(w)@),
            final(w)@.len() == old(w)@.len() + 10,
            self.restored(final(w)@, final(w)@.len() as int, old(w)@.len() as int) == *self,
    {
        w.write_u16(self.counter);
        w.write_u16(self.reload);
        w.write_u16(self.control);
        w.write_u32(self.remainder);
    }

    fn load(&mut self, r: &mut StateReader)
        ensures
            *final(self) == old(self).restored(old(r).data(), old(r).limit(), old(r).pos() as int),
            state::advanced(*old(r), *final(r), 10),
    {
        self.counter = r.u16_or(self.counter);
        self.reload = r.u16_or(self.reload);
        self.control = r.u16_or(self.control);
        self.remainder = r.u32_or(self.remainder);
    }
}

/// Going round stays within a period, and takes no more rounds than steps.
proof fn lemma_round(past: int, period: int)
    requires
        0 <= past,
        1 <= period,
    ensures
        0 <= past % period < period,
        0 <= past / period <= past,
{
    assert(0 <= past % period < period && 0 <= past / period <= past) by (nonlinear_arith)
        requires
            0 <= past,
            1 <= period,
    ;
}

/// A timer that was saved stays readable as the stream grows.
proof fn lemma_timer_kept(shorter: Seq<u8>, longer: Seq<u8>, at: int, timer: Timer)
    requires
        0 <= at,
        at + 10 <= shorter.len(),
        state::continues(shorter, longer),
        timer.restored(shorter, shorter.len() as int, at) == timer,
    ensures
        timer.restored(longer, longer.len() as int, at) == timer,
{
}

/// How many ticks a timer gets in some cycles: from the clock, or from the overflows of the timer
/// below.
pub open spec fn ticks(s: Seq<Timer>, i: int, cycles: int) -> int
    decreases i,
{
    let timer = s[i];
    if timer.clocked() {
        (timer.remainder + cycles) / timer.prescaler() as int
    } else if timer.enabled() && i > 0 {
        overflows(s[i - 1].counter, s[i - 1].reload, ticks(s, i - 1, cycles))
    } else {
        0
    }
}

/// Whether a timer overflows in some cycles.
pub open spec fn overflowed(s: Seq<Timer>, i: int, cycles: int) -> bool {
    overflows(s[i].counter, s[i].reload, ticks(s, i, cycles)) > 0
}

/// Four timers, some cycles later.
pub open spec fn advanced(s: Seq<Timer>, cycles: int) -> Seq<Timer> {
    Seq::new(
        4,
        |i: int|
            {
                let timer = s[i];
                Timer {
                    remainder: if timer.clocked() {
                        ((timer.remainder + cycles) % timer.prescaler() as int) as u32
                    } else {
                        timer.remainder
                    },
                    ..timer.ticked(ticks(s, i, cycles))
                }
            },
    )
}

/// Four flags as a mask, the lowest timer lowest.
pub open spec fn mask_of(a: bool, b: bool, c: bool, d: bool) -> u8 {
    ((if a { 1int } else { 0 }) + (if b { 2int } else { 0 }) + (if c { 4int } else { 0 }) + (if d {
        8int
    } else {
        0
    })) as u8
}

/// One bit of a mask.
#[verifier::allow_in_spec]
pub fn bit_of(mask: u8, i: usize) -> bool
    returns
        (if i == 0 {
            mask % 2 == 1
        } else if i == 1 {
            mask / 2 % 2 == 1
        } else if i == 2 {
            mask / 4 % 2 == 1
        } else {
            mask / 8 % 2 == 1
        }),
{
    if i == 0 {
        mask % 2 == 1
    } else if i == 1 {
        mask / 2 % 2 == 1
    } else if i == 2 {
        mask / 4 % 2 == 1
    } else {
        mask / 8 % 2 == 1
    }
}

fn mask(a: bool, b: bool, c: bool, d: bool) -> (r: u8)
    ensures
        r == mask_of(a, b, c, d),
{
    (if a {
        1
    } else {
        0
    }) + (if b {
        2
    } else {
        0
    }) + (if c {
        4
    } else {
        0
    }) + (if d {
        8
    } else {
        0
    })
}

/// How many bytes the timers save.
pub open spec fn saved_size() -> int {
    40
}

/// The timers after reading the stream at `at`, as far as `limit` lets it be read.
pub open spec fn restored(s: Seq<Timer>, d: Seq<u8>, limit: int, at: int) -> Seq<Timer> {
    seq![
        s[0].restored(d, limit, at),
        s[1].restored(d, limit, at + 10),
        s[2].restored(d, limit, at + 20),
        s[3].restored(d, limit, at + 30),
    ]
}

/// Whether the stream holds exactly these timers at `at`.
pub open spec fn encoded_at(s: Seq<Timer>, d: Seq<u8>, at: int) -> bool {
    at + saved_size() <= d.len() && restored(s, d, d.len() as int, at) == s
}

/// A timer with its reload latch or its control written. Switching a timer on loads the counter;
/// only the edge does.
pub open spec fn written(timer: Timer, addr: u32, value: u16) -> Timer {
    if addr % 4 < 2 {
        Timer { reload: value, ..timer }
    } else if !timer.enabled() && value / 0x80 % 2 == 1 {
        Timer { control: masked(value), counter: timer.reload, remainder: 0, ..timer }
    } else {
        Timer { control: masked(value), ..timer }
    }
}

/// All four timers.
#[derive(Debug, Clone, Copy, PartialEq, Eq)]
pub struct Timers {
    pub channels: [Timer; 4],
}

impl View for Timers {
    type V = Seq<Timer>;

    open spec fn view(&self) -> Seq<Timer> {
        self.channels@
    }
}

impl Timers {
    pub fn new() -> (r: Self)
        ensures
            r@ == Seq::new(4, |i: int| Timer::initial()),
    {
        let r = Timers { channels: crate::arrays::filled(Timer::new()) };
        assert(r@ =~= Seq::new(4, |i: int| Timer::initial()));
        r
    }

    #[verifier::allow_in_spec]
    pub fn owns(addr: u32) -> bool
        returns
            (BASE <= addr && addr < BASE + 16),
    {
        BASE <= addr && addr < BASE + 16
    }

    /// Advance every timer, returning a mask of the ones that overflowed.
    pub fn tick(&mut self, cycles: u32) -> (r: u8)
        ensures
            final(self)@ == advanced(old(self)@, cycles as int),
            r == mask_of(
                overflowed(old(self)@, 0, cycles as int),
                overflowed(old(self)@, 1, cycles as int),
                overflowed(old(self)@, 2, cycles as int),
                overflowed(old(self)@, 3, cycles as int),
            ),
    {
        let ghost s = self@;
        let mut channels = self.channels;
        let mut flags = [false, false, false, false];
        // How often the timer below overflowed.
        let mut below: u64 = 0;
        for index in 0..4usize
            invariant
                self@ == s,
                s == old(self)@,
                below <= 0x2_0000_0000,
                index == 0 ==> below == 0,
                index > 0 ==> below == overflows(
                    s[index - 1].counter,
                    s[index - 1].reload,
                    ticks(s, index - 1, cycles as int),
                ),
                forall|i: int|
                    0 <= i < index ==> #[trigger] channels@[i] == advanced(s, cycles as int)[i],
                forall|i: int| index <= i < 4 ==> #[trigger] channels@[i] == s[i],
                forall|i: int|
                    0 <= i < index ==> #[trigger] flags@[i] == overflowed(s, i, cycles as int),
        {
            let mut timer = channels[index];
            let count: u64 = if !timer.enabled() {
                0
            } else if timer.cascading() {
                // Driven by the timer below it, not by the clock.
                below
            } else {
                let total: u64 = timer.remainder as u64 + cycles as u64;
                let prescaler = timer.prescaler() as u64;
                proof {
                    lemma_prescaler(timer);
                    lemma_round(total as int, prescaler as int);
                }
                timer.remainder = (total % prescaler) as u32;
                total / prescaler
            };
            below = timer.tick(count);
            channels[index] = timer;
            flags[index] = below > 0;
        }
        self.channels = channels;
        assert(self@ =~= advanced(s, cycles as int));
        mask(flags[0], flags[1], flags[2], flags[3])
    }

    /// Which of the overflows in `mask` should raise an interrupt.
    pub fn interrupts(&self, mask: u8) -> (r: u8)
        ensures
            r == mask_of(
                bit_of(mask, 0) && self@[0].irq_enabled(),
                bit_of(mask, 1) && self@[1].irq_enabled(),
                bit_of(mask, 2) && self@[2].irq_enabled(),
                bit_of(mask, 3) && self@[3].irq_enabled(),
            ),
    {
        self::mask(
            bit_of(mask, 0) && self.channels[0].irq_enabled(),
            bit_of(mask, 1) && self.channels[1].irq_enabled(),
            bit_of(mask, 2) && self.channels[2].irq_enabled(),
            bit_of(mask, 3) && self.channels[3].irq_enabled(),
        )
    }

    pub fn counter(&self, channel: usize) -> (r: u16)
        requires
            channel < 4,
        ensures
            r == self@[channel as int].counter,
    {
        self.channels[channel].counter
    }

    pub fn read16(&self, addr: u32) -> (r: Option<u16>)
        ensures
            r == (if Timers::owns(addr) {
                let timer = self@[(addr - BASE) / 4];
                Some(if addr % 4 < 2 { timer.counter } else { masked(timer.control) })
            } else {
                None
            }),
    {
        if !Timers::owns(addr) {
            return None;
        }
        let timer = &self.channels[((addr - BASE) / 4) as usize];
        Some(if addr % 4 < 2 { timer.counter } else { masked(timer.control) })
    }

    pub fn write16(&mut self, addr: u32, value: u16) -> (r: Option<()>)
        ensures
            r == (if Timers::owns(addr) { Some(()) } else { None }),
            final(self)@ == (if Timers::owns(addr) {
                old(self)@.update(
                    (addr - BASE) / 4,
                    written(old(self)@[(addr - BASE) / 4], addr, value),
                )
            } else {
                old(self)@
            }),
    {
        if !Timers::owns(addr) {
            return None;
        }
        let channel = ((addr - BASE) / 4) as usize;
        let mut timer = self.channels[channel];
        if addr % 4 < 2 {
            // The reload latch, not the counter.
            timer.reload = value;
        } else {
            let was_enabled = timer.enabled();
            timer.control = masked(value);
            if !was_enabled && timer.enabled() {
                timer.counter = timer.reload;
                timer.remainder = 0;
            }
        }
        self.channels[channel] = timer;
        assert(self@ =~= old(self)@.update(
            channel as int,
            written(old(self)@[channel as int], addr, value),
        ));
        Some(())
    }

    pub fn save(&self, w: &mut StateWriter)
        ensures
            state::continues(old(w)@, final(w)@),
            final(w)@.len() == old(w)@.len() + saved_size(),
            encoded_at(self@, final(w)@, old(w)@.len() as int),
    {
        let ghost at = w@.len() as int;
        self.channels[0].save(w);
        let ghost one = w@;
        self.channels[1].save(w);
        let ghost two = w@;
        self.channels[2].save(w);
        let ghost three = w@;
        self.channels[3].save(w);
        proof {
            lemma_timer_kept(one, w@, at, self.channels[0]);
            lemma_timer_kept(two, w@, at + 10, self.channels[1]);
            lemma_timer_kept(three, w@, at + 20, self.channels[2]);
            assert(restored(self@, w@, w@.len() as int, at) =~= self@);
        }
    }

    pub fn load(&mut self, r: &mut StateReader) -> (result: Result<(), StateError>)
        ensures
            final(self)@ == restored(
                old(self)@,
                old(r).data(),
                old(r).limit(),
                old(r).pos() as int,
            ),
            state::advanced(*old(r), *final(r), saved_size()),
            result == state::verdict(*final(r)),
    {
        let mut first = self.channels[0];
        first.load(r);
        let mut second = self.channels[1];
        second.load(r);
        let mut third = self.channels[2];
        third.load(r);
        let mut fourth = self.channels[3];
        fourth.load(r);
        self.channels = [first, second, third, fourth];
        assert(self@ =~= restored(old(self)@, old(r).data(), old(r).limit(), old(r).pos() as int));
        r.status()
    }
}

impl Default for Timers {
    fn default() -> (r: Self)
        ensures
            r@ == Seq::new(4, |i: int| Timer::initial()),
    {
        Timers::new()
    }
}

/// A prescaler is at least one and at most 1024.
proof fn lemma_prescaler(timer: Timer)
    ensures
        1 <= timer.prescaler() <= 1024,
{
    let i = timer.control as int % 4;
    assert(i == 0 || i == 1 || i == 2 || i == 3);
}

/// Timers that were saved come back whole, whatever they are read into.
pub proof fn law_save_then_load(saved: Seq<Timer>, before: Seq<Timer>, d: Seq<u8>, at: int)
    requires
        0 <= at,
        saved.len() == 4,
        before.len() == 4,
        encoded_at(saved, d, at),
    ensures
        restored(before, d, d.len() as int, at) == saved,
{
    assert(restored(before, d, d.len() as int, at) =~= restored(saved, d, d.len() as int, at));
}

/// Ticks may be handed over in any pieces: the count and the overflows come to the same.
proof fn lemma_ticks_add_up(counter: u16, reload: u16, n: int, m: int)
    requires
        0 <= n,
        0 <= m,
    ensures
        ({
            let middle = count_after(counter, reload, n) as u16;
            &&& count_after(counter, reload, n) == middle
            &&& count_after(middle, reload, m) == count_after(counter, reload, n + m)
            &&& overflows(counter, reload, n) + overflows(middle, reload, m) == overflows(
                counter,
                reload,
                n + m,
            )
            &&& 0 <= overflows(counter, reload, n)
            &&& 0 <= overflows(middle, reload, m)
        }),
{
    let p = 0x1_0000 - reload;
    let past = counter + n - 0x1_0000;
    if past >= 0 {
        lemma_round(past, p);
    }
    let middle = count_after(counter, reload, n) as u16;
    assert(count_after(counter, reload, n) == middle);
    let later = middle + m - 0x1_0000;
    if later >= 0 {
        lemma_round(later, p);
    }
    let whole = counter + n + m - 0x1_0000;
    if past >= 0 {
        let q = past / p;
        vstd::arithmetic::div_mod::lemma_fundamental_div_mod(past, p);
        assert(past == p * q + (middle - reload));
        if later >= 0 {
            let k = later / p;
            vstd::arithmetic::div_mod::lemma_fundamental_div_mod(later, p);
            assert(whole == p * (q + 1 + k) + later % p) by (nonlinear_arith)
                requires
                    past == p * q + (middle - reload),
                    later == p * k + later % p,
                    later == middle + m - 0x1_0000,
                    whole == past + m,
                    p == 0x1_0000 - reload,
            ;
            vstd::arithmetic::div_mod::lemma_fundamental_div_mod_converse(
                whole,
                p,
                q + 1 + k,
                later % p,
            );
        } else {
            assert(whole == p * q + (middle - reload + m)) by (nonlinear_arith)
                requires
                    past == p * q + (middle - reload),
                    whole == past + m,
            ;
            vstd::arithmetic::div_mod::lemma_fundamental_div_mod_converse(
                whole,
                p,
                q,
                middle - reload + m,
            );
        }
    }
}

/// Cycles below the prescaler are carried: two spans bring a timer as many ticks as their sum does.
proof fn lemma_clock_adds_up(remainder: int, prescaler: int, a: int, b: int)
    requires
        0 <= remainder,
        1 <= prescaler,
        0 <= a,
        0 <= b,
    ensures
        ({
            let rest = (remainder + a) % prescaler;
            &&& 0 <= rest < prescaler
            &&& 0 <= (remainder + a) / prescaler
            &&& 0 <= (rest + b) / prescaler
            &&& (remainder + a) / prescaler + (rest + b) / prescaler == (remainder + a + b)
                / prescaler
            &&& (rest + b) % prescaler == (remainder + a + b) % prescaler
        }),
{
    lemma_round(remainder + a, prescaler);
    let rest = (remainder + a) % prescaler;
    let q = (remainder + a) / prescaler;
    lemma_round(rest + b, prescaler);
    let k = (rest + b) / prescaler;
    vstd::arithmetic::div_mod::lemma_fundamental_div_mod(remainder + a, prescaler);
    vstd::arithmetic::div_mod::lemma_fundamental_div_mod(rest + b, prescaler);
    assert(remainder + a + b == prescaler * (q + k) + (rest + b) % prescaler) by (nonlinear_arith)
        requires
            remainder + a == prescaler * q + rest,
            rest + b == prescaler * k + (rest + b) % prescaler,
    ;
    vstd::arithmetic::div_mod::lemma_fundamental_div_mod_converse(
        remainder + a + b,
        prescaler,
        q + k,
        (rest + b) % prescaler,
    );
}

/// The ticks of two spans, one after the other, are the ticks of their sum.
proof fn lemma_spans_add_up(s: Seq<Timer>, i: int, a: int, b: int)
    requires
        s.len() == 4,
        0 <= i < 4,
        0 <= a,
        0 <= b,
    ensures
        0 <= ticks(s, i, a),
        0 <= ticks(advanced(s, a), i, b),
        ticks(s, i, a) + ticks(advanced(s, a), i, b) == ticks(s, i, a + b),
    decreases i,
{
    let timer = s[i];
    let later = advanced(s, a)[i];
    if timer.clocked() {
        lemma_prescaler(timer);
        lemma_clock_adds_up(timer.remainder as int, timer.prescaler() as int, a, b);
        assert(later.remainder == (timer.remainder + a) % timer.prescaler() as int);
        assert(later.clocked() && later.prescaler() == timer.prescaler());
    } else if timer.enabled() && i > 0 {
        lemma_spans_add_up(s, i - 1, a, b);
        let below = s[i - 1];
        let n = ticks(s, i - 1, a);
        let m = ticks(advanced(s, a), i - 1, b);
        lemma_ticks_add_up(below.counter, below.reload, n, m);
        assert(advanced(s, a)[i - 1].counter == count_after(below.counter, below.reload, n));
        assert(advanced(s, a)[i - 1].reload == below.reload);
    }
}

/// No cycle is lost and none is counted twice: two spans come to the same as their sum, cascades and
/// remainders and all, and a timer overflows in the sum exactly if it does in one of the two.
pub proof fn law_spans_add_up(s: Seq<Timer>, a: int, b: int)
    requires
        s.len() == 4,
        0 <= a,
        0 <= b,
    ensures
        advanced(advanced(s, a), b) == advanced(s, a + b),
        forall|i: int|
            0 <= i < 4 ==> #[trigger] overflowed(s, i, a + b) == (overflowed(s, i, a)
                || overflowed(advanced(s, a), i, b)),
{
    let middle = advanced(s, a);
    assert forall|i: int| 0 <= i < 4 implies #[trigger] overflowed(s, i, a + b) == (overflowed(
        s,
        i,
        a,
    ) || overflowed(middle, i, b)) by {
        lemma_timer_adds_up(s, i, a, b);
    }
    assert forall|i: int| 0 <= i < 4 implies #[trigger] advanced(middle, b)[i] == advanced(s, a + b)[i] by {
        lemma_timer_adds_up(s, i, a, b);
    }
    assert(advanced(middle, b) =~= advanced(s, a + b));
}

/// One timer over two spans.
proof fn lemma_timer_adds_up(s: Seq<Timer>, i: int, a: int, b: int)
    requires
        s.len() == 4,
        0 <= i < 4,
        0 <= a,
        0 <= b,
    ensures
        advanced(advanced(s, a), b)[i] == advanced(s, a + b)[i],
        overflowed(s, i, a + b) == (overflowed(s, i, a) || overflowed(advanced(s, a), i, b)),
{
    let middle = advanced(s, a);
    let timer = s[i];
    lemma_spans_add_up(s, i, a, b);
    let n = ticks(s, i, a);
    let m = ticks(middle, i, b);
    lemma_ticks_add_up(timer.counter, timer.reload, n, m);
    assert(middle[i].counter == count_after(timer.counter, timer.reload, n));
    assert(middle[i].reload == timer.reload);
    if timer.clocked() {
        lemma_prescaler(timer);
        lemma_clock_adds_up(timer.remainder as int, timer.prescaler() as int, a, b);
        assert(middle[i].remainder == (timer.remainder + a) % timer.prescaler() as int);
    }
}

/// A timer that is off, and timer 0 with the cascade bit, never move.
pub proof fn law_nothing_drives_these(s: Seq<Timer>, cycles: int)
    requires
        s.len() == 4,
        0 <= cycles,
    ensures
        forall|i: int|
            0 <= i < 4 && !s[i].enabled() ==> (#[trigger] advanced(s, cycles)[i]) == s[i],
        s[0].cascading() ==> advanced(s, cycles)[0] == s[0],
{
}

/// Writing the control of a running timer does not restart it, and a write to the latch never moves
/// the count.
pub proof fn law_a_running_timer_keeps_its_count(timer: Timer, addr: u32, value: u16)
    requires
        timer.enabled() || addr % 4 < 2,
    ensures
        written(timer, addr, value).counter == timer.counter,
        written(timer, addr, value).remainder == timer.remainder,
{
}

/// Every prescaler is a power of two, so the clock is divided by shifting it.
pub proof fn law_prescalers_are_powers_of_two(setting: int)
    requires
        0 <= setting < 4,
    ensures
        PRESCALERS@[setting] == 1u32 << PRESCALER_SHIFTS@[setting],
{
    assert(1u32 << 0u32 == 1 && 1u32 << 6u32 == 64 && 1u32 << 8u32 == 256 && 1u32 << 10u32 == 1024)
        by (bit_vector);
}

/// A tick counts up by one, and from `0xFFFF` to the reload value, which is an overflow.
pub proof fn law_a_tick_counts_up_and_reloads(timer: Timer)
    ensures
        timer.counter < 0xFFFF ==> timer.ticked(1).counter == timer.counter + 1 && overflows(
            timer.counter,
            timer.reload,
            1,
        ) == 0,
        timer.counter == 0xFFFF ==> timer.ticked(1).counter == timer.reload && overflows(
            timer.counter,
            timer.reload,
            1,
        ) == 1,
{
    if timer.counter == 0xFFFF {
        let period = 0x1_0000 - timer.reload;
        assert(0int % period == 0 && 0int / period == 0) by (nonlinear_arith)
            requires
                period >= 1,
        ;
    }
}

/// A timer that is on counts the clock, divided by 1, 64, 256 or 1024 as its low two bits say; one that
/// cascades counts the overflows of the timer below instead, one tick for each.
pub proof fn law_what_drives_a_timer(s: Seq<Timer>, i: int, cycles: int)
    requires
        s.len() == 4,
        0 <= i < 4,
        0 <= cycles,
        s[i].control / 0x80 % 2 == 1,
    ensures
        ({
            let setting = s[i].control % 4;
            let seen = s[i].remainder + cycles;
            let n = ticks(s, i, cycles);
            let cascades = s[i].control / 4 % 2 == 1;
            &&& !cascades && setting == 0 ==> n == seen
            &&& !cascades && setting == 1 ==> n == seen / 64
            &&& !cascades && setting == 2 ==> n == seen / 256
            &&& !cascades && setting == 3 ==> n == seen / 1024
            &&& cascades && i > 0 ==> n == overflows(
                s[i - 1].counter,
                s[i - 1].reload,
                ticks(s, i - 1, cycles),
            )
            &&& advanced(s, cycles)[i] == (Timer {
                remainder: advanced(s, cycles)[i].remainder,
                ..s[i].ticked(n)
            })
        }),
{
    let timer = s[i];
    if timer.control % 4 == 0 {
        assert(timer.prescaler() == 1);
    } else if timer.control % 4 == 1 {
        assert(timer.prescaler() == 64);
    } else if timer.control % 4 == 2 {
        assert(timer.prescaler() == 256);
    } else {
        assert(timer.prescaler() == 1024);
    }
}

/// Switching a timer on starts it from its reload value.
pub proof fn law_switching_on_loads_the_counter(timer: Timer, reload: u16, control: u16)
    requires
        timer.control / 0x80 % 2 == 0,
        control / 0x80 % 2 == 1,
    ensures
        ({
            let on = written(written(timer, 0x0400_0100, reload), 0x0400_0102, control);
            &&& on.counter == reload && on.reload == reload
            &&& on.remainder == 0
            &&& on.control % 4 == control % 4
            &&& on.control / 4 % 2 == control / 4 % 2
            &&& on.control / 0x40 % 4 == control / 0x40 % 4
        }),
{
}

} // verus!
