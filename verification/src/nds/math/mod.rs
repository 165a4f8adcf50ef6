//! The ARM9's hardware divider and square-root unit.
//!
//! ARMv5TE has no integer division, so every division a program performs is either a software
//! routine or these registers. Both operations complete inside the write that starts them, so the
//! busy bit always reads clear.

pub mod laws;
pub mod reg;

use vstd::prelude::*;
use crate::arith;
use crate::bits::{align4, byte_at, half_at, with_byte, with_half};
use crate::state::{self, StateError, StateReader, StateWriter};

verus! {

/// The divider and the square-root unit, which share nothing but an address range and an owner.
#[derive(Debug, Clone, Copy, PartialEq, Eq, Structural)]
pub struct MathUnits {
    pub div_control: u16,
    pub numerator: u64,
    pub denominator: u64,
    pub quotient: u64,
    pub remainder: u64,
    pub sqrt_control: u16,
    pub sqrt_param: u64,
    pub sqrt_result: u32,
}

/// The low word of a 64-bit register.
#[verifier::allow_in_spec]
pub fn low(value: u64) -> u32
    returns
        (value % 0x1_0000_0000) as u32,
{
    (value % 0x1_0000_0000) as u32
}

/// The high word of a 64-bit register.
#[verifier::allow_in_spec]
pub fn high(value: u64) -> u32
    returns
        (value / 0x1_0000_0000) as u32,
{
    (value / 0x1_0000_0000) as u32
}

/// A 64-bit register with its low word replaced.
#[verifier::allow_in_spec]
pub fn with_low(current: u64, value: u32) -> u64
    returns
        (current - current % 0x1_0000_0000 + value) as u64,
{
    current - current % 0x1_0000_0000 + value as u64
}

/// A 64-bit register with its high word replaced.
#[verifier::allow_in_spec]
pub fn with_high(current: u64, value: u32) -> u64
    returns
        (value * 0x1_0000_0000 + current % 0x1_0000_0000) as u64,
{
    value as u64 * 0x1_0000_0000 + current % 0x1_0000_0000
}

/// How many bytes the units save.
pub open spec fn saved_size() -> int {
    48
}

/// A word that stores into one of the units.
pub open spec fn is_operand(word: u32) -> bool {
    ||| word == reg::DIVCNT
    ||| word == reg::DIV_NUMERATOR
    ||| word == reg::DIV_NUMERATOR + 4
    ||| word == reg::DIV_DENOMINATOR
    ||| word == reg::DIV_DENOMINATOR + 4
    ||| word == reg::SQRTCNT
    ||| word == reg::SQRT_PARAM
    ||| word == reg::SQRT_PARAM + 4
}

impl MathUnits {
    /// The operands as the selected mode sees them: mode 0 takes both from the low words, mode 1
    /// only the denominator, and the rest are 64 by 64.
    pub open spec fn operands(self) -> (i64, i64) {
        let mode = self.div_control & 3;
        (
            if mode == 0 { low(self.numerator) as i32 as i64 } else { self.numerator as i64 },
            if mode == 0 || mode == 1 {
                low(self.denominator) as i32 as i64
            } else {
                self.denominator as i64
            },
        )
    }

    /// Division by zero leaves the numerator as the remainder and plus or minus one, with the
    /// opposite sign, as the quotient; in the 32-bit mode its high word comes back inverted.
    pub open spec fn quotient_by_zero(self) -> u64 {
        if self.operands().0 < 0 {
            if self.div_control & 3 == 0 { 0xFFFF_FFFF_0000_0001 } else { 1 }
        } else {
            if self.div_control & 3 == 0 { 0x0000_0000_FFFF_FFFF } else { 0xFFFF_FFFF_FFFF_FFFF }
        }
    }

    /// The divider's answer to its operands. Bit 14 of the control reports a zero denominator.
    pub open spec fn divided(self) -> MathUnits {
        let control = if self.denominator == 0 {
            (self.div_control & 0xBFFF) | 0x4000
        } else {
            self.div_control & 0xBFFF
        };
        let flagged = MathUnits { div_control: control, ..self };
        let (n, d) = flagged.operands();
        if d == 0 {
            MathUnits { quotient: flagged.quotient_by_zero(), remainder: n as u64, ..flagged }
        } else if n == i64::MIN && d == -1 {
            // The one division that has no answer in two's complement.
            MathUnits { quotient: n as u64, remainder: 0, ..flagged }
        } else {
            let q = arith::quotient(n as int, d as int);
            MathUnits { quotient: (q as i64) as u64, remainder: ((n - q * d) as i64) as u64, ..flagged }
        }
    }

    /// The square-root unit's answer to its operand, which is unsigned.
    pub open spec fn rooted(self) -> MathUnits {
        let value = if self.sqrt_control % 2 == 1 {
            self.sqrt_param as int
        } else {
            low(self.sqrt_param) as int
        };
        MathUnits { sqrt_result: arith::root(value) as u32, ..self }
    }

    /// Both answers.
    #[verifier::opaque]
    pub open spec fn settled(self) -> MathUnits {
        self.divided().rooted()
    }

    /// One stored word, before either unit answers.
    pub open spec fn stored(self, word: u32, value: u32) -> MathUnits {
        if word == reg::DIVCNT {
            MathUnits { div_control: value as u16, ..self }
        } else if word == reg::DIV_NUMERATOR {
            MathUnits { numerator: with_low(self.numerator, value), ..self }
        } else if word == reg::DIV_NUMERATOR + 4 {
            MathUnits { numerator: with_high(self.numerator, value), ..self }
        } else if word == reg::DIV_DENOMINATOR {
            MathUnits { denominator: with_low(self.denominator, value), ..self }
        } else if word == reg::DIV_DENOMINATOR + 4 {
            MathUnits { denominator: with_high(self.denominator, value), ..self }
        } else if word == reg::SQRTCNT {
            MathUnits { sqrt_control: value as u16, ..self }
        } else if word == reg::SQRT_PARAM {
            MathUnits { sqrt_param: with_low(self.sqrt_param, value), ..self }
        } else if word == reg::SQRT_PARAM + 4 {
            MathUnits { sqrt_param: with_high(self.sqrt_param, value), ..self }
        } else {
            self
        }
    }

    /// A word write. Both units restart on a write to any operand or control; the results are
    /// read-only.
    pub open spec fn written(self, addr: u32, value: u32) -> MathUnits {
        if is_operand(align4(addr)) {
            self.stored(align4(addr), value).settled()
        } else {
            self
        }
    }

    /// A word read. The gaps between the registers read as zero.
    pub open spec fn word(self, addr: u32) -> u32 {
        let word = align4(addr);
        if word == reg::DIVCNT {
            (self.div_control % 0x8000) as u32
        } else if word == reg::DIV_NUMERATOR {
            low(self.numerator)
        } else if word == reg::DIV_NUMERATOR + 4 {
            high(self.numerator)
        } else if word == reg::DIV_DENOMINATOR {
            low(self.denominator)
        } else if word == reg::DIV_DENOMINATOR + 4 {
            high(self.denominator)
        } else if word == reg::DIV_RESULT {
            low(self.quotient)
        } else if word == reg::DIV_RESULT + 4 {
            high(self.quotient)
        } else if word == reg::DIV_REMAINDER {
            low(self.remainder)
        } else if word == reg::DIV_REMAINDER + 4 {
            high(self.remainder)
        } else if word == reg::SQRTCNT {
            (self.sqrt_control % 0x8000) as u32
        } else if word == reg::SQRT_RESULT {
            self.sqrt_result
        } else if word == reg::SQRT_PARAM {
            low(self.sqrt_param)
        } else if word == reg::SQRT_PARAM + 4 {
            high(self.sqrt_param)
        } else {
            0
        }
    }

    /// The units after reading the stream at `at`, as far as `limit` lets it be read.
    pub open spec fn restored(self, d: Seq<u8>, limit: int, at: int) -> MathUnits {
        MathUnits {
            div_control: state::or16(d, limit, at, self.div_control),
            numerator: state::or64(d, limit, at + 2, self.numerator),
            denominator: state::or64(d, limit, at + 10, self.denominator),
            sqrt_control: state::or16(d, limit, at + 18, self.sqrt_control),
            sqrt_param: state::or64(d, limit, at + 20, self.sqrt_param),
            quotient: state::or64(d, limit, at + 28, self.quotient),
            remainder: state::or64(d, limit, at + 36, self.remainder),
            sqrt_result: state::or32(d, limit, at + 44, self.sqrt_result),
        }
    }

    /// Whether the stream holds exactly these units at `at`.
    pub open spec fn encoded_at(self, d: Seq<u8>, at: int) -> bool {
        at + saved_size() <= d.len() && self.restored(d, d.len() as int, at) == self
    }

    /// Nothing divided yet.
    pub fn new() -> (r: Self)
        ensures
            r == (MathUnits {
                div_control: 0,
                numerator: 0,
                denominator: 0,
                quotient: 0,
                remainder: 0,
                sqrt_control: 0,
                sqrt_param: 0,
                sqrt_result: 0,
            }),
    {
        MathUnits {
            div_control: 0,
            numerator: 0,
            denominator: 0,
            quotient: 0,
            remainder: 0,
            sqrt_control: 0,
            sqrt_param: 0,
            sqrt_result: 0,
        }
    }

    /// Whether this address belongs to either unit.
    #[verifier::allow_in_spec]
    pub fn owns(addr: u32) -> bool
        returns
            (reg::DIVCNT <= addr && addr < reg::END),
    {
        reg::DIVCNT <= addr && addr < reg::END
    }

    pub fn read32(&self, addr: u32) -> (r: u32)
        ensures
            r == self.word(addr),
    {
        let word = align4(addr);
        if word == reg::DIVCNT {
            (self.div_control % 0x8000) as u32
        } else if word == reg::DIV_NUMERATOR {
            low(self.numerator)
        } else if word == reg::DIV_NUMERATOR + 4 {
            high(self.numerator)
        } else if word == reg::DIV_DENOMINATOR {
            low(self.denominator)
        } else if word == reg::DIV_DENOMINATOR + 4 {
            high(self.denominator)
        } else if word == reg::DIV_RESULT {
            low(self.quotient)
        } else if word == reg::DIV_RESULT + 4 {
            high(self.quotient)
        } else if word == reg::DIV_REMAINDER {
            low(self.remainder)
        } else if word == reg::DIV_REMAINDER + 4 {
            high(self.remainder)
        } else if word == reg::SQRTCNT {
            (self.sqrt_control % 0x8000) as u32
        } else if word == reg::SQRT_RESULT {
            self.sqrt_result
        } else if word == reg::SQRT_PARAM {
            low(self.sqrt_param)
        } else if word == reg::SQRT_PARAM + 4 {
            high(self.sqrt_param)
        } else {
            0
        }
    }

    pub fn write32(&mut self, addr: u32, value: u32)
        ensures
            *final(self) == old(self).written(addr, value),
    {
        let word = align4(addr);
        if word == reg::DIVCNT {
            self.div_control = value as u16;
        } else if word == reg::DIV_NUMERATOR {
            self.numerator = with_low(self.numerator, value);
        } else if word == reg::DIV_NUMERATOR + 4 {
            self.numerator = with_high(self.numerator, value);
        } else if word == reg::DIV_DENOMINATOR {
            self.denominator = with_low(self.denominator, value);
        } else if word == reg::DIV_DENOMINATOR + 4 {
            self.denominator = with_high(self.denominator, value);
        } else if word == reg::SQRTCNT {
            self.sqrt_control = value as u16;
        } else if word == reg::SQRT_PARAM {
            self.sqrt_param = with_low(self.sqrt_param, value);
        } else if word == reg::SQRT_PARAM + 4 {
            self.sqrt_param = with_high(self.sqrt_param, value);
        } else {
            // The results are read-only; a write to one is a driver bug, not a register.
            return;
        }
        reveal(MathUnits::settled);
        self.divide();
        self.root();
    }

    pub fn read16(&self, addr: u32) -> (r: u16)
        ensures
            r == half_at(self.word(addr), addr),
    {
        half_at(self.read32(addr), addr)
    }

    pub fn write16(&mut self, addr: u32, value: u16)
        ensures
            *final(self) == old(self).written(addr, with_half(old(self).word(addr), addr, value)),
    {
        let spliced = with_half(self.read32(addr), addr, value);
        self.write32(addr, spliced);
    }

    pub fn read8(&self, addr: u32) -> (r: u8)
        ensures
            r == byte_at(self.word(addr), addr),
    {
        byte_at(self.read32(addr), addr)
    }

    pub fn write8(&mut self, addr: u32, value: u8)
        ensures
            *final(self) == old(self).written(addr, with_byte(old(self).word(addr), addr, value)),
    {
        let spliced = with_byte(self.read32(addr), addr, value);
        self.write32(addr, spliced);
    }

    /// Divide, in whichever of the three widths `DIVCNT` selects.
    fn divide(&mut self)
        ensures
            *final(self) == old(self).divided(),
    {
        // The flag is about the register, not about the operand that this mode uses.
        self.div_control = self.div_control & 0xBFFF;
        if self.denominator == 0 {
            self.div_control = self.div_control | 0x4000;
        }
        let mode = self.div_control & 3;
        let numerator: i64 = if mode == 0 {
            low(self.numerator) as i32 as i64
        } else {
            self.numerator as i64
        };
        let denominator: i64 = if mode == 0 || mode == 1 {
            low(self.denominator) as i32 as i64
        } else {
            self.denominator as i64
        };
        if denominator == 0 {
            self.remainder = numerator as u64;
            self.quotient =
            if numerator < 0 {
                if mode == 0 {
                    0xFFFF_FFFF_0000_0001
                } else {
                    1
                }
            } else {
                if mode == 0 {
                    0x0000_0000_FFFF_FFFF
                } else {
                    0xFFFF_FFFF_FFFF_FFFF
                }
            };
            return;
        }
        if numerator == i64::MIN && denominator == -1 {
            self.quotient = numerator as u64;
            self.remainder = 0;
            return;
        }
        let quotient: i128 = arith::divide(numerator as i128, denominator as i128);
        proof {
            arith::lemma_quotient(numerator as int, denominator as int);
        }
        let remainder: i128 = numerator as i128 - quotient * denominator as i128;
        self.quotient = (quotient as i64) as u64;
        self.remainder = (remainder as i64) as u64;
    }

    /// The integer square root of an unsigned operand.
    fn root(&mut self)
        ensures
            *final(self) == old(self).rooted(),
    {
        let value: u64 = if self.sqrt_control % 2 == 1 {
            self.sqrt_param
        } else {
            low(self.sqrt_param) as u64
        };
        self.sqrt_result = arith::square_root(value);
    }

    pub fn save(&self, w: &mut StateWriter)
        ensures
            state::continues(old(w)@, final(w)@),
            final(w)@.len() == old(w)@.len() + saved_size(),
            self.encoded_at(final(w)@, old(w)@.len() as int),
    {
        w.write_u16(self.div_control);
        w.write_u64(self.numerator);
        w.write_u64(self.denominator);
        w.write_u16(self.sqrt_control);
        w.write_u64(self.sqrt_param);
        // The results are written too: a machine that has not divided yet holds zero with the
        // divide-by-zero flag clear, and recomputing would invent that flag.
        w.write_u64(self.quotient);
        w.write_u64(self.remainder);
        w.write_u32(self.sqrt_result);
    }

    pub fn load(&mut self, r: &mut StateReader) -> (result: Result<(), StateError>)
        ensures
            *final(self) == old(self).restored(old(r).data(), old(r).limit(), old(r).pos() as int),
            state::advanced(*old(r), *final(r), saved_size()),
            result == state::verdict(*final(r)),
    {
        self.div_control = r.u16_or(self.div_control);
        self.numerator = r.u64_or(self.numerator);
        self.denominator = r.u64_or(self.denominator);
        self.sqrt_control = r.u16_or(self.sqrt_control);
        self.sqrt_param = r.u64_or(self.sqrt_param);
        self.quotient = r.u64_or(self.quotient);
        self.remainder = r.u64_or(self.remainder);
        self.sqrt_result = r.u32_or(self.sqrt_result);
        r.status()
    }
}

impl Default for MathUnits {
    fn default() -> (r: Self)
        ensures
            r.numerator == 0 && r.denominator == 0 && r.div_control == 0 && r.quotient == 0,
            r.remainder == 0 && r.sqrt_control == 0 && r.sqrt_param == 0 && r.sqrt_result == 0,
    {
        MathUnits::new()
    }
}

/// Units that were saved come back whole, whatever they are read into.
pub proof fn law_save_then_load(saved: MathUnits, before: MathUnits, d: Seq<u8>, at: int)
    requires
        0 <= at,
        saved.encoded_at(d, at),
    ensures
        before.restored(d, d.len() as int, at) == saved,
{
}

/// Neither control register ever reads as busy.
pub proof fn law_never_busy(units: MathUnits)
    ensures
        units.word(reg::DIVCNT) < 0x8000,
        units.word(reg::SQRTCNT) < 0x8000,
{
}

/// After a write, the quotient times the denominator plus the remainder is the numerator, and the
/// remainder is zero or has the numerator's sign, as long as there is a quotient at all.
pub proof fn law_division_is_exact(units: MathUnits, addr: u32, value: u32)
    requires
        is_operand(align4(addr)),
    ensures
        ({
            let after = units.written(addr, value);
            let (n, d) = after.operands();
            let q = (after.quotient as i64) as int;
            let r = (after.remainder as i64) as int;
            d != 0 && !(n == i64::MIN && d == -1) ==> {
                &&& q * d + r == n
                &&& -(if d > 0 { d as int } else { -(d as int) }) < r
                &&& r < (if d > 0 { d as int } else { -(d as int) })
                &&& r == 0 || (r > 0) == (n > 0)
            }
        }),
{
    reveal(MathUnits::settled);
    let after = units.written(addr, value);
    let stored = units.stored(align4(addr), value);
    let divided = stored.divided();
    let (n, d) = after.operands();
    assert(after.operands() == divided.operands());
    if d != 0 && !(n == i64::MIN && d == -1) {
        let q = arith::quotient(n as int, d as int);
        arith::lemma_quotient(n as int, d as int);
        if q == -(i64::MIN as int) {
            assert(n == i64::MIN);
            assert(false) by (nonlinear_arith)
                requires
                    q == 0x8000_0000_0000_0000,
                    n == -0x8000_0000_0000_0000,
                    d != 0,
                    d != -1,
                    -0x8000_0000_0000_0000 <= q * d <= 0x8000_0000_0000_0000,
                    d == 1 ==> q == n,
            ;
        }
        crate::bits::lemma_signed_round_trips(0, 0, q as i64);
        crate::bits::lemma_signed_round_trips(0, 0, (n - q * d) as i64);
    }
}

/// After a write, the square root is the largest number whose square is no more than the operand.
pub proof fn law_root_is_exact(units: MathUnits, addr: u32, value: u32)
    requires
        is_operand(align4(addr)),
    ensures
        ({
            let after = units.written(addr, value);
            let operand = if after.sqrt_control % 2 == 1 {
                after.sqrt_param as int
            } else {
                low(after.sqrt_param) as int
            };
            arith::is_root(operand, after.sqrt_result as int)
        }),
{
    reveal(MathUnits::settled);
    let after = units.written(addr, value);
    let operand = if after.sqrt_control % 2 == 1 {
        after.sqrt_param as int
    } else {
        low(after.sqrt_param) as int
    };
    arith::lemma_root_exists(operand);
    let r = arith::root(operand);
    assert(r <= u32::MAX) by (nonlinear_arith)
        requires
            r * r <= operand <= u64::MAX,
    ;
}

/// The order in which two registers are written makes no difference to anything that can be read.
pub proof fn law_order_of_writes_does_not_matter(
    units: MathUnits,
    first: u32,
    x: u32,
    second: u32,
    y: u32,
)
    requires
        is_operand(align4(first)),
        is_operand(align4(second)),
        align4(first) != align4(second),
    ensures
        units.written(first, x).written(second, y) == units.written(second, y).written(first, x),
{
    let a = units.stored(align4(first), x);
    let b = units.stored(align4(second), y);
    lemma_settling_keeps_operands(a);
    lemma_settling_keeps_operands(b);
    lemma_storing_keeps_likeness(a, a.settled(), align4(second), y);
    lemma_storing_keeps_likeness(b, b.settled(), align4(first), x);
    lemma_storing_commutes(units, align4(first), x, align4(second), y);
    lemma_settling_follows_operands(
        a.settled().stored(align4(second), y),
        b.settled().stored(align4(first), x),
    );
}

/// Two stores into different words come to the same operands in either order.
#[verifier::rlimit(30)]
proof fn lemma_storing_commutes(u: MathUnits, first: u32, x: u32, second: u32, y: u32)
    requires
        first != second,
    ensures
        same_operands(u.stored(first, x).stored(second, y), u.stored(second, y).stored(first, x)),
{
    lemma_halves_commute(u.numerator, x, y);
    lemma_halves_commute(u.denominator, x, y);
    lemma_halves_commute(u.sqrt_param, x, y);
    lemma_halves_commute(u.numerator, y, x);
    lemma_halves_commute(u.denominator, y, x);
    lemma_halves_commute(u.sqrt_param, y, x);
}

/// The two words of a register do not touch each other.
proof fn lemma_halves_commute(current: u64, x: u32, y: u32)
    ensures
        with_low(with_high(current, y), x) == with_high(with_low(current, x), y),
{
    assert(with_low(with_high(current, y), x) == y * 0x1_0000_0000 + x);
    assert(with_high(with_low(current, x), y) == y * 0x1_0000_0000 + x);
}

/// The same store into units with the same operands leaves the same operands.
proof fn lemma_storing_keeps_likeness(a: MathUnits, b: MathUnits, word: u32, value: u32)
    requires
        same_operands(a, b),
    ensures
        same_operands(a.stored(word, value), b.stored(word, value)),
{
}

/// What the answers are worked out from: everything but the answers themselves and the flag.
pub open spec fn same_operands(a: MathUnits, b: MathUnits) -> bool {
    &&& a.numerator == b.numerator
    &&& a.denominator == b.denominator
    &&& a.div_control & 0xBFFF == b.div_control & 0xBFFF
    &&& a.sqrt_control == b.sqrt_control
    &&& a.sqrt_param == b.sqrt_param
}

/// Answering changes no operand.
proof fn lemma_settling_keeps_operands(u: MathUnits)
    ensures
        same_operands(u, u.settled()),
{
    reveal(MathUnits::settled);
    lemma_control_bits(u.div_control);
}

/// Reporting a zero denominator changes no other bit of the control.
pub(crate) proof fn lemma_control_bits(control: u16)
    ensures
        ((control & 0xBFFF) | 0x4000) & 0xBFFF == control & 0xBFFF,
        (control & 0xBFFF) & 0xBFFF == control & 0xBFFF,
        ((control & 0xBFFF) | 0x4000) & 3 == control & 3,
        (control & 0xBFFF) & 3 == control & 3,
{
    assert(((control & 0xBFFF) | 0x4000) & 0xBFFF == control & 0xBFFF && (control & 0xBFFF) & 0xBFFF
        == control & 0xBFFF && ((control & 0xBFFF) | 0x4000) & 3 == control & 3 && (control & 0xBFFF) & 3
        == control & 3) by (bit_vector);
}

/// The same operands have the same answers.
proof fn lemma_settling_follows_operands(a: MathUnits, b: MathUnits)
    requires
        same_operands(a, b),
    ensures
        a.settled() == b.settled(),
{
    reveal(MathUnits::settled);
}

} // verus!
