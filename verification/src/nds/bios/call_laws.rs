//! What the memory, checksum and waiting calls leave behind, stated of flat memory.

use vstd::prelude::*;
use super::{call_of, crc_of, crc_rounds, halves_set, memory_set, outcome, waited, words_set};
use crate::nds::bus::{flat_half, Bus, FlatBus};
use crate::nds::Core;

verus! {

/// Where memory is after a copy or a fill of `done` bytes in units of `unit`: each byte of the
/// destination comes from as far into the source, or from as far into its first unit.
spec fn set_by(s: Seq<u8>, t: Seq<u8>, from: int, to: int, unit: int, fill: bool, done: int) -> bool {
    &&& t.len() == s.len()
    &&& forall|j: int|
        0 <= j < s.len() ==> #[trigger] t[j] == (if to <= j < to + done {
            s[from + (if fill { (j - to) % unit } else { j - to })]
        } else {
            s[j]
        })
}

#[verifier::rlimit(40)]
proof fn lemma_words_set(
    s: Seq<u8>,
    t: Seq<u8>,
    from: u32,
    to: u32,
    fill: bool,
    index: nat,
    count: nat,
)
    requires
        index <= count <= 0x1F_FFFF,
        to + 4 * count <= s.len() <= u32::MAX,
        from + 4 <= s.len(),
        !fill ==> from + 4 * count <= s.len() && (to <= from || from + 4 * count <= to),
        set_by(s, t, from as int, to as int, 4, fill, 4 * index as int),
    ensures
        set_by(
            s,
            words_set::<FlatBus>(
                t,
                from,
                to,
                if fill { Some(FlatBus::word(s, from)) } else { None },
                index,
                (count - index) as nat,
            ),
            from as int,
            to as int,
            4,
            fill,
            4 * count as int,
        ),
    decreases count - index,
{
    if index < count {
        let at = (from + index * 4) as u32;
        let place = (to + index * 4) as u32;
        let b = if fill { from } else { at };
        let value = if fill { FlatBus::word(s, from) } else { FlatBus::word(t, at) };
        assert(value == s[b as int] + 0x100 * s[b + 1] + 0x1_0000 * s[b + 2] + 0x100_0000 * s[b + 3]);
        lemma_word_bytes(s[b as int], s[b + 1], s[b + 2], s[b + 3]);
        let next = FlatBus::after_write32(t, place, value);
        assert(next =~= t.update(place as int, s[b as int]).update(place + 1, s[b + 1]).update(
            place + 2,
            s[b + 2],
        ).update(place + 3, s[b + 3]));
        assert forall|j: int| 0 <= j < s.len() implies #[trigger] next[j] == (if to <= j < to + 4 * (
        index + 1) {
            s[from + (if fill { (j - to) % 4 } else { j - to })]
        } else {
            s[j]
        }) by {
            if place <= j < place + 4 {
                assert((j - to) % 4 == j - place);
            } else {
                assert(next[j] == t[j]);
            }
        }
        lemma_words_set(s, next, from, to, fill, index + 1, count);
    }
}

/// The bytes of a word come apart again.
proof fn lemma_word_bytes(a: u8, b: u8, c: u8, d: u8)
    ensures
        ({
            let value = a + 0x100 * b + 0x1_0000 * c + 0x100_0000 * d;
            &&& value % 0x1_0000 == a + 0x100 * b
            &&& value / 0x1_0000 == c + 0x100 * d
            &&& 0 <= value <= u32::MAX
            &&& (a + 0x100 * b) % 0x100 == a && (a + 0x100 * b) / 0x100 == b
            &&& (c + 0x100 * d) % 0x100 == c && (c + 0x100 * d) / 0x100 == d
        }),
{
}

#[verifier::rlimit(40)]
proof fn lemma_halves_set(
    s: Seq<u8>,
    t: Seq<u8>,
    from: u32,
    to: u32,
    fill: bool,
    index: nat,
    count: nat,
)
    requires
        index <= count <= 0x1F_FFFF,
        to + 2 * count <= s.len() <= u32::MAX,
        from + 2 <= s.len(),
        !fill ==> from + 2 * count <= s.len() && (to <= from || from + 2 * count <= to),
        set_by(s, t, from as int, to as int, 2, fill, 2 * index as int),
    ensures
        set_by(
            s,
            halves_set::<FlatBus>(
                t,
                from,
                to,
                if fill { Some(flat_half(s, from)) } else { None },
                index,
                (count - index) as nat,
            ),
            from as int,
            to as int,
            2,
            fill,
            2 * count as int,
        ),
    decreases count - index,
{
    if index < count {
        let at = (from + index * 2) as u32;
        let place = (to + index * 2) as u32;
        let b = if fill { from } else { at };
        let value = if fill { flat_half(s, from) } else { flat_half(t, at) };
        assert(value == s[b as int] + 0x100 * s[b + 1]);
        let next = FlatBus::after_write16(t, place, value);
        assert(next =~= t.update(place as int, s[b as int]).update(place + 1, s[b + 1]));
        assert forall|j: int| 0 <= j < s.len() implies #[trigger] next[j] == (if to <= j < to + 2 * (
        index + 1) {
            s[from + (if fill { (j - to) % 2 } else { j - to })]
        } else {
            s[j]
        }) by {
            if place <= j < place + 2 {
                assert((j - to) % 2 == j - place);
            } else {
                assert(next[j] == t[j]);
            }
        }
        lemma_halves_set(s, next, from, to, fill, index + 1, count);
    }
}

/// The size of the units that a control word names: words if bit 26 is set or the call is the fast one.
pub open spec fn unit_of(control: u32, fast: bool) -> int {
    if fast || control / 0x400_0000 % 2 == 1 { 4 } else { 2 }
}

/// An address rounded down to a unit.
pub open spec fn rounded(addr: u32, unit: int) -> int {
    addr - addr as int % unit
}

/// `CpuSet` and `CpuFastSet` copy memory, or fill it with one unit: of the control word the low 21 bits
/// count units, bit 24 fills and bit 26 makes them words, as the fast call's always are. Both addresses
/// are rounded down to a unit. Memory outside the destination stays. A copy whose destination lies ahead
/// of its source must not overlap it.
#[verifier::rlimit(30)]
pub proof fn law_memory_is_copied_or_filled(
    s: Seq<u8>,
    source: u32,
    destination: u32,
    control: u32,
    fast: bool,
)
    requires
        s.len() <= u32::MAX,
        ({
            let unit = unit_of(control, fast);
            let size = unit * (control % 0x20_0000);
            let fill = control / 0x100_0000 % 2 == 1;
            let from = rounded(source, unit);
            let to = rounded(destination, unit);
            &&& to + size <= s.len()
            &&& from + unit <= s.len()
            &&& !fill ==> from + size <= s.len() && (to <= from || from + size <= to)
        }),
    ensures
        ({
            let unit = unit_of(control, fast);
            let size = unit * (control % 0x20_0000);
            let fill = control / 0x100_0000 % 2 == 1;
            let from = rounded(source, unit);
            let to = rounded(destination, unit);
            let after = memory_set::<FlatBus>(s, source, destination, control, fast);
            &&& after.len() == s.len()
            &&& forall|j: int|
                0 <= j < s.len() ==> #[trigger] after[j] == (if to <= j < to + size {
                    s[from + (if fill { (j - to) % unit } else { j - to })]
                } else {
                    s[j]
                })
        }),
{
    vstd::bits::lemma_low_bits_mask_values();
    vstd::arithmetic::power2::lemma2_to64();
    crate::bits::lemma_field_u32(control, 0, 21);
    crate::bits::lemma_flag_u32(control, 0x100_0000, 24);
    crate::bits::lemma_flag_u32(control, 0x400_0000, 26);
    let fill = control / 0x100_0000 % 2 == 1;
    let count = (control % 0x20_0000) as nat;
    if fast || control / 0x400_0000 % 2 == 1 {
        let from = (source - source % 4) as u32;
        let to = (destination - destination % 4) as u32;
        lemma_words_set(s, s, from, to, fill, 0, count);
    } else {
        let from = (source - source % 2) as u32;
        let to = (destination - destination % 2) as u32;
        lemma_halves_set(s, s, from, to, fill, 0, count);
    }
}

/// The memory calls take their source, destination and control from `r0`, `r1` and `r2`, on either
/// core: `0x0B` in the unit that the control names, and `0x0C` in words.
pub proof fn law_memory_calls_take_three_registers(
    core: Core,
    r: Seq<u32>,
    s: Seq<u8>,
    flags: u32,
    waiting: bool,
)
    ensures
        outcome::<FlatBus>(call_of(core, 0x0B), r, s, flags, waiting).bus == memory_set::<FlatBus>(
            s,
            r[0],
            r[1],
            r[2],
            false,
        ),
        outcome::<FlatBus>(call_of(core, 0x0C), r, s, flags, waiting).bus == memory_set::<FlatBus>(
            s,
            r[0],
            r[1],
            r[2],
            true,
        ),
        outcome::<FlatBus>(call_of(core, 0x0B), r, s, flags, waiting).registers == r,
        outcome::<FlatBus>(call_of(core, 0x0C), r, s, flags, waiting).registers == r,
{
}

/// A round of the checksum is division by the polynomial: it is linear, it halves an even value, and it
/// takes one to the polynomial's three lower terms.
pub proof fn law_a_round_divides_by_the_polynomial(a: u16, b: u16, rounds: nat)
    ensures
        crc_rounds(a ^ b, rounds) == crc_rounds(a, rounds) ^ crc_rounds(b, rounds),
        a < 0x8000 ==> crc_rounds((2 * a) as u16, 1) == a,
        crc_rounds(1, 1) == 0x8000 + 0x2000 + 1,
    decreases rounds,
{
    reveal_with_fuel(crc_rounds, 2);
    assert(0u16 ^ 0xA001u16 == 0xA001u16 && (if (a ^ b) % 2 == 1 {
        ((a ^ b) / 2) ^ 0xA001u16
    } else {
        (a ^ b) / 2
    }) == (if a % 2 == 1 { (a / 2) ^ 0xA001u16 } else { a / 2 }) ^ (if b % 2 == 1 {
        (b / 2) ^ 0xA001u16
    } else {
        b / 2
    })) by (bit_vector);
    if rounds > 0 {
        let next_a = if a % 2 == 1 { (a / 2) ^ 0xA001 } else { a / 2 };
        let next_b = if b % 2 == 1 { (b / 2) ^ 0xA001 } else { b / 2 };
        let x = a ^ b;
        let next = if x % 2 == 1 { (x / 2) ^ 0xA001 } else { x / 2 };
        assert(next == next_a ^ next_b);
        law_a_round_divides_by_the_polynomial(next_a, next_b, (rounds - 1) as nat);
    }
}

/// Eight rounds of a value with nothing in its low byte move the rest down.
proof fn lemma_moves_down(c: u16)
    requires
        c % 256 == 0,
    ensures
        crc_rounds(c, 8) == c / 256,
{
    reveal_with_fuel(crc_rounds, 9);
}

/// A checksum closes its message: with its own two bytes behind it, low byte first, any message sums
/// to zero.
pub proof fn law_a_message_with_its_checksum_sums_to_zero(initial: u16, bytes: Seq<u8>)
    ensures
        ({
            let crc = crc_of(initial, bytes);
            crc_of(initial, bytes.push((crc % 256) as u8).push((crc / 256) as u8)) == 0
        }),
{
    let crc = crc_of(initial, bytes);
    let (low, high) = ((crc % 256) as u8, (crc / 256) as u8);
    let one = bytes.push(low);
    let two = one.push(high);
    assert(one.drop_last() =~= bytes);
    assert(two.drop_last() =~= one);
    assert((crc ^ ((crc % 256) as u8) as u16) % 256 == 0 && (crc ^ ((crc % 256) as u8) as u16) / 256
        == crc / 256 && ((crc / 256) ^ (((crc / 256) as u8) as u16)) == 0) by (bit_vector);
    lemma_moves_down(crc ^ low as u16);
    assert(crc_of(initial, one) == crc / 256);
    lemma_moves_down(0);
}

/// A word of flat memory reads back what was written, and the rest stays.
proof fn lemma_word_reads_back(s: Seq<u8>, at: u32, value: u32)
    requires
        at + 4 <= s.len() <= u32::MAX,
    ensures
        FlatBus::word(FlatBus::after_write32(s, at, value), at) == value,
        FlatBus::after_write32(s, at, value).len() == s.len(),
        forall|j: int|
            0 <= j < s.len() && !(at <= j < at + 4) ==> #[trigger] FlatBus::after_write32(
                s,
                at,
                value,
            )[j] == s[j],
{
    let low = (value % 0x1_0000) as u16;
    let high = (value / 0x1_0000) as u16;
    let after = FlatBus::after_write32(s, at, value);
    assert(after =~= s.update(at as int, (low % 0x100) as u8).update(
        at + 1,
        (low / 0x100) as u8,
    ).update(at + 2, (high % 0x100) as u8).update(at + 3, (high / 0x100) as u8));
    assert(flat_half(after, at) == low);
    assert(flat_half(after, (at + 2) as u32) == high);
}

/// A wait ends exactly when an awaited flag is set, and then clears the awaited ones and no other. A
/// first entry that discards clears them before it looks, so it always stops the core; until the wait
/// ends the core halts with the call to be made again. Memory outside the flag word stays.
#[verifier::rlimit(30)]
pub proof fn law_a_wait_acknowledges_what_it_awaits(
    registers: Seq<u32>,
    s: Seq<u8>,
    at: u32,
    waiting: bool,
    discard: bool,
    mask: u32,
)
    requires
        at + 4 <= s.len() <= u32::MAX,
    ensures
        ({
            let after = waited::<FlatBus>(registers, s, at, waiting, discard, mask);
            let before = FlatBus::word(s, at);
            let now = FlatBus::word(after.bus, at);
            let ends = (waiting || !discard) && before & mask != 0;
            &&& after.registers == registers
            &&& after.waiting == !ends
            &&& after.effect.halt == !ends
            &&& after.effect.repeat == !ends
            &&& after.effect.extra_cycles == 0
            &&& now & mask == 0
            &&& now & !mask == before & !mask
            &&& after.bus.len() == s.len()
            &&& forall|j: int|
                0 <= j < s.len() && !(at <= j < at + 4) ==> #[trigger] after.bus[j] == s[j]
        }),
{
    let before = FlatBus::word(s, at);
    assert((before & !mask) & mask == 0 && (before & !mask) & !mask == before & !mask && (before & !(
    before & mask)) & mask == 0 && (before & !(before & mask)) & !mask == before & !mask) by (bit_vector);
    lemma_word_reads_back(s, at, before & !mask);
    lemma_word_reads_back(s, at, before & !(before & mask));
}

/// The two waiting calls: `0x04` discards if `r0` is not zero and awaits the flags in `r1`, and `0x05`
/// discards and awaits the first flag.
pub proof fn law_waiting_calls(
    core: Core,
    r: Seq<u32>,
    s: Seq<u8>,
    flags: u32,
    waiting: bool,
)
    ensures
        outcome::<FlatBus>(call_of(core, 0x04), r, s, flags, waiting) == waited::<FlatBus>(
            r,
            s,
            flags,
            waiting,
            r[0] != 0,
            r[1],
        ),
        outcome::<FlatBus>(call_of(core, 0x05), r, s, flags, waiting) == waited::<FlatBus>(
            r,
            s,
            flags,
            waiting,
            true,
            1,
        ),
{
}

/// `Sqrt` answers in `r0` the largest integer whose square is no larger than `r0` was.
pub proof fn law_the_root_call(core: Core, r: Seq<u32>, s: Seq<u8>, flags: u32, waiting: bool)
    requires
        r.len() == 16,
    ensures
        ({
            let after = outcome::<FlatBus>(call_of(core, 0x0D), r, s, flags, waiting);
            let root = after.registers[0] as int;
            &&& root * root <= r[0] < (root + 1) * (root + 1)
            &&& forall|i: int| 1 <= i < 16 ==> after.registers[i] == r[i]
            &&& after.bus == s
        }),
{
    crate::arith::lemma_root_exists(r[0] as int);
    let root = crate::arith::root(r[0] as int);
    assert(root <= 0xFFFF_FFFF) by (nonlinear_arith)
        requires
            root * root <= 0xFFFF_FFFF,
            0 <= root,
    ;
}

/// A delay costs four cycles for each turn of its loop, as far as a word counts, and leaves the count at
/// zero.
pub proof fn law_a_delay_costs_its_time(core: Core, r: Seq<u32>, s: Seq<u8>, flags: u32, waiting: bool)
    requires
        r.len() == 16,
    ensures
        ({
            let after = outcome::<FlatBus>(call_of(core, 0x03), r, s, flags, waiting);
            &&& 4 * r[0] <= 0xFFFF_FFFF ==> after.effect.extra_cycles == 4 * r[0]
            &&& 4 * r[0] > 0xFFFF_FFFF ==> after.effect.extra_cycles == 0xFFFF_FFFF
            &&& after.registers[0] == 0
            &&& !after.effect.halt && !after.effect.repeat
            &&& after.bus == s
        }),
{
}

/// `Halt` stops the core once: the call is not made again.
pub proof fn law_a_halt_stops_the_core(core: Core, r: Seq<u32>, s: Seq<u8>, flags: u32, waiting: bool)
    ensures
        ({
            let after = outcome::<FlatBus>(call_of(core, 0x06), r, s, flags, waiting);
            &&& after.effect.halt && !after.effect.repeat
            &&& after.registers == r && after.bus == s && after.waiting == waiting
        }),
{
}

} // verus!
