//! What the divider and the square-root unit take and give, stated of the words that a program writes.

use vstd::arithmetic::power2::lemma2_to64;
use vstd::bits::lemma_low_bits_mask_values;
use vstd::prelude::*;
use super::MathUnits;
use crate::bits::{lemma_field_u16, lemma_signed};

verus! {

/// The low word of a register as a signed number.
pub open spec fn signed_low(value: u64) -> int {
    let word = value as int % 0x1_0000_0000;
    if word < 0x8000_0000 { word } else { word - 0x1_0000_0000 }
}

/// A whole register as a signed number.
pub open spec fn signed_whole(value: u64) -> int {
    if value < 0x8000_0000_0000_0000 { value as int } else { value - 0x1_0000_0000_0000_0000 }
}

/// The mode in the low two bits of the control says how much of each operand counts: mode 0 the low words
/// of both, mode 1 all of the numerator and the low word of the denominator, and the rest all of both;
/// signed in every mode.
pub proof fn law_modes_choose_the_operands(units: MathUnits)
    ensures
        ({
            let mode = units.div_control % 4;
            let (n, d) = units.operands();
            &&& n == (if mode == 0 { signed_low(units.numerator) } else { signed_whole(units.numerator) })
            &&& d == (if mode <= 1 {
                signed_low(units.denominator)
            } else {
                signed_whole(units.denominator)
            })
        }),
{
    lemma2_to64();
    lemma_low_bits_mask_values();
    lemma_field_u16(units.div_control, 0, 2);
    lemma_signed(0, 0, super::low(units.numerator), units.numerator);
    lemma_signed(0, 0, super::low(units.denominator), units.denominator);
}

/// Dividing by zero answers one with the numerator's sign turned round, and the numerator as the
/// remainder; in mode 0 the high word of the quotient is all ones for a negative numerator and zero for
/// another, as if the sign were not turned there.
pub proof fn law_dividing_by_zero(units: MathUnits)
    requires
        units.operands().1 == 0,
    ensures
        ({
            let after = units.settled();
            let n = units.operands().0;
            &&& after.remainder == n as u64
            &&& units.div_control % 4 == 0 ==> after.quotient as int % 0x1_0000_0000 == (if n < 0 {
                1int
            } else {
                0xFFFF_FFFF
            })
            &&& units.div_control % 4 == 0 ==> after.quotient as int / 0x1_0000_0000 == (if n < 0 {
                0xFFFF_FFFFint
            } else {
                0
            })
            &&& units.div_control % 4 != 0 ==> after.quotient == (if n < 0 {
                1int
            } else {
                0xFFFF_FFFF_FFFF_FFFF
            })
        }),
{
    reveal(MathUnits::settled);
    lemma2_to64();
    lemma_low_bits_mask_values();
    let c = units.div_control;
    lemma_field_u16(c, 0, 2);
    super::lemma_control_bits(c);
    let flagged = units.divided();
    assert(flagged.div_control & 3 == c & 3);
}

/// Each register has its place: a program writes and reads the two words of every operand, the low one
/// first, and reads the two words of each answer.
pub proof fn law_registers_have_their_places(units: MathUnits, value: u32)
    ensures
        ({
            let low = |v: u64| (v % 0x1_0000_0000) as u32;
            let high = |v: u64| (v / 0x1_0000_0000) as u32;
            &&& units.word(0x0400_0290) == low(units.numerator)
            &&& units.word(0x0400_0294) == high(units.numerator)
            &&& units.word(0x0400_0298) == low(units.denominator)
            &&& units.word(0x0400_029C) == high(units.denominator)
            &&& units.word(0x0400_02A0) == low(units.quotient)
            &&& units.word(0x0400_02A4) == high(units.quotient)
            &&& units.word(0x0400_02A8) == low(units.remainder)
            &&& units.word(0x0400_02AC) == high(units.remainder)
            &&& units.word(0x0400_02B4) == units.sqrt_result
            &&& units.word(0x0400_02B8) == low(units.sqrt_param)
            &&& units.word(0x0400_02BC) == high(units.sqrt_param)
            &&& low(units.stored(0x0400_0290, value).numerator) == value
            &&& high(units.stored(0x0400_0294, value).numerator) == value
            &&& low(units.stored(0x0400_0298, value).denominator) == value
            &&& high(units.stored(0x0400_029C, value).denominator) == value
            &&& low(units.stored(0x0400_02B8, value).sqrt_param) == value
            &&& high(units.stored(0x0400_02BC, value).sqrt_param) == value
        }),
{
}

} // verus!
