//! Facts about masks, shifts and truncation that several modules rest on.

use vstd::arithmetic::power2::pow2;
use vstd::prelude::*;

verus! {

/// The word that an address lies in.
#[verifier::allow_in_spec]
pub fn align4(addr: u32) -> u32
    returns
        (addr - addr % 4) as u32,
{
    addr - addr % 4
}

/// The halfword that an address lies in.
#[verifier::allow_in_spec]
pub fn align2(addr: u32) -> u32
    returns
        (addr - addr % 2) as u32,
{
    addr - addr % 2
}

/// The half of a word that an address selects.
#[verifier::allow_in_spec]
pub fn half_at(word: u32, addr: u32) -> u16
    returns
        (if addr % 4 < 2 {
            (word % 0x1_0000) as u16
        } else {
            (word / 0x1_0000) as u16
        }),
{
    if addr % 4 < 2 {
        (word % 0x1_0000) as u16
    } else {
        (word / 0x1_0000) as u16
    }
}

/// A word with the half that an address selects replaced.
#[verifier::allow_in_spec]
pub fn with_half(word: u32, addr: u32, value: u16) -> u32
    returns
        (if addr % 4 < 2 {
            (word - word % 0x1_0000 + value) as u32
        } else {
            (value * 0x1_0000 + word % 0x1_0000) as u32
        }),
{
    if addr % 4 < 2 {
        word - word % 0x1_0000 + value as u32
    } else {
        value as u32 * 0x1_0000 + word % 0x1_0000
    }
}

/// The byte of a word that an address selects.
#[verifier::allow_in_spec]
pub fn byte_at(word: u32, addr: u32) -> u8
    returns
        (if addr % 4 == 0 {
            (word % 0x100) as u8
        } else if addr % 4 == 1 {
            (word / 0x100 % 0x100) as u8
        } else if addr % 4 == 2 {
            (word / 0x1_0000 % 0x100) as u8
        } else {
            (word / 0x100_0000) as u8
        }),
{
    if addr % 4 == 0 {
        (word % 0x100) as u8
    } else if addr % 4 == 1 {
        (word / 0x100 % 0x100) as u8
    } else if addr % 4 == 2 {
        (word / 0x1_0000 % 0x100) as u8
    } else {
        (word / 0x100_0000) as u8
    }
}

/// A word with the byte that an address selects replaced.
#[verifier::allow_in_spec]
pub fn with_byte(word: u32, addr: u32, value: u8) -> u32
    returns
        (if addr % 4 == 0 {
            (word - word % 0x100 + value) as u32
        } else if addr % 4 == 1 {
            (word - word % 0x1_0000 + value * 0x100 + word % 0x100) as u32
        } else if addr % 4 == 2 {
            (word - word % 0x100_0000 + value * 0x1_0000 + word % 0x1_0000) as u32
        } else {
            (value * 0x100_0000 + word % 0x100_0000) as u32
        }),
{
    if addr % 4 == 0 {
        word - word % 0x100 + value as u32
    } else if addr % 4 == 1 {
        word - word % 0x1_0000 + value as u32 * 0x100 + word % 0x100
    } else if addr % 4 == 2 {
        word - word % 0x100_0000 + value as u32 * 0x1_0000 + word % 0x1_0000
    } else {
        value as u32 * 0x100_0000 + word % 0x100_0000
    }
}

/// What is written into half of a word is what that half reads back as, and the rest stays.
pub proof fn law_halves_of_a_word(word: u32, addr: u32, half: u16)
    ensures
        half_at(with_half(word, addr, half), addr) == half,
        with_half(word, addr, half_at(word, addr)) == word,
{
}

/// What is written into a byte of a word is what that byte reads back as.
#[verifier::rlimit(30)]
pub proof fn law_bytes_of_a_word(word: u32, addr: u32, byte: u8)
    ensures
        byte_at(with_byte(word, addr, byte), addr) == byte,
{
    let after = with_byte(word, addr, byte);
    if addr % 4 == 0 {
    } else if addr % 4 == 1 {
        assert(after / 0x100 == word / 0x1_0000 * 0x100 + byte);
    } else if addr % 4 == 2 {
        assert(after / 0x1_0000 == word / 0x100_0000 * 0x100 + byte);
    }
}

/// A masked value is no larger than the mask.
pub broadcast proof fn lemma_and_bound_u32(x: u32, mask: u32)
    ensures
        #[trigger] (x & mask) <= mask,
{
    assert(x & mask <= mask) by (bit_vector);
}

/// A masked value is no larger than the mask.
pub broadcast proof fn lemma_and_bound_u16(x: u16, mask: u16)
    ensures
        #[trigger] (x & mask) <= mask,
{
    assert(x & mask <= mask) by (bit_vector);
}

/// A masked value is no larger than the mask.
pub broadcast proof fn lemma_and_bound_u8(x: u8, mask: u8)
    ensures
        #[trigger] (x & mask) <= mask,
{
    assert(x & mask <= mask) by (bit_vector);
}

/// Signed words survive the trip through their unsigned twins.
pub proof fn lemma_signed_round_trips(a: i16, b: i32, c: i64)
    ensures
        (a as u16) as i16 == a,
        (b as u32) as i32 == b,
        (c as u64) as i64 == c,
{
    assert((a as u16) as i16 == a && (b as u32) as i32 == b && (c as u64) as i64 == c)
        by (bit_vector);
}

/// A field of a word: so many bits from bit `shift` on are a quotient and a remainder.
pub proof fn lemma_field_u32(x: u32, shift: u32, bits: nat)
    requires
        shift < 32,
        bits < 32,
    ensures
        (x >> shift) & (vstd::bits::low_bits_mask(bits) as u32) == x as int / pow2(shift as nat) as int
            % pow2(bits) as int,
        x >> shift == x as int / pow2(shift as nat) as int,
        x & (vstd::bits::low_bits_mask(bits) as u32) == x as int % pow2(bits) as int,
{
    vstd::bits::lemma_u32_pow2_no_overflow(bits);
    vstd::bits::lemma_u32_pow2_no_overflow(shift as nat);
    vstd::bits::lemma_u32_shr_is_div(x, shift);
    vstd::bits::lemma_u32_low_bits_mask_is_mod(x >> shift, bits);
    vstd::bits::lemma_u32_low_bits_mask_is_mod(x, bits);
}

/// A field of a halfword.
pub proof fn lemma_field_u16(x: u16, shift: u16, bits: nat)
    requires
        shift < 16,
        bits < 16,
    ensures
        (x >> shift) & (vstd::bits::low_bits_mask(bits) as u16) == x as int / pow2(shift as nat) as int
            % pow2(bits) as int,
        x >> shift == x as int / pow2(shift as nat) as int,
        x & (vstd::bits::low_bits_mask(bits) as u16) == x as int % pow2(bits) as int,
{
    vstd::bits::lemma_u16_pow2_no_overflow(bits);
    vstd::bits::lemma_u16_pow2_no_overflow(shift as nat);
    vstd::bits::lemma_u16_shr_is_div(x, shift);
    vstd::bits::lemma_u16_low_bits_mask_is_mod(x >> shift, bits);
    vstd::bits::lemma_u16_low_bits_mask_is_mod(x, bits);
}

/// A bit of a word is a binary digit.
pub proof fn lemma_bit_u32(x: u32, bit: u32)
    requires
        bit < 32,
    ensures
        (x & (1u32 << bit) != 0) == (x as int / pow2(bit as nat) as int % 2 == 1),
{
    lemma_one_bit(x, bit, 0, 0);
    vstd::bits::lemma_low_bits_mask_values();
    vstd::arithmetic::power2::lemma2_to64();
    lemma_field_u32(x, bit, 1);
}

/// A bit of a halfword is a binary digit.
pub proof fn lemma_bit_u16(x: u16, bit: u16)
    requires
        bit < 16,
    ensures
        (x & (1u16 << bit) != 0) == (x as int / pow2(bit as nat) as int % 2 == 1),
{
    lemma_one_bit(0, 0, x, bit);
    vstd::bits::lemma_low_bits_mask_values();
    vstd::arithmetic::power2::lemma2_to64();
    lemma_field_u16(x, bit, 1);
}

/// A flag of a word is a binary digit.
pub proof fn lemma_flag_u32(x: u32, mask: u32, bit: u32)
    requires
        bit < 32,
        mask as int == pow2(bit as nat),
    ensures
        (x & mask != 0) == (x as int / mask as int % 2 == 1),
{
    vstd::bits::lemma_u32_pow2_no_overflow(bit as nat);
    vstd::bits::lemma_u32_shl_is_mul(1, bit);
    lemma_bit_u32(x, bit);
}

/// A flag of a halfword is a binary digit.
pub proof fn lemma_flag_u16(x: u16, mask: u16, bit: u16)
    requires
        bit < 16,
        mask as int == pow2(bit as nat),
    ensures
        (x & mask != 0) == (x as int / mask as int % 2 == 1),
{
    vstd::bits::lemma_u16_pow2_no_overflow(bit as nat);
    vstd::bits::lemma_u16_shl_is_mul(1, bit);
    lemma_bit_u16(x, bit);
}

/// The two halves of a byte.
pub proof fn lemma_nibbles(x: u8)
    ensures
        x & 0xF == x % 16,
        x >> 4u8 == x / 16,
{
    vstd::bits::lemma_low_bits_mask_values();
    vstd::arithmetic::power2::lemma2_to64();
    vstd::bits::lemma_u8_low_bits_mask_is_mod(x, 4);
    vstd::bits::lemma_u8_shr_is_div(x, 4);
}

/// The fields in the middle of a display control word.
pub proof fn lemma_middle_fields(d: u32)
    ensures
        (d & 0xF00) >> 8 == (d >> 8) & 0xF,
        (d & 0x3_0000) >> 16 == (d >> 16) & 3,
        (d & 0xC_0000) >> 18 == (d >> 18) & 3,
        (d & 0x30_0000) >> 20 == (d >> 20) & 3,
        (d & 0x700_0000) >> 24 == (d >> 24) & 7,
        (d & 0x3800_0000) >> 27 == (d >> 27) & 7,
        (d >> 18) & 3 <= 3,
        (d >> 24) & 7 <= 7,
        (d >> 27) & 7 <= 7,
        (d >> 20) & 3 <= 3,
        32u32 << ((d >> 20) & 3) <= 256,
{
    assert((d & 0xF00) >> 8 == (d >> 8) & 0xF && (d & 0x3_0000) >> 16 == (d >> 16) & 3 && (d
        & 0xC_0000) >> 18 == (d >> 18) & 3 && (d & 0x30_0000) >> 20 == (d >> 20) & 3 && (d
        & 0x700_0000) >> 24 == (d >> 24) & 7 && (d & 0x3800_0000) >> 27 == (d >> 27) & 7 && (d >> 18)
        & 3 <= 3 && (d >> 24) & 7 <= 7 && (d >> 27) & 7 <= 7 && (d >> 20) & 3 <= 3 && 32u32 << ((d
        >> 20) & 3) <= 256) by (bit_vector);
}

/// What is left of a halfword or a byte once all but four bits are gone.
pub proof fn lemma_four_bits(half: u16, byte: u8)
    ensures
        half >> 12 <= 15,
        byte & 0xF <= 15,
        byte >> 4 <= 15,
        (byte as u32 >> 4) <= 15,
{
    assert(half >> 12 <= 15 && byte & 0xF <= 15 && byte >> 4 <= 15 && (byte as u32 >> 4) <= 15)
        by (bit_vector);
}

/// Fixed point with four or eight fraction bits, rounded down.
pub proof fn lemma_fraction_dropped(value: i32)
    ensures
        value >> 4 == value as int / 16,
        value >> 8 == value as int / 256,
{
    let (a, f) = ((value as int / 16) as i32, (value as int % 16) as u8);
    let (b, g) = ((value as int / 256) as i32, (value as int % 256) as u8);
    assert((value == 16 * a + f && f < 16 ==> value >> 4 == a) && (value == 256 * b + g ==> value >> 8
        == b)) by (bit_vector);
}

/// Testing a bit in place is testing it at the bottom.
proof fn lemma_one_bit(x: u32, bit: u32, y: u16, place: u16)
    requires
        bit < 32,
        place < 16,
    ensures
        (x & (1u32 << bit) != 0) == ((x >> bit) & 1 == 1),
        (y & (1u16 << place) != 0) == ((y >> place) & 1 == 1),
{
    assert((x & (1u32 << bit) != 0) == ((x >> bit) & 1 == 1) && (y & (1u16 << place) != 0) == ((y
        >> place) & 1 == 1)) by (bit_vector)
        requires
            bit < 32,
            place < 16,
    ;
}

/// Two's complement.
pub proof fn lemma_signed(half: u16, byte: u8, word: u32, long: u64)
    ensures
        half as i16 == (if half < 0x8000 { half as int } else { half - 0x1_0000 }),
        byte as i8 == (if byte < 0x80 { byte as int } else { byte - 0x100 }),
        word as i32 == (if word < 0x8000_0000 { word as int } else { word - 0x1_0000_0000 }),
        long as i64 == (if long < 0x8000_0000_0000_0000 {
            long as int
        } else {
            long - 0x1_0000_0000_0000_0000
        }),
{
    assert((half < 0x8000 ==> half as i16 == half) && (half >= 0x8000 ==> half as i16 == half - 0x1_0000)
        && (byte < 0x80 ==> byte as i8 == byte) && (byte >= 0x80 ==> byte as i8 == byte - 0x100) && (word
        < 0x8000_0000 ==> word as i32 == word) && (word >= 0x8000_0000 ==> word as i32 == word
        - 0x1_0000_0000) && (long < 0x8000_0000_0000_0000 ==> long as i64 == long) && (long
        >= 0x8000_0000_0000_0000 ==> long as i64 == long - 0x1_0000_0000_0000_0000)) by (bit_vector);
}

} // verus!
