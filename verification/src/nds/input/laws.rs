//! What the key registers say, button by button.

use vstd::arithmetic::power2::lemma2_to64;
use vstd::bits::lemma_low_bits_mask_values;
use vstd::prelude::*;
use super::{extra_bits, key_bits, up_bit, Buttons, InputState, PadState, RAW_PER_PIXEL};
use crate::bits::{lemma_bit_u16, lemma_flag_u16};

verus! {

/// The binary digits of a number with ten of them.
proof fn lemma_ten_digits(
    k: int,
    d0: int,
    d1: int,
    d2: int,
    d3: int,
    d4: int,
    d5: int,
    d6: int,
    d7: int,
    d8: int,
    d9: int,
)
    requires
        0 <= d0 <= 1,
        0 <= d1 <= 1,
        0 <= d2 <= 1,
        0 <= d3 <= 1,
        0 <= d4 <= 1,
        0 <= d5 <= 1,
        0 <= d6 <= 1,
        0 <= d7 <= 1,
        0 <= d8 <= 1,
        0 <= d9 <= 1,
        k == d0 + 2 * d1 + 4 * d2 + 8 * d3 + 16 * d4 + 32 * d5 + 64 * d6 + 128 * d7 + 256 * d8 + 512 * d9,
    ensures
        k % 2 == d0,
        k / 2 % 2 == d1,
        k / 4 % 2 == d2,
        k / 8 % 2 == d3,
        k / 16 % 2 == d4,
        k / 32 % 2 == d5,
        k / 64 % 2 == d6,
        k / 128 % 2 == d7,
        k / 256 % 2 == d8,
        k / 512 % 2 == d9,
        0 <= k < 1024,
{
    let h9 = d9;
    let h8 = d8 + 2 * h9;
    let h7 = d7 + 2 * h8;
    let h6 = d6 + 2 * h7;
    let h5 = d5 + 2 * h6;
    let h4 = d4 + 2 * h5;
    let h3 = d3 + 2 * h4;
    let h2 = d2 + 2 * h3;
    let h1 = d1 + 2 * h2;
    assert(k == d0 + 2 * h1);
    lemma_last_digit(k, d0, h1);
    lemma_last_digit(h1, d1, h2);
    lemma_last_digit(h2, d2, h3);
    lemma_last_digit(h3, d3, h4);
    lemma_last_digit(h4, d4, h5);
    lemma_last_digit(h5, d5, h6);
    lemma_last_digit(h6, d6, h7);
    lemma_last_digit(h7, d7, h8);
    lemma_last_digit(h8, d8, h9);
    lemma_last_digit(h9, d9, 0);
    assert(k / 2 == h1 && k / 4 == k / 2 / 2 && k / 8 == k / 4 / 2 && k / 16 == k / 8 / 2);
    assert(k / 32 == k / 16 / 2 && k / 64 == k / 32 / 2 && k / 128 == k / 64 / 2);
    assert(k / 256 == k / 128 / 2 && k / 512 == k / 256 / 2);
}

proof fn lemma_last_digit(value: int, digit: int, rest: int)
    requires
        0 <= digit <= 1,
        value == digit + 2 * rest,
    ensures
        value % 2 == digit,
        value / 2 == rest,
{
}

/// One for a button that is up.
spec fn raised(held: bool) -> int {
    if held { 0 } else { 1 }
}

/// A key reads as zero while it is held: the ten keys of `KEYINPUT` from A in its lowest bit to L in its
/// tenth, and of `EXTKEYIN` X, Y and the pen, with the lid open and the bits between them one.
#[verifier::rlimit(60)]
pub proof fn law_held_keys_read_as_zero(b: Buttons, touching: bool)
    ensures
        ({
            let k = key_bits(b) as int;
            let e = extra_bits(b, touching) as int;
            &&& (k % 2 == 0) == b.a
            &&& (k / 2 % 2 == 0) == b.b
            &&& (k / 4 % 2 == 0) == b.select
            &&& (k / 8 % 2 == 0) == b.start
            &&& (k / 16 % 2 == 0) == b.right
            &&& (k / 32 % 2 == 0) == b.left
            &&& (k / 64 % 2 == 0) == b.up
            &&& (k / 128 % 2 == 0) == b.down
            &&& (k / 256 % 2 == 0) == b.r
            &&& (k / 512 % 2 == 0) == b.l
            &&& k < 1024
            &&& (e % 2 == 0) == b.x
            &&& (e / 2 % 2 == 0) == b.y
            &&& (e / 64 % 2 == 0) == touching
            &&& e < 128
        }),
{
    reveal(up_bit);
    lemma_ten_digits(
        key_bits(b) as int,
        raised(b.a),
        raised(b.b),
        raised(b.select),
        raised(b.start),
        raised(b.right),
        raised(b.left),
        raised(b.up),
        raised(b.down),
        raised(b.r),
        raised(b.l),
    );
    lemma_ten_digits(
        extra_bits(b, touching) as int,
        raised(b.x),
        raised(b.y),
        1,
        1,
        1,
        1,
        raised(touching),
        0,
        0,
        0,
    );
}

/// A key that the keypad control asks for.
pub open spec fn asked(pad: PadState, key: int) -> bool {
    pad.keycnt as int / (vstd::arithmetic::power2::pow2(key as nat) as int) % 2 == 1
}

/// A key that is held.
pub open spec fn held(pad: PadState, key: int) -> bool {
    pad.keyinput as int / (vstd::arithmetic::power2::pow2(key as nat) as int) % 2 == 0
}

proof fn lemma_key(pad: PadState, key: u16)
    requires
        key < 10,
    ensures
        asked(pad, key as int) == (pad.keycnt & (1u16 << key) != 0),
        held(pad, key as int) == (pad.keyinput & (1u16 << key) == 0),
{
    lemma_bit_u16(pad.keycnt, key);
    lemma_bit_u16(pad.keyinput, key);
}

/// A key that a mask lets through, if there is one.
proof fn lemma_some_key(m: u16) -> (key: u16)
    requires
        m & 0x3FF != 0,
    ensures
        key < 10,
        m & (1u16 << key) != 0,
{
    assert(m & 0x3FF != 0 ==> m & (1u16 << 0u16) != 0 || m & (1u16 << 1u16) != 0 || m & (1u16 << 2u16) != 0
        || m & (1u16 << 3u16) != 0 || m & (1u16 << 4u16) != 0 || m & (1u16 << 5u16) != 0 || m & (1u16
        << 6u16) != 0 || m & (1u16 << 7u16) != 0 || m & (1u16 << 8u16) != 0 || m & (1u16 << 9u16) != 0)
        by (bit_vector);
    if m & (1u16 << 0u16) != 0 {
        0
    } else if m & (1u16 << 1u16) != 0 {
        1
    } else if m & (1u16 << 2u16) != 0 {
        2
    } else if m & (1u16 << 3u16) != 0 {
        3
    } else if m & (1u16 << 4u16) != 0 {
        4
    } else if m & (1u16 << 5u16) != 0 {
        5
    } else if m & (1u16 << 6u16) != 0 {
        6
    } else if m & (1u16 << 7u16) != 0 {
        7
    } else if m & (1u16 << 8u16) != 0 {
        8
    } else {
        9
    }
}

/// The masks that the interrupt is computed with, key by key.
proof fn lemma_masks(c: u16, k: u16, key: u16)
    requires
        key < 10,
    ensures
        c & (1u16 << key) != 0 && k & (1u16 << key) == 0 ==> (!k & 0x3FF) & (c & 0x3FF) != 0,
        c & (1u16 << key) != 0 ==> c & 0x3FF != 0,
        (!k & 0x3FF) & (c & 0x3FF) == c & 0x3FF && c & (1u16 << key) != 0 ==> k & (1u16 << key) == 0,
        ((!k & 0x3FF) & (c & 0x3FF)) & (1u16 << key) != 0 ==> c & (1u16 << key) != 0 && k & (1u16 << key)
            == 0,
        ((c & 0x3FF) & k) & (1u16 << key) != 0 ==> c & (1u16 << key) != 0 && k & (1u16 << key) != 0,
        ((!k & 0x3FF) & (c & 0x3FF)) & 0x3FF == (!k & 0x3FF) & (c & 0x3FF),
        (c & 0x3FF) & k == 0 || ((c & 0x3FF) & k) & 0x3FF != 0,
        (c & 0x3FF) & k == 0 ==> (!k & 0x3FF) & (c & 0x3FF) == c & 0x3FF,
{
    assert(key < 10 ==> (c & (1u16 << key) != 0 && k & (1u16 << key) == 0 ==> (!k & 0x3FF) & (c & 0x3FF)
        != 0) && (c & (1u16 << key) != 0 ==> c & 0x3FF != 0) && ((!k & 0x3FF) & (c & 0x3FF) == c & 0x3FF
        && c & (1u16 << key) != 0 ==> k & (1u16 << key) == 0) && (((!k & 0x3FF) & (c & 0x3FF)) & (1u16
        << key) != 0 ==> c & (1u16 << key) != 0 && k & (1u16 << key) == 0) && (((c & 0x3FF) & k) & (1u16
        << key) != 0 ==> c & (1u16 << key) != 0 && k & (1u16 << key) != 0) && ((!k & 0x3FF) & (c & 0x3FF))
        & 0x3FF == (!k & 0x3FF) & (c & 0x3FF) && ((c & 0x3FF) & k == 0 || ((c & 0x3FF) & k) & 0x3FF != 0)
        && ((c & 0x3FF) & k == 0 ==> (!k & 0x3FF) & (c & 0x3FF) == c & 0x3FF)) by (bit_vector);
}

/// The keypad interrupt, where bit 15 lets it through: without bit 14 any one of the keys asked for is
/// enough, and with it all of them must be held, of which there must be one.
pub proof fn law_the_keypad_interrupt(pad: PadState)
    ensures
        pad.irq() == (pad.keycnt >= 0x8000 && (if pad.keycnt / 0x4000 % 2 == 1 {
            (exists|key: int| 0 <= key < 10 && #[trigger] asked(pad, key)) && (forall|key: int|
                0 <= key < 10 && #[trigger] asked(pad, key) ==> held(pad, key))
        } else {
            exists|key: int| 0 <= key < 10 && #[trigger] asked(pad, key) && held(pad, key)
        })),
{
    let c = pad.keycnt;
    let k = pad.keyinput;
    lemma2_to64();
    lemma_low_bits_mask_values();
    lemma_flag_u16(c, 0x8000, 15);
    lemma_flag_u16(c, 0x4000, 14);
    assert forall|key: int| 0 <= key < 10 && #[trigger] asked(pad, key) implies c & 0x3FF != 0 && (held(
        pad,
        key,
    ) ==> (!k & 0x3FF) & (c & 0x3FF) != 0) && ((!k & 0x3FF) & (c & 0x3FF) == c & 0x3FF ==> held(pad, key)) by {
        lemma_key(pad, key as u16);
        lemma_masks(c, k, key as u16);
    }
    lemma_masks(c, k, 0);
    if c & 0x3FF != 0 {
        let key = lemma_some_key(c);
        lemma_key(pad, key);
        assert(asked(pad, key as int));
    }
    let both = (!k & 0x3FF) & (c & 0x3FF);
    if both != 0 {
        let key = lemma_some_key(both);
        lemma_masks(c, k, key);
        lemma_key(pad, key);
        assert(asked(pad, key as int) && held(pad, key as int));
    }
    let missing = (c & 0x3FF) & k;
    if missing != 0 {
        let key = lemma_some_key(missing);
        lemma_masks(c, k, key);
        lemma_key(pad, key);
        assert(asked(pad, key as int) && !held(pad, key as int));
    }
}

/// A frame of input sets the pins and the pen, which is kept on the screen; sixteen raw counts are a
/// pixel.
pub proof fn law_input_sets_the_pins(pad: PadState, input: InputState)
    ensures
        ({
            let after = pad.with_input(input);
            &&& after.keyinput == key_bits(input.buttons)
            &&& after.extkeyin == extra_bits(input.buttons, input.touch is Some)
            &&& input.touch is None ==> after.touch is None
            &&& input.touch matches Some(p) ==> p.x <= 255 && p.y <= 191 ==> after.touch == Some((p.x, p.y))
            &&& after.keycnt == pad.keycnt && after.spicnt == pad.spicnt && after.firmware == pad.firmware
            &&& RAW_PER_PIXEL == 16
        }),
{
}

} // verus!
