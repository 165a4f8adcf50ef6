//! 15-bit colour, and the 8-bit colour that a screen shows.

use vstd::prelude::*;

verus! {

/// One pixel as a frontend shows it.
#[derive(Clone, Copy, Debug, PartialEq, Eq, Structural)]
pub struct Rgba8 {
    pub r: u8,
    pub g: u8,
    pub b: u8,
    pub a: u8,
}

impl Rgba8 {
    /// An opaque colour.
    #[verifier::allow_in_spec]
    pub fn rgb(r: u8, g: u8, b: u8) -> Rgba8
        returns
            (Rgba8 { r, g, b, a: 255 }),
    {
        Rgba8 { r, g, b, a: 255 }
    }
}

/// One five-bit channel of a 15-bit colour.
pub open spec fn channel(color: u16, shift: u16) -> u16 {
    (color >> shift) & 0x1F
}

/// Three five-bit channels packed into 15 bits.
pub open spec fn joined(c0: int, c1: int, c2: int) -> u16 {
    (c0 + 0x20 * c1 + 0x400 * c2) as u16
}

pub fn join(c0: u32, c1: u32, c2: u32) -> (r: u16)
    requires
        c0 <= 31,
        c1 <= 31,
        c2 <= 31,
    ensures
        r == joined(c0 as int, c1 as int, c2 as int),
{
    (c0 + 0x20 * c1 + 0x400 * c2) as u16
}

pub fn channel_of(color: u16, shift: u16) -> (r: u32)
    requires
        shift < 16,
    ensures
        r == channel(color, shift),
        r <= 31,
{
    broadcast use crate::bits::lemma_and_bound_u16;

    ((color >> shift) & 0x1F) as u32
}

/// A five-bit channel as eight bits: the top three repeated below, so zero stays zero and full
/// stays full.
pub open spec fn expanded(c: int) -> u8 {
    (c * 8 + c / 4) as u8
}

/// A 15-bit colour as a screen shows it. Red is the lowest channel.
pub open spec fn rgba_of(color: u16) -> Rgba8 {
    Rgba8 {
        r: expanded(channel(color, 0) as int),
        g: expanded(channel(color, 5) as int),
        b: expanded(channel(color, 10) as int),
        a: 255,
    }
}

/// Expand a 15-bit colour for a screen.
pub fn bgr555_to_rgba(color: u16) -> (r: Rgba8)
    ensures
        r == rgba_of(color),
{
    let r = channel_of(color, 0);
    let g = channel_of(color, 5);
    let b = channel_of(color, 10);
    Rgba8 { r: (r * 8 + r / 4) as u8, g: (g * 8 + g / 4) as u8, b: (b * 8 + b / 4) as u8, a: 255 }
}

/// Black stays black and white stays white.
pub proof fn law_the_ends_are_kept()
    ensures
        expanded(0) == 0,
        expanded(31) == 255,
{
}

/// The channels of a colour are its base-32 digits, the lowest first.
#[verifier::rlimit(60)]
pub proof fn law_channels_are_digits(color: u16)
    ensures
        channel(color, 0) == color % 32,
        channel(color, 5) == color / 32 % 32,
        channel(color, 10) == color / 1024 % 32,
        joined(
            channel(color, 0) as int,
            channel(color, 5) as int,
            channel(color, 10) as int,
        ) == color % 0x8000,
{
    vstd::bits::lemma_low_bits_mask_values();
    vstd::arithmetic::power2::lemma2_to64();
    crate::bits::lemma_field_u16(color, 0, 5);
    crate::bits::lemma_field_u16(color, 5, 5);
    crate::bits::lemma_field_u16(color, 10, 5);
    let v = color as int;
    assert(v % 1024 == v % 32 + 32 * (v / 32 % 32));
    assert(v % 0x8000 == v % 1024 + 1024 * (v / 1024 % 32));
}

/// Channels that are joined come apart again.
pub proof fn law_joined_channels_come_apart(a: int, b: int, c: int)
    requires
        0 <= a <= 31,
        0 <= b <= 31,
        0 <= c <= 31,
    ensures
        channel(joined(a, b, c), 0) == a,
        channel(joined(a, b, c), 5) == b,
        channel(joined(a, b, c), 10) == c,
        joined(a, b, c) < 0x8000,
{
    law_channels_are_digits(joined(a, b, c));
}

/// A screen shows each channel in proportion, to the nearest step: red from the lowest five bits,
/// green from the next and blue from the highest, and fully opaque.
pub proof fn law_screen_colours_are_in_proportion(a: int, b: int, c: int)
    requires
        0 <= a <= 31,
        0 <= b <= 31,
        0 <= c <= 31,
    ensures
        ({
            let shown = rgba_of(joined(a, b, c));
            &&& -31 <= 31 * shown.r - 255 * a <= 31
            &&& -31 <= 31 * shown.g - 255 * b <= 31
            &&& -31 <= 31 * shown.b - 255 * c <= 31
            &&& shown.a == 255
        }),
{
    law_joined_channels_come_apart(a, b, c);
}

} // verus!
