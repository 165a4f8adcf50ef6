//! Background tile attributes, and the priority rule that they feed.
//!
//! Beside each tile index in the background map there is a second byte, with the palette, the bank,
//! two flips and a priority bit.

use vstd::prelude::*;
use crate::state::{self, StateError, StateReader, StateWriter};

verus! {

/// One byte of background tile attributes.
#[derive(Debug, Clone, Copy, PartialEq, Eq, Structural)]
pub struct TileAttributes {
    /// Background palette 0-7.
    pub palette: u8,
    /// Which VRAM bank holds the tile's pixel data.
    pub bank: u8,
    pub flip_x: bool,
    pub flip_y: bool,
    /// The tile asks to be drawn over sprites. Subject to `LCDC` bit 0; see [`background_wins`].
    pub priority: bool,
}

/// One bit of an attribute byte.
pub open spec fn bit(set: bool, value: int) -> int {
    if set { value } else { 0 }
}

impl TileAttributes {
    #[verifier::allow_in_spec]
    pub fn from_byte(value: u8) -> TileAttributes
        returns
            (TileAttributes {
                palette: value % 8,
                bank: value / 8 % 2,
                flip_x: value / 0x20 % 2 == 1,
                flip_y: value / 0x40 % 2 == 1,
                priority: value >= 0x80,
            }),
    {
        TileAttributes {
            palette: value % 8,
            bank: value / 8 % 2,
            flip_x: value / 0x20 % 2 == 1,
            flip_y: value / 0x40 % 2 == 1,
            priority: value >= 0x80,
        }
    }

    /// The byte that these attributes come from. Bit 4 is unused.
    pub open spec fn byte(self) -> u8 {
        (self.palette % 8 + self.bank % 2 * 8 + bit(self.flip_x, 0x20) + bit(self.flip_y, 0x40)
            + bit(self.priority, 0x80)) as u8
    }

    pub fn to_byte(self) -> (r: u8)
        ensures
            r == self.byte(),
    {
        let mut byte: u8 = self.palette % 8 + self.bank % 2 * 8;
        if self.flip_x {
            byte = byte + 0x20;
        }
        if self.flip_y {
            byte = byte + 0x40;
        }
        if self.priority {
            byte = byte + 0x80;
        }
        byte
    }

    /// The attributes after reading the stream at `at`, as far as `limit` lets it be read.
    pub open spec fn restored(self, d: Seq<u8>, limit: int, at: int) -> TileAttributes {
        if at + 1 <= limit { TileAttributes::from_byte(d[at]) } else { self }
    }

    /// The palette and the bank are ones that exist.
    pub open spec fn wf(self) -> bool {
        self.palette < 8 && self.bank < 2
    }

    pub fn save(&self, w: &mut StateWriter)
        ensures
            state::continues(old(w)@, final(w)@),
            final(w)@.len() == old(w)@.len() + 1,
            final(w)@[old(w)@.len() as int] == self.byte(),
    {
        w.write_u8(self.to_byte());
    }

    pub fn load(&mut self, r: &mut StateReader) -> (result: Result<(), StateError>)
        ensures
            *final(self) == old(self).restored(old(r).data(), old(r).limit(), old(r).pos() as int),
            state::advanced(*old(r), *final(r), 1),
            result == state::verdict(*final(r)),
    {
        let byte = r.u8_or(0);
        if !r.failed() {
            *self = TileAttributes::from_byte(byte);
        }
        r.status()
    }
}

impl Default for TileAttributes {
    fn default() -> (r: Self)
        ensures
            r == TileAttributes::from_byte(0),
    {
        TileAttributes::from_byte(0)
    }
}

/// Whether the background pixel covers the sprite pixel.
///
/// `master_priority` is `LCDC` bit 0, which decides whether any priority is honoured at all. A
/// background colour index of zero is the transparent one, and no priority makes a hole opaque.
#[verifier::allow_in_spec]
pub fn background_wins(
    master_priority: bool,
    tile_priority: bool,
    sprite_behind: bool,
    background_colour: u8,
) -> bool
    returns
        (background_colour != 0 && master_priority && (tile_priority || sprite_behind)),
{
    if background_colour == 0 {
        return false;
    }
    if !master_priority {
        return false;
    }
    tile_priority || sprite_behind
}

/// Every byte comes back from its decoded form, but for the unused bit.
#[verifier::rlimit(30)]
pub proof fn law_bytes_round_trip(value: u8)
    ensures
        TileAttributes::from_byte(value).byte() == value - value / 16 % 2 * 16,
        TileAttributes::from_byte(value).wf(),
{
}

/// Attributes come back from their byte, so what was saved is what is loaded.
pub proof fn law_save_then_load(saved: TileAttributes, before: TileAttributes, d: Seq<u8>, at: int)
    requires
        saved.wf(),
        0 <= at < d.len(),
        d[at] == saved.byte(),
    ensures
        before.restored(d, d.len() as int, at) == saved,
{
}

/// No priority makes the transparent colour cover a sprite, and none counts while `LCDC` bit 0 is
/// clear; otherwise either of the two priorities is enough.
pub proof fn law_priorities(tile_priority: bool, sprite_behind: bool, colour: u8)
    ensures
        forall|master: bool| !#[trigger] background_wins(master, tile_priority, sprite_behind, 0),
        !background_wins(false, tile_priority, sprite_behind, colour),
        colour != 0 ==> background_wins(true, tile_priority, sprite_behind, colour) == (
        tile_priority || sprite_behind),
{
}

/// An attribute byte from its top bit down: priority, the two flips with the vertical one first, a bit
/// that is not used, the bank, and three bits of palette.
pub proof fn law_an_attribute_byte_spells_its_fields(a: TileAttributes, unused: bool)
    requires
        a.palette < 8,
        a.bank < 2,
    ensures
        ({
            let value = (if a.priority { 128int } else { 0 }) + (if a.flip_y { 64int } else { 0 }) + (
            if a.flip_x { 32int } else { 0 }) + (if unused { 16int } else { 0 }) + 8 * a.bank + a.palette;
            TileAttributes::from_byte(value as u8) == a
        }),
{
}

} // verus!
