//! Colour palette RAM, behind `BCPS`/`BCPD` and `OCPS`/`OCPD`.
//!
//! The palettes are kept as the bytes that the CPU reads and writes, and converted on lookup: a game
//! reads a colour back, darkens it, and writes it again.

pub mod reg;

use vstd::prelude::*;
use crate::color::{self, Rgba8};
use crate::state::{self, StateError, StateReader, StateWriter};

verus! {

/// Eight palettes of four colours, two bytes each.
pub const PALETTE_BYTES: usize = 64;

/// One index register: six address bits and an auto-increment flag.
#[derive(Debug, Clone, Copy, PartialEq, Eq, Structural)]
pub struct Index {
    pub address: u8,
    pub auto_increment: bool,
}

impl Index {
    /// The register as written.
    #[verifier::allow_in_spec]
    pub fn of(value: u8) -> Index
        returns
            (Index { address: value % 0x40, auto_increment: value >= 0x80 }),
    {
        Index { address: value % 0x40, auto_increment: value >= 0x80 }
    }

    /// The register as it reads. Bit 6 is unused and reads high.
    pub open spec fn value(self) -> u8 {
        (self.address + 0x40 + (if self.auto_increment { 0x80int } else { 0 })) as u8
    }

    /// The register after a write of data.
    pub open spec fn advanced(self) -> Index {
        if self.auto_increment {
            Index { address: ((self.address + 1) % 0x40) as u8, ..self }
        } else {
            self
        }
    }

    fn read(&self) -> (r: u8)
        requires
            self.address < 64,
        ensures
            r == self.value(),
    {
        self.address + 0x40 + (if self.auto_increment {
            0x80
        } else {
            0
        })
    }

    /// Advance after a write, and only after a write: reads never move the index.
    fn advance(&mut self)
        requires
            old(self).address < 64,
        ensures
            *final(self) == old(self).advanced(),
            final(self).address < 64,
    {
        if self.auto_increment {
            self.address = (self.address + 1) % 0x40;
        }
    }
}

/// Byte offset of a colour within a palette bank. Out-of-range fields wrap.
#[verifier::allow_in_spec]
pub fn slot(palette: u8, colour: u8) -> usize
    returns
        (palette % 8 * 8 + colour % 4 * 2) as usize,
{
    (palette % 8) as usize * 8 + (colour % 4) as usize * 2
}

/// Both banks and both index registers.
#[verifier::ext_equal]
pub struct PaletteState {
    pub background: Seq<u8>,
    pub sprite: Seq<u8>,
    pub bg_index: Index,
    pub obj_index: Index,
}

/// How many bytes the palettes save.
pub open spec fn saved_size() -> int {
    130
}

/// A bank with one colour replaced, low byte first.
pub open spec fn with_colour(bank: Seq<u8>, palette: u8, colour: u8, value: u16) -> Seq<u8> {
    bank.update(slot(palette, colour) as int, (value % 0x100) as u8).update(
        slot(palette, colour) + 1,
        (value / 0x100) as u8,
    )
}

/// The stored value of one colour.
pub open spec fn colour_in(bank: Seq<u8>, palette: u8, colour: u8) -> u16 {
    let at = slot(palette, colour) as int;
    (bank[at] + 0x100 * bank[at + 1]) as u16
}

impl PaletteState {
    pub open spec fn wf(self) -> bool {
        &&& self.background.len() == 64
        &&& self.sprite.len() == 64
        &&& self.bg_index.address < 64
        &&& self.obj_index.address < 64
    }

    /// Palette RAM comes up all ones.
    pub open spec fn initial() -> PaletteState {
        PaletteState {
            background: Seq::new(64, |i: int| 0xFFu8),
            sprite: Seq::new(64, |i: int| 0xFFu8),
            bg_index: Index { address: 0, auto_increment: false },
            obj_index: Index { address: 0, auto_increment: false },
        }
    }

    /// A register as it reads.
    pub open spec fn byte(self, addr: u16) -> Option<u8> {
        if addr == reg::BCPS {
            Some(self.bg_index.value())
        } else if addr == reg::BCPD {
            Some(self.background[self.bg_index.address as int])
        } else if addr == reg::OCPS {
            Some(self.obj_index.value())
        } else if addr == reg::OCPD {
            Some(self.sprite[self.obj_index.address as int])
        } else {
            None
        }
    }

    /// A register written. Data moves its index on; nothing else does.
    pub open spec fn written(self, addr: u16, value: u8) -> PaletteState {
        if addr == reg::BCPS {
            PaletteState { bg_index: Index::of(value), ..self }
        } else if addr == reg::BCPD {
            PaletteState {
                background: self.background.update(self.bg_index.address as int, value),
                bg_index: self.bg_index.advanced(),
                ..self
            }
        } else if addr == reg::OCPS {
            PaletteState { obj_index: Index::of(value), ..self }
        } else if addr == reg::OCPD {
            PaletteState {
                sprite: self.sprite.update(self.obj_index.address as int, value),
                obj_index: self.obj_index.advanced(),
                ..self
            }
        } else {
            self
        }
    }

    /// A whole colour overwritten.
    pub open spec fn coloured(self, sprite: bool, palette: u8, colour: u8, value: u16) -> PaletteState {
        if sprite {
            PaletteState { sprite: with_colour(self.sprite, palette, colour, value), ..self }
        } else {
            PaletteState {
                background: with_colour(self.background, palette, colour, value),
                ..self
            }
        }
    }

    /// The palettes after reading the stream at `at`, as far as `limit` lets it be read.
    pub open spec fn restored(self, d: Seq<u8>, limit: int, at: int) -> PaletteState {
        PaletteState {
            background: state::bytes_or(d, limit, at, self.background),
            sprite: state::bytes_or(d, limit, at + 64, self.sprite),
            bg_index: if at + 130 <= limit { Index::of(d[at + 128]) } else { self.bg_index },
            obj_index: if at + 130 <= limit { Index::of(d[at + 129]) } else { self.obj_index },
        }
    }

    /// Whether the stream holds exactly these palettes at `at`.
    pub open spec fn encoded_at(self, d: Seq<u8>, at: int) -> bool {
        at + saved_size() <= d.len() && self.restored(d, d.len() as int, at) == self
    }
}

/// Background and sprite colour palette RAM.
#[derive(Debug, Clone, PartialEq, Eq)]
pub struct CgbPalettes {
    pub background: [u8; 64],
    pub sprite: [u8; 64],
    pub bg_index: Index,
    pub obj_index: Index,
}

impl View for CgbPalettes {
    type V = PaletteState;

    open spec fn view(&self) -> PaletteState {
        PaletteState {
            background: self.background@,
            sprite: self.sprite@,
            bg_index: self.bg_index,
            obj_index: self.obj_index,
        }
    }
}

impl CgbPalettes {
    /// Power-on state: all ones, not zeroes. A game that displays before writing its palettes sees
    /// white.
    pub fn new() -> (r: Self)
        ensures
            r@ == PaletteState::initial(),
            r@.wf(),
    {
        let r = CgbPalettes {
            background: crate::arrays::filled(0xFF),
            sprite: crate::arrays::filled(0xFF),
            bg_index: Index { address: 0, auto_increment: false },
            obj_index: Index { address: 0, auto_increment: false },
        };
        assert(r@ =~= PaletteState::initial());
        r
    }

    pub fn owns(addr: u16) -> (r: bool)
        ensures
            r == (reg::BCPS <= addr <= reg::OCPD),
    {
        reg::BCPS <= addr && addr <= reg::OCPD
    }

    pub fn read_register(&self, addr: u16) -> (r: Option<u8>)
        requires
            self@.wf(),
        ensures
            r == self@.byte(addr),
    {
        if addr == reg::BCPS {
            Some(self.bg_index.read())
        } else if addr == reg::BCPD {
            Some(self.background[self.bg_index.address as usize])
        } else if addr == reg::OCPS {
            Some(self.obj_index.read())
        } else if addr == reg::OCPD {
            Some(self.sprite[self.obj_index.address as usize])
        } else {
            None
        }
    }

    pub fn write_register(&mut self, addr: u16, value: u8) -> (r: Option<()>)
        requires
            old(self)@.wf(),
        ensures
            final(self)@.wf(),
            final(self)@ == old(self)@.written(addr, value),
            r == (if old(self)@.byte(addr) is Some { Some(()) } else { None }),
    {
        if addr == reg::BCPS {
            self.bg_index = Index::of(value);
        } else if addr == reg::BCPD {
            self.background[self.bg_index.address as usize] = value;
            self.bg_index.advance();
        } else if addr == reg::OCPS {
            self.obj_index = Index::of(value);
        } else if addr == reg::OCPD {
            self.sprite[self.obj_index.address as usize] = value;
            self.obj_index.advance();
        } else {
            return None;
        }
        assert(self@ =~= old(self)@.written(addr, value));
        Some(())
    }

    /// Overwrite a whole colour, for the boot path that installs a compatibility palette.
    pub fn set_colour(&mut self, sprite: bool, palette: u8, colour: u8, rgb555: u16)
        requires
            old(self)@.wf(),
        ensures
            final(self)@.wf(),
            final(self)@ == old(self)@.coloured(sprite, palette, colour, rgb555),
    {
        let at = slot(palette, colour);
        let low = (rgb555 % 0x100) as u8;
        let high = (rgb555 / 0x100) as u8;
        if sprite {
            self.sprite[at] = low;
            self.sprite[at + 1] = high;
        } else {
            self.background[at] = low;
            self.background[at + 1] = high;
        }
        assert(self@ =~= old(self)@.coloured(sprite, palette, colour, rgb555));
    }

    fn colour(bytes: &[u8; 64], palette: u8, index: u8) -> (r: Rgba8)
        ensures
            r == color::rgba_of(colour_in(bytes@, palette, index)),
    {
        let at = slot(palette, index);
        rgb555_to_rgba8(bytes[at] as u16 + 0x100 * bytes[at + 1] as u16)
    }

    /// A background colour as the screen shows it.
    pub fn lookup_bg(&self, palette: u8, color: u8) -> (r: Rgba8)
        ensures
            r == color::rgba_of(colour_in(self@.background, palette, color)),
    {
        Self::colour(&self.background, palette, color)
    }

    /// A sprite colour as the screen shows it.
    pub fn lookup_sprite(&self, palette: u8, color: u8) -> (r: Rgba8)
        ensures
            r == color::rgba_of(colour_in(self@.sprite, palette, color)),
    {
        Self::colour(&self.sprite, palette, color)
    }

    pub fn save(&self, w: &mut StateWriter)
        requires
            self@.wf(),
        ensures
            state::continues(old(w)@, final(w)@),
            final(w)@.len() == old(w)@.len() + saved_size(),
            self@.encoded_at(final(w)@, old(w)@.len() as int),
    {
        let ghost at = w@.len() as int;
        w.write_bytes(&self.background);
        let ghost one = w@;
        w.write_bytes(&self.sprite);
        let ghost two = w@;
        w.write_u8(self.bg_index.read());
        w.write_u8(self.obj_index.read());
        proof {
            state::lemma_bytes_kept(one, w@, at, self@.background);
            state::lemma_bytes_kept(two, w@, at + 64, self@.sprite);
            assert(self@.restored(w@, w@.len() as int, at) =~= self@);
        }
    }

    pub fn load(&mut self, r: &mut StateReader) -> (result: Result<(), StateError>)
        requires
            old(self)@.wf(),
        ensures
            final(self)@.wf(),
            final(self)@ == old(self)@.restored(
                old(r).data(),
                old(r).limit(),
                old(r).pos() as int,
            ),
            state::advanced(*old(r), *final(r), saved_size()),
            result == state::verdict(*final(r)),
    {
        r.read_bytes(&mut self.background);
        r.read_bytes(&mut self.sprite);
        let bg = r.u8_or(0);
        let obj = r.u8_or(0);
        if !r.failed() {
            self.bg_index = Index::of(bg);
            self.obj_index = Index::of(obj);
        }
        assert(self@ =~= old(self)@.restored(old(r).data(), old(r).limit(), old(r).pos() as int));
        r.status()
    }
}

/// Expand 5-bit channels to 8 bits: exact at both ends, so white does not come out grey.
pub fn rgb555_to_rgba8(value: u16) -> (r: Rgba8)
    ensures
        r == color::rgba_of(value),
{
    color::bgr555_to_rgba(value)
}

impl Default for CgbPalettes {
    fn default() -> (r: Self)
        ensures
            r@ == PaletteState::initial(),
            r@.wf(),
    {
        CgbPalettes::new()
    }
}

/// Palettes that were saved come back whole, whatever they are read into.
pub proof fn law_save_then_load(saved: PaletteState, before: PaletteState, d: Seq<u8>, at: int)
    requires
        0 <= at,
        saved.wf(),
        before.wf(),
        saved.encoded_at(d, at),
    ensures
        before.restored(d, d.len() as int, at) == saved,
{
    state::lemma_bytes_decided(d, at, saved.background, before.background);
    state::lemma_bytes_decided(d, at + 64, saved.sprite, before.sprite);
    assert(before.restored(d, d.len() as int, at) =~= saved);
}

/// What is written through a data port is what the port reads back, until the index moves; reads
/// never move it.
pub proof fn law_data_reads_back(p: PaletteState, value: u8)
    requires
        p.wf(),
        !p.bg_index.auto_increment,
        !p.obj_index.auto_increment,
    ensures
        p.written(reg::BCPD, value).byte(reg::BCPD) == Some(value),
        p.written(reg::OCPD, value).byte(reg::OCPD) == Some(value),
{
}

/// The palettes after bytes are written through a data port, one after another.
pub open spec fn streamed(p: PaletteState, port: u16, bytes: Seq<u8>) -> PaletteState
    decreases bytes.len(),
{
    if bytes.len() == 0 {
        p
    } else {
        streamed(p, port, bytes.drop_last()).written(port, bytes.last())
    }
}

/// Auto-incremented writes fill a bank in order, wrapping at its end: sixty-four of them replace it
/// whole, come back to the index they began at, and leave the other bank and its index alone.
pub proof fn law_sixty_four_writes_fill_a_bank(p: PaletteState, start: u8, bytes: Seq<u8>)
    requires
        p.wf(),
        start < 64,
        bytes.len() == 64,
    ensures
        ({
            let after = streamed(p.written(reg::BCPS, (0x80 + start) as u8), reg::BCPD, bytes);
            &&& after.byte(reg::BCPS) == Some((0xC0 + start) as u8)
            &&& after.sprite == p.sprite && after.obj_index == p.obj_index
            &&& forall|i: int, at: u8|
                0 <= i < 64 && at == (start + i) % 64 ==> #[trigger] after.written(
                    reg::BCPS,
                    at,
                ).byte(reg::BCPD) == Some(#[trigger] bytes[i])
        }),
        ({
            let after = streamed(p.written(reg::OCPS, (0x80 + start) as u8), reg::OCPD, bytes);
            &&& after.byte(reg::OCPS) == Some((0xC0 + start) as u8)
            &&& after.background == p.background && after.bg_index == p.bg_index
            &&& forall|i: int, at: u8|
                0 <= i < 64 && at == (start + i) % 64 ==> #[trigger] after.written(
                    reg::OCPS,
                    at,
                ).byte(reg::OCPD) == Some(#[trigger] bytes[i])
        }),
{
    lemma_streamed_background(p.written(reg::BCPS, (0x80 + start) as u8), bytes);
    lemma_streamed_sprite(p.written(reg::OCPS, (0x80 + start) as u8), bytes);
}

/// What the background bank holds after up to sixty-four auto-incremented writes.
proof fn lemma_streamed_background(p: PaletteState, bytes: Seq<u8>)
    requires
        p.wf(),
        p.bg_index.auto_increment,
        bytes.len() <= 64,
    ensures
        ({
            let after = streamed(p, reg::BCPD, bytes);
            &&& after.wf()
            &&& after.bg_index.auto_increment
            &&& after.bg_index.address as int == (p.bg_index.address + bytes.len()) % 64
            &&& after.sprite == p.sprite && after.obj_index == p.obj_index
            &&& forall|i: int|
                0 <= i < bytes.len() ==> after.background[(p.bg_index.address + i) % 64]
                    == #[trigger] bytes[i]
        }),
    decreases bytes.len(),
{
    if bytes.len() > 0 {
        let before = bytes.drop_last();
        let n = before.len() as int;
        lemma_streamed_background(p, before);
        let last = streamed(p, reg::BCPD, before);
        let after = streamed(p, reg::BCPD, bytes);
        let a = p.bg_index.address as int;
        assert(after == last.written(reg::BCPD, bytes[n]));
        assert forall|i: int| 0 <= i < bytes.len() implies after.background[(a + i) % 64]
            == #[trigger] bytes[i] by {
            if i < n {
                lemma_slots_differ(a, i, n);
                assert(before[i] == bytes[i]);
            }
        }
        lemma_next_slot(a, n);
    }
}

/// What the sprite bank holds after up to sixty-four auto-incremented writes.
proof fn lemma_streamed_sprite(p: PaletteState, bytes: Seq<u8>)
    requires
        p.wf(),
        p.obj_index.auto_increment,
        bytes.len() <= 64,
    ensures
        ({
            let after = streamed(p, reg::OCPD, bytes);
            &&& after.wf()
            &&& after.obj_index.auto_increment
            &&& after.obj_index.address as int == (p.obj_index.address + bytes.len()) % 64
            &&& after.background == p.background && after.bg_index == p.bg_index
            &&& forall|i: int|
                0 <= i < bytes.len() ==> after.sprite[(p.obj_index.address + i) % 64]
                    == #[trigger] bytes[i]
        }),
    decreases bytes.len(),
{
    if bytes.len() > 0 {
        let before = bytes.drop_last();
        let n = before.len() as int;
        lemma_streamed_sprite(p, before);
        let last = streamed(p, reg::OCPD, before);
        let after = streamed(p, reg::OCPD, bytes);
        let a = p.obj_index.address as int;
        assert(after == last.written(reg::OCPD, bytes[n]));
        assert forall|i: int| 0 <= i < bytes.len() implies after.sprite[(a + i) % 64]
            == #[trigger] bytes[i] by {
            if i < n {
                lemma_slots_differ(a, i, n);
                assert(before[i] == bytes[i]);
            }
        }
        lemma_next_slot(a, n);
    }
}

/// Fewer than sixty-four steps do not come back to the same byte.
proof fn lemma_slots_differ(a: int, i: int, n: int)
    requires
        0 <= a < 64,
        0 <= i < n < 64,
    ensures
        (a + i) % 64 != (a + n) % 64,
        0 <= (a + i) % 64 < 64,
        0 <= (a + n) % 64 < 64,
{
}

/// One more step.
proof fn lemma_next_slot(a: int, n: int)
    requires
        0 <= a < 64,
        0 <= n < 64,
    ensures
        ((a + n) % 64 + 1) % 64 == (a + n + 1) % 64,
{
}

/// The index stays within the bank, wraps at its end, and moves only if it was asked to.
pub proof fn law_the_index_wraps(index: Index)
    requires
        index.address < 64,
    ensures
        index.advanced().address < 64,
        index.auto_increment && index.address == 63 ==> index.advanced().address == 0,
        !index.auto_increment ==> index.advanced() == index,
{
}

/// A colour that was set is the colour that is looked up, and no other colour changes.
pub proof fn law_colours_are_separate(
    bank: Seq<u8>,
    palette: u8,
    colour: u8,
    value: u16,
    other_palette: u8,
    other: u8,
)
    requires
        bank.len() == 64,
    ensures
        colour_in(with_colour(bank, palette, colour, value), palette, colour) == value,
        slot(palette, colour) != slot(other_palette, other) ==> colour_in(
            with_colour(bank, palette, colour, value),
            other_palette,
            other,
        ) == colour_in(bank, other_palette, other),
{
}

/// The two banks are separate.
pub proof fn law_banks_are_separate(p: PaletteState, palette: u8, colour: u8, value: u16)
    ensures
        p.coloured(true, palette, colour, value).background == p.background,
        p.coloured(false, palette, colour, value).sprite == p.sprite,
{
}

/// A machine that has not written its palettes shows white.
pub proof fn law_power_on_is_white(palette: u8, colour: u8)
    ensures
        color::rgba_of(colour_in(PaletteState::initial().background, palette, colour)) == (Rgba8 {
            r: 255,
            g: 255,
            b: 255,
            a: 255,
        }),
        colour_in(PaletteState::initial().sprite, palette, colour) == 0xFFFF,
{
    color::law_channels_are_digits(0xFFFF);
}

} // verus!
