//! What a ROM's first bytes say about where the game lives and how to start it.

use vstd::prelude::*;
use vstd::slice::slice_subrange;
use crate::state::le32;
use crate::text;

verus! {

/// The header is 512 bytes.
pub const HEADER_SIZE: usize = 0x200;

/// Where the firmware leaves a copy of the header for software to read.
pub const HEADER_MIRROR: u32 = 0x027F_FE00;

/// Why a ROM was refused.
#[derive(Debug, Clone, PartialEq, Eq)]
pub enum CartridgeError {
    /// The file cannot hold a header.
    TooSmall { len: usize, min: usize },
    /// The header names something that the file does not hold.
    BadHeader(String),
}

/// What a header says about where the game lives and how to start it.
#[derive(Debug, Clone, PartialEq, Eq)]
pub struct Header {
    pub title: String,
    pub game_code: String,
    pub maker_code: String,
    pub arm9_rom_offset: u32,
    pub arm9_entry: u32,
    pub arm9_ram_address: u32,
    pub arm9_size: u32,
    pub arm7_rom_offset: u32,
    pub arm7_entry: u32,
    pub arm7_ram_address: u32,
    pub arm7_size: u32,
}

/// The text that `String::from_utf8_lossy` makes of some bytes.
pub uninterp spec fn lossy_text(bytes: Seq<u8>) -> Seq<char>;

/// Calls [`String::from_utf8_lossy`]. The result is a function of the bytes alone; ASCII is valid
/// UTF-8 and comes out character for character. What becomes of invalid UTF-8 is left to the name.
#[verifier::external_body]
fn lossy(bytes: &[u8]) -> (r: String)
    ensures
        r@ == lossy_text(bytes@),
        (forall|i: int| 0 <= i < bytes@.len() ==> bytes@[i] < 0x80) ==> r@ == Seq::new(
            bytes@.len(),
            |i: int| bytes@[i] as char,
        ),
{
    String::from_utf8_lossy(bytes).into_owned()
}

/// A text field: the bytes as text, without their padding.
pub open spec fn field(rom: Seq<u8>, at: int, len: int) -> Seq<char> {
    text::trimmed(lossy_text(rom.subrange(at, at + len)))
}

fn text_at(rom: &[u8], at: usize, len: usize) -> (r: String)
    requires
        at + len <= rom@.len(),
        at + len <= 0x200,
    ensures
        r@ == field(rom@, at as int, len as int),
{
    let raw = lossy(slice_subrange(rom, at, at + len));
    text::trim_padding(raw.as_str())
}

fn word_at(rom: &[u8], at: usize) -> (r: u32)
    requires
        at + 4 <= rom@.len(),
        at <= 0x200,
    ensures
        r == le32(rom@, at as int),
{
    rom[at] as u32 + 0x100 * rom[at + 1] as u32 + 0x1_0000 * rom[at + 2] as u32 + 0x100_0000 * rom[at
        + 3] as u32
}

/// Where a binary ends, from its offset and its size.
pub open spec fn binary_end(rom: Seq<u8>, at: int) -> int {
    le32(rom, at) + le32(rom, at + 12)
}

/// What is said of a binary that falls outside the file.
pub open spec fn complaint(which: Seq<char>, end: int, len: int) -> Seq<char> {
    which + " binary runs to 0x"@ + text::number(end as nat, 16) + ", past the end of a 0x"@
        + text::number(len as nat, 16) + "-byte ROM"@
}

fn complain(which: &str, end: u64, len: u64) -> (r: String)
    ensures
        r@ == complaint(which@, end as int, len as int),
{
    let mut out = which.to_owned();
    text::push_str(&mut out, " binary runs to 0x");
    text::push_number(&mut out, end, 16);
    text::push_str(&mut out, ", past the end of a 0x");
    text::push_number(&mut out, len, 16);
    text::push_str(&mut out, "-byte ROM");
    out
}

impl Header {
    /// Whether the fields are those that a ROM's first bytes hold.
    pub open spec fn describes(&self, rom: Seq<u8>) -> bool {
        &&& self.title@ == field(rom, 0x00, 12)
        &&& self.game_code@ == field(rom, 0x0C, 4)
        &&& self.maker_code@ == field(rom, 0x10, 2)
        &&& self.arm9_rom_offset == le32(rom, 0x20)
        &&& self.arm9_entry == le32(rom, 0x24)
        &&& self.arm9_ram_address == le32(rom, 0x28)
        &&& self.arm9_size == le32(rom, 0x2C)
        &&& self.arm7_rom_offset == le32(rom, 0x30)
        &&& self.arm7_entry == le32(rom, 0x34)
        &&& self.arm7_ram_address == le32(rom, 0x38)
        &&& self.arm7_size == le32(rom, 0x3C)
    }

    /// Read a header. A file that cannot hold one is refused, and so is one whose binaries fall
    /// outside the file: a machine would otherwise copy zeroes into RAM and jump into them.
    pub fn parse(rom: &[u8]) -> (r: Result<Self, CartridgeError>)
        ensures
            rom@.len() < HEADER_SIZE ==> r == Err::<Header, CartridgeError>(
                CartridgeError::TooSmall { len: rom@.len() as usize, min: HEADER_SIZE },
            ),
            rom@.len() >= HEADER_SIZE && binary_end(rom@, 0x20) > rom@.len() ==> (r matches Err(
                CartridgeError::BadHeader(m),
            ) && m@ == complaint("ARM9"@, binary_end(rom@, 0x20), rom@.len() as int)),
            rom@.len() >= HEADER_SIZE && binary_end(rom@, 0x20) <= rom@.len() && binary_end(
                rom@,
                0x30,
            ) > rom@.len() ==> (r matches Err(CartridgeError::BadHeader(m)) && m@ == complaint(
                "ARM7"@,
                binary_end(rom@, 0x30),
                rom@.len() as int,
            )),
            rom@.len() >= HEADER_SIZE && binary_end(rom@, 0x20) <= rom@.len() && binary_end(
                rom@,
                0x30,
            ) <= rom@.len() ==> (r matches Ok(header) && header.describes(rom@)),
    {
        if rom.len() < HEADER_SIZE {
            return Err(CartridgeError::TooSmall { len: rom.len(), min: HEADER_SIZE });
        }
        let header = Header {
            title: text_at(rom, 0x00, 12),
            game_code: text_at(rom, 0x0C, 4),
            maker_code: text_at(rom, 0x10, 2),
            arm9_rom_offset: word_at(rom, 0x20),
            arm9_entry: word_at(rom, 0x24),
            arm9_ram_address: word_at(rom, 0x28),
            arm9_size: word_at(rom, 0x2C),
            arm7_rom_offset: word_at(rom, 0x30),
            arm7_entry: word_at(rom, 0x34),
            arm7_ram_address: word_at(rom, 0x38),
            arm7_size: word_at(rom, 0x3C),
        };
        let len = rom.len() as u64;
        let arm9_end: u64 = header.arm9_rom_offset as u64 + header.arm9_size as u64;
        if arm9_end > len {
            return Err(CartridgeError::BadHeader(complain("ARM9", arm9_end, len)));
        }
        let arm7_end: u64 = header.arm7_rom_offset as u64 + header.arm7_size as u64;
        if arm7_end > len {
            return Err(CartridgeError::BadHeader(complain("ARM7", arm7_end, len)));
        }
        Ok(header)
    }

    /// Every text is empty and every number zero.
    pub open spec fn says_nothing(self) -> bool {
        &&& self.title@.len() == 0
        &&& self.game_code@.len() == 0
        &&& self.maker_code@.len() == 0
        &&& self.arm9_rom_offset == 0
        &&& self.arm9_entry == 0
        &&& self.arm9_ram_address == 0
        &&& self.arm9_size == 0
        &&& self.arm7_rom_offset == 0
        &&& self.arm7_entry == 0
        &&& self.arm7_ram_address == 0
        &&& self.arm7_size == 0
    }

    /// A header that says nothing.
    pub fn empty() -> (r: Self)
        ensures
            r.says_nothing(),
    {
        Header {
            title: String::new(),
            game_code: String::new(),
            maker_code: String::new(),
            arm9_rom_offset: 0,
            arm9_entry: 0,
            arm9_ram_address: 0,
            arm9_size: 0,
            arm7_rom_offset: 0,
            arm7_entry: 0,
            arm7_ram_address: 0,
            arm7_size: 0,
        }
    }
}

} // verus!
