//! The Slot-1 cartridge: header, ROM, and the card transfer interface.
//!
//! The ROM is not in either CPU's address space. It is reached only by writing an eight-byte command,
//! kicking `ROMCTRL`, and reading words back out of one register, so this is a small command
//! interpreter. Commands are interpreted in their plain form; an encrypted one reads as all ones.
//!
//! The auxiliary SPI port is here and the save chip behind it is not: a byte written to the port is
//! handed out with [`NdsCartridge::take_spi_request`], and what the chip drove back comes in with
//! [`NdsCartridge::complete_spi`].

pub mod header;
pub mod reg;
pub mod romctrl;

pub use header::{CartridgeError, Header, HEADER_SIZE};

use vstd::prelude::*;
use vstd::slice::slice_subrange;
use crate::bits::{align2, align4, byte_at, half_at, with_byte, with_half};
use crate::fault::Counted;
use crate::state::{self, StateError, StateReader, StateWriter};

verus! {

/// Where a core should start after a direct boot.
#[derive(Debug, Clone, Copy, PartialEq, Eq, Structural)]
pub struct BootEntry {
    pub entry: u32,
    pub ram_address: u32,
    pub size: u32,
}

/// One byte for the save chip. Without `hold` it is the last of its transaction.
#[derive(Debug, Clone, Copy, PartialEq, Eq, Structural)]
pub struct SpiRequest {
    pub byte: u8,
    pub hold: bool,
}

/// A cartridge and its transfer state machine.
#[verifier::ext_equal]
pub struct CardState {
    pub rom: Seq<u8>,
    pub auxspicnt: u16,
    pub spi_data: u8,
    pub romctrl: u32,
    pub command: Seq<u8>,
    pub pending: Seq<u32>,
    pub read_index: int,
    pub request: Option<SpiRequest>,
}

/// The word of a ROM at an offset, or all ones where the ROM does not reach.
pub open spec fn rom_word(rom: Seq<u8>, offset: int) -> u32 {
    if offset + 4 <= rom.len() { state::le32(rom, offset) } else { u32::MAX }
}

/// Where the `i`-th word of a read is. Above the secure area a read wraps inside the 4 KiB block
/// that holds its start.
pub open spec fn read_offset(address: int, i: int) -> int {
    if address < 0x8000 {
        address + 4 * i
    } else {
        address - address % 0x1000 + (address + 4 * i) % 0x1000
    }
}

/// The words of a block. Setting 7 is one word, and 0 is none.
#[verifier::allow_in_spec]
pub fn block_words(romctrl: u32) -> usize
    returns
        ({
            let block = romctrl / 0x100_0000 % 8;
            if block == 0 {
                0usize
            } else if block == 1 {
                128
            } else if block == 2 {
                256
            } else if block == 3 {
                512
            } else if block == 4 {
                1024
            } else if block == 5 {
                2048
            } else if block == 6 {
                4096
            } else {
                1
            }
        }),
{
    let block = romctrl / 0x100_0000 % 8;
    if block == 0 {
        0
    } else if block == 1 {
        128
    } else if block == 2 {
        256
    } else if block == 3 {
        512
    } else if block == 4 {
        1024
    } else if block == 5 {
        2048
    } else if block == 6 {
        4096
    } else {
        1
    }
}

/// A chip ID with the capacity in megabytes, less one, in its second byte. An empty slot drives all
/// ones.
pub open spec fn chip_id_of(rom: Seq<u8>) -> u32 {
    if rom.len() == 0 {
        u32::MAX
    } else {
        (0xC2 + 0x100 * (crate::arith::clamped(rom.len() as int / 0x10_0000, 1, 0x7F) - 1)) as u32
    }
}

/// How many bytes a cartridge saves.
pub open spec fn saved_size(pending: int) -> int {
    31 + 4 * pending
}

/// The most words that a state may hold.
pub const MOST_PENDING: usize = 0x400;

impl CardState {
    pub open spec fn wf(self) -> bool {
        self.command.len() == 8 && 0 <= self.read_index
    }

    /// The ROM address that a command names: the four bytes after the opcode, most significant
    /// first, rounded down to a word.
    pub open spec fn address(self) -> int {
        let address = self.command[1] * 0x100_0000 + self.command[2] * 0x1_0000 + self.command[3]
            * 0x100 + self.command[4];
        address - address % 4
    }

    /// What a command transfers: the header, a read, the chip ID over and over, or all ones.
    pub open spec fn answer(self, i: int) -> u32 {
        let opcode = self.command[0];
        if opcode == 0x00 {
            rom_word(self.rom, read_offset(0, i))
        } else if opcode == 0xB7 {
            rom_word(self.rom, read_offset(self.address(), i))
        } else if opcode == 0x90 || opcode == 0xB8 {
            chip_id_of(self.rom)
        } else {
            u32::MAX
        }
    }

    /// The command carried out.
    pub open spec fn begun(self) -> CardState {
        let words = block_words(self.romctrl);
        CardState {
            pending: Seq::new(words as nat, |i: int| self.answer(i)),
            read_index: 0,
            romctrl: if words == 0 {
                self.romctrl & 0x7F7F_FFFF
            } else {
                self.romctrl | 0x8080_0000
            },
            ..self
        }
    }

    /// `ROMCTRL` written: its top bit going up begins a transfer.
    pub open spec fn controlled(self, value: u32) -> CardState {
        let stored = CardState { romctrl: value, ..self };
        if value >= 0x8000_0000 && self.romctrl < 0x8000_0000 {
            stored.begun()
        } else {
            stored
        }
    }

    /// The next word of the transfer, or all ones past its end.
    pub open spec fn next_word(self) -> u32 {
        if self.read_index < self.pending.len() {
            self.pending[self.read_index]
        } else {
            u32::MAX
        }
    }

    /// The transfer with that word taken. The last one clears the ready flag.
    pub open spec fn popped(self) -> CardState {
        let next = if self.read_index < self.pending.len() {
            self.read_index + 1
        } else {
            self.read_index
        };
        CardState {
            read_index: next,
            romctrl: if next >= self.pending.len() {
                self.romctrl & 0x7F7F_FFFF
            } else {
                self.romctrl
            },
            ..self
        }
    }

    /// A word as it reads, with nothing taken.
    pub open spec fn peeked(self, addr: u32) -> Option<u32> {
        let word = align4(addr);
        if word == reg::AUXSPICNT {
            Some(self.auxspicnt as u32)
        } else if word == reg::ROMCTRL {
            Some(self.romctrl)
        } else if word == reg::CARD_COMMAND {
            Some(state::le32(self.command, 0))
        } else if word == reg::CARD_COMMAND + 4 {
            Some(state::le32(self.command, 4))
        } else if word == reg::CARD_DATA {
            Some(0)
        } else {
            None
        }
    }

    /// A word as it reads.
    pub open spec fn word(self, addr: u32) -> Option<u32> {
        if align4(addr) == reg::CARD_DATA {
            Some(self.next_word())
        } else {
            self.peeked(addr)
        }
    }

    /// What a word read leaves behind.
    pub open spec fn after_read(self, addr: u32) -> CardState {
        if align4(addr) == reg::CARD_DATA { self.popped() } else { self }
    }

    /// Four bytes of the command written, the lowest address first.
    pub open spec fn with_command(self, at: int, value: u32) -> CardState {
        CardState {
            command: self.command.update(at, (value % 0x100) as u8).update(
                at + 1,
                (value / 0x100 % 0x100) as u8,
            ).update(at + 2, (value / 0x1_0000 % 0x100) as u8).update(
                at + 3,
                (value / 0x100_0000) as u8,
            ),
            ..self
        }
    }

    /// A word written. `CARD_DATA` is read-only.
    pub open spec fn written(self, addr: u32, value: u32) -> CardState {
        let word = align4(addr);
        if word == reg::AUXSPICNT {
            CardState { auxspicnt: value as u16, ..self }
        } else if word == reg::ROMCTRL {
            self.controlled(value)
        } else if word == reg::CARD_COMMAND {
            self.with_command(0, value)
        } else if word == reg::CARD_COMMAND + 4 {
            self.with_command(4, value)
        } else {
            self
        }
    }

    /// A byte shifted at the save chip, unless the bus is disabled. `AUXSPICNT` bit 6 is the
    /// chip-select hold.
    pub open spec fn shifted(self, byte: u8) -> CardState {
        if self.auxspicnt >= 0x8000 {
            CardState {
                request: Some(SpiRequest { byte, hold: self.auxspicnt & 0x40 != 0 }),
                ..self
            }
        } else {
            self
        }
    }

    /// A halfword written.
    pub open spec fn written16(self, addr: u32, value: u16) -> CardState {
        if align2(addr) == reg::AUXSPIDATA {
            self.shifted((value % 0x100) as u8)
        } else if align2(addr) == reg::AUXSPICNT {
            CardState { auxspicnt: value, ..self }
        } else {
            match self.peeked(addr) {
                None => self,
                Some(current) => self.written(addr, with_half(current, addr, value)),
            }
        }
    }

    /// A byte written.
    pub open spec fn written8(self, addr: u32, value: u8) -> CardState {
        match self.peeked(addr) {
            None => self,
            Some(current) => self.written(addr, with_byte(current, addr, value)),
        }
    }

    /// The registers cleared. The ROM stays.
    pub open spec fn cleared(self) -> CardState {
        CardState {
            auxspicnt: 0,
            spi_data: 0,
            romctrl: 0,
            command: Seq::new(8, |i: int| 0u8),
            pending: Seq::empty(),
            read_index: 0,
            request: None,
            ..self
        }
    }

    /// The serial port after reading the stream at `at`.
    pub open spec fn port_restored(self, d: Seq<u8>, limit: int, at: int) -> CardState {
        CardState {
            auxspicnt: state::or16(d, limit, at, self.auxspicnt),
            spi_data: state::or8(d, limit, at + 2, self.spi_data),
            ..self
        }
    }

    /// The card bus after reading the stream at `at`.
    pub open spec fn transfer_restored(self, d: Seq<u8>, limit: int, at: int) -> CardState {
        let run = state::counted_words(d, at + 12, Counted::CardWords, self.pending);
        let reached = at + 12 <= limit;
        CardState {
            romctrl: state::or32(d, limit, at, self.romctrl),
            command: state::bytes_or(d, limit, at + 4, self.command),
            pending: if reached { run.list } else { self.pending },
            read_index: if reached && run.error is None && run.at + 8 <= limit {
                crate::arith::smaller(state::le64(d, run.at) as int, run.list.len() as int)
            } else {
                self.read_index
            },
            ..self
        }
    }

    /// The cartridge after reading the stream at `at`.
    pub open spec fn restored(self, d: Seq<u8>, limit: int, at: int) -> CardState {
        self.port_restored(d, limit, at).transfer_restored(d, limit, at + 3)
    }

    /// The bytes at `at` are those of the serial port's registers.
    pub open spec fn port_held(self, d: Seq<u8>, at: int) -> bool {
        &&& at + 3 <= d.len()
        &&& state::le16(d, at) == self.auxspicnt
        &&& d[at + 2] == self.spi_data
    }

    /// The bytes at `at` are those of the card bus: the registers, every word that waits, and how
    /// many of them were read.
    pub open spec fn transfer_held(self, d: Seq<u8>, at: int) -> bool {
        let n = self.pending.len();
        &&& at + 28 + 4 * n <= d.len()
        &&& state::le32(d, at) == self.romctrl
        &&& state::bytes_or(d, d.len() as int, at + 4, self.command) == self.command
        &&& state::le64(d, at + 12) == n
        &&& state::words_or(d, d.len() as int, at + 20, self.pending) == self.pending
        &&& state::le64(d, at + 20 + 4 * n) == self.read_index
    }

    /// Whether the stream holds exactly this cartridge's registers at `at`.
    pub open spec fn encoded_at(self, d: Seq<u8>, at: int) -> bool {
        &&& at + saved_size(self.pending.len() as int) <= d.len()
        &&& state::counted_words(d, at + 15, Counted::CardWords, self.pending) == (state::Run {
            list: self.pending,
            at: at + 23 + 4 * self.pending.len(),
            error: None,
        })
        &&& self.restored(d, d.len() as int, at) == self
    }
}

/// What reading a card bus does to a reader.
pub open spec fn transfer_error(r: StateReader, pending: Seq<u32>) -> Option<StateError> {
    let run = state::counted_words(
        r.data(),
        r.pos() as int + 12,
        Counted::CardWords,
        pending,
    );
    if r.pos() + 12 > r.limit() {
        Some(r.end_error())
    } else if run.error is Some {
        run.error
    } else if run.at + 8 > r.limit() {
        Some(StateError::UnexpectedEnd)
    } else {
        None
    }
}

/// What reading a cartridge does to a reader.
pub open spec fn load_error(r: StateReader, pending: Seq<u32>) -> Option<StateError> {
    let run = state::counted_words(
        r.data(),
        r.pos() as int + 15,
        Counted::CardWords,
        pending,
    );
    if r.pos() + 15 > r.limit() {
        Some(r.end_error())
    } else if run.error is Some {
        run.error
    } else if run.at + 8 > r.limit() {
        Some(StateError::UnexpectedEnd)
    } else {
        None
    }
}

/// The cartridge and its transfer state machine.
#[derive(Debug)]
pub struct NdsCartridge {
    pub rom: Vec<u8>,
    pub header: Header,
    pub auxspicnt: u16,
    /// The last byte that the save chip drove back, which `AUXSPIDATA` reads.
    pub spi_data: u8,
    pub romctrl: u32,
    pub command: [u8; 8],
    /// Words still to be handed back through `CARD_DATA`.
    pub pending: Vec<u32>,
    pub read_index: usize,
    /// A byte on its way to the save chip.
    pub request: Option<SpiRequest>,
    /// The save chip's contents, as the machine last handed them over.
    pub saved: Option<Vec<u8>>,
}

impl View for NdsCartridge {
    type V = CardState;

    open spec fn view(&self) -> CardState {
        CardState {
            rom: self.rom@,
            auxspicnt: self.auxspicnt,
            spi_data: self.spi_data,
            romctrl: self.romctrl,
            command: self.command@,
            pending: self.pending@,
            read_index: self.read_index as int,
            request: self.request,
        }
    }
}

/// Everything about a cartridge that its registers are not.
pub open spec fn same_card(a: NdsCartridge, b: NdsCartridge) -> bool {
    &&& a.header == b.header
    &&& a.saved == b.saved
}

/// A slot with some ROM in it and every register clear.
pub open spec fn fresh(rom: Seq<u8>) -> CardState {
    CardState {
        rom,
        auxspicnt: 0,
        spi_data: 0,
        romctrl: 0,
        command: Seq::new(8, |i: int| 0u8),
        pending: Seq::empty(),
        read_index: 0,
        request: None,
    }
}

impl NdsCartridge {
    /// A cartridge, refused where its header is.
    pub fn new(rom: Vec<u8>) -> (r: Result<Self, CartridgeError>)
        ensures
            rom@.len() < HEADER_SIZE ==> (r matches Err(CartridgeError::TooSmall { len, min })
                && len == rom@.len() && min == HEADER_SIZE),
            rom@.len() >= HEADER_SIZE && header::binary_end(rom@, 0x20) > rom@.len() ==> (
            r matches Err(CartridgeError::BadHeader(m)) && m@ == header::complaint(
                "ARM9"@,
                header::binary_end(rom@, 0x20),
                rom@.len() as int,
            )),
            rom@.len() >= HEADER_SIZE && header::binary_end(rom@, 0x20) <= rom@.len()
                && header::binary_end(rom@, 0x30) > rom@.len() ==> (r matches Err(
                CartridgeError::BadHeader(m),
            ) && m@ == header::complaint(
                "ARM7"@,
                header::binary_end(rom@, 0x30),
                rom@.len() as int,
            )),
            rom@.len() >= HEADER_SIZE && header::binary_end(rom@, 0x20) <= rom@.len()
                && header::binary_end(rom@, 0x30) <= rom@.len() ==> (r matches Ok(card) && card@
                == fresh(rom@) && card.header.describes(rom@) && card.saved is None),
    {
        match Header::parse(rom.as_slice()) {
            Err(e) => Err(e),
            Ok(header) => Ok(NdsCartridge::assemble(rom, header)),
        }
    }

    fn assemble(rom: Vec<u8>, header: Header) -> (r: Self)
        ensures
            r@ == fresh(rom@),
            r.header == header,
            r.saved is None,
    {
        let r = NdsCartridge {
            rom,
            header,
            auxspicnt: 0,
            spi_data: 0,
            romctrl: 0,
            command: crate::arrays::filled(0),
            pending: Vec::new(),
            read_index: 0,
            request: None,
            saved: None,
        };
        assert(r@ =~= fresh(rom@));
        r
    }

    /// An empty slot, which answers every command with all ones.
    pub fn empty() -> (r: Self)
        ensures
            r@ == fresh(Seq::empty()),
            r.saved is None,
            r.header.says_nothing(),
    {
        let rom: Vec<u8> = Vec::new();
        assert(rom@ =~= Seq::empty());
        NdsCartridge::assemble(rom, Header::empty())
    }

    pub fn header(&self) -> (r: &Header)
        ensures
            *r == self.header,
    {
        &self.header
    }

    pub fn rom(&self) -> (r: &[u8])
        ensures
            r@ == self@.rom,
    {
        self.rom.as_slice()
    }

    pub fn is_present(&self) -> (r: bool)
        ensures
            r == (self@.rom.len() > 0),
    {
        self.rom.len() > 0
    }

    /// A piece of the ROM, or nothing where the ROM does not hold all of it.
    fn piece(&self, offset: u32, size: u32) -> (r: &[u8])
        ensures
            r@ == piece_of(self@.rom, offset as int, size as int),
    {
        let end: u64 = offset as u64 + size as u64;
        if end <= self.rom.len() as u64 {
            slice_subrange(self.rom.as_slice(), offset as usize, end as usize)
        } else {
            let none = slice_subrange(self.rom.as_slice(), 0, 0);
            assert(none@ =~= Seq::empty());
            none
        }
    }

    /// The two binaries that the firmware would copy into RAM, and where each core starts.
    pub fn direct_boot(&self) -> (r: (BootEntry, &[u8], BootEntry, &[u8]))
        ensures
            r.0 == (BootEntry {
                entry: self.header.arm9_entry,
                ram_address: self.header.arm9_ram_address,
                size: self.header.arm9_size,
            }),
            r.1@ == piece_of(
                self@.rom,
                self.header.arm9_rom_offset as int,
                self.header.arm9_size as int,
            ),
            r.2 == (BootEntry {
                entry: self.header.arm7_entry,
                ram_address: self.header.arm7_ram_address,
                size: self.header.arm7_size,
            }),
            r.3@ == piece_of(
                self@.rom,
                self.header.arm7_rom_offset as int,
                self.header.arm7_size as int,
            ),
    {
        let h = &self.header;
        (
            BootEntry { entry: h.arm9_entry, ram_address: h.arm9_ram_address, size: h.arm9_size },
            self.piece(h.arm9_rom_offset, h.arm9_size),
            BootEntry { entry: h.arm7_entry, ram_address: h.arm7_ram_address, size: h.arm7_size },
            self.piece(h.arm7_rom_offset, h.arm7_size),
        )
    }

    /// The first 512 bytes, which the firmware mirrors into main RAM for software to read.
    pub fn header_bytes(&self) -> (r: &[u8])
        ensures
            r@ == piece_of(self@.rom, 0, HEADER_SIZE as int),
    {
        self.piece(0, 0x200)
    }

    /// The save chip's contents, or `None` while its type is still undetermined.
    pub fn save_ram(&self) -> (r: Option<&[u8]>)
        ensures
            match self.saved {
                None => r is None,
                Some(bytes) => r matches Some(s) && s@ == bytes@,
            },
    {
        match &self.saved {
            None => None,
            Some(bytes) => Some(bytes.as_slice()),
        }
    }

    /// Hand over what the save chip holds.
    pub fn set_save_ram(&mut self, contents: Option<Vec<u8>>)
        ensures
            final(self).saved == contents,
            final(self)@ == old(self)@,
            final(self).header == old(self).header,
    {
        self.saved = contents;
    }

    /// The byte on its way to the save chip, if one is.
    pub fn take_spi_request(&mut self) -> (r: Option<SpiRequest>)
        ensures
            r == old(self)@.request,
            final(self)@ == (CardState { request: None, ..old(self)@ }),
            same_card(*final(self), *old(self)),
    {
        let request = self.request;
        self.request = None;
        request
    }

    /// What the save chip drove back.
    pub fn complete_spi(&mut self, answer: u8)
        ensures
            final(self)@ == (CardState { spi_data: answer, ..old(self)@ }),
            same_card(*final(self), *old(self)),
    {
        self.spi_data = answer;
    }

    /// Whether an address is one of these registers.
    pub fn owns(addr: u32) -> (r: bool)
        ensures
            r == (reg::AUXSPICNT <= addr < reg::CARD_COMMAND + 8 || align4(addr) == reg::CARD_DATA),
    {
        (reg::AUXSPICNT <= addr && addr < reg::CARD_COMMAND + 8) || align4(addr) == reg::CARD_DATA
    }

    fn command_word(&self, at: usize) -> (r: u32)
        requires
            at == 0 || at == 4,
        ensures
            r == state::le32(self@.command, at as int),
    {
        self.command[at] as u32 + 0x100 * self.command[at + 1] as u32 + 0x1_0000 * self.command[at
            + 2] as u32 + 0x100_0000 * self.command[at + 3] as u32
    }

    pub fn read32(&mut self, addr: u32) -> (r: Option<u32>)
        ensures
            r == old(self)@.word(addr),
            final(self)@ == old(self)@.after_read(addr),
            same_card(*final(self), *old(self)),
    {
        if align4(addr) == reg::CARD_DATA {
            Some(self.take_word())
        } else {
            self.peek32(addr)
        }
    }

    /// Pop one word of the current transfer.
    ///
    /// Reading past the end returns all ones, and clears the ready flag so that a driver that
    /// over-reads stops.
    fn take_word(&mut self) -> (r: u32)
        ensures
            r == old(self)@.next_word(),
            final(self)@ == old(self)@.popped(),
            same_card(*final(self), *old(self)),
    {
        let word = if self.read_index < self.pending.len() {
            let word = self.pending[self.read_index];
            self.read_index = self.read_index + 1;
            word
        } else {
            u32::MAX
        };
        if self.read_index >= self.pending.len() {
            self.romctrl = self.romctrl & 0x7F7F_FFFF;
        }
        word
    }

    pub fn write32(&mut self, addr: u32, value: u32) -> (r: bool)
        ensures
            final(self)@ == old(self)@.written(addr, value),
            r == (old(self)@.peeked(addr) is Some),
            same_card(*final(self), *old(self)),
    {
        let word = align4(addr);
        if word == reg::AUXSPICNT {
            self.auxspicnt = value as u16;
        } else if word == reg::ROMCTRL {
            self.set_romctrl(value);
        } else if word == reg::CARD_COMMAND {
            self.set_command(0, value);
        } else if word == reg::CARD_COMMAND + 4 {
            self.set_command(4, value);
        } else if word != reg::CARD_DATA {
            return false;
        }
        true
    }

    /// Four bytes of the command, the lowest address first.
    fn set_command(&mut self, at: usize, value: u32)
        requires
            at == 0 || at == 4,
        ensures
            final(self)@ == old(self)@.with_command(at as int, value),
            same_card(*final(self), *old(self)),
    {
        self.command[at] = (value % 0x100) as u8;
        self.command[at + 1] = (value / 0x100 % 0x100) as u8;
        self.command[at + 2] = (value / 0x1_0000 % 0x100) as u8;
        self.command[at + 3] = (value / 0x100_0000) as u8;
        assert(self@ =~= old(self)@.with_command(at as int, value));
    }

    pub fn read16(&mut self, addr: u32) -> (r: Option<u16>)
        ensures
            align2(addr) == reg::AUXSPIDATA ==> r == Some(old(self)@.spi_data as u16)
                && final(self)@ == old(self)@,
            align2(addr) != reg::AUXSPIDATA ==> final(self)@ == old(self)@.after_read(addr) && r
                == (match old(self)@.word(addr) {
                None => None,
                Some(word) => Some(half_at(word, addr)),
            }),
            same_card(*final(self), *old(self)),
    {
        if align2(addr) == reg::AUXSPIDATA {
            return Some(self.spi_data as u16);
        }
        match self.read32(addr) {
            None => None,
            Some(word) => Some(half_at(word, addr)),
        }
    }

    pub fn write16(&mut self, addr: u32, value: u16) -> (r: bool)
        ensures
            final(self)@ == old(self)@.written16(addr, value),
            r == (old(self)@.peeked(addr) is Some),
            same_card(*final(self), *old(self)),
    {
        if align2(addr) == reg::AUXSPIDATA {
            self.spi_transfer((value % 0x100) as u8);
            return true;
        }
        if align2(addr) == reg::AUXSPICNT {
            self.auxspicnt = value;
            return true;
        }
        match self.peek32(addr) {
            None => false,
            Some(current) => self.write32(addr, with_half(current, addr, value)),
        }
    }

    pub fn read8(&mut self, addr: u32) -> (r: Option<u8>)
        ensures
            final(self)@ == old(self)@.after_read(addr),
            r == (match old(self)@.word(addr) {
                None => None,
                Some(word) => Some(byte_at(word, addr)),
            }),
            same_card(*final(self), *old(self)),
    {
        match self.read32(addr) {
            None => None,
            Some(word) => Some(byte_at(word, addr)),
        }
    }

    pub fn write8(&mut self, addr: u32, value: u8) -> (r: bool)
        ensures
            final(self)@ == old(self)@.written8(addr, value),
            r == (old(self)@.peeked(addr) is Some),
            same_card(*final(self), *old(self)),
    {
        match self.peek32(addr) {
            None => false,
            Some(current) => self.write32(addr, with_byte(current, addr, value)),
        }
    }

    /// A read that does not pop the data FIFO, for splicing a narrow write.
    fn peek32(&self, addr: u32) -> (r: Option<u32>)
        ensures
            r == self@.peeked(addr),
    {
        let word = align4(addr);
        if word == reg::AUXSPICNT {
            Some(self.auxspicnt as u32)
        } else if word == reg::ROMCTRL {
            Some(self.romctrl)
        } else if word == reg::CARD_COMMAND {
            Some(self.command_word(0))
        } else if word == reg::CARD_COMMAND + 4 {
            Some(self.command_word(4))
        } else if word == reg::CARD_DATA {
            Some(0)
        } else {
            None
        }
    }

    /// Shift a byte at the save chip.
    fn spi_transfer(&mut self, byte: u8)
        ensures
            final(self)@ == old(self)@.shifted(byte),
            same_card(*final(self), *old(self)),
    {
        if self.auxspicnt < 0x8000 {
            // The SPI bus is disabled; nothing is connected to shift through.
            return;
        }
        let hold = self.auxspicnt & 0x40 != 0;
        self.request = Some(SpiRequest { byte, hold });
    }

    fn set_romctrl(&mut self, value: u32)
        ensures
            final(self)@ == old(self)@.controlled(value),
            same_card(*final(self), *old(self)),
    {
        let starting = value >= 0x8000_0000 && self.romctrl < 0x8000_0000;
        self.romctrl = value;
        if starting {
            self.begin_transfer();
        }
    }

    /// Interpret the eight-byte command and fill the data FIFO.
    fn begin_transfer(&mut self)
        ensures
            final(self)@ == old(self)@.begun(),
            same_card(*final(self), *old(self)),
    {
        let words = block_words(self.romctrl);
        self.read_index = 0;
        if words == 0 {
            self.pending = Vec::new();
            self.romctrl = self.romctrl & 0x7F7F_FFFF;
            assert(self@ =~= old(self)@.begun());
            return;
        }
        let opcode = self.command[0];
        let named: u32 = self.command[1] as u32 * 0x100_0000 + self.command[2] as u32 * 0x1_0000
            + self.command[3] as u32 * 0x100 + self.command[4] as u32;
        let address: u32 = named - named % 4;
        // Header, main data read, chip ID; anything else drives all ones.
        self.pending =
        if opcode == 0x00 {
            self.words_from_rom(0, words)
        } else if opcode == 0xB7 {
            self.words_from_rom(address, words)
        } else if opcode == 0x90 || opcode == 0xB8 {
            vec![self.chip_id();words]
        } else {
            vec![u32::MAX;words]
        };
        self.romctrl = self.romctrl | 0x8080_0000;
        assert(self@ =~= old(self)@.begun());
    }

    fn words_from_rom(&self, address: u32, words: usize) -> (r: Vec<u32>)
        requires
            words <= 4096,
        ensures
            r@ == Seq::new(
                words as nat,
                |i: int| rom_word(self@.rom, read_offset(address as int, i)),
            ),
    {
        let mut list: Vec<u32> = Vec::new();
        let len = self.rom.len() as u64;
        for i in 0..words
            invariant
                words <= 4096,
                len == self.rom.len(),
                list@.len() == i,
                forall|j: int|
                    0 <= j < i ==> #[trigger] list@[j] == rom_word(
                        self@.rom,
                        read_offset(address as int, j),
                    ),
        {
            let start: u64 = address as u64;
            let offset: u64 = if start < 0x8000 {
                start + 4 * i as u64
            } else {
                start - start % 0x1000 + (start + 4 * i as u64) % 0x1000
            };
            let word = if offset + 4 <= len {
                let at = offset as usize;
                assert(at + 4 <= self.rom.len());
                self.rom[at] as u32 + 0x100 * self.rom[at + 1] as u32 + 0x1_0000 * self.rom[at
                    + 2] as u32 + 0x100_0000 * self.rom[at + 3] as u32
            } else {
                u32::MAX
            };
            list.push(word);
        }
        assert(list@ =~= Seq::new(
            words as nat,
            |i: int| rom_word(self@.rom, read_offset(address as int, i)),
        ));
        list
    }

    /// A plausible chip ID: 1 MiB-unit capacity in the middle byte, as real carts report.
    fn chip_id(&self) -> (r: u32)
        ensures
            r == chip_id_of(self@.rom),
    {
        if !self.is_present() {
            return u32::MAX;
        }
        let megabytes: usize = self.rom.len() / 0x10_0000;
        let clamped: u32 = if megabytes < 1 {
            1
        } else if megabytes > 0x7F {
            0x7F
        } else {
            megabytes as u32
        };
        0xC2 + 0x100 * (clamped - 1)
    }

    /// Whether a transfer just finished, which is what raises the card interrupt.
    pub fn transfer_complete(&self) -> (r: bool)
        ensures
            r == (self@.romctrl < romctrl::START && self@.pending.len() > 0),
    {
        self.romctrl < romctrl::START && self.pending.len() > 0
    }

    /// Whether a word is waiting, which is what arms a card DMA.
    pub fn data_ready(&self) -> (r: bool)
        ensures
            r == (self@.romctrl & romctrl::DATA_READY != 0),
    {
        self.romctrl & romctrl::DATA_READY != 0
    }

    /// Reset the console's end. The ROM and the save chip's contents stay.
    pub fn reset(&mut self)
        ensures
            final(self)@ == old(self)@.cleared(),
            same_card(*final(self), *old(self)),
    {
        self.auxspicnt = 0;
        self.spi_data = 0;
        self.romctrl = 0;
        self.command = crate::arrays::filled(0);
        self.pending = Vec::new();
        self.read_index = 0;
        self.request = None;
        assert(self@ =~= old(self)@.cleared());
    }

    /// Save the registers of the serial port that the save chip hangs on.
    pub fn save_port(&self, w: &mut StateWriter)
        ensures
            state::continues(old(w)@, final(w)@),
            final(w)@.len() == old(w)@.len() + 3,
            self@.port_held(final(w)@, old(w)@.len() as int),
    {
        w.write_u16(self.auxspicnt);
        w.write_u8(self.spi_data);
    }

    /// Save the registers of the card bus and the transfer under way.
    pub fn save_transfer(&self, w: &mut StateWriter)
        ensures
            state::continues(old(w)@, final(w)@),
            final(w)@.len() == old(w)@.len() + 28 + 4 * self@.pending.len(),
            self@.transfer_held(final(w)@, old(w)@.len() as int),
    {
        let ghost at = w@.len() as int;
        w.write_u32(self.romctrl);
        w.write_bytes(&self.command);
        let ghost one = w@;
        w.write_counted_words(self.pending.as_slice());
        let ghost two = w@;
        w.write_u64(self.read_index as u64);
        proof {
            state::lemma_bytes_kept(one, w@, at + 4, self.command@);
            state::lemma_words_kept(two, w@, at + 20, self.pending@);
            assert(state::le64(w@, at + 12) == state::le64(two, at + 12));
        }
    }

    /// Save the registers. The ROM is not written: it is the file on disk. A save chip writes what it
    /// holds between [`NdsCartridge::save_port`] and [`NdsCartridge::save_transfer`]; here there is
    /// none.
    pub fn save(&self, w: &mut StateWriter)
        ensures
            state::continues(old(w)@, final(w)@),
            final(w)@.len() == old(w)@.len() + saved_size(self@.pending.len() as int),
            self@.port_held(final(w)@, old(w)@.len() as int),
            self@.transfer_held(final(w)@, old(w)@.len() as int + 3),
            self@.pending.len() <= MOST_PENDING && self@.read_index <= self@.pending.len()
                ==> self@.encoded_at(final(w)@, old(w)@.len() as int),
    {
        let ghost at = w@.len() as int;
        self.save_port(w);
        self.save_transfer(w);
        proof {
            if self@.pending.len() <= MOST_PENDING && self@.read_index <= self@.pending.len() {
                lemma_held_is_encoded(self@, w@, at);
            }
        }
    }

    /// Read the serial port's registers back.
    pub fn load_port(&mut self, r: &mut StateReader) -> (result: Result<(), StateError>)
        ensures
            final(self)@ == old(self)@.port_restored(
                old(r).data(),
                old(r).limit(),
                old(r).pos() as int,
            ),
            same_card(*final(self), *old(self)),
            state::advanced(*old(r), *final(r), 3),
            result == state::verdict(*final(r)),
    {
        self.auxspicnt = r.u16_or(self.auxspicnt);
        self.spi_data = r.u8_or(self.spi_data);
        assert(self@ =~= old(self)@.port_restored(
            old(r).data(),
            old(r).limit(),
            old(r).pos() as int,
        ));
        r.status()
    }

    /// Read the card bus back. A transfer longer than any that is saved is malformed.
    pub fn load_transfer(&mut self, r: &mut StateReader) -> (result: Result<(), StateError>)
        ensures
            final(self)@ == old(self)@.transfer_restored(
                old(r).data(),
                old(r).limit(),
                old(r).pos() as int,
            ),
            same_card(*final(self), *old(self)),
            final(r).data() == old(r).data(),
            final(r).error() == transfer_error(*old(r), old(self)@.pending),
            final(r).error() is None ==> final(r).pos() == old(r).pos() + 28 + 4
                * final(self)@.pending.len(),
            result == state::verdict(*final(r)),
    {
        self.romctrl = r.u32_or(self.romctrl);
        r.read_bytes(&mut self.command);
        r.read_counted_words(Counted::CardWords, &mut self.pending);
        let index = r.u64_or(0);
        if !r.failed() {
            self.read_index =
            if index < self.pending.len() as u64 {
                index as usize
            } else {
                self.pending.len()
            };
        }
        assert(self@ =~= old(self)@.transfer_restored(
            old(r).data(),
            old(r).limit(),
            old(r).pos() as int,
        ));
        r.status()
    }

    /// Read the registers back, where no save chip wrote between them.
    pub fn load(&mut self, r: &mut StateReader) -> (result: Result<(), StateError>)
        ensures
            final(self)@ == old(self)@.restored(
                old(r).data(),
                old(r).limit(),
                old(r).pos() as int,
            ),
            same_card(*final(self), *old(self)),
            final(r).data() == old(r).data(),
            final(r).error() == load_error(*old(r), old(self)@.pending),
            final(r).error() is None ==> final(r).pos() == old(r).pos() + saved_size(
                final(self)@.pending.len() as int,
            ),
            result == state::verdict(*final(r)),
    {
        let _ = self.load_port(r);
        let result = self.load_transfer(r);
        assert(self@ =~= old(self)@.restored(old(r).data(), old(r).limit(), old(r).pos() as int));
        result
    }
}

/// A piece of a ROM, or nothing where the ROM does not hold all of it.
pub open spec fn piece_of(rom: Seq<u8>, offset: int, size: int) -> Seq<u8> {
    if offset + size <= rom.len() {
        rom.subrange(offset, offset + size)
    } else {
        Seq::empty()
    }
}

/// Registers in the stream are registers that can be read back, where the transfer is one that may
/// be saved.
proof fn lemma_held_is_encoded(s: CardState, d: Seq<u8>, at: int)
    requires
        0 <= at,
        s.wf(),
        s.port_held(d, at),
        s.transfer_held(d, at + 3),
        s.pending.len() <= MOST_PENDING,
        s.read_index <= s.pending.len(),
    ensures
        s.encoded_at(d, at),
{
    let run = state::counted_words(d, at + 15, Counted::CardWords, s.pending);
    assert forall|i: int| 0 <= i < s.pending.len() implies run.list[i] == #[trigger] s.pending[i] by {
        assert(state::words_or(d, d.len() as int, at + 23, s.pending)[i] == s.pending[i]);
    }
    assert(run.list =~= s.pending);
    assert(s.restored(d, d.len() as int, at) =~= s);
}

/// The two halves of a saved cartridge come back whole, read into any cartridge with the same ROM,
/// however much a save chip wrote between them.
pub proof fn law_both_halves_come_back(
    saved: CardState,
    before: CardState,
    d: Seq<u8>,
    port_at: int,
    transfer_at: int,
)
    requires
        0 <= port_at,
        0 <= transfer_at,
        saved.wf(),
        before.wf(),
        saved.rom == before.rom,
        saved.request == before.request,
        saved.port_held(d, port_at),
        saved.transfer_held(d, transfer_at),
        saved.pending.len() <= MOST_PENDING,
        saved.read_index <= saved.pending.len(),
    ensures
        before.port_restored(d, d.len() as int, port_at).transfer_restored(
            d,
            d.len() as int,
            transfer_at,
        ) == saved,
{
    let limit = d.len() as int;
    let read = before.port_restored(d, limit, port_at).transfer_restored(d, limit, transfer_at);
    state::lemma_bytes_decided(d, transfer_at + 4, saved.command, before.command);
    assert forall|i: int| 0 <= i < saved.pending.len() implies read.pending[i]
        == #[trigger] saved.pending[i] by {
        assert(state::words_or(d, limit, transfer_at + 20, saved.pending)[i] == saved.pending[i]);
    }
    assert(read.pending =~= saved.pending);
    assert(read =~= saved);
}

/// Registers that were saved come back whole, read into any cartridge with the same ROM.
pub proof fn law_save_then_load(saved: CardState, before: CardState, d: Seq<u8>, at: int)
    requires
        0 <= at,
        saved.wf(),
        before.wf(),
        saved.rom == before.rom,
        saved.request == before.request,
        saved.encoded_at(d, at),
    ensures
        before.restored(d, d.len() as int, at) == saved,
{
    state::lemma_bytes_decided(d, at + 7, saved.command, before.command);
    let a = state::counted_words(d, at + 15, Counted::CardWords, saved.pending);
    let b = state::counted_words(d, at + 15, Counted::CardWords, before.pending);
    assert(a.list =~= b.list && a.at == b.at && a.error == b.error);
    assert(before.restored(d, d.len() as int, at) =~= saved);
}

/// A header that was accepted points at binaries that are there: direct boot hands back all of
/// both.
pub proof fn law_accepted_binaries_are_whole(rom: Seq<u8>, header: Header)
    requires
        header.describes(rom),
        header::binary_end(rom, 0x20) <= rom.len(),
        header::binary_end(rom, 0x30) <= rom.len(),
    ensures
        piece_of(rom, header.arm9_rom_offset as int, header.arm9_size as int).len()
            == header.arm9_size,
        piece_of(rom, header.arm7_rom_offset as int, header.arm7_size as int).len()
            == header.arm7_size,
{
}

/// An empty slot answers every command with all ones.
pub proof fn law_an_empty_slot_drives_ones(card: CardState, i: int)
    requires
        card.rom.len() == 0,
        0 <= i,
    ensures
        card.answer(i) == u32::MAX,
{
}

/// A byte of the command is at its own address, however wide the write was: eight byte writes and
/// two word writes come to the same command.
#[verifier::rlimit(30)]
pub proof fn law_the_command_is_eight_bytes_at_eight_addresses(card: CardState, i: u32, byte: u8)
    requires
        card.wf(),
        i < 8,
    ensures
        card.written8((reg::CARD_COMMAND + i) as u32, byte).command == card.command.update(
            i as int,
            byte,
        ),
{
    let addr = (reg::CARD_COMMAND + i) as u32;
    let at: int = if i < 4 { 0 } else { 4 };
    let c = card.command;
    let word = state::le32(c, at);
    let spliced = with_byte(word, addr, byte);
    let n = c.update(i as int, byte);
    assert(addr % 4 == i % 4);
    lemma_spliced(c[at], c[at + 1], c[at + 2], c[at + 3], word, addr, byte);
    assert(card.peeked(addr) == Some(word));
    assert(card.written8(addr, byte) == card.with_command(at, spliced));
    assert(spliced == n[at] + 0x100 * n[at + 1] + 0x1_0000 * n[at + 2] + 0x100_0000 * n[at + 3]);
    lemma_four_bytes(n[at], n[at + 1], n[at + 2], n[at + 3], spliced);
    assert(card.with_command(at, spliced).command =~= n);
}

/// A word with one of its bytes replaced.
proof fn lemma_spliced(b0: u8, b1: u8, b2: u8, b3: u8, word: u32, addr: u32, byte: u8)
    requires
        word == b0 + 0x100 * b1 + 0x1_0000 * b2 + 0x100_0000 * b3,
    ensures
        addr % 4 == 0 ==> with_byte(word, addr, byte) == byte + 0x100 * b1 + 0x1_0000 * b2
            + 0x100_0000 * b3,
        addr % 4 == 1 ==> with_byte(word, addr, byte) == b0 + 0x100 * byte + 0x1_0000 * b2
            + 0x100_0000 * b3,
        addr % 4 == 2 ==> with_byte(word, addr, byte) == b0 + 0x100 * b1 + 0x1_0000 * byte
            + 0x100_0000 * b3,
        addr % 4 == 3 ==> with_byte(word, addr, byte) == b0 + 0x100 * b1 + 0x1_0000 * b2
            + 0x100_0000 * byte,
{
    lemma_four_bytes(b0, b1, b2, b3, word);
}

/// The four bytes of a word.
proof fn lemma_four_bytes(b0: u8, b1: u8, b2: u8, b3: u8, word: u32)
    requires
        word == b0 + 0x100 * b1 + 0x1_0000 * b2 + 0x100_0000 * b3,
    ensures
        word % 0x100 == b0,
        word % 0x1_0000 == b0 + 0x100 * b1,
        word % 0x100_0000 == b0 + 0x100 * b1 + 0x1_0000 * b2,
        word / 0x100 % 0x100 == b1,
        word / 0x1_0000 % 0x100 == b2,
        word / 0x100_0000 == b3,
{
    assert(word / 0x100 == b1 + 0x100 * b2 + 0x1_0000 * b3);
    assert(word / 0x1_0000 == b2 + 0x100 * b3);
}

/// Words come out in order, one per read, and past the last one only all ones do.
pub proof fn law_words_come_out_in_order(card: CardState)
    requires
        card.wf(),
        card.read_index < card.pending.len(),
    ensures
        card.next_word() == card.pending[card.read_index],
        card.popped().read_index == card.read_index + 1,
        card.popped().pending == card.pending,
        card.read_index + 1 == card.pending.len() ==> card.popped().next_word() == u32::MAX
            && card.popped().romctrl & romctrl::DATA_READY == 0 && card.popped().romctrl
            < romctrl::START,
{
    lemma_ready_flag(card.romctrl);
}

/// A transfer that has begun has a word ready unless its block is empty.
pub proof fn law_a_begun_transfer_is_ready(card: CardState)
    ensures
        block_words(card.romctrl) > 0 ==> card.begun().romctrl & romctrl::DATA_READY != 0
            && card.begun().pending.len() == block_words(card.romctrl),
        block_words(card.romctrl) == 0 ==> card.begun().romctrl & romctrl::DATA_READY == 0
            && card.begun().romctrl < romctrl::START,
{
    lemma_ready_flag(card.romctrl);
}

/// A read above the secure area stays inside the 4 KiB block that holds its start.
pub proof fn law_reads_wrap_inside_their_block(address: int, i: int)
    requires
        address >= 0x8000,
        0 <= i,
    ensures
        read_offset(address, i) / 0x1000 == address / 0x1000,
{
}

/// The ready flag and the start bit, set and cleared.
proof fn lemma_ready_flag(c: u32)
    ensures
        (c | 0x8080_0000) & 0x0080_0000 != 0,
        (c & 0x7F7F_FFFF) & 0x0080_0000 == 0,
        (c & 0x7F7F_FFFF) < 0x8000_0000,
{
    assert((c | 0x8080_0000) & 0x0080_0000 != 0 && (c & 0x7F7F_FFFF) & 0x0080_0000 == 0 && (c
        & 0x7F7F_FFFF) < 0x8000_0000) by (bit_vector);
}

/// A read gives back the ROM: word `i` of a `0xB7` command below the secure area's end is made of the
/// four bytes `4 * i` beyond the address in the command, the lowest first, and past the end of the ROM
/// only ones come.
pub proof fn law_a_read_gives_back_the_rom(card: CardState, i: int)
    requires
        card.wf(),
        card.command[0] == 0xB7,
        0 <= i < block_words(card.romctrl),
    ensures
        ({
            let at = card.command[1] * 0x100_0000 + card.command[2] * 0x1_0000 + card.command[3] * 0x100
                + card.command[4] / 4 * 4;
            let from = if at < 0x8000 || at % 0x1000 + 4 * i < 0x1000 {
                at + 4 * i
            } else {
                at - at % 0x1000 + (at + 4 * i) % 0x1000
            };
            let word = card.begun().pending[i] as int;
            &&& from + 4 <= card.rom.len() ==> word == card.rom[from] + 0x100 * card.rom[from + 1]
                + 0x1_0000 * card.rom[from + 2] + 0x100_0000 * card.rom[from + 3]
            &&& from + 4 > card.rom.len() ==> word == 0xFFFF_FFFF
        }),
{
    let last = card.command[4] as int;
    assert(last / 4 * 4 == last - last % 4);
    let at = card.address();
    if at >= 0x8000 && at % 0x1000 + 4 * i < 0x1000 {
        assert((at + 4 * i) % 0x1000 == at % 0x1000 + 4 * i);
    }
}

/// A block has `0x100` bytes doubled once for each step of its setting, but the last setting is one
/// word; the identity command fills it with the same word over and over.
pub proof fn law_blocks_double(card: CardState, i: int)
    requires
        card.wf(),
    ensures
        ({
            let setting = card.romctrl / 0x100_0000 % 8;
            let bytes = 4 * card.begun().pending.len();
            &&& setting == 0 ==> bytes == 0
            &&& setting == 1 ==> bytes == 0x200
            &&& setting == 2 ==> bytes == 0x400
            &&& setting == 3 ==> bytes == 0x800
            &&& setting == 4 ==> bytes == 0x1000
            &&& setting == 5 ==> bytes == 0x2000
            &&& setting == 6 ==> bytes == 0x4000
            &&& setting == 7 ==> bytes == 4
            &&& card.command[0] == 0xB8 && 0 <= i < card.begun().pending.len() && card.rom.len() > 0
                ==> card.begun().pending[i] % 0x100 == 0xC2
        }),
{
}

/// The identity of a card names its size in megabytes, one less, above a byte that names its maker; an empty
/// slot answers with ones.
pub proof fn law_the_identity_names_the_size(rom: Seq<u8>, megabytes: int)
    requires
        1 <= megabytes <= 127,
        rom.len() == 0x10_0000 * megabytes,
    ensures
        chip_id_of(rom) / 0x100 + 1 == megabytes,
        chip_id_of(rom) % 0x100 == 0xC2,
        chip_id_of(Seq::empty()) == 0xFFFF_FFFF,
{
    assert(rom.len() as int / 0x10_0000 == megabytes);
}

} // verus!
