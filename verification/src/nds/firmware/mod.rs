//! The firmware serial flash on the ARM7's SPI bus.
//!
//! The chip holds the console's own configuration, and a game reads it directly over SPI. The image
//! here is fabricated: a header whose pointers are consistent, a wifi configuration block, and the
//! two user-settings blocks with correct checksums and a valid update counter. Writes land in the
//! image and stay there.

pub mod laws;
pub mod op;
pub mod status;

use vstd::prelude::*;
use vstd::slice::slice_subrange;
use crate::nds::bios::crc16;
use crate::nds::bios::crc_of;
use crate::state::{self, StateError, StateReader, StateWriter};

verus! {

/// The flash is 256 KiB.
pub const SIZE: usize = 0x4_0000;

/// Where the two user-settings blocks live.
///
/// Two copies, written alternately, so a power loss part-way through a write cannot leave the
/// console with no settings at all. Software picks the newer by the update counters at offset
/// `0x70` of each.
pub const SETTINGS_A: usize = 0x3_FE00;

pub const SETTINGS_B: usize = 0x3_FF00;

/// One settings block.
pub const SETTINGS_LEN: usize = 0x100;

/// Where the header keeps `SETTINGS_A / 8`, which is how software finds the blocks at all.
pub const SETTINGS_POINTER: usize = 0x20;

/// Where the wifi configuration block starts, and where the header points at it in 8-byte units.
pub const WIFI_CONFIG: usize = 0x2_1000;

pub const WIFI_CONFIG_POINTER: usize = 0x00;

/// Size of the wifi configuration block that its own checksum covers.
pub const WIFI_CONFIG_LEN: usize = 0x138;

/// The identity that the chip reports: manufacturer, type, and the base-two logarithm of the size.
pub const JEDEC_ID: [u8; 3] = [0x20, 0x40, 0x12];

/// A page, which is what a program wraps within and what `PAGE_ERASE` clears.
pub const PAGE: usize = 0x100;

/// A sector, which is what `SECTOR_ERASE` clears.
pub const SECTOR: usize = 0x1_0000;

/// The byte of a settings block at `i`, up to the counter: version 5, the first of January, an
/// empty nickname and message, a linear touchscreen calibration from the origin to the far corner,
/// and English.
pub open spec fn settings_body(i: int) -> u8 {
    if i == 0x00 {
        5
    } else if i == 0x03 || i == 0x04 {
        1
    } else if i == 0x5E {
        // 255 pixels in raw counts, and 191 below.
        0xF0
    } else if i == 0x5F {
        0x0F
    } else if i == 0x60 {
        0xF0
    } else if i == 0x61 {
        0x0B
    } else if i == 0x62 {
        255
    } else if i == 0x63 {
        191
    } else if i == 0x64 {
        1
    } else {
        0
    }
}

/// The checksum of a settings block, over everything before the counter, started from all ones.
pub open spec fn settings_crc() -> u16 {
    crc_of(0xFFFF, Seq::new(0x70, |i: int| settings_body(i)))
}

/// The byte of a settings block at `i`.
pub open spec fn settings_byte(i: int, counter: u16) -> u8 {
    if i < 0x70 {
        settings_body(i)
    } else if i == 0x70 {
        (counter % 0x100) as u8
    } else if i == 0x71 {
        (counter / 0x100) as u8
    } else if i == 0x72 {
        (settings_crc() % 0x100) as u8
    } else if i == 0x73 {
        (settings_crc() / 0x100) as u8
    } else {
        0
    }
}

/// The byte of the wifi block at `i`: its length, a locally administered MAC address, and channels
/// 1 to 13.
pub open spec fn wifi_byte(i: int) -> u8 {
    if i == 0x00 {
        0x38
    } else if i == 0x01 {
        0x01
    } else if i == 0x36 {
        0x02
    } else if i == 0x3B {
        0x01
    } else if i == 0x3C {
        0xFE
    } else if i == 0x3D {
        0x3F
    } else {
        0
    }
}

/// The checksum of the wifi block, which the header keeps.
pub open spec fn wifi_crc() -> u16 {
    crc_of(0, Seq::new(WIFI_CONFIG_LEN as nat, |i: int| wifi_byte(i)))
}

/// The byte of the header at `i`: the two pointers in 8-byte units, and the wifi checksum.
pub open spec fn header_byte(i: int) -> u8 {
    if i == 0x01 {
        0x42
    } else if i == 0x02 {
        (wifi_crc() % 0x100) as u8
    } else if i == 0x03 {
        (wifi_crc() / 0x100) as u8
    } else if i == 0x20 {
        0xC0
    } else if i == 0x21 {
        0x7F
    } else {
        0
    }
}

/// The byte of the fabricated image at `i`.
pub open spec fn image_byte(i: int) -> u8 {
    if i < 0x100 {
        header_byte(i)
    } else if WIFI_CONFIG <= i < WIFI_CONFIG + WIFI_CONFIG_LEN {
        wifi_byte(i - WIFI_CONFIG)
    } else if SETTINGS_A <= i < SETTINGS_B {
        settings_byte(i - SETTINGS_A, 0)
    } else if SETTINGS_B <= i {
        settings_byte(i - SETTINGS_B, 1)
    } else {
        0
    }
}

/// The fabricated image. The parts of a firmware that are code are zero.
pub open spec fn fabricated() -> Seq<u8> {
    Seq::new(SIZE as nat, |i: int| image_byte(i))
}

/// A chip: an image, and where a transfer has got to within one command.
#[verifier::ext_equal]
pub struct FirmwareState {
    pub image: Seq<u8>,
    pub command: Option<u8>,
    pub position: u32,
    pub address: u32,
    pub status: u8,
}

/// The commands that take a three-byte address first.
pub open spec fn takes_address(command: u8) -> bool {
    ||| command == op::READ
    ||| command == op::FAST_READ
    ||| command == op::PAGE_WRITE
    ||| command == op::PAGE_PROGRAM
    ||| command == op::PAGE_ERASE
    ||| command == op::SECTOR_ERASE
}

/// How many bytes a chip saves.
pub open spec fn saved_size() -> int {
    SIZE + 11
}

impl FirmwareState {
    /// A console that has been set up once and never touched since.
    pub open spec fn initial() -> FirmwareState {
        FirmwareState { image: fabricated(), command: None, position: 0, address: 0, status: 0 }
    }

    pub open spec fn wf(self) -> bool {
        self.image.len() == SIZE
    }

    /// Where in the image the address points.
    pub open spec fn at(self) -> int {
        self.address as int % SIZE as int
    }

    /// Whether the chip has written a byte under the command in progress.
    pub open spec fn has_written(self) -> bool {
        &&& self.command == Some(op::PAGE_WRITE) || self.command == Some(op::PAGE_PROGRAM)
        &&& self.position > 4
    }

    /// The select line released: the command is over, and a write that it made is complete.
    pub open spec fn deselected(self) -> FirmwareState {
        FirmwareState {
            command: None,
            position: 0,
            address: 0,
            status: if self.has_written() { self.status & !status::WEL } else { self.status },
            ..self
        }
    }

    /// An opcode taken in.
    pub open spec fn begun(self, command: u8) -> FirmwareState {
        FirmwareState {
            command: Some(command),
            position: 1,
            address: 0,
            status: if command == op::WRITE_ENABLE {
                self.status | status::WEL
            } else if command == op::WRITE_DISABLE {
                self.status & !status::WEL
            } else {
                self.status
            },
            ..self
        }
    }

    /// An erase, which happens the moment its address is complete.
    pub open spec fn erased(self, command: u8) -> FirmwareState {
        let span = if command == op::PAGE_ERASE { PAGE as int } else { SECTOR as int };
        if (command == op::PAGE_ERASE || command == op::SECTOR_ERASE) && self.status & status::WEL
            != 0 {
            let base = self.at() - self.at() % span;
            FirmwareState {
                image: Seq::new(
                    SIZE as nat,
                    |i: int| if base <= i < base + span { 0xFFu8 } else { self.image[i] },
                ),
                status: self.status & !status::WEL,
                ..self
            }
        } else {
            self
        }
    }

    /// One byte programmed: `PAGE_PROGRAM` can only clear bits, `PAGE_WRITE` replaces the byte. The
    /// address wraps within its page.
    pub open spec fn programmed(self, command: u8, byte: u8) -> FirmwareState {
        let stored = if command == op::PAGE_PROGRAM { self.image[self.at()] & byte } else { byte };
        FirmwareState {
            image: if self.status & status::WEL != 0 {
                self.image.update(self.at(), stored)
            } else {
                self.image
            },
            address: (self.address - self.address % 0x100 + (self.address + 1) % 0x100) as u32,
            ..self
        }
    }

    /// One more byte of a command that takes an address.
    pub open spec fn addressed(self, command: u8, position: u32, byte: u8) -> FirmwareState {
        if position <= 3 {
            let shifted = FirmwareState {
                address: (self.address % 0x100_0000 * 0x100 + byte) as u32,
                ..self
            };
            if position == 3 {
                shifted.erased(command)
            } else {
                shifted
            }
        } else if command == op::FAST_READ && position == 4 {
            self
        } else if command == op::READ || command == op::FAST_READ {
            FirmwareState { address: self.address.wrapping_add(1), ..self }
        } else if command == op::PAGE_WRITE || command == op::PAGE_PROGRAM {
            self.programmed(command, byte)
        } else {
            self
        }
    }

    /// The chip after one byte was shifted in.
    pub open spec fn transferred(self, byte: u8) -> FirmwareState {
        match self.command {
            None => self.begun(byte),
            Some(command) => {
                let counted = FirmwareState {
                    position: if self.position < u32::MAX {
                        (self.position + 1) as u32
                    } else {
                        u32::MAX
                    },
                    ..self
                };
                if takes_address(command) {
                    counted.addressed(command, self.position, byte)
                } else {
                    counted
                }
            },
        }
    }

    /// The byte that is shifted out at the same time.
    pub open spec fn answer(self) -> u8 {
        match self.command {
            None => 0,
            Some(command) => if command == op::READ && self.position > 3 || command
                == op::FAST_READ && self.position > 4 {
                self.image[self.at()]
            } else if command == op::READ_STATUS {
                self.status
            } else if command == op::READ_ID && 1 <= self.position <= 3 {
                JEDEC_ID[self.position - 1]
            } else {
                0
            },
        }
    }

    /// The settings block that software would take as the current one.
    pub open spec fn current_settings(self) -> int {
        let a = self.image[SETTINGS_A + 0x70] % 0x80;
        let b = self.image[SETTINGS_B + 0x70] % 0x80;
        if (a + 1) % 0x80 == b as int {
            SETTINGS_B as int
        } else {
            SETTINGS_A as int
        }
    }

    /// The chip after reading the stream at `at`, as far as `limit` lets it be read.
    pub open spec fn restored(self, d: Seq<u8>, limit: int, at: int) -> FirmwareState {
        FirmwareState {
            image: state::bytes_or(d, limit, at, self.image),
            command: if at + SIZE + 2 <= limit {
                if d[at + SIZE + 1] != 0 { Some(d[at + SIZE]) } else { None }
            } else {
                self.command
            },
            position: state::or32(d, limit, at + SIZE + 2, self.position),
            address: state::or32(d, limit, at + SIZE + 6, self.address),
            status: state::or8(d, limit, at + SIZE + 10, self.status),
        }
    }

    /// Whether the stream holds exactly this chip at `at`.
    pub open spec fn encoded_at(self, d: Seq<u8>, at: int) -> bool {
        at + saved_size() <= d.len() && self.restored(d, d.len() as int, at) == self
    }
}

/// The firmware flash chip: an image, and where a transfer has got to within one command.
#[derive(Debug, Clone, PartialEq, Eq)]
pub struct Firmware {
    pub image: Vec<u8>,
    /// The opcode of the command in progress, or `None` between commands.
    pub command: Option<u8>,
    /// How many bytes of this command have been shifted in, the opcode included.
    pub position: u32,
    /// The address that the command's three address bytes have built up so far.
    pub address: u32,
    pub status: u8,
}

impl View for Firmware {
    type V = FirmwareState;

    open spec fn view(&self) -> FirmwareState {
        FirmwareState {
            image: self.image@,
            command: self.command,
            position: self.position,
            address: self.address,
            status: self.status,
        }
    }
}

/// Store a halfword, low byte first.
fn put16(bytes: &mut Vec<u8>, at: usize, value: u16)
    requires
        at + 2 <= old(bytes)@.len(),
    ensures
        final(bytes)@ == old(bytes)@.update(at as int, (value % 0x100) as u8).update(
            at + 1,
            (value / 0x100) as u8,
        ),
{
    bytes.set(at, (value % 0x100) as u8);
    assert(at + 2 <= bytes.len());
    bytes.set(at + 1, (value / 0x100) as u8);
}

/// The header's pointers, which are the only part of it that software follows.
fn write_header(image: &mut Vec<u8>)
    requires
        old(image)@.len() == SIZE,
        forall|i: int| 0 <= i < SIZE ==> old(image)@[i] == 0,
    ensures
        final(image)@.len() == SIZE,
        forall|i: int|
            0 <= i < SIZE ==> #[trigger] final(image)@[i] == (if i == 2 || i == 3 || i >= 0x100 {
                0
            } else {
                header_byte(i)
            }),
{
    put16(image, WIFI_CONFIG_POINTER, (WIFI_CONFIG / 8) as u16);
    put16(image, SETTINGS_POINTER, (SETTINGS_A / 8) as u16);
}

/// The wifi configuration block, and the checksum in the header that covers it.
fn write_wifi_config(image: &mut Vec<u8>)
    requires
        old(image)@.len() == SIZE,
        forall|i: int| WIFI_CONFIG <= i < WIFI_CONFIG + WIFI_CONFIG_LEN ==> old(image)@[i] == 0,
    ensures
        final(image)@.len() == SIZE,
        forall|i: int|
            0 <= i < SIZE ==> #[trigger] final(image)@[i] == (if i == 2 || i == 3 {
                header_byte(i)
            } else if WIFI_CONFIG <= i < WIFI_CONFIG + WIFI_CONFIG_LEN {
                wifi_byte(i - WIFI_CONFIG)
            } else {
                old(image)@[i]
            }),
{
    put16(image, WIFI_CONFIG, WIFI_CONFIG_LEN as u16);
    // Bit 1 of the first octet marks an address that was not bought.
    image.set(WIFI_CONFIG + 0x36, 0x02);
    image.set(WIFI_CONFIG + 0x3B, 0x01);
    // Channels 1-13, which is every channel that the radio has.
    put16(image, WIFI_CONFIG + 0x3C, 0x3FFE);
    let block = slice_subrange(image.as_slice(), WIFI_CONFIG, WIFI_CONFIG + WIFI_CONFIG_LEN);
    assert(block@ =~= Seq::new(WIFI_CONFIG_LEN as nat, |i: int| wifi_byte(i)));
    let crc = crc16(0, block);
    put16(image, 0x02, crc);
}

/// One user-settings block, with the update counter and the checksum that make it readable.
fn write_settings(image: &mut Vec<u8>, at: usize, counter: u16)
    requires
        old(image)@.len() == SIZE,
        at + SETTINGS_LEN <= SIZE,
        counter < 0x80,
        forall|i: int| at <= i < at + SETTINGS_LEN ==> old(image)@[i] == 0,
    ensures
        final(image)@.len() == SIZE,
        forall|i: int|
            0 <= i < SIZE ==> #[trigger] final(image)@[i] == (if at <= i < at + SETTINGS_LEN {
                settings_byte(i - at, counter)
            } else {
                old(image)@[i]
            }),
{
    // Version 5, and the settings screen's own defaults for the birthday.
    image.set(at, 5);
    image.set(at + 0x03, 1);
    image.set(at + 0x04, 1);
    // The touchscreen calibration, which is the inverse of what the controller reports: two
    // points, one at the origin and one at the far corner.
    put16(image, at + 0x5E, 255 * crate::nds::input::RAW_PER_PIXEL);
    put16(image, at + 0x60, 191 * crate::nds::input::RAW_PER_PIXEL);
    image.set(at + 0x62, 255);
    image.set(at + 0x63, 191);
    // Language 1, English.
    put16(image, at + 0x64, 0x0001);
    let block = slice_subrange(image.as_slice(), at, at + 0x70);
    assert(block@ =~= Seq::new(0x70, |i: int| settings_body(i)));
    let crc = crc16(0xFFFF, block);
    put16(image, at + 0x70, counter);
    put16(image, at + 0x72, crc);
}

impl Firmware {
    /// A fabricated but self-consistent firmware image.
    pub fn new() -> (r: Self)
        ensures
            r@ == FirmwareState::initial(),
            r@.wf(),
    {
        let mut image: Vec<u8> = vec![0u8;SIZE];
        write_header(&mut image);
        write_wifi_config(&mut image);
        // The counters differ by one, so the comparison that every reader performs has an answer.
        write_settings(&mut image, SETTINGS_A, 0);
        write_settings(&mut image, SETTINGS_B, 1);
        assert(image@ =~= fabricated());
        Firmware { image, command: None, position: 0, address: 0, status: 0 }
    }

    /// The bytes.
    pub fn image(&self) -> (r: &[u8])
        ensures
            r@ == self@.image,
    {
        self.image.as_slice()
    }

    /// The settings block that software would take as the current one.
    ///
    /// The newer is the one whose update counter is one greater than the other's, modulo the seven
    /// bits that the counter occupies.
    pub fn current_user_settings(&self) -> (r: &[u8])
        requires
            self@.wf(),
        ensures
            r@ == self@.image.subrange(
                self@.current_settings(),
                self@.current_settings() + SETTINGS_LEN,
            ),
    {
        let a = self.image[SETTINGS_A + 0x70] % 0x80;
        let b = self.image[SETTINGS_B + 0x70] % 0x80;
        let at: usize = if (a + 1) % 0x80 == b {
            SETTINGS_B
        } else {
            SETTINGS_A
        };
        slice_subrange(self.image.as_slice(), at, at + SETTINGS_LEN)
    }

    /// Deselecting the chip ends whatever command was in progress.
    ///
    /// A command runs for as long as the select line is held, and the next transfer after a release
    /// is an opcode. A write that the command made is complete, and takes the latch with it.
    pub fn deselect(&mut self)
        ensures
            final(self)@ == old(self)@.deselected(),
    {
        if self.position > 4 {
            if let Some(command) = self.command {
                if command == op::PAGE_WRITE || command == op::PAGE_PROGRAM {
                    self.status = self.status & !status::WEL;
                }
            }
        }
        self.command = None;
        self.position = 0;
        self.address = 0;
    }

    /// Shift one byte in, and return the byte shifted out at the same time.
    pub fn transfer(&mut self, byte: u8) -> (r: u8)
        requires
            old(self)@.wf(),
        ensures
            final(self)@.wf(),
            final(self)@ == old(self)@.transferred(byte),
            r == old(self)@.answer(),
    {
        match self.command {
            None => {
                self.begin(byte);
                // The byte shifted out alongside an opcode is not defined by the chip; zero is
                // what a released data line reads as.
                0
            },
            Some(command) => {
                let position = self.position;
                if position < u32::MAX {
                    self.position = position + 1;
                }
                if command == op::READ || command == op::FAST_READ || command == op::PAGE_WRITE
                    || command == op::PAGE_PROGRAM || command == op::PAGE_ERASE || command
                    == op::SECTOR_ERASE {
                    self.addressed(command, position, byte)
                } else if command == op::READ_STATUS {
                    // The status stays available for as long as the driver keeps clocking, which
                    // is how a wait loop is written.
                    self.status
                } else if command == op::READ_ID && 1 <= position && position <= 3 {
                    JEDEC_ID[position as usize - 1]
                } else {
                    0
                }
            },
        }
    }

    /// The opcodes that act the moment they arrive, with no address or data behind them.
    fn begin(&mut self, command: u8)
        ensures
            final(self)@ == old(self)@.begun(command),
    {
        self.command = Some(command);
        self.position = 1;
        self.address = 0;
        if command == op::WRITE_ENABLE {
            self.status = self.status | status::WEL;
        } else if command == op::WRITE_DISABLE {
            self.status = self.status & !status::WEL;
        }
    }

    /// The body of the commands that take a three-byte address first.
    fn addressed(&mut self, command: u8, position: u32, byte: u8) -> (r: u8)
        requires
            old(self)@.wf(),
            takes_address(command),
        ensures
            final(self)@.wf(),
            final(self)@ == old(self)@.addressed(command, position, byte),
            r == (if command == op::READ && position > 3 || command == op::FAST_READ && position
                > 4 {
                old(self)@.image[old(self)@.at()]
            } else {
                0
            }),
    {
        // Bytes one to three are the address, most significant first.
        if position <= 3 {
            self.address = self.address % 0x100_0000 * 0x100 + byte as u32;
            if position == 3 {
                self.on_address_complete(command);
            }
            return 0;
        }
        // `FAST_READ` clocks one dummy byte between the address and the data.
        if command == op::FAST_READ && position == 4 {
            return 0;
        }
        if command == op::READ || command == op::FAST_READ {
            let at: usize = (self.address % 0x4_0000) as usize;
            self.address = self.address.wrapping_add(1);
            self.image[at]
        } else {
            if command == op::PAGE_WRITE || command == op::PAGE_PROGRAM {
                self.program(command, byte);
            }
            0
        }
    }

    /// One byte of `PAGE_WRITE` or `PAGE_PROGRAM`.
    fn program(&mut self, command: u8, byte: u8)
        requires
            old(self)@.wf(),
        ensures
            final(self)@.wf(),
            final(self)@ == old(self)@.programmed(command, byte),
    {
        let at: usize = (self.address % 0x4_0000) as usize;
        if self.status & status::WEL != 0 {
            let stored = if command == op::PAGE_PROGRAM { self.image[at] & byte } else { byte };
            self.image.set(at, stored);
        }
        // A program wraps within its page rather than running on into the next one.
        let offset: u32 = self.address % 0x100;
        let next: u32 = if offset == 0xFF { 0 } else { offset + 1 };
        assert(next == (self.address + 1) % 0x100);
        self.address = self.address - offset + next;
    }

    /// Erases happen the moment their address is complete; there is no data phase behind them.
    fn on_address_complete(&mut self, command: u8)
        requires
            old(self)@.wf(),
        ensures
            final(self)@.wf(),
            final(self)@ == old(self)@.erased(command),
    {
        let span: usize = if command == op::PAGE_ERASE {
            PAGE
        } else if command == op::SECTOR_ERASE {
            SECTOR
        } else {
            return;
        };
        if self.status & status::WEL == 0 {
            return;
        }
        let at: usize = (self.address % 0x4_0000) as usize;
        let base: usize = at - at % span;
        for i in 0..span
            invariant
                base + span <= SIZE,
                self@.wf(),
                self@ == (FirmwareState { image: self@.image, ..old(self)@ }),
                forall|j: int|
                    0 <= j < SIZE ==> #[trigger] self@.image[j] == (if base <= j < base + i {
                        0xFF
                    } else {
                        old(self)@.image[j]
                    }),
        {
            self.image.set(base + i, 0xFF);
        }
        self.status = self.status & !status::WEL;
        assert(self@ =~= old(self)@.erased(command));
    }

    pub fn reset(&mut self)
        ensures
            final(self)@ == FirmwareState::initial(),
            final(self)@.wf(),
    {
        *self = Self::new();
    }

    pub fn save(&self, w: &mut StateWriter)
        requires
            self@.wf(),
        ensures
            state::continues(old(w)@, final(w)@),
            final(w)@.len() == old(w)@.len() + saved_size(),
            self@.encoded_at(final(w)@, old(w)@.len() as int),
    {
        let ghost start = w@;
        w.write_bytes(self.image.as_slice());
        let ghost middle = w@;
        let (opcode, running) = match self.command {
            Some(command) => (command, true),
            None => (0u8, false),
        };
        w.write_u8(opcode);
        w.write_bool(running);
        w.write_u32(self.position);
        w.write_u32(self.address);
        w.write_u8(self.status);
        proof {
            state::lemma_bytes_kept(middle, w@, start.len() as int, self@.image);
        }
        assert(self@.restored(w@, w@.len() as int, start.len() as int) =~= self@);
    }

    pub fn load(&mut self, r: &mut StateReader) -> (result: Result<(), StateError>)
        requires
            old(self)@.wf(),
        ensures
            final(self)@.wf(),
            final(self)@ == old(self)@.restored(
                old(r).data(),
                old(r).limit(),
                old(r).pos() as int,
            ),
            state::advanced(*old(r), *final(r), saved_size()),
            result == state::verdict(*final(r)),
    {
        r.read_bytes(self.image.as_mut_slice());
        let opcode = r.u8_or(0);
        let running = r.bool_or(false);
        if !r.failed() {
            self.command = if running { Some(opcode) } else { None };
        }
        self.position = r.u32_or(self.position);
        self.address = r.u32_or(self.address);
        self.status = r.u8_or(self.status);
        r.status()
    }
}

impl Default for Firmware {
    fn default() -> (r: Self)
        ensures
            r@ == FirmwareState::initial(),
            r@.wf(),
    {
        Firmware::new()
    }
}

/// A chip that was saved comes back whole, read into any chip.
pub proof fn law_save_then_load(saved: FirmwareState, before: FirmwareState, d: Seq<u8>, at: int)
    requires
        0 <= at,
        saved.wf(),
        before.wf(),
        saved.encoded_at(d, at),
    ensures
        before.restored(d, d.len() as int, at) == saved,
{
    state::lemma_bytes_decided(d, at, saved.image, before.image);
    assert(before.restored(d, d.len() as int, at) =~= saved);
}

/// The halfword at `at`, low byte first.
pub open spec fn half_of(image: Seq<u8>, at: int) -> int {
    image[at] + 0x100 * image[at + 1]
}

/// The fabricated image holds together: the header points at both blocks, each block and the wifi
/// configuration pass the checksum that software applies, and one settings block is exactly one
/// update newer.
pub proof fn law_the_image_is_consistent()
    ensures
        half_of(fabricated(), SETTINGS_POINTER as int) * 8 == SETTINGS_A,
        half_of(fabricated(), WIFI_CONFIG_POINTER as int) * 8 == WIFI_CONFIG,
        half_of(fabricated(), 2) == crc_of(
            0,
            fabricated().subrange(WIFI_CONFIG as int, WIFI_CONFIG + WIFI_CONFIG_LEN),
        ),
        half_of(fabricated(), SETTINGS_A + 0x72) == crc_of(
            0xFFFF,
            fabricated().subrange(SETTINGS_A as int, SETTINGS_A + 0x70),
        ),
        half_of(fabricated(), SETTINGS_B + 0x72) == crc_of(
            0xFFFF,
            fabricated().subrange(SETTINGS_B as int, SETTINGS_B + 0x70),
        ),
        half_of(fabricated(), SETTINGS_A + 0x70) + 1 == half_of(fabricated(), SETTINGS_B + 0x70),
        FirmwareState::initial().current_settings() == SETTINGS_B,
{
    assert(fabricated().subrange(WIFI_CONFIG as int, WIFI_CONFIG + WIFI_CONFIG_LEN) =~= Seq::new(
        WIFI_CONFIG_LEN as nat,
        |i: int| wifi_byte(i),
    ));
    assert(fabricated().subrange(SETTINGS_A as int, SETTINGS_A + 0x70) =~= Seq::new(
        0x70,
        |i: int| settings_body(i),
    ));
    assert(fabricated().subrange(SETTINGS_B as int, SETTINGS_B + 0x70) =~= Seq::new(
        0x70,
        |i: int| settings_body(i),
    ));
}

/// The chip never reports a write in progress, whatever is shifted into it.
pub proof fn law_never_busy(chip: FirmwareState, byte: u8)
    requires
        chip.status & status::WIP == 0,
    ensures
        FirmwareState::initial().status & status::WIP == 0,
        chip.transferred(byte).status & status::WIP == 0,
        chip.deselected().status & status::WIP == 0,
{
    lemma_latch(chip.status);
}

/// The enable latch, set and cleared, beside the flag below it.
pub(crate) proof fn lemma_latch(status: u8)
    ensures
        (status | 0x02) & 0x02 != 0,
        (status & !0x02u8) & 0x02 == 0,
        (status & !0x02u8) & 0x01 == status & 0x01,
        (status | 0x02) & 0x01 == status & 0x01,
        0u8 & 0x01 == 0,
{
    assert((status | 0x02) & 0x02 != 0 && (status & !0x02u8) & 0x02 == 0 && (status & !0x02u8) & 0x01
        == status & 0x01 && (status | 0x02) & 0x01 == status & 0x01 && 0u8 & 0x01 == 0) by (bit_vector);
}

/// Nothing changes the image while the enable latch is clear.
pub proof fn law_writes_need_the_latch(chip: FirmwareState, byte: u8)
    requires
        chip.status & status::WEL == 0,
    ensures
        chip.transferred(byte).image == chip.image,
{
}

/// The first byte after a release is an opcode, whatever came before it.
pub proof fn law_a_release_frames_a_command(chip: FirmwareState, byte: u8)
    ensures
        chip.deselected().answer() == 0,
        chip.deselected().transferred(byte).command == Some(byte),
        chip.deselected().transferred(byte).position == 1,
{
}

/// A read answers with the image from the address on, one byte after another, and changes nothing
/// in it.
pub proof fn law_reads_run_on(chip: FirmwareState, byte: u8)
    requires
        chip.wf(),
        chip.command == Some(op::READ),
        chip.position > 3,
    ensures
        chip.answer() == chip.image[chip.at()],
        chip.transferred(byte).image == chip.image,
        chip.transferred(byte).at() == (chip.at() + 1) % (SIZE as int),
        chip.transferred(byte).command == chip.command,
        chip.transferred(byte).position > 3,
{
}

/// The chip's pages repeat with its size.
proof fn lemma_pages(page: int, offset: int)
    requires
        0 <= page,
        0 <= offset < 0x100,
    ensures
        (page * 0x100 + offset) % 0x4_0000 / 0x100 == page % 0x400,
{
    let block = page / 0x400;
    let within = page % 0x400;
    assert(page * 0x100 + offset == block * 0x4_0000 + (within * 0x100 + offset));
    assert((page * 0x100 + offset) % 0x4_0000 == within * 0x100 + offset);
}

/// A program stays inside its page: no other page changes.
pub proof fn law_a_program_stays_in_its_page(chip: FirmwareState, byte: u8, i: int)
    requires
        chip.wf(),
        chip.command == Some(op::PAGE_WRITE) || chip.command == Some(op::PAGE_PROGRAM),
        chip.position > 3,
        0 <= i < SIZE,
        i / 0x100 != chip.at() / 0x100,
    ensures
        chip.transferred(byte).image[i] == chip.image[i],
        chip.transferred(byte).at() / 0x100 == chip.at() / 0x100,
{
    let page = chip.address as int / 0x100;
    let offset = (chip.address + 1) % 0x100;
    assert(chip.transferred(byte).address == page * 0x100 + offset);
    lemma_pages(page, chip.address as int % 0x100);
    lemma_pages(page, offset);
}

} // verus!
