//! The keypad, the two extra buttons, and the touchscreen behind the ARM7's SPI bus.
//!
//! Every key bit is active low: a set bit is a released button. The touchscreen is a serial ADC: the
//! ARM7 shifts out a command that names a channel and shifts back a 12-bit conversion in two bytes,
//! and the second byte may ride along with the next command. The firmware flash is the second device
//! on the bus; the power-management chip accepts writes and reads back zero.

pub mod laws;
pub mod reg;

use vstd::prelude::*;
use crate::bits::align2;
use crate::nds::firmware::{self, Firmware, FirmwareState};
use crate::nds::Core;
use crate::state::{self, StateError, StateReader, StateWriter};

verus! {

/// Raw ADC counts per screen pixel. The fabricated calibration block is the inverse.
pub const RAW_PER_PIXEL: u16 = 16;

/// Which buttons are held.
#[derive(Debug, Clone, Copy, PartialEq, Eq, Structural)]
pub struct Buttons {
    pub a: bool,
    pub b: bool,
    pub select: bool,
    pub start: bool,
    pub right: bool,
    pub left: bool,
    pub up: bool,
    pub down: bool,
    pub r: bool,
    pub l: bool,
    pub x: bool,
    pub y: bool,
}

impl Buttons {
    /// Nothing held.
    pub fn empty() -> (r: Self)
        ensures
            r == (Buttons {
                a: false,
                b: false,
                select: false,
                start: false,
                right: false,
                left: false,
                up: false,
                down: false,
                r: false,
                l: false,
                x: false,
                y: false,
            }),
    {
        Buttons {
            a: false,
            b: false,
            select: false,
            start: false,
            right: false,
            left: false,
            up: false,
            down: false,
            r: false,
            l: false,
            x: false,
            y: false,
        }
    }
}

/// A point on the bottom screen.
#[derive(Debug, Clone, Copy, PartialEq, Eq, Structural)]
pub struct TouchPoint {
    pub x: u16,
    pub y: u16,
}

/// A frame's worth of input.
#[derive(Debug, Clone, Copy, PartialEq, Eq, Structural)]
pub struct InputState {
    pub buttons: Buttons,
    pub touch: Option<TouchPoint>,
}

/// A button's bit, which is set while the button is up.
#[verifier::opaque]
pub open spec fn up_bit(held: bool, bit: u16) -> u16 {
    if held { 0 } else { bit }
}

/// A button's bit, which is set while the button is up.
fn released(held: bool, bit: u16) -> (r: u16)
    ensures
        r == up_bit(held, bit),
        r <= bit,
{
    reveal(up_bit);
    if held {
        0
    } else {
        bit
    }
}

/// `KEYINPUT` for a set of buttons.
pub open spec fn key_bits(b: Buttons) -> u16 {
    (up_bit(b.a, 0x001) + up_bit(b.b, 0x002) + up_bit(b.select, 0x004) + up_bit(
        b.start,
        0x008,
    ) + up_bit(b.right, 0x010) + up_bit(b.left, 0x020) + up_bit(b.up, 0x040) + up_bit(
        b.down,
        0x080,
    ) + up_bit(b.r, 0x100) + up_bit(b.l, 0x200)) as u16
}

/// `EXTKEYIN`: X, Y and the pen, with the unused bits one.
pub open spec fn extra_bits(b: Buttons, touching: bool) -> u16 {
    (0x3C + up_bit(b.x, 0x01) + up_bit(b.y, 0x02) + up_bit(touching, 0x40)) as u16
}

/// The SPI device that `SPICNT` bits 8-9 select.
#[derive(Debug, Clone, Copy, PartialEq, Eq, Structural)]
pub enum SpiDevice {
    PowerManagement,
    Firmware,
    Touchscreen,
    Reserved,
}

impl SpiDevice {
    #[verifier::allow_in_spec]
    pub fn from_bits(spicnt: u16) -> SpiDevice
        returns
            (if spicnt / 0x100 % 4 == 0 {
                SpiDevice::PowerManagement
            } else if spicnt / 0x100 % 4 == 1 {
                SpiDevice::Firmware
            } else if spicnt / 0x100 % 4 == 2 {
                SpiDevice::Touchscreen
            } else {
                SpiDevice::Reserved
            }),
    {
        let bits = spicnt / 0x100 % 4;
        if bits == 0 {
            SpiDevice::PowerManagement
        } else if bits == 1 {
            SpiDevice::Firmware
        } else if bits == 2 {
            SpiDevice::Touchscreen
        } else {
            SpiDevice::Reserved
        }
    }
}

/// The pins and the bus.
#[verifier::ext_equal]
pub struct PadState {
    pub keyinput: u16,
    pub keycnt: u16,
    pub extkeyin: u16,
    pub spicnt: u16,
    pub spidata: u8,
    pub tsc_output: u16,
    pub tsc_position: u8,
    pub touch: Option<(u16, u16)>,
    pub firmware: FirmwareState,
}

/// How many bytes the pins and the bus save.
pub open spec fn saved_size() -> int {
    17 + firmware::saved_size()
}

impl PadState {
    pub open spec fn wf(self) -> bool {
        self.firmware.wf()
    }

    /// Nothing held, the pen up, the lid open.
    pub open spec fn initial() -> PadState {
        PadState {
            keyinput: 0x03FF,
            keycnt: 0,
            extkeyin: 0x007F,
            spicnt: 0,
            spidata: 0,
            tsc_output: 0,
            tsc_position: 0,
            touch: None,
            firmware: FirmwareState::initial(),
        }
    }

    /// A frame's worth of input applied. A touch outside the screen is clamped to it.
    pub open spec fn with_input(self, input: InputState) -> PadState {
        PadState {
            keyinput: key_bits(input.buttons),
            extkeyin: extra_bits(input.buttons, input.touch is Some),
            touch: match input.touch {
                Some(point) => Some(
                    (
                        if point.x < 255 { point.x } else { 255 },
                        if point.y < 191 { point.y } else { 191 },
                    ),
                ),
                None => None,
            },
            ..self
        }
    }

    /// Whether the keypad interrupt condition holds: any of the selected keys, or with bit 14 all of
    /// them.
    pub open spec fn irq(self) -> bool {
        let selected = self.keycnt & 0x03FF;
        let pressed = !self.keyinput & 0x03FF;
        &&& self.keycnt & 0x8000 != 0
        &&& if self.keycnt & 0x4000 != 0 {
            selected != 0 && pressed & selected == selected
        } else {
            pressed & selected != 0
        }
    }

    /// What the controller measures on a channel. Channel 1 is Y and channel 5 is X; 3 and 4 are the
    /// pressure.
    pub open spec fn conversion(self, channel: u8) -> u16 {
        match self.touch {
            None => if channel == 4 { 0x0FFF } else { 0 },
            Some((x, y)) => if channel == 1 {
                (y * RAW_PER_PIXEL) as u16
            } else if channel == 5 {
                (x * RAW_PER_PIXEL) as u16
            } else if channel == 3 {
                0x0400
            } else if channel == 4 {
                0x0800
            } else {
                0
            },
        }
    }

    /// The touchscreen controller after a byte: one with bit 7 set is a command, and any other
    /// clocks out the conversion.
    pub open spec fn sampled(self, byte: u8) -> PadState {
        if byte >= 0x80 {
            PadState {
                tsc_output: self.conversion((byte / 16 % 8) as u8),
                tsc_position: 0,
                ..self
            }
        } else {
            PadState {
                tsc_position: if self.tsc_position < 255 {
                    (self.tsc_position + 1) as u8
                } else {
                    255
                },
                ..self
            }
        }
    }

    /// What the touchscreen controller answers: the high seven bits of the conversion first, then
    /// the low five. A command that follows the high bits gets the low ones; any other gets zero.
    pub open spec fn sample(self, byte: u8) -> u8 {
        let high = (self.tsc_output / 32 % 0x100) as u8;
        let low = (self.tsc_output % 32 * 8) as u8;
        if byte >= 0x80 {
            if self.tsc_position == 1 { low } else { 0 }
        } else {
            if self.tsc_position == 0 { high } else { low }
        }
    }

    /// The select line released.
    pub open spec fn deselected(self) -> PadState {
        PadState { tsc_position: 0, firmware: self.firmware.deselected(), ..self }
    }

    /// One byte shifted through the bus. Bit 11 held low ends the transfer afterwards.
    pub open spec fn transferred(self, byte: u8) -> PadState {
        let after = match SpiDevice::from_bits(self.spicnt) {
            SpiDevice::Touchscreen => PadState {
                spidata: self.sample(byte),
                ..self.sampled(byte)
            },
            SpiDevice::Firmware => PadState {
                spidata: self.firmware.answer(),
                firmware: self.firmware.transferred(byte),
                ..self
            },
            _ => PadState { spidata: 0, ..self },
        };
        if self.spicnt & 0x0800 != 0 {
            after
        } else {
            after.deselected()
        }
    }

    /// A register as a core reads it.
    pub open spec fn half(self, core: Core, addr: u32) -> Option<u16> {
        if align2(addr) == reg::KEYINPUT {
            Some(self.keyinput)
        } else if align2(addr) == reg::KEYCNT {
            Some(self.keycnt)
        } else if align2(addr) == reg::EXTKEYIN && core == Core::Arm7 {
            Some(self.extkeyin)
        } else if align2(addr) == reg::SPICNT && core == Core::Arm7 {
            Some(self.spicnt)
        } else if align2(addr) == reg::SPIDATA && core == Core::Arm7 {
            Some(self.spidata as u16)
        } else {
            None
        }
    }

    /// A register written. `KEYINPUT` and `EXTKEYIN` are pins, and ignore it.
    pub open spec fn written16(self, core: Core, addr: u32, value: u16) -> PadState {
        if align2(addr) == reg::KEYCNT {
            PadState { keycnt: value, ..self }
        } else if align2(addr) == reg::SPICNT && core == Core::Arm7 {
            PadState { spicnt: value & 0xCF03, ..self }
        } else if align2(addr) == reg::SPIDATA && core == Core::Arm7 {
            self.transferred((value % 0x100) as u8)
        } else {
            self
        }
    }

    /// A byte of a register written: the rest is written back as it reads.
    pub open spec fn written8(self, core: Core, addr: u32, value: u8) -> PadState {
        match self.half(core, addr) {
            None => self,
            Some(current) => self.written16(core, addr, spliced(current, addr, value)),
        }
    }

    /// The pins and the bus after reading the stream at `at`, as far as `limit` lets it be read.
    pub open spec fn restored(self, d: Seq<u8>, limit: int, at: int) -> PadState {
        PadState {
            keyinput: state::or16(d, limit, at, self.keyinput),
            keycnt: state::or16(d, limit, at + 2, self.keycnt),
            extkeyin: state::or16(d, limit, at + 4, self.extkeyin),
            spicnt: state::or16(d, limit, at + 6, self.spicnt),
            spidata: state::or8(d, limit, at + 8, self.spidata),
            tsc_output: state::or16(d, limit, at + 9, self.tsc_output),
            tsc_position: state::or8(d, limit, at + 11, self.tsc_position),
            touch: if at + 17 <= limit {
                if d[at + 12] != 0 {
                    Some((state::le16(d, at + 13), state::le16(d, at + 15)))
                } else {
                    None
                }
            } else {
                self.touch
            },
            firmware: self.firmware.restored(d, limit, at + 17),
        }
    }

    /// Whether the stream holds exactly this at `at`.
    pub open spec fn encoded_at(self, d: Seq<u8>, at: int) -> bool {
        at + saved_size() <= d.len() && self.restored(d, d.len() as int, at) == self
    }
}

/// A halfword with one of its bytes replaced.
#[verifier::allow_in_spec]
pub fn spliced(current: u16, addr: u32, value: u8) -> u16
    returns
        (if addr % 2 == 0 {
            (current - current % 0x100 + value) as u16
        } else {
            (current % 0x100 + value * 0x100) as u16
        }),
{
    if addr % 2 == 0 {
        current - current % 0x100 + value as u16
    } else {
        current % 0x100 + value as u16 * 0x100
    }
}

/// Keypad state and the SPI bus that the touchscreen and the firmware flash hang off.
#[derive(Debug, Clone, PartialEq, Eq)]
pub struct Input {
    /// Active low, so all ones is nothing held.
    pub keyinput: u16,
    pub keycnt: u16,
    pub extkeyin: u16,
    pub spicnt: u16,
    pub spidata: u8,
    /// The conversion that the touchscreen controller is part-way through shifting out.
    pub tsc_output: u16,
    /// How many bytes of that conversion have been read.
    pub tsc_position: u8,
    pub touch: Option<(u16, u16)>,
    /// The firmware flash, which is the second device on this bus.
    pub firmware: Firmware,
}

impl View for Input {
    type V = PadState;

    open spec fn view(&self) -> PadState {
        PadState {
            keyinput: self.keyinput,
            keycnt: self.keycnt,
            extkeyin: self.extkeyin,
            spicnt: self.spicnt,
            spidata: self.spidata,
            tsc_output: self.tsc_output,
            tsc_position: self.tsc_position,
            touch: self.touch,
            firmware: self.firmware@,
        }
    }
}

impl Input {
    pub fn new() -> (r: Self)
        ensures
            r@ == PadState::initial(),
            r@.wf(),
    {
        Input {
            keyinput: 0x03FF,
            keycnt: 0,
            extkeyin: 0x007F,
            spicnt: 0,
            spidata: 0,
            tsc_output: 0,
            tsc_position: 0,
            touch: None,
            firmware: Firmware::new(),
        }
    }

    /// Apply a frame's worth of input.
    pub fn set_input(&mut self, input: InputState)
        ensures
            final(self)@ == old(self)@.with_input(input),
    {
        let b = input.buttons;
        self.keyinput = released(b.a, 0x001) + released(b.b, 0x002) + released(b.select, 0x004)
            + released(b.start, 0x008) + released(b.right, 0x010) + released(b.left, 0x020)
            + released(b.up, 0x040) + released(b.down, 0x080) + released(b.r, 0x100) + released(
            b.l,
            0x200,
        );
        let mut touching = false;
        self.touch = match input.touch {
            Some(point) => {
                touching = true;
                let x: u16 = if point.x < 255 { point.x } else { 255 };
                let y: u16 = if point.y < 191 { point.y } else { 191 };
                Some((x, y))
            },
            None => None,
        };
        // The pen-down line is active low too.
        self.extkeyin = 0x3C + released(b.x, 0x01) + released(b.y, 0x02) + released(touching, 0x40);
    }

    /// Whether the keypad interrupt condition holds.
    pub fn irq_pending(&self) -> (r: bool)
        ensures
            r == self@.irq(),
    {
        if self.keycnt & 0x8000 == 0 {
            return false;
        }
        let selected = self.keycnt & 0x03FF;
        let pressed = !self.keyinput & 0x03FF;
        if self.keycnt & 0x4000 != 0 {
            selected != 0 && pressed & selected == selected
        } else {
            pressed & selected != 0
        }
    }

    /// Whether an address is one of these registers, as this core sees them.
    pub fn owns(core: Core, addr: u32) -> (r: bool)
        ensures
            forall|pad: PadState| r == (#[trigger] pad.half(core, addr) is Some),
    {
        let half = align2(addr);
        if half == reg::KEYINPUT || half == reg::KEYCNT {
            true
        } else if half == reg::EXTKEYIN || half == reg::SPICNT || half == reg::SPIDATA {
            core == Core::Arm7
        } else {
            false
        }
    }

    pub fn read16(&mut self, core: Core, addr: u32) -> (r: Option<u16>)
        ensures
            r == old(self)@.half(core, addr),
            *final(self) == *old(self),
    {
        let half = align2(addr);
        if half == reg::KEYINPUT {
            Some(self.keyinput)
        } else if half == reg::KEYCNT {
            Some(self.keycnt)
        } else if half == reg::EXTKEYIN && core == Core::Arm7 {
            Some(self.extkeyin)
        } else if half == reg::SPICNT && core == Core::Arm7 {
            Some(self.spicnt)
        } else if half == reg::SPIDATA && core == Core::Arm7 {
            Some(self.spidata as u16)
        } else {
            None
        }
    }

    pub fn write16(&mut self, core: Core, addr: u32, value: u16) -> (r: bool)
        requires
            old(self)@.wf(),
        ensures
            final(self)@.wf(),
            final(self)@ == old(self)@.written16(core, addr, value),
            r == (old(self)@.half(core, addr) is Some),
    {
        let half = align2(addr);
        if half == reg::KEYINPUT {
            // A pin; writing it does nothing.
            true
        } else if half == reg::KEYCNT {
            self.keycnt = value;
            true
        } else if half == reg::EXTKEYIN && core == Core::Arm7 {
            true
        } else if half == reg::SPICNT && core == Core::Arm7 {
            self.spicnt = value & 0xCF03;
            true
        } else if half == reg::SPIDATA && core == Core::Arm7 {
            self.transfer((value % 0x100) as u8);
            true
        } else {
            false
        }
    }

    pub fn read8(&mut self, core: Core, addr: u32) -> (r: Option<u8>)
        ensures
            r == (match old(self)@.half(core, addr) {
                None => None,
                Some(value) => Some(
                    if addr % 2 == 0 {
                        (value % 0x100) as u8
                    } else {
                        (value / 0x100) as u8
                    },
                ),
            }),
            *final(self) == *old(self),
    {
        match self.read16(core, addr) {
            None => None,
            Some(value) => Some(
                if addr % 2 == 0 {
                    (value % 0x100) as u8
                } else {
                    (value / 0x100) as u8
                },
            ),
        }
    }

    pub fn write8(&mut self, core: Core, addr: u32, value: u8) -> (r: bool)
        requires
            old(self)@.wf(),
        ensures
            final(self)@.wf(),
            final(self)@ == old(self)@.written8(core, addr, value),
            r == (old(self)@.half(core, addr) is Some),
    {
        match self.read16(core, addr) {
            None => false,
            Some(current) => self.write16(core, addr, spliced(current, addr, value)),
        }
    }

    /// Shift one byte through the SPI bus and latch what came back.
    fn transfer(&mut self, byte: u8)
        requires
            old(self)@.wf(),
        ensures
            final(self)@.wf(),
            final(self)@ == old(self)@.transferred(byte),
    {
        // Bit 11 held low ends the transfer and deselects the device, which is what resets the
        // controller's byte counter between conversions and what frames one flash command.
        let keep_selected = self.spicnt & 0x0800 != 0;
        match SpiDevice::from_bits(self.spicnt) {
            SpiDevice::Touchscreen => {
                let answer = self.touchscreen_transfer(byte);
                self.spidata = answer;
            },
            SpiDevice::Firmware => {
                let answer = self.firmware.transfer(byte);
                self.spidata = answer;
            },
            SpiDevice::PowerManagement | SpiDevice::Reserved => {
                self.spidata = 0;
            },
        }
        if !keep_selected {
            self.tsc_position = 0;
            self.firmware.deselect();
        }
        assert(self@ =~= old(self)@.transferred(byte));
    }

    /// The touchscreen controller's half of a transfer.
    ///
    /// A command byte has bit 7 set and names a channel. The conversion comes back over the next
    /// two bytes, high seven bits first, and the second of them may itself be a command.
    fn touchscreen_transfer(&mut self, byte: u8) -> (r: u8)
        ensures
            final(self)@ == old(self)@.sampled(byte),
            r == old(self)@.sample(byte),
    {
        let high = (self.tsc_output / 32 % 0x100) as u8;
        let low = (self.tsc_output % 32 * 8) as u8;
        if byte >= 0x80 {
            let answer = if self.tsc_position == 1 { low } else { 0 };
            self.tsc_output = self.conversion(byte / 16 % 8);
            self.tsc_position = 0;
            return answer;
        }
        let answer = if self.tsc_position == 0 { high } else { low };
        if self.tsc_position < 255 {
            self.tsc_position = self.tsc_position + 1;
        }
        answer
    }

    /// What the controller measures on a channel.
    fn conversion(&self, channel: u8) -> (r: u16)
        ensures
            r == self@.conversion(channel),
    {
        match self.touch {
            // With the pen up, the position channels read zero and the pressure channels read
            // their extremes, which is how software detects a release without `EXTKEYIN`.
            None => if channel == 4 {
                0x0FFF
            } else {
                0
            },
            Some((x, y)) => if channel == 1 {
                (y as u32 * RAW_PER_PIXEL as u32) as u16
            } else if channel == 5 {
                (x as u32 * RAW_PER_PIXEL as u32) as u16
            } else if channel == 3 {
                0x0400
            } else if channel == 4 {
                0x0800
            } else {
                0
            },
        }
    }

    pub fn reset(&mut self)
        ensures
            final(self)@ == PadState::initial(),
            final(self)@.wf(),
    {
        *self = Self::new();
    }

    pub fn save(&self, w: &mut StateWriter)
        requires
            self@.wf(),
        ensures
            state::continues(old(w)@, final(w)@),
            final(w)@.len() == old(w)@.len() + saved_size(),
            self@.encoded_at(final(w)@, old(w)@.len() as int),
    {
        let ghost start = w@;
        w.write_u16(self.keyinput);
        w.write_u16(self.keycnt);
        w.write_u16(self.extkeyin);
        w.write_u16(self.spicnt);
        w.write_u8(self.spidata);
        w.write_u16(self.tsc_output);
        w.write_u8(self.tsc_position);
        let (touching, x, y) = match self.touch {
            Some((x, y)) => (true, x, y),
            None => (false, 0u16, 0u16),
        };
        w.write_bool(touching);
        w.write_u16(x);
        w.write_u16(y);
        self.firmware.save(w);
        assert(self@.restored(w@, w@.len() as int, start.len() as int) =~= self@);
    }

    pub fn load(&mut self, r: &mut StateReader) -> (result: Result<(), StateError>)
        requires
            old(self)@.wf(),
        ensures
            final(self)@.wf(),
            final(self)@ == old(self)@.restored(
                old(r).data(),
                old(r).limit(),
                old(r).pos() as int,
            ),
            state::advanced(*old(r), *final(r), saved_size()),
            result == state::verdict(*final(r)),
    {
        self.keyinput = r.u16_or(self.keyinput);
        self.keycnt = r.u16_or(self.keycnt);
        self.extkeyin = r.u16_or(self.extkeyin);
        self.spicnt = r.u16_or(self.spicnt);
        self.spidata = r.u8_or(self.spidata);
        self.tsc_output = r.u16_or(self.tsc_output);
        self.tsc_position = r.u8_or(self.tsc_position);
        let touching = r.bool_or(false);
        let x = r.u16_or(0);
        let y = r.u16_or(0);
        if !r.failed() {
            self.touch = if touching { Some((x, y)) } else { None };
        }
        let result = self.firmware.load(r);
        assert(self@ =~= old(self)@.restored(old(r).data(), old(r).limit(), old(r).pos() as int));
        result
    }
}

impl Default for Input {
    fn default() -> (r: Self)
        ensures
            r@ == PadState::initial(),
            r@.wf(),
    {
        Input::new()
    }
}

/// What was saved comes back whole, whatever it is read into.
pub proof fn law_save_then_load(saved: PadState, before: PadState, d: Seq<u8>, at: int)
    requires
        0 <= at,
        saved.wf(),
        before.wf(),
        saved.encoded_at(d, at),
    ensures
        before.restored(d, d.len() as int, at) == saved,
{
    assert(saved.firmware.encoded_at(d, at + 17));
    firmware::law_save_then_load(saved.firmware, before.firmware, d, at + 17);
}

/// The key registers are pins: writing them changes nothing.
pub proof fn law_pins_ignore_writes(pad: PadState, core: Core, value: u16)
    ensures
        pad.written16(core, reg::KEYINPUT, value) == pad,
        pad.written16(core, reg::EXTKEYIN, value) == pad,
{
}

/// A pad with the touchscreen selected and held.
pub open spec fn holds_touchscreen(pad: PadState) -> bool {
    SpiDevice::from_bits(pad.spicnt) == SpiDevice::Touchscreen && pad.spicnt & 0x0800 != 0
}

/// What a driver makes of the two bytes of a conversion.
pub open spec fn reading(high: u8, low: u8) -> int {
    high % 0x80 * 32 + low / 8
}

/// The two bytes of a conversion that was just asked for carry it whole, whichever way the second
/// one is read.
proof fn lemma_two_bytes_carry_a_conversion(asked: PadState, next: u8)
    requires
        holds_touchscreen(asked),
        asked.tsc_position == 0,
        asked.tsc_output < 0x1000,
        next >= 0x80,
    ensures
        ({
            let first = asked.transferred(0);
            &&& reading(first.spidata, first.transferred(0).spidata) == asked.tsc_output
            &&& reading(first.spidata, first.transferred(next).spidata) == asked.tsc_output
        }),
{
    let first = asked.transferred(0);
    let out = asked.tsc_output;
    let high = (out / 32 % 0x100) as u8;
    let low = (out % 32 * 8) as u8;
    assert(first.spidata == high);
    assert(first.tsc_position == 1 && first.tsc_output == out);
    assert(first.transferred(0).spidata == low);
    assert(first.transferred(next).spidata == low);
    assert(out == out / 32 * 32 + out % 32);
    assert(high == out / 32 && low / 8 == out % 32);
}

/// A command and two data bytes give back the conversion, and so do a command, a data byte and the
/// next command: the touch position in raw counts, X on channel 5 and Y on channel 1.
pub proof fn law_the_touchscreen_reports_the_touch(pad: PadState, input: InputState, next: u8)
    requires
        holds_touchscreen(pad),
        input.touch is Some,
        next >= 0x80,
    ensures
        ({
            let touched = pad.with_input(input);
            let point = input.touch->0;
            let asked_x = touched.transferred(0xD0);
            let asked_y = touched.transferred(0x90);
            let first_x = asked_x.transferred(0);
            let first_y = asked_y.transferred(0);
            let x = if point.x < 255 { point.x as int } else { 255 };
            let y = if point.y < 191 { point.y as int } else { 191 };
            &&& reading(first_x.spidata, first_x.transferred(0).spidata) == x * RAW_PER_PIXEL
            &&& reading(first_y.spidata, first_y.transferred(0).spidata) == y * RAW_PER_PIXEL
            &&& reading(first_x.spidata, first_x.transferred(next).spidata) == x * RAW_PER_PIXEL
            &&& reading(first_y.spidata, first_y.transferred(next).spidata) == y * RAW_PER_PIXEL
        }),
{
    let touched = pad.with_input(input);
    let asked_x = touched.transferred(0xD0);
    let asked_y = touched.transferred(0x90);
    assert(0xD0u8 / 16 % 8 == 5 && 0x90u8 / 16 % 8 == 1);
    assert(asked_x.tsc_output == touched.conversion(5));
    assert(asked_y.tsc_output == touched.conversion(1));
    lemma_two_bytes_carry_a_conversion(asked_x, next);
    lemma_two_bytes_carry_a_conversion(asked_y, next);
}

/// Releasing the select line frames a flash command: the next byte is an opcode.
pub proof fn law_a_release_frames_a_flash_command(pad: PadState, byte: u8)
    requires
        pad.spicnt & 0x0800 == 0,
    ensures
        pad.transferred(byte).firmware.command is None,
        pad.transferred(byte).tsc_position == 0,
{
}

/// Only the ARM7 reaches the extra buttons and the bus.
pub proof fn law_the_bus_is_the_arm7s(pad: PadState)
    ensures
        pad.half(Core::Arm9, reg::EXTKEYIN) is None,
        pad.half(Core::Arm9, reg::SPICNT) is None,
        pad.half(Core::Arm9, reg::SPIDATA) is None,
{
}

} // verus!
