//! Video memory: nine banks, each mapped into one address space at a time by its control byte.
//!
//! A control byte's bit 7 switches the bank on, bits 0-2 choose the space and bits 3-4 the place
//! in it. Where several banks answer for the same address, a read sees all their bits together
//! and a write reaches every one of them.

use vstd::prelude::*;

verus! {

/// What a bank can be mapped into.
#[derive(Clone, Copy, Debug, PartialEq, Eq, Structural)]
pub enum VramSpace {
    Lcdc,
    BgA,
    BgB,
    ObjA,
    ObjB,
    BgExtPalA,
    BgExtPalB,
    ObjExtPalA,
    ObjExtPalB,
    Texture,
    TexturePalette,
    Arm7,
}

/// How many banks there are.
pub const BANKS: usize = 9;

/// The banks' names, in the order of their control registers.
pub const BANK_NAMES: [&'static str; 9] = ["A", "B", "C", "D", "E", "F", "G", "H", "I"];

/// Every space, in order.
pub const SPACES: [VramSpace; 12] = [
    VramSpace::Lcdc,
    VramSpace::BgA,
    VramSpace::BgB,
    VramSpace::ObjA,
    VramSpace::ObjB,
    VramSpace::BgExtPalA,
    VramSpace::BgExtPalB,
    VramSpace::ObjExtPalA,
    VramSpace::ObjExtPalB,
    VramSpace::Texture,
    VramSpace::TexturePalette,
    VramSpace::Arm7,
];

/// Where a bank answers.
#[derive(Clone, Copy, Debug, PartialEq, Eq, Structural)]
pub struct Window {
    pub space: VramSpace,
    pub base: u32,
    pub size: u32,
}

/// The size of a bank in bytes.
pub open spec fn size_of_bank(bank: int) -> u32 {
    if bank <= 3 {
        0x2_0000
    } else if bank == 4 {
        0x1_0000
    } else if bank == 7 {
        0x8000
    } else {
        0x4000
    }
}

/// Where a bank lies in the space that the processor sees directly.
pub open spec fn lcdc_base(bank: int) -> u32 {
    if bank <= 4 {
        (0x2_0000 * bank) as u32
    } else if bank == 5 {
        0x9_0000
    } else if bank == 6 {
        0x9_4000
    } else if bank == 7 {
        0x9_8000
    } else {
        0xA_0000
    }
}

/// Where the two small banks `F` and `G` go: two places 16 KiB apart, and two more 64 KiB on.
pub open spec fn small_base(place: u8) -> u32 {
    if place == 0 {
        0
    } else if place == 1 {
        0x4000
    } else if place == 2 {
        0x1_0000
    } else {
        0x1_4000
    }
}

/// The space a bank is mapped into other than the processor's own, by its mode.
pub open spec fn space_of(bank: int, mode: u8) -> Option<VramSpace> {
    if mode == 1 {
        Some(if bank >= 7 { VramSpace::BgB } else { VramSpace::BgA })
    } else if mode == 2 {
        Some(
            if bank == 2 || bank == 3 {
                VramSpace::Arm7
            } else if bank == 7 {
                VramSpace::BgExtPalB
            } else if bank == 8 {
                VramSpace::ObjB
            } else {
                VramSpace::ObjA
            },
        )
    } else if mode == 3 {
        if bank <= 3 {
            Some(VramSpace::Texture)
        } else if bank <= 6 {
            Some(VramSpace::TexturePalette)
        } else if bank == 8 {
            Some(VramSpace::ObjExtPalB)
        } else {
            None
        }
    } else if mode == 4 {
        if bank == 2 {
            Some(VramSpace::BgB)
        } else if bank == 3 {
            Some(VramSpace::ObjB)
        } else if 4 <= bank <= 6 {
            Some(VramSpace::BgExtPalA)
        } else {
            None
        }
    } else if mode == 5 && (bank == 5 || bank == 6) {
        Some(VramSpace::ObjExtPalA)
    } else {
        None
    }
}

/// Where in its space a bank begins.
pub open spec fn base_of(bank: int, space: VramSpace, place: u8) -> u32 {
    if bank <= 3 {
        match space {
            VramSpace::BgA | VramSpace::Texture => (0x2_0000 * place) as u32,
            VramSpace::ObjA | VramSpace::Arm7 => (0x2_0000 * (place % 2)) as u32,
            _ => 0,
        }
    } else if bank == 5 || bank == 6 {
        match space {
            VramSpace::BgExtPalA => (0x4000 * (place % 2)) as u32,
            VramSpace::ObjExtPalA => 0,
            _ => small_base(place),
        }
    } else if bank == 8 && space == VramSpace::BgB {
        0x8000
    } else {
        0
    }
}

/// How much of a bank its space has room for.
pub open spec fn span_of(bank: int, space: VramSpace) -> u32 {
    match space {
        VramSpace::ObjExtPalA | VramSpace::ObjExtPalB => 0x2000,
        VramSpace::BgExtPalA => if bank == 4 { 0x8000 } else { 0x4000 },
        _ => size_of_bank(bank),
    }
}

/// Where a bank answers under a control byte.
pub open spec fn window_of(bank: int, control: u8) -> Option<Window> {
    let mode = if bank <= 1 { control & 3 } else { control & 7 };
    let place = (control >> 3) & 3;
    if control & 0x80 == 0 {
        None
    } else if mode == 0 {
        Some(Window { space: VramSpace::Lcdc, base: lcdc_base(bank), size: size_of_bank(bank) })
    } else {
        match space_of(bank, mode) {
            None => None,
            Some(space) => Some(
                Window { space, base: base_of(bank, space, place), size: span_of(bank, space) },
            ),
        }
    }
}

/// The offset inside a bank that an address reaches under a control byte.
pub open spec fn bank_offset(bank: int, control: u8, space: VramSpace, offset: u32) -> Option<u32> {
    match window_of(bank, control) {
        None => None,
        Some(w) => if w.space == space && w.base <= offset < w.base + w.size {
            Some((offset - w.base) as u32)
        } else {
            None
        },
    }
}

/// The contents of a bank after a write to an address, which changes one byte of it or nothing.
pub open spec fn bank_after(
    contents: Seq<u8>,
    bank: int,
    control: u8,
    space: VramSpace,
    offset: u32,
    value: u8,
) -> Seq<u8> {
    match bank_offset(bank, control, space, offset) {
        None => contents,
        Some(i) => if i < contents.len() {
            contents.update(i as int, value)
        } else {
            contents
        },
    }
}

/// Where a bank answers under a control byte.
pub fn window(bank: usize, control: u8) -> (r: Option<Window>)
    requires
        bank < BANKS,
    ensures
        r == window_of(bank as int, control),
        r is Some ==> r->0.base <= 0xA_0000 && r->0.size <= 0x2_0000,
{
    broadcast use crate::bits::lemma_and_bound_u8;

    let mode: u8 = if bank <= 1 { control & 3 } else { control & 7 };
    let place: u8 = (control >> 3) & 3;
    if control & 0x80 == 0 {
        return None;
    }
    let size: u32 = if bank <= 3 {
        0x2_0000
    } else if bank == 4 {
        0x1_0000
    } else if bank == 7 {
        0x8000
    } else {
        0x4000
    };
    if mode == 0 {
        let base: u32 = if bank <= 4 {
            0x2_0000 * bank as u32
        } else if bank == 5 {
            0x9_0000
        } else if bank == 6 {
            0x9_4000
        } else if bank == 7 {
            0x9_8000
        } else {
            0xA_0000
        };
        return Some(Window { space: VramSpace::Lcdc, base, size });
    }
    let large = bank <= 3;
    let small = bank == 5 || bank == 6;
    let small_place: u32 = if place == 0 {
        0
    } else if place == 1 {
        0x4000
    } else if place == 2 {
        0x1_0000
    } else {
        0x1_4000
    };
    match mode {
        1 => if bank >= 7 {
            let base: u32 = if bank == 8 { 0x8000 } else { 0 };
            Some(Window { space: VramSpace::BgB, base, size })
        } else {
            let base: u32 = if large {
                0x2_0000 * place as u32
            } else if small {
                small_place
            } else {
                0
            };
            Some(Window { space: VramSpace::BgA, base, size })
        },
        2 => if bank == 2 || bank == 3 {
            Some(Window { space: VramSpace::Arm7, base: 0x2_0000 * (place % 2) as u32, size })
        } else if bank == 7 {
            Some(Window { space: VramSpace::BgExtPalB, base: 0, size })
        } else if bank == 8 {
            Some(Window { space: VramSpace::ObjB, base: 0, size })
        } else {
            let base: u32 = if large {
                0x2_0000 * (place % 2) as u32
            } else if small {
                small_place
            } else {
                0
            };
            Some(Window { space: VramSpace::ObjA, base, size })
        },
        3 => if large {
            Some(Window { space: VramSpace::Texture, base: 0x2_0000 * place as u32, size })
        } else if bank <= 6 {
            let base: u32 = if small { small_place } else { 0 };
            Some(Window { space: VramSpace::TexturePalette, base, size })
        } else if bank == 8 {
            Some(Window { space: VramSpace::ObjExtPalB, base: 0, size: 0x2000 })
        } else {
            None
        },
        4 => if bank == 2 {
            Some(Window { space: VramSpace::BgB, base: 0, size })
        } else if bank == 3 {
            Some(Window { space: VramSpace::ObjB, base: 0, size })
        } else if bank == 4 {
            Some(Window { space: VramSpace::BgExtPalA, base: 0, size: 0x8000 })
        } else if small {
            Some(
                Window {
                    space: VramSpace::BgExtPalA,
                    base: 0x4000 * (place % 2) as u32,
                    size: 0x4000,
                },
            )
        } else {
            None
        },
        5 => if small {
            Some(Window { space: VramSpace::ObjExtPalA, base: 0, size: 0x2000 })
        } else {
            None
        },
        _ => None,
    }
}

/// The nine banks and their control bytes.
#[derive(Debug)]
pub struct Vram {
    pub banks: [Vec<u8>; 9],
    pub controls: [u8; 9],
}

impl Vram {
    /// What one bank answers at an address; nothing if it is not mapped there.
    pub open spec fn bank_byte(&self, bank: int, space: VramSpace, offset: u32) -> u8 {
        match bank_offset(bank, self.controls@[bank], space, offset) {
            None => 0,
            Some(i) => if i < self.banks@[bank]@.len() {
                self.banks@[bank]@[i as int]
            } else {
                0
            },
        }
    }

    /// What the first `n` banks answer together.
    pub open spec fn answer(&self, space: VramSpace, offset: u32, n: nat) -> u8
        decreases n,
    {
        if n == 0 {
            0
        } else {
            self.answer(space, offset, (n - 1) as nat) | self.bank_byte(n - 1, space, offset)
        }
    }

    /// The byte that a read of an address sees.
    #[verifier::opaque]
    pub open spec fn byte(&self, space: VramSpace, offset: u32) -> u8 {
        self.answer(space, offset, 9)
    }

    /// The little-endian halfword that a read of an address sees.
    pub open spec fn half(&self, space: VramSpace, offset: u32) -> u16 {
        (self.byte(space, offset) + 0x100 * self.byte(space, offset.wrapping_add(1))) as u16
    }

    /// The little-endian word that a read of an address sees.
    pub open spec fn word(&self, space: VramSpace, offset: u32) -> u32 {
        (self.half(space, offset) + 0x1_0000 * self.half(space, offset.wrapping_add(2))) as u32
    }

    /// Every bank zeroed and switched off.
    pub fn new() -> (r: Self)
        ensures
            r.controls@ == Seq::new(9, |i: int| 0u8),
            forall|b: int|
                #![trigger r.banks@[b]]
                0 <= b < 9 ==> r.banks@[b]@ == Seq::new(size_of_bank(b) as nat, |i: int| 0u8),
    {
        let r = Vram {
            banks: [
                blank(0x2_0000),
                blank(0x2_0000),
                blank(0x2_0000),
                blank(0x2_0000),
                blank(0x1_0000),
                blank(0x4000),
                blank(0x4000),
                blank(0x8000),
                blank(0x4000),
            ],
            controls: [0, 0, 0, 0, 0, 0, 0, 0, 0],
        };
        assert(r.controls@ =~= Seq::new(9, |i: int| 0u8));
        r
    }

    /// Remap one bank.
    pub fn set_control(&mut self, bank: usize, value: u8)
        requires
            bank < BANKS,
        ensures
            final(self).controls@ == old(self).controls@.update(bank as int, value),
            final(self).banks == old(self).banks,
    {
        self.controls[bank] = value;
    }

    pub fn control(&self, bank: usize) -> (r: u8)
        requires
            bank < BANKS,
        ensures
            r == self.controls@[bank as int],
    {
        self.controls[bank]
    }

    /// The offset inside a bank that an address reaches, if it reaches that bank at all.
    fn reach(&self, bank: usize, space: VramSpace, offset: u32) -> (r: Option<usize>)
        requires
            bank < BANKS,
        ensures
            match bank_offset(bank as int, self.controls@[bank as int], space, offset) {
                None => r is None,
                Some(i) => r == (if i < self.banks@[bank as int]@.len() {
                    Some(i as usize)
                } else {
                    None
                }),
            },
            r is Some ==> r->0 < self.banks@[bank as int]@.len(),
    {
        match window(bank, self.controls[bank]) {
            None => None,
            Some(w) => {
                if w.space == space && w.base <= offset && offset - w.base < w.size {
                    let i = (offset - w.base) as usize;
                    if i < self.banks[bank].len() {
                        Some(i)
                    } else {
                        None
                    }
                } else {
                    None
                }
            },
        }
    }

    pub fn read8(&self, space: VramSpace, offset: u32) -> (r: u8)
        ensures
            r == self.byte(space, offset),
    {
        let mut value: u8 = 0;
        for bank in 0..9usize
            invariant
                value == self.answer(space, offset, bank as nat),
        {
            let part: u8 = match self.reach(bank, space, offset) {
                None => 0,
                Some(i) => self.banks[bank][i],
            };
            value = value | part;
        }
        reveal(Vram::byte);
        value
    }

    pub fn read16(&self, space: VramSpace, offset: u32) -> (r: u16)
        ensures
            r == self.half(space, offset),
    {
        self.read8(space, offset) as u16 + 0x100 * self.read8(space, offset.wrapping_add(1)) as u16
    }

    pub fn read32(&self, space: VramSpace, offset: u32) -> (r: u32)
        ensures
            r == self.word(space, offset),
    {
        self.read16(space, offset) as u32 + 0x1_0000 * self.read16(
            space,
            offset.wrapping_add(2),
        ) as u32
    }

    /// Write a byte to every bank that answers for an address.
    pub fn write8(&mut self, space: VramSpace, offset: u32, value: u8)
        ensures
            final(self).controls == old(self).controls,
            forall|b: int|
                0 <= b < 9 ==> (#[trigger] final(self).banks@[b])@ == bank_after(
                    old(self).banks@[b]@,
                    b,
                    old(self).controls@[b],
                    space,
                    offset,
                    value,
                ),
    {
        for bank in 0..9usize
            invariant
                self.controls == old(self).controls,
                forall|b: int|
                    0 <= b < bank ==> (#[trigger] self.banks@[b])@ == bank_after(
                        old(self).banks@[b]@,
                        b,
                        old(self).controls@[b],
                        space,
                        offset,
                        value,
                    ),
                forall|b: int|
                    bank <= b < 9 ==> #[trigger] self.banks@[b] == old(self).banks@[b],
        {
            match self.reach(bank, space, offset) {
                None => {},
                Some(i) => {
                    self.banks[bank][i] = value;
                },
            }
        }
    }

    /// Write a halfword, low byte first.
    pub fn write16(&mut self, space: VramSpace, offset: u32, value: u16)
        ensures
            final(self).controls == old(self).controls,
            forall|b: int|
                0 <= b < 9 ==> (#[trigger] final(self).banks@[b])@ == bank_after(
                    bank_after(
                        old(self).banks@[b]@,
                        b,
                        old(self).controls@[b],
                        space,
                        offset,
                        (value % 0x100) as u8,
                    ),
                    b,
                    old(self).controls@[b],
                    space,
                    offset.wrapping_add(1),
                    (value / 0x100) as u8,
                ),
    {
        self.write8(space, offset, (value % 0x100) as u8);
        self.write8(space, offset.wrapping_add(1), (value / 0x100) as u8);
    }

    /// Whether any bank is mapped into a space.
    pub fn space_is_mapped(&self, space: VramSpace) -> (r: bool)
        ensures
            r == exists|b: int|
                0 <= b < 9 && (#[trigger] window_of(b, self.controls@[b])) is Some && window_of(
                    b,
                    self.controls@[b],
                )->0.space == space,
    {
        for bank in 0..9usize
            invariant
                forall|b: int|
                    0 <= b < bank ==> !((#[trigger] window_of(b, self.controls@[b])) is Some
                        && window_of(b, self.controls@[b])->0.space == space),
        {
            match window(bank, self.controls[bank]) {
                None => {},
                Some(w) => {
                    if w.space == space {
                        assert(window_of(bank as int, self.controls@[bank as int]) == Some(w));
                        return true;
                    }
                },
            }
        }
        false
    }

    /// The banks that answer for an address, in order.
    pub fn banks_at(&self, space: VramSpace, offset: u32) -> (r: Vec<usize>)
        ensures
            r@ == answering(self.controls@, space, offset, 9),
    {
        let mut out: Vec<usize> = Vec::new();
        for bank in 0..9usize
            invariant
                out@ == answering(self.controls@, space, offset, bank as nat),
        {
            match window(bank, self.controls[bank]) {
                None => {},
                Some(w) => {
                    if w.space == space && w.base <= offset && offset - w.base < w.size {
                        out.push(bank);
                    }
                },
            }
        }
        out
    }
}

/// Those of the first `n` banks that answer for an address, in order.
pub open spec fn answering(controls: Seq<u8>, space: VramSpace, offset: u32, n: nat) -> Seq<usize>
    decreases n,
{
    if n == 0 {
        Seq::empty()
    } else {
        let before = answering(controls, space, offset, (n - 1) as nat);
        if bank_offset(n - 1, controls[n - 1], space, offset) is Some {
            before.push((n - 1) as usize)
        } else {
            before
        }
    }
}

/// A bank's worth of zeroes.
fn blank(size: usize) -> (r: Vec<u8>)
    ensures
        r@ == Seq::new(size as nat, |i: int| 0u8),
{
    let r = vec![0u8;size];
    assert(r@ =~= Seq::new(size as nat, |i: int| 0u8));
    r
}

/// Nothing answers once no bank is mapped into a space: a read there sees zero.
pub proof fn law_unmapped_space_reads_zero(vram: Vram, space: VramSpace, offset: u32)
    requires
        forall|b: int|
            0 <= b < 9 ==> bank_offset(b, #[trigger] vram.controls@[b], space, offset) is None,
    ensures
        vram.byte(space, offset) == 0,
{
    reveal(Vram::byte);
    reveal_with_fuel(Vram::answer, 10);
    assert(forall|b: int|
        0 <= b < 9 ==> bank_offset(b, #[trigger] vram.controls@[b], space, offset) is None);
    lemma_or_of_same(0);
}

/// Whether a bank holds the byte at an address.
pub open spec fn reaches(vram: Vram, bank: int, space: VramSpace, offset: u32) -> bool {
    bank_offset(bank, vram.controls@[bank], space, offset) matches Some(i)
        && i < vram.banks@[bank]@.len()
}

/// A byte that was written reads back, however many banks answer for its address.
pub proof fn law_a_write_reads_back(
    before: Vram,
    after: Vram,
    space: VramSpace,
    offset: u32,
    value: u8,
    bank: int,
)
    requires
        after.controls == before.controls,
        forall|b: int|
            0 <= b < 9 ==> (#[trigger] after.banks@[b])@ == bank_after(
                before.banks@[b]@,
                b,
                before.controls@[b],
                space,
                offset,
                value,
            ),
        0 <= bank < 9,
        reaches(before, bank, space, offset),
    ensures
        after.byte(space, offset) == value,
{
    reveal(Vram::byte);
    lemma_written_banks_agree(before, after, space, offset, value, bank, 9);
}

/// Banks that took the same byte answer with it together.
proof fn lemma_written_banks_agree(
    before: Vram,
    after: Vram,
    space: VramSpace,
    offset: u32,
    value: u8,
    bank: int,
    n: nat,
)
    requires
        after.controls == before.controls,
        forall|b: int|
            0 <= b < 9 ==> (#[trigger] after.banks@[b])@ == bank_after(
                before.banks@[b]@,
                b,
                before.controls@[b],
                space,
                offset,
                value,
            ),
        0 <= bank < 9,
        reaches(before, bank, space, offset),
        n <= 9,
    ensures
        after.answer(space, offset, n) == value || after.answer(space, offset, n) == 0,
        bank < n ==> after.answer(space, offset, n) == value,
    decreases n,
{
    if n > 0 {
        lemma_written_banks_agree(before, after, space, offset, value, bank, (n - 1) as nat);
        assert(after.banks@[n - 1]@ == bank_after(
            before.banks@[n - 1]@,
            n - 1,
            before.controls@[n - 1],
            space,
            offset,
            value,
        ));
        lemma_or_of_same(value);
    }
}

/// Banks that answer with nothing, or with the same, leave an answer as it is.
proof fn lemma_or_of_same(value: u8)
    ensures
        0u8 | value == value,
        value | value == value,
        value | 0u8 == value,
        0u8 | 0u8 == 0u8,
{
    assert(0u8 | value == value && value | value == value && value | 0u8 == value && 0u8 | 0u8 == 0u8)
        by (bit_vector);
}

/// The fields of a control byte.
proof fn lemma_control(control: u8)
    ensures
        control & 7 == control % 8,
        control & 3 == control % 4,
        (control >> 3) & 3 == control / 8 % 4,
        (control & 0x80 == 0) == (control < 0x80),
{
    assert(control & 7 == control % 8 && control & 3 == control % 4 && (control >> 3) & 3 == control / 8
        % 4 && (control & 0x80 == 0) == (control < 0x80)) by (bit_vector);
}

/// A window by its numbers.
pub open spec fn placed(space: VramSpace, base: int, size: int) -> Option<Window> {
    Some(Window { space, base: base as u32, size: size as u32 })
}

/// In the processor's own space the banks lie end to end, A first: four of 128 KiB, one of 64, two of
/// 16, one of 32 and one of 16.
pub proof fn law_direct_windows_lie_end_to_end(bank: int, control: u8)
    requires
        0 <= bank < 9,
        control >= 0x80,
        control % 8 == 0,
    ensures
        ({
            let kib = if bank < 4 {
                128int
            } else if bank == 4 {
                64
            } else if bank == 7 {
                32
            } else {
                16
            };
            let before = if bank <= 4 {
                128 * bank
            } else if bank == 5 {
                576
            } else if bank == 6 {
                592
            } else if bank == 7 {
                608
            } else {
                640
            };
            window_of(bank, control) == placed(VramSpace::Lcdc, 1024 * before, 1024 * kib)
        }),
{
    lemma_control(control);
}

/// A bank goes where its control byte says: bit 7 maps it at all, the low bits choose the space, and
/// bits 3 and 4 the place in it.
#[verifier::rlimit(30)]
pub proof fn law_a_bank_goes_where_its_control_says(bank: int, control: u8)
    requires
        0 <= bank < 9,
    ensures
        ({
            let w = window_of(bank, control);
            let mode = if bank < 2 { control as int % 4 } else { control as int % 8 };
            let place = control as int / 8 % 4;
            let far = 0x4000 * (place % 2) + 0x1_0000 * (place / 2);
            let on = control >= 0x80;
            &&& !on ==> w is None
            &&& on && bank <= 3 && mode == 1 ==> w == placed(VramSpace::BgA, 0x2_0000 * place, 0x2_0000)
            &&& on && bank <= 3 && mode == 3 ==> w == placed(
                VramSpace::Texture,
                0x2_0000 * place,
                0x2_0000,
            )
            &&& on && bank <= 1 && mode == 2 ==> w == placed(
                VramSpace::ObjA,
                0x2_0000 * (place % 2),
                0x2_0000,
            )
            &&& on && (bank == 2 || bank == 3) && mode == 2 ==> w == placed(
                VramSpace::Arm7,
                0x2_0000 * (place % 2),
                0x2_0000,
            )
            &&& on && bank == 2 && mode == 4 ==> w == placed(VramSpace::BgB, 0, 0x2_0000)
            &&& on && bank == 3 && mode == 4 ==> w == placed(VramSpace::ObjB, 0, 0x2_0000)
            &&& on && bank == 4 && mode == 1 ==> w == placed(VramSpace::BgA, 0, 0x1_0000)
            &&& on && bank == 4 && mode == 2 ==> w == placed(VramSpace::ObjA, 0, 0x1_0000)
            &&& on && bank == 4 && mode == 3 ==> w == placed(VramSpace::TexturePalette, 0, 0x1_0000)
            &&& on && bank == 4 && mode == 4 ==> w == placed(VramSpace::BgExtPalA, 0, 0x8000)
            &&& on && (bank == 5 || bank == 6) && mode == 1 ==> w == placed(VramSpace::BgA, far, 0x4000)
            &&& on && (bank == 5 || bank == 6) && mode == 2 ==> w == placed(VramSpace::ObjA, far, 0x4000)
            &&& on && (bank == 5 || bank == 6) && mode == 3 ==> w == placed(
                VramSpace::TexturePalette,
                far,
                0x4000,
            )
            &&& on && (bank == 5 || bank == 6) && mode == 4 ==> w == placed(
                VramSpace::BgExtPalA,
                0x4000 * (place % 2),
                0x4000,
            )
            &&& on && (bank == 5 || bank == 6) && mode == 5 ==> w == placed(
                VramSpace::ObjExtPalA,
                0,
                0x2000,
            )
            &&& on && bank == 7 && mode == 1 ==> w == placed(VramSpace::BgB, 0, 0x8000)
            &&& on && bank == 7 && mode == 2 ==> w == placed(VramSpace::BgExtPalB, 0, 0x8000)
            &&& on && bank == 8 && mode == 1 ==> w == placed(VramSpace::BgB, 0x8000, 0x4000)
            &&& on && bank == 8 && mode == 2 ==> w == placed(VramSpace::ObjB, 0, 0x4000)
            &&& on && bank == 8 && mode == 3 ==> w == placed(VramSpace::ObjExtPalB, 0, 0x2000)
        }),
{
    lemma_control(control);
}

/// A bank that alone answers for an address shows its bytes there in order, the first at its base.
pub proof fn law_a_bank_shows_its_bytes(vram: Vram, bank: int, w: Window, i: int)
    requires
        0 <= bank < 9,
        window_of(bank, vram.controls@[bank]) == Some(w),
        0 <= i < w.size,
        w.base + i <= u32::MAX,
        i < vram.banks@[bank]@.len(),
        forall|b: int|
            0 <= b < 9 && b != bank ==> bank_offset(
                b,
                #[trigger] vram.controls@[b],
                w.space,
                (w.base + i) as u32,
            ) is None,
    ensures
        vram.byte(w.space, (w.base + i) as u32) == vram.banks@[bank]@[i],
{
    reveal(Vram::byte);
    lemma_one_bank_answers(vram, bank, w, i, 9);
}

proof fn lemma_one_bank_answers(vram: Vram, bank: int, w: Window, i: int, n: nat)
    requires
        0 <= bank < 9,
        window_of(bank, vram.controls@[bank]) == Some(w),
        0 <= i < w.size,
        w.base + i <= u32::MAX,
        i < vram.banks@[bank]@.len(),
        forall|b: int|
            0 <= b < 9 && b != bank ==> bank_offset(
                b,
                #[trigger] vram.controls@[b],
                w.space,
                (w.base + i) as u32,
            ) is None,
        n <= 9,
    ensures
        vram.answer(w.space, (w.base + i) as u32, n) == (if bank < n {
            vram.banks@[bank]@[i]
        } else {
            0
        }),
    decreases n,
{
    if n > 0 {
        lemma_one_bank_answers(vram, bank, w, i, (n - 1) as nat);
        lemma_or_of_same(vram.banks@[bank]@[i]);
        let control = vram.controls@[n - 1];
    }
}

/// The banks that answer for an address are listed once each, in order, and no other is.
pub proof fn law_answering_banks_are_listed(
    controls: Seq<u8>,
    space: VramSpace,
    offset: u32,
    n: nat,
    bank: int,
)
    requires
        n <= 9,
        0 <= bank < n,
    ensures
        answering(controls, space, offset, n).contains(bank as usize) == (bank_offset(
            bank,
            controls[bank],
            space,
            offset,
        ) is Some),
        forall|i: int, j: int|
            0 <= i < j < answering(controls, space, offset, n).len() ==> #[trigger] answering(
                controls,
                space,
                offset,
                n,
            )[i] < #[trigger] answering(controls, space, offset, n)[j],
{
    lemma_listed(controls, space, offset, n);
}

/// What a list of answering banks holds.
proof fn lemma_listed(controls: Seq<u8>, space: VramSpace, offset: u32, n: nat)
    requires
        n <= 9,
    ensures
        ({
            let list = answering(controls, space, offset, n);
            &&& forall|i: int| 0 <= i < list.len() ==> (#[trigger] list[i]) < n
            &&& forall|i: int, j: int|
                0 <= i < j < list.len() ==> (#[trigger] list[i]) < (#[trigger] list[j])
            &&& forall|bank: int|
                0 <= bank < n ==> #[trigger] list.contains(bank as usize) == (bank_offset(
                    bank,
                    controls[bank],
                    space,
                    offset,
                ) is Some)
        }),
    decreases n,
{
    if n > 0 {
        lemma_listed(controls, space, offset, (n - 1) as nat);
        let before = answering(controls, space, offset, (n - 1) as nat);
        let list = answering(controls, space, offset, n);
        let last = (n - 1) as usize;
        assert forall|bank: int| 0 <= bank < n implies #[trigger] list.contains(bank as usize) == (
        bank_offset(bank, controls[bank], space, offset) is Some) by {
            if bank < n - 1 {
                assert(before.contains(bank as usize) == (bank_offset(
                    bank,
                    controls[bank],
                    space,
                    offset,
                ) is Some));
                if before.contains(bank as usize) {
                    let i = choose|i: int| 0 <= i < before.len() && before[i] == bank as usize;
                    assert(list[i] == bank as usize);
                }
                if list.contains(bank as usize) {
                    let i = choose|i: int| 0 <= i < list.len() && list[i] == bank as usize;
                    assert(i < before.len());
                    assert(before[i] == bank as usize);
                }
            } else {
                if bank_offset(bank, controls[bank], space, offset) is Some {
                    assert(list[list.len() - 1] == last);
                } else if list.contains(last) {
                    let i = choose|i: int| 0 <= i < list.len() && list[i] == last;
                    assert(before[i] < n - 1);
                }
            }
        }
    }
}

} // verus!
