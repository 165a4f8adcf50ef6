//! Human-readable dumps of a machine, for when reasoning from the picture has stalled.
//!
//! Everything here only reads, so a dump can be taken without disturbing what it describes.

use vstd::prelude::*;
use super::engine2d::background::{kind_of, BackgroundKind};
use super::engine2d::{Engine, Engine2d, Registers};
use super::gpu3d::{Gpu3d, Gpu3dState};
use super::ipc::{Ipc, IpcState, Layout};
use super::irq::InterruptController;
use super::memory::WramSplit;
use super::vram::{self, Vram, VramSpace, BANK_NAMES, SPACES};
use super::Core;
use crate::text::{digits, number, push_digits, push_number, push_str, push_truth, truth};

verus! {

/// Where one core is.
#[derive(Debug, Clone, Copy, PartialEq, Eq, Structural)]
pub struct CoreStatus {
    pub pc: u32,
    pub thumb: bool,
    pub halted: bool,
}

/// The parts of a machine that a dump describes.
#[derive(Debug)]
pub struct NdsSystem {
    pub arm9: CoreStatus,
    pub arm7: CoreStatus,
    pub vram: Vram,
    pub split: WramSplit,
    pub engine_a: Engine2d,
    pub engine_b: Engine2d,
    pub gpu3d: Gpu3d,
    pub irq: [InterruptController; 2],
    pub ipc: Ipc,
    /// The line being drawn, and how far into it the beam is.
    pub line: u16,
    pub cycle_in_line: u32,
}

/// A space's name.
pub open spec fn space_name(space: VramSpace) -> Seq<char> {
    match space {
        VramSpace::Lcdc => "Lcdc"@,
        VramSpace::BgA => "BgA"@,
        VramSpace::BgB => "BgB"@,
        VramSpace::ObjA => "ObjA"@,
        VramSpace::ObjB => "ObjB"@,
        VramSpace::BgExtPalA => "BgExtPalA"@,
        VramSpace::BgExtPalB => "BgExtPalB"@,
        VramSpace::ObjExtPalA => "ObjExtPalA"@,
        VramSpace::ObjExtPalB => "ObjExtPalB"@,
        VramSpace::Texture => "Texture"@,
        VramSpace::TexturePalette => "TexturePalette"@,
        VramSpace::Arm7 => "Arm7"@,
    }
}

fn space_text(space: VramSpace) -> (r: &'static str)
    ensures
        r@ == space_name(space),
{
    match space {
        VramSpace::Lcdc => "Lcdc",
        VramSpace::BgA => "BgA",
        VramSpace::BgB => "BgB",
        VramSpace::ObjA => "ObjA",
        VramSpace::ObjB => "ObjB",
        VramSpace::BgExtPalA => "BgExtPalA",
        VramSpace::BgExtPalB => "BgExtPalB",
        VramSpace::ObjExtPalA => "ObjExtPalA",
        VramSpace::ObjExtPalB => "ObjExtPalB",
        VramSpace::Texture => "Texture",
        VramSpace::TexturePalette => "TexturePalette",
        VramSpace::Arm7 => "Arm7",
    }
}

/// How a layer is drawn, by name.
pub open spec fn kind_name(kind: BackgroundKind) -> Seq<char> {
    match kind {
        BackgroundKind::Text => "Text"@,
        BackgroundKind::Affine => "Affine"@,
        BackgroundKind::ExtendedRotscale => "ExtendedRotscale"@,
        BackgroundKind::ExtendedBitmap => "ExtendedBitmap"@,
        BackgroundKind::ExtendedDirectBitmap => "ExtendedDirectBitmap"@,
        BackgroundKind::LargeBitmap => "LargeBitmap"@,
        BackgroundKind::ThreeD => "ThreeD"@,
        BackgroundKind::Absent => "None"@,
    }
}

fn kind_text(kind: BackgroundKind) -> (r: &'static str)
    ensures
        r@ == kind_name(kind),
{
    match kind {
        BackgroundKind::Text => "Text",
        BackgroundKind::Affine => "Affine",
        BackgroundKind::ExtendedRotscale => "ExtendedRotscale",
        BackgroundKind::ExtendedBitmap => "ExtendedBitmap",
        BackgroundKind::ExtendedDirectBitmap => "ExtendedDirectBitmap",
        BackgroundKind::LargeBitmap => "LargeBitmap",
        BackgroundKind::ThreeD => "ThreeD",
        BackgroundKind::Absent => "None",
    }
}

/// How the shared work RAM is split, by name.
pub open spec fn split_name(split: WramSplit) -> Seq<char> {
    match split {
        WramSplit::AllArm9 => "AllArm9"@,
        WramSplit::UpperArm9 => "UpperArm9"@,
        WramSplit::LowerArm9 => "LowerArm9"@,
        WramSplit::AllArm7 => "AllArm7"@,
    }
}

fn split_text(split: WramSplit) -> (r: &'static str)
    ensures
        r@ == split_name(split),
{
    match split {
        WramSplit::AllArm9 => "AllArm9",
        WramSplit::UpperArm9 => "UpperArm9",
        WramSplit::LowerArm9 => "LowerArm9",
        WramSplit::AllArm7 => "AllArm7",
    }
}

/// A decimal number.
pub open spec fn decimal(n: int) -> Seq<char> {
    number(n as nat, 10)
}

/// A text with the line of one VRAM bank behind it.
pub open spec fn with_bank(out: Seq<char>, bank: int, control: u8) -> Seq<char> {
    let named = out + "  "@ + BANK_NAMES@[bank]@;
    if control < 0x80 {
        named + ": disabled\n"@
    } else {
        named + ": MST="@ + decimal((control % 8) as int) + " OFS="@ + decimal(
            (control / 8 % 4) as int,
        ) + " (0x"@ + digits(control as nat, 16, 2) + ")\n"@
    }
}

/// A text with the lines of the first `n` VRAM banks behind it.
pub open spec fn with_banks(out: Seq<char>, controls: Seq<u8>, n: nat) -> Seq<char>
    decreases n,
{
    if n == 0 {
        out
    } else {
        with_bank(with_banks(out, controls, (n - 1) as nat), n - 1, controls[n - 1])
    }
}

fn push_banks(out: &mut String, vram: &Vram)
    ensures
        final(out)@ == with_banks(old(out)@, vram.controls@, 9),
{
    for bank in 0..9usize
        invariant
            out@ == with_banks(old(out)@, vram.controls@, bank as nat),
    {
        let control = vram.control(bank);
        push_str(out, "  ");
        push_str(out, BANK_NAMES[bank]);
        if control < 0x80 {
            push_str(out, ": disabled\n");
        } else {
            push_str(out, ": MST=");
            push_number(out, (control % 8) as u64, 10);
            push_str(out, " OFS=");
            push_number(out, (control / 8 % 4) as u64, 10);
            push_str(out, " (0x");
            push_digits(out, control as u64, 16, 2);
            push_str(out, ")\n");
        }
    }
}

/// Whether a bank is mapped into a space.
pub open spec fn is_in(controls: Seq<u8>, bank: int, space: VramSpace) -> bool {
    vram::window_of(bank, controls[bank]) matches Some(w) && w.space == space
}

/// Whether any of the first `n` banks is mapped into a space.
pub open spec fn any_in(controls: Seq<u8>, space: VramSpace, n: nat) -> bool
    decreases n,
{
    n > 0 && (any_in(controls, space, (n - 1) as nat) || is_in(controls, n - 1, space))
}

/// A text with the names of those of the first `n` banks behind it that are mapped into a space,
/// commas between.
pub open spec fn with_names(out: Seq<char>, controls: Seq<u8>, space: VramSpace, n: nat) -> Seq<char>
    decreases n,
{
    if n == 0 {
        out
    } else {
        let before = with_names(out, controls, space, (n - 1) as nat);
        if !is_in(controls, n - 1, space) {
            before
        } else if any_in(controls, space, (n - 1) as nat) {
            before + ", "@ + BANK_NAMES@[n - 1]@
        } else {
            before + BANK_NAMES@[n - 1]@
        }
    }
}

fn push_names(out: &mut String, vram: &Vram, space: VramSpace)
    ensures
        final(out)@ == with_names(old(out)@, vram.controls@, space, 9),
{
    let mut any = false;
    for bank in 0..9usize
        invariant
            any == any_in(vram.controls@, space, bank as nat),
            out@ == with_names(old(out)@, vram.controls@, space, bank as nat),
    {
        match vram::window(bank, vram.control(bank)) {
            None => {},
            Some(w) => {
                if w.space == space {
                    if any {
                        push_str(out, ", ");
                    }
                    push_str(out, BANK_NAMES[bank]);
                    any = true;
                }
            },
        }
    }
}

/// A text with the lines of the first `n` spaces behind it, those that hold a bank.
pub open spec fn with_spaces(out: Seq<char>, controls: Seq<u8>, n: nat) -> Seq<char>
    decreases n,
{
    if n == 0 {
        out
    } else {
        let before = with_spaces(out, controls, (n - 1) as nat);
        let space = SPACES@[n - 1];
        if any_in(controls, space, 9) {
            with_names(before + "  "@ + space_name(space) + ": "@, controls, space, 9) + "\n"@
        } else {
            before
        }
    }
}

/// Any bank in a space is one of the nine.
proof fn lemma_any_in(controls: Seq<u8>, space: VramSpace, n: nat)
    requires
        n <= 9,
    ensures
        any_in(controls, space, n) == exists|b: int|
            0 <= b < n && (#[trigger] vram::window_of(b, controls[b])) is Some && vram::window_of(
                b,
                controls[b],
            )->0.space == space,
    decreases n,
{
    if n > 0 {
        lemma_any_in(controls, space, (n - 1) as nat);
        let last = vram::window_of(n - 1, controls[n - 1]);
        assert(is_in(controls, n - 1, space) == (last is Some && last->0.space == space));
    }
}

fn push_spaces(out: &mut String, vram: &Vram)
    ensures
        final(out)@ == with_spaces(old(out)@, vram.controls@, 12),
{
    for i in 0..12usize
        invariant
            out@ == with_spaces(old(out)@, vram.controls@, i as nat),
    {
        let space = SPACES[i];
        proof {
            lemma_any_in(vram.controls@, space, 9);
        }
        if vram.space_is_mapped(space) {
            push_str(out, "  ");
            push_str(out, space_text(space));
            push_str(out, ": ");
            push_names(out, vram, space);
            push_str(out, "\n");
        }
    }
}


/// A text with one background layer's line behind it.
pub open spec fn with_layer(out: Seq<char>, engine: Registers, layer: int) -> Seq<char> {
    let bgcnt = engine.bgcnt[layer];
    let kind = kind_of(engine.engine, engine.dispcnt % 8, layer, engine.dispcnt, bgcnt);
    out + "  BG"@ + decimal(layer) + ": "@ + kind_name(kind) + " priority="@ + decimal(
        (bgcnt % 4) as int,
    ) + " char="@ + decimal((bgcnt / 4 % 16) as int) + " screen="@ + decimal(
        (bgcnt / 0x100 % 0x20) as int,
    ) + " size="@ + decimal((bgcnt / 0x4000) as int) + " ("@ + digits(bgcnt as nat, 16, 4) + ")\n"@
}

/// A text with the lines of an engine's first `n` layers behind it.
pub open spec fn with_layers(out: Seq<char>, engine: Registers, n: nat) -> Seq<char>
    decreases n,
{
    if n == 0 {
        out
    } else {
        with_layer(with_layers(out, engine, (n - 1) as nat), engine, n - 1)
    }
}

/// A text with one 2D engine's configuration behind it.
pub open spec fn with_engine(out: Seq<char>, engine: Registers, name: Seq<char>) -> Seq<char> {
    let word = engine.dispcnt;
    let head = out + "== Engine "@ + name + " ==\n"@ + "  DISPCNT="@ + digits(word as nat, 16, 8)
        + " display_mode="@ + decimal((word / 0x1_0000 % 4) as int) + " bg_mode="@ + decimal(
        (word % 8) as int,
    ) + "\n"@ + "  BG enable="@ + digits((word / 0x100 % 16) as nat, 2, 4) + " OBJ="@ + truth(
        word / 0x1000 % 2 == 1,
    ) + " 1D_map="@ + truth(word / 0x10 % 2 == 1) + " win0="@ + truth(word / 0x2000 % 2 == 1)
        + " win1="@ + truth(word / 0x4000 % 2 == 1) + " objwin="@ + truth(word / 0x8000 % 2 == 1)
        + "\n"@;
    with_layers(head, engine, 4)
}

/// One 2D engine's configuration, with what each background layer currently is.
///
/// Which renderer a layer uses depends on the background mode and on two `BGxCNT` bits whose meaning
/// changes with it, and a layer drawn by the wrong one looks like corrupt tile data.
fn push_engine(out: &mut String, engine: &Engine2d, name: &str)
    ensures
        final(out)@ == with_engine(old(out)@, engine.regs, name@),
{
    let word = engine.dispcnt();
    push_str(out, "== Engine ");
    push_str(out, name);
    push_str(out, " ==\n");
    push_str(out, "  DISPCNT=");
    push_digits(out, word as u64, 16, 8);
    push_str(out, " display_mode=");
    push_number(out, (word / 0x1_0000 % 4) as u64, 10);
    push_str(out, " bg_mode=");
    push_number(out, (word % 8) as u64, 10);
    push_str(out, "\n");
    push_str(out, "  BG enable=");
    push_digits(out, (word / 0x100 % 16) as u64, 2, 4);
    push_str(out, " OBJ=");
    push_truth(out, word / 0x1000 % 2 == 1);
    push_str(out, " 1D_map=");
    push_truth(out, word / 0x10 % 2 == 1);
    push_str(out, " win0=");
    push_truth(out, word / 0x2000 % 2 == 1);
    push_str(out, " win1=");
    push_truth(out, word / 0x4000 % 2 == 1);
    push_str(out, " objwin=");
    push_truth(out, word / 0x8000 % 2 == 1);
    push_str(out, "\n");
    let ghost head = out@;
    for layer in 0..4usize
        invariant
            word == engine.regs.dispcnt,
            out@ == with_layers(head, engine.regs, layer as nat),
    {
        let bgcnt = engine.regs.bgcnt[layer];
        let kind = BackgroundKind::of(engine.engine(), word % 8, layer, word, bgcnt);
        push_str(out, "  BG");
        push_number(out, layer as u64, 10);
        push_str(out, ": ");
        push_str(out, kind_text(kind));
        push_str(out, " priority=");
        push_number(out, (bgcnt % 4) as u64, 10);
        push_str(out, " char=");
        push_number(out, (bgcnt / 4 % 16) as u64, 10);
        push_str(out, " screen=");
        push_number(out, (bgcnt / 0x100 % 0x20) as u64, 10);
        push_str(out, " size=");
        push_number(out, (bgcnt / 0x4000) as u64, 10);
        push_str(out, " (");
        push_digits(out, bgcnt as u64, 16, 4);
        push_str(out, ")\n");
    }
}

/// A text with the 3D core's state behind it.
pub open spec fn with_gpu(out: Seq<char>, gpu: Gpu3d) -> Seq<char> {
    let view = gpu.geometry@.viewport;
    out + "\n== 3D ==\n"@ + "  layer enabled: "@ + truth(gpu@.disp3dcnt & 1 != 0) + "\n"@
        + "  polygons queued: "@ + decimal(gpu.geometry@.building.polygons.len() as int)
        + "  vertices queued: "@ + decimal(gpu.geometry@.building.vertices.len() as int) + "\n"@
        + "  matrix stack level: "@ + decimal(gpu.geometry.matrices@.pointer as int)
        + "  viewport: ["@ + decimal(view[0] as int) + ", "@ + decimal(view[1] as int) + ", "@
        + decimal(view[2] as int) + ", "@ + decimal(view[3] as int) + "]\n"@
}

fn push_gpu(out: &mut String, gpu: &Gpu3d)
    requires
        gpu.wf(),
    ensures
        final(out)@ == with_gpu(old(out)@, *gpu),
{
    let view = gpu.geometry.viewport();
    push_str(out, "\n== 3D ==\n");
    push_str(out, "  layer enabled: ");
    push_truth(out, gpu.enabled());
    push_str(out, "\n");
    push_str(out, "  polygons queued: ");
    push_number(out, gpu.geometry.polygon_count() as u64, 10);
    push_str(out, "  vertices queued: ");
    push_number(out, gpu.geometry.vertex_count() as u64, 10);
    push_str(out, "\n");
    push_str(out, "  matrix stack level: ");
    push_number(out, gpu.geometry.matrices.stack_pointer() as u64, 10);
    push_str(out, "  viewport: [");
    push_number(out, view[0] as u64, 10);
    push_str(out, ", ");
    push_number(out, view[1] as u64, 10);
    push_str(out, ", ");
    push_number(out, view[2] as u64, 10);
    push_str(out, ", ");
    push_number(out, view[3] as u64, 10);
    push_str(out, "]\n");
}

/// A text with one core's line behind it.
pub open spec fn with_core(out: Seq<char>, name: Seq<char>, core: CoreStatus) -> Seq<char> {
    out + name + " pc="@ + digits(core.pc as nat, 16, 8) + " thumb="@ + truth(core.thumb)
        + " halted="@ + truth(core.halted) + "\n"@
}

fn push_core(out: &mut String, name: &str, core: CoreStatus)
    ensures
        final(out)@ == with_core(old(out)@, name@, core),
{
    push_str(out, name);
    push_str(out, " pc=");
    push_digits(out, core.pc as u64, 16, 8);
    push_str(out, " thumb=");
    push_truth(out, core.thumb);
    push_str(out, " halted=");
    push_truth(out, core.halted);
    push_str(out, "\n");
}

/// A text with one interrupt controller's line behind it.
pub open spec fn with_irq(out: Seq<char>, name: Seq<char>, irq: InterruptController) -> Seq<char> {
    out + name + " IE="@ + digits(irq.enable as nat, 16, 8) + " IF="@ + digits(
        irq.flags as nat,
        16,
        8,
    ) + " active="@ + digits((irq.enable & irq.flags) as nat, 16, 8) + "\n"@
}

fn push_irq(out: &mut String, name: &str, irq: &InterruptController)
    ensures
        final(out)@ == with_irq(old(out)@, name@, *irq),
{
    push_str(out, name);
    push_str(out, " IE=");
    push_digits(out, irq.enable as u64, 16, 8);
    push_str(out, " IF=");
    push_digits(out, irq.flags() as u64, 16, 8);
    push_str(out, " active=");
    push_digits(out, irq.active() as u64, 16, 8);
    push_str(out, "\n");
}

impl NdsSystem {
    pub open spec fn wf(&self) -> bool {
        self.gpu3d.wf()
    }

    /// A machine as it comes up, with both cores where they were put.
    pub fn new(arm9: CoreStatus, arm7: CoreStatus) -> (r: Self)
        ensures
            r.wf(),
            r.arm9 == arm9,
            r.arm7 == arm7,
            r.vram.controls@ == Seq::new(9, |i: int| 0u8),
            r.split == WramSplit::AllArm9,
            r.engine_a.regs == Registers::initial(Engine::A),
            r.engine_b.regs == Registers::initial(Engine::B),
            r.gpu3d@ == Gpu3dState::initial(),
            r.irq@[0] == InterruptController::new(Core::Arm9),
            r.irq@[1] == InterruptController::new(Core::Arm7),
            r.ipc.wf(),
            r.ipc@ == IpcState::initial(),
            r.ipc.layouts() == seq![Layout::initial(), Layout::initial()],
            r.line == 0,
            r.cycle_in_line == 0,
    {
        NdsSystem {
            arm9,
            arm7,
            vram: Vram::new(),
            split: WramSplit::AllArm9,
            engine_a: Engine2d::new(Engine::A),
            engine_b: Engine2d::new(Engine::B),
            gpu3d: Gpu3d::new(),
            irq: [InterruptController::new(Core::Arm9), InterruptController::new(Core::Arm7)],
            ipc: Ipc::new(),
            line: 0,
            cycle_in_line: 0,
        }
    }

    /// The graphics configuration, in one page.
    pub open spec fn graphics_text(&self) -> Seq<char> {
        let banks = with_banks("== VRAM banks ==\n"@, self.vram.controls@, 9);
        let spaces = with_spaces(
            banks + "\n== VRAM spaces with a bank in them ==\n"@,
            self.vram.controls@,
            12,
        );
        let split = spaces + "\n== Shared WRAM ==\n  split: "@ + split_name(self.split) + "\n"@;
        let engine_a = with_engine(split + "\n"@, self.engine_a.regs, "A"@);
        let engine_b = with_engine(engine_a + "\n"@, self.engine_b.regs, "B"@);
        with_gpu(engine_b, self.gpu3d)
    }

    /// Where both cores are and what each is waiting for.
    pub open spec fn cores_text(&self) -> Seq<char> {
        let nine = with_core(Seq::empty(), "ARM9"@, self.arm9);
        let seven = with_core(nine, "ARM7"@, self.arm7);
        let irq_nine = with_irq(seven, "ARM9"@, self.irq@[0]);
        let irq_seven = with_irq(irq_nine, "ARM7"@, self.irq@[1]);
        irq_seven + "IPC: ARM9 recv "@ + decimal(self.ipc@.queue(Core::Arm9).len() as int)
            + " words, ARM7 recv "@ + decimal(self.ipc@.queue(Core::Arm7).len() as int)
            + " words\n"@ + "video: line "@ + decimal(self.line as int) + " cycle "@ + decimal(
            self.cycle_in_line as int,
        ) + "\n"@
    }

    /// Everything about the machine's graphics configuration, in one page.
    pub fn graphics_dump(&self) -> (r: String)
        requires
            self.wf(),
        ensures
            r@ == self.graphics_text(),
    {
        let mut out = String::new();
        push_str(&mut out, "== VRAM banks ==\n");
        assert(out@ =~= "== VRAM banks ==\n"@);
        push_banks(&mut out, &self.vram);
        push_str(&mut out, "\n== VRAM spaces with a bank in them ==\n");
        push_spaces(&mut out, &self.vram);
        push_str(&mut out, "\n== Shared WRAM ==\n  split: ");
        push_str(&mut out, split_text(self.split));
        push_str(&mut out, "\n");
        push_str(&mut out, "\n");
        push_engine(&mut out, &self.engine_a, "A");
        push_str(&mut out, "\n");
        push_engine(&mut out, &self.engine_b, "B");
        push_gpu(&mut out, &self.gpu3d);
        out
    }

    /// Where both cores are and what each is waiting for.
    ///
    /// The first thing to look at when a game appears to hang: mostly one core is spinning on a flag
    /// that the other was supposed to set, and this says which.
    pub fn cores_dump(&self) -> (r: String)
        ensures
            r@ == self.cores_text(),
    {
        let mut out = String::new();
        push_core(&mut out, "ARM9", self.arm9);
        push_core(&mut out, "ARM7", self.arm7);
        push_irq(&mut out, Core::Arm9.name(), &self.irq[0]);
        push_irq(&mut out, Core::Arm7.name(), &self.irq[1]);
        push_str(&mut out, "IPC: ARM9 recv ");
        push_number(&mut out, self.ipc.receive_len(Core::Arm9) as u64, 10);
        push_str(&mut out, " words, ARM7 recv ");
        push_number(&mut out, self.ipc.receive_len(Core::Arm7) as u64, 10);
        push_str(&mut out, " words\n");
        push_str(&mut out, "video: line ");
        push_number(&mut out, self.line as u64, 10);
        push_str(&mut out, " cycle ");
        push_number(&mut out, self.cycle_in_line as u64, 10);
        push_str(&mut out, "\n");
        out
    }
}

} // verus!
