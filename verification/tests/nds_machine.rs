//! What spans the machine: the two cores, video memory, and what is shown of them.

use handheld::nds::debug::{fetch_for, instruction_bytes, regions, Fetch, ADDRESS_DIGITS};
use handheld::nds::diagnostics::{CoreStatus, NdsSystem};
use handheld::nds::engine2d::Engine;
use handheld::nds::irq::{reg as irq_reg, sources};
use handheld::nds::memory::{NdsMemory, WramSplit};
use handheld::nds::vram::{Vram, VramSpace, BANK_NAMES, SPACES};
use handheld::nds::Core;

fn system() -> NdsSystem {
    NdsSystem::new(
        CoreStatus { pc: 0x0200_0000, thumb: false, halted: false },
        CoreStatus { pc: 0x0380_0000, thumb: true, halted: true },
    )
}

#[test]
fn a_core_indexes_a_two_element_array() {
    let pair = ["nine", "seven"];
    assert_eq!(pair[Core::Arm9.index()], "nine");
    assert_eq!(pair[Core::Arm7.index()], "seven");
    assert_eq!(Core::Arm9.other(), Core::Arm7);
    assert_eq!(Core::Arm7.other().other(), Core::Arm7);
}

#[test]
fn the_graphics_dump_says_where_every_bank_went() {
    let mut nds = system();
    nds.vram.set_control(0, 0x80 | (1 << 3) | 1);
    nds.vram.set_control(7, 0x80 | 1);

    let dump = nds.graphics_dump();
    assert!(dump.contains("A: MST=1 OFS=1"), "{dump}");
    assert!(dump.contains("B: disabled"), "{dump}");
    assert!(dump.contains("BgA: A"), "{dump}");
    assert!(dump.contains("BgB: H"), "{dump}");
}

#[test]
fn the_graphics_dump_names_what_each_background_layer_currently_is() {
    let mut nds = system();
    let base = Engine::A.base();
    nds.engine_a.write32(base, (1 << 16) | 5);
    nds.engine_a.write16(base + 0x00C, 0x0084);

    let dump = nds.graphics_dump();
    assert!(dump.contains("bg_mode=5"), "{dump}");
    assert!(dump.contains("BG0: Text"), "{dump}");
    assert!(dump.contains("BG2: ExtendedDirectBitmap"), "{dump}");
}

#[test]
fn the_graphics_dump_covers_both_engines_and_the_3d_state() {
    let nds = system();
    let dump = nds.graphics_dump();
    assert!(dump.contains("== Engine A =="));
    assert!(dump.contains("== Engine B =="));
    assert!(dump.contains("layer enabled: false"));
    assert!(dump.contains("Shared WRAM"));
}

#[test]
fn the_graphics_dump_is_this_page() {
    let mut nds = system();
    nds.vram.set_control(0, 0x81);
    nds.vram.set_control(1, 0x81 | (1 << 3));
    nds.vram.set_control(2, 0x84);
    nds.split = WramSplit::UpperArm9;
    nds.engine_a.write32(Engine::A.base(), 0x0001_3F16);
    nds.engine_a.write16(Engine::A.base() + 0x0E, 0xC7A1);
    let expected = "== VRAM banks ==
  A: MST=1 OFS=0 (0x81)
  B: MST=1 OFS=1 (0x89)
  C: MST=4 OFS=0 (0x84)
  D: disabled
  E: disabled
  F: disabled
  G: disabled
  H: disabled
  I: disabled

== VRAM spaces with a bank in them ==
  BgA: A, B
  BgB: C

== Shared WRAM ==
  split: UpperArm9

== Engine A ==
  DISPCNT=00013F16 display_mode=1 bg_mode=6
  BG enable=1111 OBJ=true 1D_map=true win0=true win1=false objwin=false
  BG0: ThreeD priority=0 char=0 screen=0 size=0 (0000)
  BG1: None priority=0 char=0 screen=0 size=0 (0000)
  BG2: LargeBitmap priority=0 char=0 screen=0 size=0 (0000)
  BG3: None priority=1 char=8 screen=7 size=3 (C7A1)

== Engine B ==
  DISPCNT=00000000 display_mode=0 bg_mode=0
  BG enable=0000 OBJ=false 1D_map=false win0=false win1=false objwin=false
  BG0: Text priority=0 char=0 screen=0 size=0 (0000)
  BG1: Text priority=0 char=0 screen=0 size=0 (0000)
  BG2: Text priority=0 char=0 screen=0 size=0 (0000)
  BG3: Text priority=0 char=0 screen=0 size=0 (0000)

== 3D ==
  layer enabled: false
  polygons queued: 0  vertices queued: 0
  matrix stack level: 0  viewport: [0, 0, 255, 191]
";
    assert_eq!(nds.graphics_dump(), expected);
}

#[test]
fn the_cores_dump_says_where_both_cores_are() {
    let nds = system();
    let dump = nds.cores_dump();
    assert!(dump.contains("ARM9 pc=0200"), "{dump}");
    assert!(dump.contains("ARM7 pc=0380"), "{dump}");
    assert!(dump.contains("IPC:"), "{dump}");
    assert!(dump.contains("video: line"), "{dump}");
}

#[test]
fn the_cores_dump_shows_a_word_waiting_in_the_fifo() {
    let mut nds = system();
    nds.ipc.write_control(Core::Arm9, 1 << 15);
    nds.ipc.send(Core::Arm9, 0xDEAD_BEEF);
    assert!(nds.cores_dump().contains("ARM7 recv 1 words"));
}

#[test]
fn the_cores_dump_is_this_page() {
    let mut nds = system();
    nds.irq[0].write32(irq_reg::IE, sources::VBLANK | sources::IPC_SYNC);
    nds.irq[0].raise(sources::VBLANK | sources::HBLANK);
    nds.line = 191;
    nds.cycle_in_line = 2_000;
    let expected = "ARM9 pc=02000000 thumb=false halted=false
ARM7 pc=03800000 thumb=true halted=true
ARM9 IE=00010001 IF=00000003 active=00000001
ARM7 IE=00000000 IF=00000000 active=00000000
IPC: ARM9 recv 0 words, ARM7 recv 0 words
video: line 191 cycle 2000
";
    assert_eq!(nds.cores_dump(), expected);
}

#[test]
fn a_dump_does_not_disturb_the_machine() {
    let nds = system();
    let before = (nds.graphics_dump(), nds.cores_dump());
    let _ = nds.graphics_dump();
    let _ = nds.cores_dump();
    assert_eq!((nds.graphics_dump(), nds.cores_dump()), before);
}

#[test]
fn the_region_list_covers_the_memory_a_reader_would_look_for() {
    let all = regions();
    let names: Vec<&str> = all.iter().map(|r| r.name).collect();
    for expected in ["Main RAM", "DTCM", "ITCM", "OAM", "Palette RAM"] {
        assert!(names.contains(&expected), "missing {expected}");
    }
    assert_eq!(ADDRESS_DIGITS, 8);
    assert!(all.windows(2).all(|w| w[0].last < w[1].first));
}

#[test]
fn an_address_inside_an_instruction_fetches_the_whole_of_it() {
    assert_eq!(fetch_for(0x0200_0002, false), Fetch { addr: 0x0200_0000, width: 4 });
    assert_eq!(fetch_for(0x0200_0003, true), Fetch { addr: 0x0200_0002, width: 2 });
    assert_eq!(instruction_bytes(&[Some(1), Some(2)]), vec![1, 2]);
    assert_eq!(instruction_bytes(&[Some(1), None, Some(3)]), vec![1], "short, not padded");
}

#[test]
fn banks_answer_where_their_control_byte_puts_them() {
    let mut vram = Vram::new();
    assert_eq!(BANK_NAMES.len(), 9);
    assert!(SPACES.iter().all(|s| !vram.space_is_mapped(*s)));
    vram.set_control(0, 0x81);
    vram.write8(VramSpace::BgA, 5, 0x5A);
    assert_eq!(vram.read8(VramSpace::BgA, 5), 0x5A);
    assert_eq!(vram.banks_at(VramSpace::BgA, 5), vec![0]);
    vram.set_control(1, 0x81);
    vram.write16(VramSpace::BgA, 6, 0x1234);
    vram.set_control(0, 0);
    assert_eq!(vram.read16(VramSpace::BgA, 6), 0x1234, "both banks took the write");
    assert_eq!(vram.read8(VramSpace::BgA, 5), 0, "and the first one's byte went with it");
    assert_eq!(vram.control(1), 0x81);
    assert_eq!(vram.read32(VramSpace::BgA, 4), 0x1234_0000);
}

#[test]
fn main_ram_is_mirrored_for_the_arm7() {
    let mut memory = NdsMemory::new();
    memory.write8_arm7(0x0240_0001, 7);
    assert_eq!(memory.read8_arm7(0x0200_0001), Some(7));
    assert_eq!(memory.fetch16(0x0200_0000), 0x0700);
    assert_eq!(memory.fetch32(0x0200_0003), 0x0700);
    memory.write8_arm7(0x0381_0002, 9);
    assert_eq!(memory.fetch8(0x0380_0002), 9);
    assert_eq!(memory.read8_arm7(0x0500_0000), None);
}
