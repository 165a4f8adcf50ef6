//! What an access costs.

use handheld::gba::waitstates::{Access, WaitControl, WAITCNT};
use handheld::state::{StateError, StateReader, StateWriter};

const IWRAM: u32 = 0x0300_0000;
const EWRAM: u32 = 0x0200_0000;
const VRAM: u32 = 0x0600_0000;
const ROM0: u32 = 0x0800_0000;
const ROM1: u32 = 0x0A00_0000;
const ROM2: u32 = 0x0C00_0000;
const SRAM: u32 = 0x0E00_0000;

#[test]
fn internal_work_ram_is_the_only_memory_that_answers_at_full_width_in_one_cycle() {
    let mut wait = WaitControl::new();
    for width in [1, 2, 4] {
        assert_eq!(wait.cost(IWRAM, width, Access::NonSequential, false), 1);
    }
}

#[test]
fn external_work_ram_costs_three_cycles_and_twice_that_for_a_word() {
    let mut wait = WaitControl::new();
    assert_eq!(wait.cost(EWRAM, 2, Access::NonSequential, false), 3);
    assert_eq!(wait.cost(EWRAM, 4, Access::NonSequential, false), 6);
}

#[test]
fn video_memory_costs_one_cycle_but_a_word_costs_two() {
    let mut wait = WaitControl::new();
    assert_eq!(wait.cost(VRAM, 2, Access::NonSequential, false), 1);
    assert_eq!(wait.cost(VRAM, 4, Access::NonSequential, false), 2);
}

#[test]
fn oam_is_thirty_two_bits_wide_unlike_the_memory_beside_it() {
    let mut wait = WaitControl::new();
    assert_eq!(wait.cost(0x0700_0000, 4, Access::NonSequential, false), 1);
}

#[test]
fn a_sequential_rom_access_is_cheaper_than_one_that_jumps() {
    let mut wait = WaitControl::new();
    let jump = wait.cost(ROM0, 2, Access::NonSequential, false);
    let walk = wait.cost(ROM0, 2, Access::Sequential, false);
    assert!(walk < jump, "{walk} should be cheaper than {jump}");
}

#[test]
fn the_three_rom_windows_are_timed_independently() {
    let mut wait = WaitControl::new();
    wait.write16((2 << 2) | (3 << 8));
    let fast = wait.cost(ROM0, 2, Access::NonSequential, false);
    let slow = wait.cost(ROM2, 2, Access::NonSequential, false);
    assert!(fast < slow, "{fast} against {slow}");
}

#[test]
fn every_first_access_setting_changes_the_cost() {
    let mut wait = WaitControl::new();
    let mut seen = Vec::new();
    for setting in 0..4u16 {
        wait.write16(setting << 2);
        seen.push(wait.cost(ROM0, 2, Access::NonSequential, false));
    }
    assert_eq!(seen, vec![5, 4, 3, 9], "1 cycle plus the wait states");
}

#[test]
fn the_second_half_of_a_word_access_is_always_sequential() {
    let mut wait = WaitControl::new();
    let halfword_jump = wait.cost(ROM0, 2, Access::NonSequential, false);
    let halfword_walk = wait.cost(ROM0, 2, Access::Sequential, false);
    assert_eq!(
        wait.cost(ROM0, 4, Access::NonSequential, false),
        halfword_jump + halfword_walk
    );
}

#[test]
fn each_rom_window_has_its_own_sequential_timing() {
    let mut wait = WaitControl::new();
    wait.write16(0);
    let w0 = wait.cost(ROM0, 2, Access::Sequential, false);
    let w1 = wait.cost(ROM1, 2, Access::Sequential, false);
    let w2 = wait.cost(ROM2, 2, Access::Sequential, false);
    assert_eq!((w0, w1, w2), (3, 5, 9), "2, 4, and 8 wait states plus one");
}

#[test]
fn the_fast_sequential_bit_makes_every_window_the_same_speed() {
    let mut wait = WaitControl::new();
    wait.write16((1 << 4) | (1 << 7) | (1 << 10));
    for window in [ROM0, ROM1, ROM2] {
        assert_eq!(wait.cost(window, 2, Access::Sequential, false), 2);
    }
}

#[test]
fn the_save_chip_is_eight_bits_wide_so_width_does_not_change_its_cost() {
    let mut wait = WaitControl::new();
    let byte = wait.cost(SRAM, 1, Access::NonSequential, false);
    assert_eq!(wait.cost(SRAM, 4, Access::NonSequential, false), byte);
}

#[test]
fn a_sequential_code_fetch_costs_one_cycle_once_the_buffer_is_primed() {
    let mut wait = WaitControl::new();
    wait.write16(1 << 14);
    let first = wait.cost(ROM0, 2, Access::NonSequential, true);
    let second = wait.cost(ROM0, 2, Access::Sequential, true);
    let third = wait.cost(ROM0, 2, Access::Sequential, true);
    assert!(second < first, "{second} should be cheaper than {first}");
    assert_eq!(second, 1, "the minimum bus-independent cost");
    assert_eq!(third, 1, "and it stays cheap as the run continues");
}

#[test]
fn a_data_access_to_rom_invalidates_the_prefetch_buffer() {
    let mut wait = WaitControl::new();
    wait.write16(1 << 14);
    wait.cost(ROM0, 2, Access::NonSequential, true);
    wait.cost(ROM0, 2, Access::Sequential, true);
    let data = wait.cost(ROM0, 2, Access::Sequential, false);
    let after = wait.cost(ROM0, 2, Access::Sequential, true);
    assert!(data > 1, "a data access never hits the buffer: {data}");
    assert!(
        after > 1,
        "and it invalidated the buffer for the fetch after it too: {after}"
    );
}

#[test]
fn the_prefetch_buffer_does_nothing_when_the_bit_is_clear() {
    let mut fetch = WaitControl::new();
    let mut data = WaitControl::new();
    fetch.cost(ROM0, 2, Access::NonSequential, true);
    data.cost(ROM0, 2, Access::NonSequential, false);
    assert_eq!(
        fetch.cost(ROM0, 2, Access::Sequential, true),
        data.cost(ROM0, 2, Access::Sequential, false),
        "is_fetch changes nothing when WAITCNT's bit is not set"
    );
}

#[test]
fn wait_control_reads_back_what_was_written() {
    let mut wait = WaitControl::new();
    wait.write16(0x4317);
    assert_eq!(wait.read16(), 0x4317);
}

#[test]
fn the_register_claims_its_word_and_no_more() {
    assert!(WaitControl::owns(WAITCNT));
    assert!(WaitControl::owns(WAITCNT + 3));
    assert!(!WaitControl::owns(WAITCNT - 1), "that is IME's neighbour");
    assert!(!WaitControl::owns(WAITCNT + 4));
}

#[test]
fn wait_state_configuration_round_trips() {
    let mut wait = WaitControl::new();
    wait.write16(0x4014);
    let mut w = StateWriter::new();
    wait.save(&mut w);
    let bytes = w.into_bytes();
    let mut restored = WaitControl::new();
    restored.load(&mut StateReader::new(bytes.clone())).unwrap();
    assert_eq!(restored, wait);
}

#[test]
fn a_stream_that_ends_early_is_reported_by_the_wait_control() {
    let mut wait = WaitControl::new();
    assert_eq!(wait.load(&mut StateReader::new(vec![])), Err(StateError::UnexpectedEnd));
}

#[test]
fn a_word_from_a_slow_window_adds_both_halves_exactly() {
    let mut wait = WaitControl::new();
    wait.write16(3 << 8);
    assert_eq!(wait.cost(ROM2, 4, Access::NonSequential, false), 9 + 9);
    assert_eq!(wait.cost(ROM2, 4, Access::Sequential, false), 9 + 9);
    assert_eq!(wait.cost(ROM1, 2, Access::NonSequential, false), 5);
}
