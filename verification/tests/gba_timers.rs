//! The four timers.

use handheld::gba::timers::{control, Timers, BASE, CHANNELS, PRESCALERS, PRESCALER_SHIFTS};
use handheld::state::{StateError, StateReader, StateWriter};

fn control_addr(channel: usize) -> u32 {
    BASE + channel as u32 * 4 + 2
}

fn reload_addr(channel: usize) -> u32 {
    BASE + channel as u32 * 4
}

fn start(timers: &mut Timers, channel: usize, prescale: u16, reload: u16) {
    timers.write16(reload_addr(channel), reload);
    timers.write16(control_addr(channel), control::ENABLE | prescale);
}

#[test]
fn a_disabled_timer_does_not_count() {
    let mut timers = Timers::new();
    timers.write16(reload_addr(0), 0);
    assert_eq!(timers.tick(1000), 0);
    assert_eq!(timers.counter(0), 0);
}

#[test]
fn enabling_a_timer_loads_the_counter_from_the_reload_latch() {
    let mut timers = Timers::new();
    start(&mut timers, 0, 0, 0xFF00);
    assert_eq!(timers.counter(0), 0xFF00);
}

#[test]
fn rewriting_control_on_a_running_timer_does_not_restart_it() {
    let mut timers = Timers::new();
    start(&mut timers, 0, 0, 0);
    timers.tick(100);
    assert_eq!(timers.counter(0), 100);

    timers.write16(control_addr(0), control::ENABLE | 1);
    assert_eq!(timers.counter(0), 100, "still counting from where it was");
}

#[test]
fn each_prescaler_divides_the_clock_by_its_documented_amount() {
    for (setting, divisor) in PRESCALERS.iter().enumerate() {
        let mut timers = Timers::new();
        start(&mut timers, 0, setting as u16, 0);
        timers.tick(divisor * 5);
        assert_eq!(
            timers.counter(0),
            5,
            "prescaler setting {setting} (divide by {divisor})"
        );
    }
}

#[test]
fn cycles_below_the_prescaler_are_carried_rather_than_dropped() {
    let mut timers = Timers::new();
    start(&mut timers, 0, 1, 0);
    for _ in 0..64 {
        timers.tick(1);
    }
    assert_eq!(timers.counter(0), 1);
}

#[test]
fn an_overflow_reloads_rather_than_wrapping_to_zero() {
    let mut timers = Timers::new();
    start(&mut timers, 0, 0, 0xFFFE);
    assert_eq!(timers.tick(1), 0);
    assert_eq!(timers.counter(0), 0xFFFF);
    assert_eq!(timers.tick(1), 1 << 0, "the overflow is reported");
    assert_eq!(timers.counter(0), 0xFFFE, "back to the reload, not to zero");
}

#[test]
fn a_cascading_timer_advances_on_the_overflow_below_it_and_not_on_the_clock() {
    let mut timers = Timers::new();
    start(&mut timers, 0, 0, 0xFFFF);
    timers.write16(reload_addr(1), 0);
    timers.write16(control_addr(1), control::ENABLE | control::CASCADE);

    assert_eq!(timers.counter(1), 0);
    timers.tick(1);
    assert_eq!(timers.counter(1), 1);
    assert_eq!(timers.counter(0), 0xFFFF, "and reloaded");
}

#[test]
fn a_cascade_can_run_the_whole_way_up_the_chain() {
    let mut timers = Timers::new();
    start(&mut timers, 0, 0, 0xFFFF);
    for channel in 1..CHANNELS {
        timers.write16(reload_addr(channel), 0xFFFF);
        timers.write16(control_addr(channel), control::ENABLE | control::CASCADE);
    }
    let overflowed = timers.tick(1);
    assert_eq!(overflowed, 0b1111, "all four reported an overflow");
}

#[test]
fn timer_zero_has_nothing_below_it_so_the_cascade_bit_does_nothing() {
    let mut timers = Timers::new();
    timers.write16(reload_addr(0), 0);
    timers.write16(control_addr(0), control::ENABLE | control::CASCADE);
    timers.tick(1000);
    assert_eq!(timers.counter(0), 0, "it is driven by nothing");
}

#[test]
fn only_timers_with_the_irq_bit_ask_for_an_interrupt() {
    let mut timers = Timers::new();
    start(&mut timers, 0, 0, 0xFFFF);
    timers.write16(reload_addr(1), 0xFFFF);
    timers.write16(
        control_addr(1),
        control::ENABLE | control::CASCADE | control::IRQ,
    );

    let overflowed = timers.tick(1);
    assert_eq!(overflowed, 0b11, "both overflowed");
    assert_eq!(
        timers.interrupts(overflowed),
        0b10,
        "but only the one that asked wants an interrupt"
    );
}

#[test]
fn the_counter_and_the_reload_share_an_address_but_not_a_field() {
    let mut timers = Timers::new();
    start(&mut timers, 0, 0, 0);
    timers.tick(50);
    timers.write16(reload_addr(0), 0x8000);
    assert_eq!(
        timers.read16(reload_addr(0)),
        Some(50),
        "the read still sees the counter"
    );
}

#[test]
fn control_reads_back_with_the_unused_bits_clear() {
    let mut timers = Timers::new();
    timers.write16(control_addr(2), 0xFFFF);
    assert_eq!(timers.read16(control_addr(2)), Some(control::MASK));
}

#[test]
fn the_block_claims_four_channels_and_no_more() {
    assert!(Timers::owns(BASE));
    assert!(Timers::owns(BASE + 15));
    assert!(!Timers::owns(BASE - 1));
    assert!(!Timers::owns(BASE + 16));
    let timers = Timers::new();
    assert_eq!(timers.read16(BASE + 16), None);
}

#[test]
fn timer_state_round_trips_mid_count() {
    let mut timers = Timers::new();
    start(&mut timers, 2, 2, 0x1234);
    timers.tick(700);

    let mut w = StateWriter::new();
    timers.save(&mut w);
    let bytes = w.into_bytes();
    let mut restored = Timers::new();
    restored.load(&mut StateReader::new(bytes.clone())).unwrap();
    assert_eq!(restored, timers);

    timers.tick(56);
    restored.tick(56);
    assert_eq!(restored.counter(2), timers.counter(2));
}

#[test]
fn every_prescaler_shift_matches_its_divisor() {
    for (setting, divisor) in PRESCALERS.iter().enumerate() {
        assert_eq!(
            1u32 << PRESCALER_SHIFTS[setting],
            *divisor,
            "setting {setting}"
        );
    }
}

#[test]
fn two_spans_make_the_same_timers_as_one() {
    let mut whole = Timers::new();
    start(&mut whole, 0, 1, 0xFFF0);
    whole.write16(reload_addr(1), 0xFFFE);
    whole.write16(control_addr(1), control::ENABLE | control::CASCADE);
    let mut split = whole.clone();
    let together = whole.tick(5_000);
    let apart = split.tick(1_234) | split.tick(3_766);
    assert_eq!(whole, split);
    assert_eq!(together, apart);
}

#[test]
fn a_long_span_overflows_many_times_and_reports_it_once() {
    let mut timers = Timers::new();
    start(&mut timers, 0, 0, 0xFFF0);
    timers.write16(reload_addr(1), 0);
    timers.write16(control_addr(1), control::ENABLE | control::CASCADE);
    assert_eq!(timers.tick(16 * 100 + 3), 1);
    assert_eq!(timers.counter(0), 0xFFF3);
    assert_eq!(timers.counter(1), 100, "every overflow below it counted");
}

#[test]
fn a_stream_that_ends_early_is_reported_by_the_timers() {
    let mut timers = Timers::new();
    assert_eq!(
        timers.load(&mut StateReader::new(vec![1])),
        Err(StateError::UnexpectedEnd)
    );
    assert_eq!(timers.write16(BASE - 2, 1), None);
}
