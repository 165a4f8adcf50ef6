//! The beam, and the registers that follow it.

use handheld::gba::irq::source;
use handheld::gba::video::{
    dispcnt, dispstat, reg, VideoEvents, VideoTiming, CYCLES_PER_LINE, HBLANK_START_CYCLE,
    LINES_PER_FRAME, SCREEN_HEIGHT,
};
use handheld::state::{StateError, StateReader, StateWriter};

fn tick_all(video: &mut VideoTiming, mut cycles: u32) -> VideoEvents {
    let mut events = VideoEvents::default();
    while cycles > 0 {
        let (step_events, consumed) = video.tick(cycles);
        cycles -= consumed;
        if step_events.scanline_ready.is_some() {
            events.scanline_ready = step_events.scanline_ready;
        }
        events.entered_hblank |= step_events.entered_hblank;
        events.entered_vblank |= step_events.entered_vblank;
        events.frame_started |= step_events.frame_started;
        events.vcount_matched |= step_events.vcount_matched;
    }
    events
}

#[test]
fn a_frame_is_two_hundred_and_twenty_eight_lines_not_one_hundred_and_sixty() {
    let mut video = VideoTiming::new();
    let mut lines = 0;
    for _ in 0..LINES_PER_FRAME {
        tick_all(&mut video, CYCLES_PER_LINE);
        lines += 1;
    }
    assert_eq!(lines, 228);
    assert_eq!(video.vcount(), 0, "and it wrapped exactly");
}

#[test]
fn the_line_and_frame_lengths_multiply_out_to_the_documented_frame_cycle_count() {
    assert_eq!(CYCLES_PER_LINE, 1232);
    assert_eq!(CYCLES_PER_LINE * LINES_PER_FRAME, 280_896);
}

#[test]
fn horizontal_blanking_begins_after_the_visible_dots() {
    let mut video = VideoTiming::new();
    assert!(!video.in_hblank());
    tick_all(&mut video, HBLANK_START_CYCLE - 1);
    assert!(!video.in_hblank(), "still drawing the last visible dot");
    tick_all(&mut video, 1);
    assert!(video.in_hblank());
}

#[test]
fn entering_horizontal_blanking_is_reported_once_per_line() {
    let mut video = VideoTiming::new();
    let events = tick_all(&mut video, HBLANK_START_CYCLE);
    assert!(events.entered_hblank);
    assert_eq!(events.scanline_ready, Some(0));

    let events = tick_all(&mut video, 1);
    assert!(!events.entered_hblank, "the edge, not the level");
}

#[test]
fn a_scanline_is_reported_ready_only_while_the_beam_is_visible() {
    let mut video = VideoTiming::new();
    for _ in 0..SCREEN_HEIGHT {
        tick_all(&mut video, CYCLES_PER_LINE);
    }
    assert_eq!(video.vcount() as u32, SCREEN_HEIGHT);

    let events = tick_all(&mut video, HBLANK_START_CYCLE);
    assert!(events.entered_hblank, "HBlank still happens in VBlank");
    assert_eq!(events.scanline_ready, None, "but there is nothing to draw");
}

#[test]
fn vertical_blanking_begins_at_line_one_hundred_and_sixty() {
    let mut video = VideoTiming::new();
    for line in 0..SCREEN_HEIGHT {
        let events = tick_all(&mut video, CYCLES_PER_LINE);
        assert_eq!(
            events.entered_vblank,
            line + 1 == SCREEN_HEIGHT,
            "at line {line}"
        );
    }
    assert!(video.in_vblank());
}

#[test]
fn a_long_step_reports_every_scanline_it_crossed_rather_than_only_the_last() {
    let mut video = VideoTiming::new();
    let mut remaining = CYCLES_PER_LINE * 3;
    let mut scanlines = Vec::new();
    let mut hblanks = 0;
    while remaining > 0 {
        let (events, consumed) = video.tick(remaining);
        remaining -= consumed;
        if events.entered_hblank {
            hblanks += 1;
        }
        if let Some(line) = events.scanline_ready {
            scanlines.push(line);
        }
    }
    assert_eq!(video.vcount(), 3);
    assert_eq!(hblanks, 3, "one per line crossed");
    assert_eq!(
        scanlines,
        vec![0, 1, 2],
        "every scanline, not only the last"
    );
}

#[test]
fn vcount_matched_fires_once_per_matching_line_crossed_in_a_multi_line_step() {
    let mut video = VideoTiming::new();
    video.write16(reg::DISPSTAT, 1 << 8);

    let mut remaining = CYCLES_PER_LINE * (LINES_PER_FRAME + 3);
    let mut matches = 0;
    while remaining > 0 {
        let (events, consumed) = video.tick(remaining);
        remaining -= consumed;
        if events.vcount_matched {
            matches += 1;
        }
    }
    assert_eq!(matches, 2, "line 1 was crossed once in each of two frames");
}

#[test]
fn the_frame_start_edge_fires_when_vcount_wraps() {
    let mut video = VideoTiming::new();
    for _ in 0..LINES_PER_FRAME - 1 {
        assert!(!tick_all(&mut video, CYCLES_PER_LINE).frame_started);
    }
    assert!(tick_all(&mut video, CYCLES_PER_LINE).frame_started);
}

#[test]
fn the_vcount_comparison_fires_on_the_line_the_game_asked_for() {
    let mut video = VideoTiming::new();
    video.write16(reg::DISPSTAT, 5 << 8);

    for line in 1..8 {
        let events = tick_all(&mut video, CYCLES_PER_LINE);
        assert_eq!(events.vcount_matched, line == 5, "at line {line}");
    }
}

#[test]
fn a_write_to_dispstat_cannot_clear_the_hardware_flags() {
    let mut video = VideoTiming::new();
    for _ in 0..SCREEN_HEIGHT {
        tick_all(&mut video, CYCLES_PER_LINE);
    }
    assert_ne!(video.read16(reg::DISPSTAT).unwrap() & dispstat::VBLANK, 0);

    video.write16(reg::DISPSTAT, 0);
    assert_ne!(
        video.read16(reg::DISPSTAT).unwrap() & dispstat::VBLANK,
        0,
        "still in vertical blanking, whatever the game wrote"
    );
}

#[test]
fn the_status_flags_track_the_beam_rather_than_being_stored() {
    let mut video = VideoTiming::new();
    assert_eq!(video.read16(reg::DISPSTAT).unwrap() & dispstat::HBLANK, 0);
    tick_all(&mut video, HBLANK_START_CYCLE);
    assert_ne!(video.read16(reg::DISPSTAT).unwrap() & dispstat::HBLANK, 0);
    tick_all(&mut video, CYCLES_PER_LINE - HBLANK_START_CYCLE);
    assert_eq!(
        video.read16(reg::DISPSTAT).unwrap() & dispstat::HBLANK,
        0,
        "and it clears again on the next line"
    );
}

#[test]
fn vcount_is_read_only() {
    let mut video = VideoTiming::new();
    video.write16(reg::VCOUNT, 100);
    assert_eq!(video.vcount(), 0, "the beam did not move");
}

#[test]
fn only_the_enabled_video_interrupts_are_requested() {
    let mut video = VideoTiming::new();
    video.write16(reg::DISPSTAT, dispstat::VBLANK_IRQ);

    let mut sources = 0;
    for _ in 0..SCREEN_HEIGHT {
        let events = tick_all(&mut video, CYCLES_PER_LINE);
        sources |= video.interrupt_sources(&events);
    }
    assert_eq!(
        sources,
        source::VBLANK,
        "HBlank happened 160 times but nobody asked to hear about it"
    );
}

#[test]
fn enabling_the_hblank_interrupt_reports_it() {
    let mut video = VideoTiming::new();
    video.write16(reg::DISPSTAT, dispstat::HBLANK_IRQ);
    let events = tick_all(&mut video, HBLANK_START_CYCLE);
    assert_eq!(video.interrupt_sources(&events), source::HBLANK);
}

#[test]
fn the_bitmap_frame_bit_selects_the_second_buffer() {
    let mut video = VideoTiming::new();
    assert_eq!(video.bitmap_frame_offset(), 0);
    video.write16(reg::DISPCNT, dispcnt::FRAME_SELECT);
    assert_eq!(video.bitmap_frame_offset(), 0xA000);
}

#[test]
fn the_mode_comes_from_the_low_three_bits_of_dispcnt() {
    let mut video = VideoTiming::new();
    for mode in 0..6 {
        video.write16(reg::DISPCNT, mode);
        assert_eq!(video.mode(), mode);
    }
}

#[test]
fn video_state_round_trips_mid_scanline() {
    let mut video = VideoTiming::new();
    video.write16(reg::DISPCNT, 3 | dispcnt::BG2);
    video.write16(reg::DISPSTAT, dispstat::VBLANK_IRQ | (90 << 8));
    tick_all(&mut video, CYCLES_PER_LINE * 40 + 700);

    let mut w = StateWriter::new();
    video.save(&mut w);
    let bytes = w.into_bytes();
    let mut restored = VideoTiming::new();
    restored.load(&mut StateReader::new(bytes.clone())).unwrap();
    assert_eq!(restored, video);

    assert_eq!(
        tick_all(&mut restored, CYCLES_PER_LINE).scanline_ready,
        tick_all(&mut video, CYCLES_PER_LINE).scanline_ready
    );
}

#[test]
fn stepping_to_the_next_edge_lands_on_it() {
    let mut video = VideoTiming::new();
    assert_eq!(video.cycles_until_next_edge(), HBLANK_START_CYCLE);
    let (events, consumed) = video.tick(HBLANK_START_CYCLE);
    assert_eq!(consumed, HBLANK_START_CYCLE);
    assert!(events.entered_hblank);
    assert_eq!(video.cycles_until_next_edge(), CYCLES_PER_LINE - HBLANK_START_CYCLE);
    assert!(!video.forced_blank());
    video.write16(reg::DISPCNT, dispcnt::FORCED_BLANK);
    assert!(video.forced_blank());
}

#[test]
fn the_registers_are_where_they_are_claimed() {
    let mut video = VideoTiming::new();
    assert!(VideoTiming::owns(reg::DISPCNT) && VideoTiming::owns(reg::VCOUNT + 1));
    assert!(!VideoTiming::owns(reg::VCOUNT + 2));
    assert_eq!(video.read16(reg::VCOUNT + 2), None);
    assert_eq!(video.write16(reg::VCOUNT + 2, 1), None);
}

#[test]
fn a_stream_that_ends_early_is_reported_by_the_video() {
    let mut video = VideoTiming::new();
    assert_eq!(
        video.load(&mut StateReader::new(vec![1, 2, 3])),
        Err(StateError::UnexpectedEnd)
    );
}

#[test]
fn a_frame_reports_each_edge_once_however_it_is_split() {
    for slice in [1u32, 7, 960, 1000, 1232, 5000, 280_896] {
        let mut video = VideoTiming::new();
        video.write16(reg::DISPSTAT, 100 << 8);
        tick_all(&mut video, 12_345);
        let start = (video.vcount(), video.dot_cycle);
        let mut left = 280_896u32;
        let mut lines = vec![0u32; 228];
        let (mut hblanks, mut vblanks, mut frames, mut matches) = (0, 0, 0, 0);
        while left > 0 {
            let mut asked = slice.min(left);
            left -= asked;
            while asked > 0 {
                let (events, used) = video.tick(asked);
                assert!(1 <= used && used <= asked);
                asked -= used;
                hblanks += events.entered_hblank as u32;
                vblanks += events.entered_vblank as u32;
                frames += events.frame_started as u32;
                matches += events.vcount_matched as u32;
                if let Some(line) = events.scanline_ready {
                    lines[line as usize] += 1;
                }
            }
        }
        assert_eq!((video.vcount(), video.dot_cycle), start, "slices of {slice}");
        assert_eq!((hblanks, vblanks, frames, matches), (228, 1, 1, 1));
        assert!(lines[..160].iter().all(|n| *n == 1) && lines[160..].iter().all(|n| *n == 0));
    }
}
