//! Video timing and the display registers.
//!
//! A scanline is 240 visible dots followed by 68 more, and a frame is 160 visible lines followed by
//! 68 more. `DISPSTAT` is half status and half configuration: its low three bits follow the beam and
//! are never stored.

pub mod dispcnt;
pub mod dispstat;
pub mod reg;

use vstd::prelude::*;
use crate::bits::align2;
use crate::gba::irq::source;
use crate::state::{self, StateError, StateReader, StateWriter};

verus! {

pub const SCREEN_WIDTH: u32 = 240;

pub const SCREEN_HEIGHT: u32 = 160;

/// Dots per scanline, including the 68 in horizontal blanking.
pub const DOTS_PER_LINE: u32 = 308;

/// Scanlines per frame, including the 68 in vertical blanking.
pub const LINES_PER_FRAME: u32 = 228;

/// Four cycles per dot.
pub const CYCLES_PER_DOT: u32 = 4;

pub const CYCLES_PER_LINE: u32 = 1232;

/// When horizontal blanking begins within a line.
pub const HBLANK_START_CYCLE: u32 = 960;

/// What the video hardware did during a slice of time: edges rather than levels.
#[derive(Debug, Clone, Copy, PartialEq, Eq, Structural)]
pub struct VideoEvents {
    /// A visible scanline finished drawing and should be composited.
    pub scanline_ready: Option<u16>,
    pub entered_hblank: bool,
    pub entered_vblank: bool,
    /// `VCOUNT` wrapped to zero, so a new frame's rendering state begins.
    pub frame_started: bool,
    /// `VCOUNT` reached the value that the game asked to be told about.
    pub vcount_matched: bool,
}

impl Default for VideoEvents {
    fn default() -> (r: Self)
        ensures
            r == (VideoEvents {
                scanline_ready: None,
                entered_hblank: false,
                entered_vblank: false,
                frame_started: false,
                vcount_matched: false,
            }),
    {
        VideoEvents {
            scanline_ready: None,
            entered_hblank: false,
            entered_vblank: false,
            frame_started: false,
            vcount_matched: false,
        }
    }
}

/// The display registers and the scanline state machine.
#[derive(Debug, Clone, Copy, PartialEq, Eq, Structural)]
pub struct VideoTiming {
    pub dispcnt: u16,
    /// Only the writable half is stored; the flags are derived from the position below.
    pub dispstat: u16,
    pub vcount: u16,
    /// Cycles into the current scanline.
    pub dot_cycle: u32,
}

/// How many bytes the display registers save.
pub open spec fn saved_size() -> int {
    10
}

/// One bit of a register.
pub open spec fn bit(set: bool, value: int) -> int {
    if set { value } else { 0 }
}

impl VideoTiming {
    /// The beam is inside a frame.
    pub open spec fn wf(self) -> bool {
        self.dot_cycle < CYCLES_PER_LINE && self.vcount < LINES_PER_FRAME
    }

    /// The beam can be moved on.
    pub open spec fn steady(self) -> bool {
        self.dot_cycle <= CYCLES_PER_LINE && self.vcount < u16::MAX
    }

    /// Where in a frame the beam is, in cycles.
    pub open spec fn beam(self) -> int {
        self.vcount * CYCLES_PER_LINE + self.dot_cycle
    }

    /// How many of some cycles one call uses: never past the next line boundary.
    pub open spec fn used(self, cycles: u32) -> int {
        crate::arith::smaller(cycles as int, CYCLES_PER_LINE - self.dot_cycle)
    }

    /// Whether a call brings the beam to the end of its line.
    pub open spec fn ends_line(self, cycles: u32) -> bool {
        self.dot_cycle + self.used(cycles) >= CYCLES_PER_LINE
    }

    /// The line after this one.
    pub open spec fn next_line(self) -> int {
        if self.vcount + 1 >= LINES_PER_FRAME { 0 } else { self.vcount + 1 }
    }

    /// The beam moved on.
    pub open spec fn ticked(self, cycles: u32) -> VideoTiming {
        if self.ends_line(cycles) {
            VideoTiming {
                dot_cycle: (self.dot_cycle + self.used(cycles) - CYCLES_PER_LINE) as u32,
                vcount: self.next_line() as u16,
                ..self
            }
        } else {
            VideoTiming { dot_cycle: (self.dot_cycle + self.used(cycles)) as u32, ..self }
        }
    }

    /// The edges that a call crosses, at most one of each.
    pub open spec fn events(self, cycles: u32) -> VideoEvents {
        let hblank = self.dot_cycle < HBLANK_START_CYCLE && self.dot_cycle + self.used(cycles)
            >= HBLANK_START_CYCLE;
        let line = self.ends_line(cycles);
        VideoEvents {
            entered_hblank: hblank,
            scanline_ready: if hblank && self.vcount < SCREEN_HEIGHT {
                Some(self.vcount)
            } else {
                None
            },
            frame_started: line && self.vcount + 1 >= LINES_PER_FRAME,
            entered_vblank: line && self.next_line() == SCREEN_HEIGHT,
            vcount_matched: line && self.next_line() == self.dispstat / 0x100,
        }
    }

    /// A register as it reads.
    pub open spec fn half(self, addr: u32) -> Option<u16> {
        if align2(addr) == reg::DISPCNT {
            Some(self.dispcnt)
        } else if align2(addr) == reg::DISPSTAT {
            Some(
                (self.dispstat - self.dispstat % 8 + bit(self.vcount >= SCREEN_HEIGHT, 1) + bit(
                    self.dot_cycle >= HBLANK_START_CYCLE,
                    2,
                ) + bit(self.vcount == self.dispstat / 0x100, 4)) as u16,
            )
        } else if align2(addr) == reg::VCOUNT {
            Some(self.vcount)
        } else {
            None
        }
    }

    /// A register written. `VCOUNT` and the low three bits of `DISPSTAT` belong to the hardware.
    pub open spec fn written(self, addr: u32, value: u16) -> VideoTiming {
        if align2(addr) == reg::DISPCNT {
            VideoTiming { dispcnt: value, ..self }
        } else if align2(addr) == reg::DISPSTAT {
            VideoTiming { dispstat: (self.dispstat % 8 + (value - value % 8)) as u16, ..self }
        } else {
            self
        }
    }

    /// The registers after reading the stream at `at`, as far as `limit` lets it be read.
    pub open spec fn restored(self, d: Seq<u8>, limit: int, at: int) -> VideoTiming {
        VideoTiming {
            dispcnt: state::or16(d, limit, at, self.dispcnt),
            dispstat: state::or16(d, limit, at + 2, self.dispstat),
            vcount: state::or16(d, limit, at + 4, self.vcount),
            dot_cycle: state::or32(d, limit, at + 6, self.dot_cycle),
        }
    }

    /// Whether the stream holds exactly these registers at `at`.
    pub open spec fn encoded_at(self, d: Seq<u8>, at: int) -> bool {
        at + saved_size() <= d.len() && self.restored(d, d.len() as int, at) == self
    }

    pub fn new() -> (r: Self)
        ensures
            r == (VideoTiming { dispcnt: 0, dispstat: 0, vcount: 0, dot_cycle: 0 }),
            r.wf(),
    {
        VideoTiming { dispcnt: 0, dispstat: 0, vcount: 0, dot_cycle: 0 }
    }

    /// Whether an address is in the register block.
    pub fn owns(addr: u32) -> (r: bool)
        ensures
            r == (reg::DISPCNT <= addr <= reg::VCOUNT + 1),
    {
        reg::DISPCNT <= addr && addr <= reg::VCOUNT + 1
    }

    pub fn vcount(&self) -> (r: u16)
        ensures
            r == self.vcount,
    {
        self.vcount
    }

    pub fn mode(&self) -> (r: u16)
        ensures
            r == self.dispcnt % 8,
    {
        self.dispcnt % 8
    }

    #[verifier::allow_in_spec]
    pub fn in_vblank(&self) -> bool
        returns
            self.vcount >= SCREEN_HEIGHT,
    {
        self.vcount as u32 >= SCREEN_HEIGHT
    }

    #[verifier::allow_in_spec]
    pub fn in_hblank(&self) -> bool
        returns
            self.dot_cycle >= HBLANK_START_CYCLE,
    {
        self.dot_cycle >= HBLANK_START_CYCLE
    }

    /// Cycles until the next point at which [`Self::tick`] could report an edge: horizontal blanking
    /// beginning on the current line, or the line ending, whichever comes first.
    pub fn cycles_until_next_edge(&self) -> (r: u32)
        requires
            self.dot_cycle <= CYCLES_PER_LINE,
        ensures
            r == (if self.in_hblank() {
                CYCLES_PER_LINE - self.dot_cycle
            } else {
                HBLANK_START_CYCLE - self.dot_cycle
            }),
    {
        if self.in_hblank() {
            CYCLES_PER_LINE - self.dot_cycle
        } else {
            HBLANK_START_CYCLE - self.dot_cycle
        }
    }

    /// Which bitmap frame modes 4 and 5 display, as a VRAM byte offset.
    pub fn bitmap_frame_offset(&self) -> (r: usize)
        ensures
            r == (if self.dispcnt / 0x10 % 2 == 1 {
                0xA000int
            } else {
                0
            }),
    {
        if self.dispcnt / 0x10 % 2 == 1 {
            0xA000
        } else {
            0
        }
    }

    pub fn forced_blank(&self) -> (r: bool)
        ensures
            r == (self.dispcnt / 0x80 % 2 == 1),
    {
        self.dispcnt / 0x80 % 2 == 1
    }

    /// Advance by up to `cycles`, but never past the next line boundary, so that one call reports at
    /// most one of each edge. Returns how many cycles it used alongside the events.
    pub fn tick(&mut self, cycles: u32) -> (r: (VideoEvents, u32))
        requires
            old(self).steady(),
        ensures
            *final(self) == old(self).ticked(cycles),
            r.0 == old(self).events(cycles),
            r.1 == old(self).used(cycles),
            old(self).wf() ==> final(self).wf(),
    {
        let mut events = VideoEvents::default();
        let was_hblank = self.in_hblank();
        let left: u32 = CYCLES_PER_LINE - self.dot_cycle;
        let step: u32 = if cycles <= left { cycles } else { left };
        self.dot_cycle = self.dot_cycle + step;
        if !was_hblank && self.in_hblank() {
            events.entered_hblank = true;
            if (self.vcount as u32) < SCREEN_HEIGHT {
                events.scanline_ready = Some(self.vcount);
            }
        }
        if self.dot_cycle >= CYCLES_PER_LINE {
            self.dot_cycle = self.dot_cycle - CYCLES_PER_LINE;
            self.advance_line(&mut events);
        }
        (events, step)
    }

    fn advance_line(&mut self, events: &mut VideoEvents)
        requires
            old(self).vcount < u16::MAX,
            !old(events).frame_started && !old(events).entered_vblank
                && !old(events).vcount_matched,
        ensures
            *final(self) == (VideoTiming { vcount: old(self).next_line() as u16, ..*old(self) }),
            *final(events) == (VideoEvents {
                frame_started: old(self).vcount + 1 >= LINES_PER_FRAME,
                entered_vblank: old(self).next_line() == SCREEN_HEIGHT,
                vcount_matched: old(self).next_line() == old(self).dispstat / 0x100,
                ..*old(events)
            }),
    {
        self.vcount = self.vcount + 1;
        if self.vcount as u32 >= LINES_PER_FRAME {
            self.vcount = 0;
            events.frame_started = true;
        }
        if self.vcount as u32 == SCREEN_HEIGHT {
            events.entered_vblank = true;
        }
        if self.vcount == self.dispstat / 0x100 {
            events.vcount_matched = true;
        }
    }

    /// Which of these events the game asked to be interrupted for.
    pub fn interrupt_sources(&self, events: &VideoEvents) -> (r: u16)
        ensures
            r == bit(
                events.entered_vblank && self.dispstat / 8 % 2 == 1,
                source::VBLANK as int,
            ) + bit(
                events.entered_hblank && self.dispstat / 0x10 % 2 == 1,
                source::HBLANK as int,
            ) + bit(
                events.vcount_matched && self.dispstat / 0x20 % 2 == 1,
                source::VCOUNT as int,
            ),
    {
        let mut out: u16 = 0;
        if events.entered_vblank && self.dispstat / 8 % 2 == 1 {
            out = out + source::VBLANK;
        }
        if events.entered_hblank && self.dispstat / 0x10 % 2 == 1 {
            out = out + source::HBLANK;
        }
        if events.vcount_matched && self.dispstat / 0x20 % 2 == 1 {
            out = out + source::VCOUNT;
        }
        out
    }

    pub fn read16(&self, addr: u32) -> (r: Option<u16>)
        ensures
            r == self.half(addr),
    {
        let half = align2(addr);
        if half == reg::DISPCNT {
            Some(self.dispcnt)
        } else if half == reg::DISPSTAT {
            // The flags are derived from where the beam is rather than stored, so they cannot
            // drift out of step with it.
            let mut value: u16 = self.dispstat - self.dispstat % 8;
            if self.in_vblank() {
                value = value + dispstat::VBLANK;
            }
            if self.in_hblank() {
                value = value + dispstat::HBLANK;
            }
            if self.vcount == self.dispstat / 0x100 {
                value = value + dispstat::VCOUNT_MATCH;
            }
            Some(value)
        } else if half == reg::VCOUNT {
            Some(self.vcount)
        } else {
            None
        }
    }

    pub fn write16(&mut self, addr: u32, value: u16) -> (r: Option<()>)
        ensures
            *final(self) == old(self).written(addr, value),
            r == (if old(self).half(addr) is Some { Some(()) } else { None }),
    {
        let half = align2(addr);
        if half == reg::DISPCNT {
            self.dispcnt = value;
        } else if half == reg::DISPSTAT {
            self.dispstat = self.dispstat % 8 + (value - value % 8);
        } else if half != reg::VCOUNT {
            return None;
        }
        Some(())
    }

    pub fn save(&self, w: &mut StateWriter)
        ensures
            state::continues(old(w)@, final(w)@),
            final(w)@.len() == old(w)@.len() + saved_size(),
            self.encoded_at(final(w)@, old(w)@.len() as int),
    {
        w.write_u16(self.dispcnt);
        w.write_u16(self.dispstat);
        w.write_u16(self.vcount);
        w.write_u32(self.dot_cycle);
    }

    pub fn load(&mut self, r: &mut StateReader) -> (result: Result<(), StateError>)
        ensures
            *final(self) == old(self).restored(old(r).data(), old(r).limit(), old(r).pos() as int),
            state::advanced(*old(r), *final(r), saved_size()),
            result == state::verdict(*final(r)),
    {
        self.dispcnt = r.u16_or(self.dispcnt);
        self.dispstat = r.u16_or(self.dispstat);
        self.vcount = r.u16_or(self.vcount);
        self.dot_cycle = r.u32_or(self.dot_cycle);
        r.status()
    }
}

impl Default for VideoTiming {
    fn default() -> (r: Self)
        ensures
            r == (VideoTiming { dispcnt: 0, dispstat: 0, vcount: 0, dot_cycle: 0 }),
    {
        VideoTiming::new()
    }
}

/// Registers that were saved come back whole, whatever they are read into.
pub proof fn law_save_then_load(saved: VideoTiming, before: VideoTiming, d: Seq<u8>, at: int)
    requires
        0 <= at,
        saved.encoded_at(d, at),
    ensures
        before.restored(d, d.len() as int, at) == saved,
{
}

/// The dots and lines multiply out: four cycles a dot, and 280,896 cycles a frame.
pub proof fn law_the_lengths_multiply_out()
    ensures
        CYCLES_PER_LINE == DOTS_PER_LINE * CYCLES_PER_DOT,
        HBLANK_START_CYCLE == SCREEN_WIDTH * CYCLES_PER_DOT,
        CYCLES_PER_LINE * LINES_PER_FRAME == 280_896,
{
}

/// The beam moves by exactly the cycles used, and wraps after a whole frame.
pub proof fn law_the_beam_moves_by_the_cycles_used(v: VideoTiming, cycles: u32)
    requires
        v.wf(),
    ensures
        0 <= v.used(cycles) <= cycles,
        cycles > 0 ==> v.used(cycles) > 0,
        v.ticked(cycles).wf(),
        v.ticked(cycles).beam() == (v.beam() + v.used(cycles)) % 280_896,
{
}

/// One call never covers more than the rest of a line, so it cannot fold two edges of a kind into
/// one: what it did not use is left for the next.
pub proof fn law_a_call_stays_within_a_line(v: VideoTiming, cycles: u32)
    requires
        v.wf(),
    ensures
        v.ends_line(cycles) ==> v.ticked(cycles).dot_cycle == 0,
        !v.ends_line(cycles) ==> v.ticked(cycles).vcount == v.vcount && v.used(cycles) == cycles,
{
}

/// No edge of the beam lies before the next one that is announced.
pub proof fn law_no_edge_before_the_next(v: VideoTiming, cycles: u32)
    requires
        v.wf(),
        cycles < (if v.in_hblank() {
            CYCLES_PER_LINE - v.dot_cycle
        } else {
            HBLANK_START_CYCLE - v.dot_cycle
        }),
    ensures
        v.events(cycles) == (VideoEvents {
            scanline_ready: None,
            entered_hblank: false,
            entered_vblank: false,
            frame_started: false,
            vcount_matched: false,
        }),
{
}

/// Cycles in a frame.
pub open spec fn frame_cycles() -> int {
    280_896
}

/// The beam after a run of calls.
pub open spec fn ticked_by(v: VideoTiming, calls: Seq<u32>) -> VideoTiming
    decreases calls.len(),
{
    if calls.len() == 0 {
        v
    } else {
        ticked_by(v.ticked(calls[0]), calls.drop_first())
    }
}

/// How many cycles a run of calls uses.
pub open spec fn used_by(v: VideoTiming, calls: Seq<u32>) -> int
    decreases calls.len(),
{
    if calls.len() == 0 {
        0
    } else {
        v.used(calls[0]) + used_by(v.ticked(calls[0]), calls.drop_first())
    }
}

/// How many calls of a run report something.
pub open spec fn times(
    v: VideoTiming,
    calls: Seq<u32>,
    reported: spec_fn(VideoEvents) -> bool,
) -> nat
    decreases calls.len(),
{
    if calls.len() == 0 {
        0
    } else {
        times(v.ticked(calls[0]), calls.drop_first(), reported) + if reported(v.events(calls[0])) {
            1nat
        } else {
            0
        }
    }
}

/// The calls that spend some cycles, each asking for all that are left.
pub open spec fn spending(v: VideoTiming, cycles: u32) -> Seq<u32>
    decreases cycles,
{
    if cycles == 0 || !v.wf() {
        seq![]
    } else {
        seq![cycles] + spending(v.ticked(cycles), (cycles - v.used(cycles)) as u32)
    }
}

/// Calls that each ask for what is left use every cycle, and get somewhere each time.
pub proof fn law_every_cycle_is_spent(v: VideoTiming, cycles: u32)
    requires
        v.wf(),
    ensures
        used_by(v, spending(v, cycles)) == cycles,
        cycles > 0 ==> 1 <= v.used(cycles) <= cycles,
    decreases cycles,
{
    if cycles > 0 {
        let left = (cycles - v.used(cycles)) as u32;
        law_every_cycle_is_spent(v.ticked(cycles), left);
        let calls = spending(v, cycles);
        assert(calls.drop_first() =~= spending(v.ticked(cycles), left));
    }
}

/// However a frame's worth of cycles is split into calls, from wherever the beam is: it ends where
/// it began, every visible line is announced once, every line enters horizontal blanking once,
/// vertical blanking and the frame begin once, and the line that the game asked for is matched once
/// if there is such a line.
pub proof fn law_a_frame_reports_each_edge_once(v: VideoTiming, calls: Seq<u32>)
    requires
        v.wf(),
        used_by(v, calls) == frame_cycles(),
    ensures
        ticked_by(v, calls) == v,
        times(v, calls, |e: VideoEvents| e.entered_hblank) == 228,
        forall|line: u16|
            #![trigger reports_line(line)]
            times(v, calls, reports_line(line)) == if line < 160 {
                1nat
            } else {
                0
            },
        times(v, calls, |e: VideoEvents| e.entered_vblank) == 1,
        times(v, calls, |e: VideoEvents| e.frame_started) == 1,
        times(v, calls, |e: VideoEvents| e.vcount_matched) == if v.dispstat / 0x100 < 228 {
            1nat
        } else {
            0
        },
{
    lemma_where_it_ends(v, calls);
    lemma_hblanks(v, calls);
    let vblank = |e: VideoEvents| e.entered_vblank;
    assert forall|u: VideoTiming, cycles: u32| u.wf() && u.dispstat == v.dispstat implies #[trigger] vblank(
        u.events(cycles),
    ) == crosses(u, cycles, line_point(160)) by {
        lemma_line_edge(u, cycles, 160);
    }
    lemma_crossings(v, calls, vblank, line_point(160));
    let frame = |e: VideoEvents| e.frame_started;
    assert forall|u: VideoTiming, cycles: u32| u.wf() && u.dispstat == v.dispstat implies #[trigger] frame(
        u.events(cycles),
    ) == crosses(u, cycles, line_point(0)) by {
        lemma_line_edge(u, cycles, 0);
    }
    lemma_crossings(v, calls, frame, line_point(0));
    let wanted = (v.dispstat / 0x100) as int;
    let matched = |e: VideoEvents| e.vcount_matched;
    if wanted < 228 {
        assert forall|u: VideoTiming, cycles: u32| u.wf() && u.dispstat
            == v.dispstat implies #[trigger] matched(u.events(cycles)) == crosses(
            u,
            cycles,
            line_point(wanted),
        ) by {
            lemma_line_edge(u, cycles, wanted);
        }
        lemma_crossings(v, calls, matched, line_point(wanted));
    } else {
        lemma_never(v, calls, matched);
    }
    assert forall|line: u16| #![trigger reports_line(line)] times(v, calls, reports_line(line))
        == if line < 160 {
        1nat
    } else {
        0
    } by {
        let ready = reports_line(line);
        if line < 160 {
            assert forall|u: VideoTiming, cycles: u32| u.wf() && u.dispstat
                == v.dispstat implies #[trigger] ready(u.events(cycles)) == crosses(
                u,
                cycles,
                hblank_point(line as int),
            ) by {
                lemma_hblank_edge(u, cycles, line as int);
            }
            lemma_crossings(v, calls, ready, hblank_point(line as int));
        } else {
            lemma_never(v, calls, ready);
        }
    }
}

/// Whether a visible line is announced.
pub open spec fn reports_line(line: u16) -> spec_fn(VideoEvents) -> bool {
    |e: VideoEvents| e.scanline_ready == Some(line)
}

/// Where the beam is when a line has just begun: the first begins where the frame ends.
spec fn line_point(line: int) -> int {
    if line == 0 { 280_896 } else { line * 1232 }
}

/// Where the beam is when a line enters horizontal blanking.
spec fn hblank_point(line: int) -> int {
    line * 1232 + 960
}

/// Whether a call brings the beam to a point that it was before.
spec fn crosses(v: VideoTiming, cycles: u32, point: int) -> bool {
    v.beam() < point <= v.beam() + v.used(cycles)
}

/// How often a beam that starts at `beam` comes to a point in `cycles`, up to a frame of them.
spec fn crossings(beam: int, cycles: int, point: int) -> nat {
    (if beam < point <= beam + cycles {
        1nat
    } else {
        0
    }) + if point + 280_896 <= beam + cycles {
        1nat
    } else {
        0
    }
}

proof fn lemma_line_edge(v: VideoTiming, cycles: u32, line: int)
    requires
        v.wf(),
        0 <= line < 228,
    ensures
        (v.ends_line(cycles) && v.next_line() == line) == crosses(v, cycles, line_point(line)),
        v.ends_line(cycles) && v.vcount + 1 >= LINES_PER_FRAME <==> v.ends_line(cycles)
            && v.next_line() == 0,
{
}

proof fn lemma_hblank_edge(v: VideoTiming, cycles: u32, line: int)
    requires
        v.wf(),
        0 <= line < 160,
    ensures
        (v.events(cycles).scanline_ready == Some(line as u16)) == crosses(
            v,
            cycles,
            hblank_point(line),
        ),
{
}

/// The beam after a run of calls.
proof fn lemma_where_it_ends(v: VideoTiming, calls: Seq<u32>)
    requires
        v.wf(),
    ensures
        used_by(v, calls) >= 0,
        ticked_by(v, calls).wf(),
        ticked_by(v, calls).beam() == (v.beam() + used_by(v, calls)) % frame_cycles(),
        ticked_by(v, calls).dispcnt == v.dispcnt,
        ticked_by(v, calls).dispstat == v.dispstat,
    decreases calls.len(),
{
    if calls.len() > 0 {
        law_the_beam_moves_by_the_cycles_used(v, calls[0]);
        lemma_where_it_ends(v.ticked(calls[0]), calls.drop_first());
    }
}

/// What comes from one point of the frame comes once for each time that the beam gets there.
proof fn lemma_crossings(
    v: VideoTiming,
    calls: Seq<u32>,
    reported: spec_fn(VideoEvents) -> bool,
    point: int,
)
    requires
        v.wf(),
        0 < point <= frame_cycles(),
        used_by(v, calls) <= frame_cycles(),
        forall|u: VideoTiming, cycles: u32|
            u.wf() && u.dispstat == v.dispstat ==> #[trigger] reported(u.events(cycles)) == crosses(
                u,
                cycles,
                point,
            ),
    ensures
        times(v, calls, reported) == crossings(v.beam(), used_by(v, calls), point),
    decreases calls.len(),
{
    if calls.len() > 0 {
        let next = v.ticked(calls[0]);
        law_the_beam_moves_by_the_cycles_used(v, calls[0]);
        lemma_where_it_ends(next, calls.drop_first());
        lemma_crossings(next, calls.drop_first(), reported, point);
        assert(reported(v.events(calls[0])) == crosses(v, calls[0], point));
    }
}

/// What no line reports is never reported.
proof fn lemma_never(v: VideoTiming, calls: Seq<u32>, reported: spec_fn(VideoEvents) -> bool)
    requires
        v.wf(),
        forall|u: VideoTiming, cycles: u32|
            u.wf() && u.dispstat == v.dispstat ==> !#[trigger] reported(u.events(cycles)),
    ensures
        times(v, calls, reported) == 0,
    decreases calls.len(),
{
    if calls.len() > 0 {
        lemma_never(v.ticked(calls[0]), calls.drop_first(), reported);
    }
}

/// Horizontal blanking comes once for each line's point that the beam passes.
proof fn lemma_hblanks(v: VideoTiming, calls: Seq<u32>)
    requires
        v.wf(),
    ensures
        times(v, calls, |e: VideoEvents| e.entered_hblank) == (v.beam() + used_by(v, calls) + 272)
            / 1232 - (v.beam() + 272) / 1232,
    decreases calls.len(),
{
    if calls.len() > 0 {
        let next = v.ticked(calls[0]);
        law_the_beam_moves_by_the_cycles_used(v, calls[0]);
        lemma_hblanks(next, calls.drop_first());
    }
}

/// Whatever is written, the status flags say where the beam is and the beam does not move.
pub proof fn law_writes_do_not_reach_the_beam(v: VideoTiming, addr: u32, value: u16)
    ensures
        v.written(addr, value).vcount == v.vcount,
        v.written(addr, value).dot_cycle == v.dot_cycle,
        v.half(reg::DISPSTAT) matches Some(a) ==> v.written(addr, value).half(reg::DISPSTAT)
            matches Some(b) && a % 4 == b % 4,
{
}

} // verus!
