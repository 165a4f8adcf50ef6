//! What the channels and the mixer do, stated of samples and registers rather than of steps.

use vstd::prelude::*;
use super::channel::{adpcm_difference, adpcm_step, Channel, ADPCM_TABLE, AUDIO_SAMPLE_RATE, CLOCK};
use super::{left_sum, loudness, right_sum, ApuState};
use crate::nds::memory::MemoryState;

verus! {

/// A channel that plays ADPCM, past its header and short of its end, about to take the low nibble.
pub open spec fn decoding(c: Channel) -> bool {
    &&& c.control / 0x2000_0000 % 4 == 2
    &&& 0 < c.position < 0xFFFF_FFFF
    &&& c.position + 1 < 4 * (c.loop_start + c.length)
    &&& !c.adpcm_high_nibble
    &&& 0 <= c.adpcm_index <= 88
    &&& -0x8000 <= c.adpcm_value <= 0x7FFF
}

/// The byte that a channel reads next.
pub open spec fn next_byte(c: Channel, m: MemoryState) -> int {
    m.fetch8(c.source.wrapping_add(c.position)) as int
}

/// What one sample of such a channel comes to.
proof fn lemma_decoded(c: Channel, index: int, m: MemoryState)
    requires
        decoding(c),
    ensures
        c.next(index, m).adpcm_value == c.adpcm_next(m).adpcm_value,
        c.next(index, m).adpcm_index == c.adpcm_next(m).adpcm_index,
        c.next(index, m).current == c.adpcm_next(m).current,
        c.next(index, m).position == c.position,
        c.next(index, m).adpcm_high_nibble,
        adpcm_step(c.adpcm_index) == ADPCM_TABLE[c.adpcm_index as int],
{
    reveal(Channel::next);
    reveal(adpcm_step);
}

/// The same of either nibble.
proof fn lemma_either_nibble(c: Channel, index: int, m: MemoryState)
    requires
        c.control / 0x2000_0000 % 4 == 2,
        0 < c.position,
        c.position + 1 < 4 * (c.loop_start + c.length),
    ensures
        c.next(index, m).current == c.adpcm_next(m).current,
        c.next(index, m).adpcm_value == c.adpcm_next(m).adpcm_value,
        c.next(index, m).adpcm_index == c.adpcm_next(m).adpcm_index,
        c.next(index, m).position == c.adpcm_next(m).position,
        c.next(index, m).adpcm_high_nibble == !c.adpcm_high_nibble,
        c.next(index, m).control == c.control,
        c.next(index, m).source == c.source,
        c.next(index, m).loop_start == c.loop_start,
        c.next(index, m).length == c.length,
{
    reveal(Channel::next);
}

/// The steps run from 7 to 32767, each about a tenth larger than the one before.
pub proof fn law_adpcm_steps_grow_by_a_tenth(i: int)
    requires
        0 <= i < 87,
    ensures
        ADPCM_TABLE[0] == 7,
        ADPCM_TABLE[88] == 32767,
        -10 < 10 * ADPCM_TABLE[i + 1] - 11 * ADPCM_TABLE[i] < 10,
{
}

/// An ADPCM nibble with its top bit set moves the sample down by exactly as much as the same nibble
/// without it moves the sample up, away from the ends of the range.
pub proof fn law_adpcm_nibbles_mirror(
    c: Channel,
    index: int,
    up: MemoryState,
    down: MemoryState,
)
    requires
        decoding(c),
        next_byte(c, up) % 16 < 8,
        next_byte(c, down) % 16 == next_byte(c, up) % 16 + 8,
        c.next(index, up).current < 0x7FFF,
        c.next(index, down).current > -0x8000,
    ensures
        c.next(index, up).current - c.adpcm_value == c.adpcm_value - c.next(index, down).current,
        c.next(index, up).current >= c.adpcm_value,
        c.next(index, up).adpcm_index == c.next(index, down).adpcm_index,
{
    lemma_decoded(c, index, up);
    lemma_decoded(c, index, down);
    lemma_steps_are_positive(c.adpcm_index as int);
    assert(c.nibble(up) == next_byte(c, up) % 16);
    assert(c.nibble(down) == next_byte(c, down) % 16);
}

/// Every step of the table is between 7 and 32767.
proof fn lemma_steps_are_positive(index: int)
    requires
        0 <= index <= 88,
    ensures
        7 <= ADPCM_TABLE[index] <= 32767,
{
    super::channel::lemma_steps_are_small(index);
}

/// An ADPCM nibble of magnitude `k` moves the sample by `2k + 1` eighths of the step, less at most
/// the three fractions that the shifts drop, and never past 16 bits. The sample heard is the value
/// the decoder carries on from.
pub proof fn law_adpcm_moves_by_eighths_of_the_step(c: Channel, index: int, m: MemoryState)
    requires
        decoding(c),
    ensures
        ({
            let nibble = next_byte(c, m) % 16;
            let k = nibble % 8;
            let step = ADPCM_TABLE[c.adpcm_index as int] as int;
            let after = c.next(index, m).adpcm_value;
            let moved = if nibble >= 8 { c.adpcm_value - after } else { after - c.adpcm_value };
            &&& 8 * moved <= (2 * k + 1) * step
            &&& -0x8000 < after < 0x7FFF ==> (2 * k + 1) * step - 24 < 8 * moved
            &&& -0x8000 <= after <= 0x7FFF
            &&& c.next(index, m).current == after
        }),
{
    lemma_decoded(c, index, m);
    lemma_steps_are_positive(c.adpcm_index as int);
    lemma_difference(adpcm_step(c.adpcm_index), c.nibble(m));
    assert(c.nibble(m) == next_byte(c, m) % 16);
}

/// A difference is so many eighths of the step.
proof fn lemma_difference(step: int, nibble: u8)
    requires
        7 <= step,
        nibble < 16,
    ensures
        ({
            let k = nibble % 8;
            let d = adpcm_difference(step, nibble);
            &&& 0 <= d
            &&& (2 * k + 1) * step - 24 < 8 * d <= (2 * k + 1) * step
        }),
{
    let k = nibble % 8;
    let a = nibble % 2;
    let b = nibble / 2 % 2;
    let c = nibble / 4 % 2;
    assert(k == a + 2 * b + 4 * c);
    assert((2 * k + 1) * step == step + 2 * step * a + 4 * step * b + 8 * step * c)
        by (nonlinear_arith)
        requires
            k == a + 2 * b + 4 * c,
    ;
    assert(a == 0 || a == 1);
    assert(b == 0 || b == 1);
    assert(c == 0 || c == 1);
    assert(a == 0 ==> step * a == 0);
    assert(b == 0 ==> step * b == 0);
    assert(c == 0 ==> step * c == 0);
}

/// The same nibble moves two decoders in the same state alike.
proof fn lemma_same_nibble(a: Channel, b: Channel, m: MemoryState, n: MemoryState)
    requires
        a.adpcm_value == b.adpcm_value,
        a.adpcm_index == b.adpcm_index,
        a.nibble(m) == b.nibble(n),
    ensures
        a.adpcm_next(m).current == b.adpcm_next(n).current,
        a.adpcm_next(m).adpcm_index == b.adpcm_next(n).adpcm_index,
{
}

/// A small ADPCM nibble makes the next step one place smaller, and a large one two, four, six or
/// eight places larger, within the table.
pub proof fn law_adpcm_steps_adapt(c: Channel, index: int, m: MemoryState)
    requires
        decoding(c),
    ensures
        ({
            let k = next_byte(c, m) % 8;
            let after = c.next(index, m).adpcm_index;
            &&& 0 <= after <= 88
            &&& k <= 3 && c.adpcm_index > 0 ==> after == c.adpcm_index - 1
            &&& k <= 3 && c.adpcm_index == 0 ==> after == 0
            &&& k > 3 && c.adpcm_index + 2 * (k - 3) <= 88 ==> after == c.adpcm_index + 2 * (k - 3)
            &&& k > 3 && c.adpcm_index + 2 * (k - 3) > 88 ==> after == 88
        }),
{
    lemma_decoded(c, index, m);
    assert(c.nibble(m) == next_byte(c, m) % 16);
}

/// The high nibble of a byte is the low nibble of the byte swapped.
proof fn lemma_nibbles(
    high: Channel,
    low: Channel,
    m: MemoryState,
    swapped: MemoryState,
    byte: int,
)
    requires
        high.adpcm_high_nibble,
        !low.adpcm_high_nibble,
        next_byte(high, m) == byte,
        next_byte(low, swapped) == byte % 16 * 16 + byte / 16,
    ensures
        high.nibble(m) == low.nibble(swapped),
        high.adpcm_next(m).position == high.position.wrapping_add(1),
{
}

/// The low nibble of a byte is played before the high one: the first sample does not depend on the
/// high nibble, and the second is what a byte with the nibbles swapped would have begun with.
pub proof fn law_the_low_nibble_comes_first(
    c: Channel,
    index: int,
    m: MemoryState,
    swapped: MemoryState,
)
    requires
        decoding(c),
        next_byte(c, swapped) == next_byte(c, m) % 16 * 16 + next_byte(c, m) / 16,
    ensures
        ({
            let first = c.next(index, m);
            let second = first.next(index, m);
            let other = (Channel { adpcm_high_nibble: false, ..first }).next(index, swapped);
            &&& second.current == other.current
            &&& second.adpcm_index == other.adpcm_index
            &&& second.position == c.position + 1
            &&& !second.adpcm_high_nibble
        }),
{
    let first = c.next(index, m);
    let byte = next_byte(c, m);
    let again = Channel { adpcm_high_nibble: false, ..first };
    lemma_decoded(c, index, m);
    lemma_either_nibble(c, index, m);
    lemma_nibbles(first, again, m, swapped, byte);
    lemma_same_nibble(first, again, m, swapped);
    lemma_either_nibble(first, index, m);
    lemma_either_nibble(again, index, swapped);
}

/// An ADPCM channel starts from the value and the step that its four-byte header gives, and plays the
/// nibble behind it first.
pub proof fn law_the_header_comes_first(c: Channel, index: int, m: MemoryState, at: Channel)
    requires
        c.control / 0x2000_0000 % 4 == 2,
        c.position == 0,
        c.source % 4 == 0,
        c.source < 0xFFFF_FFF0,
        c.loop_start + c.length > 1,
        at == (Channel {
            position: 4,
            adpcm_high_nibble: false,
            adpcm_value: at.adpcm_value,
            adpcm_index: at.adpcm_index,
            ..c
        }),
        ({
            let value = m.fetch8(c.source) + 256 * m.fetch8((c.source + 1) as u32);
            at.adpcm_value == (if value < 0x8000 { value } else { value - 0x1_0000 })
        }),
        ({
            let step = m.fetch8((c.source + 2) as u32) % 128;
            at.adpcm_index == (if step > 88 { 88 } else { step as int })
        }),
    ensures
        c.next(index, m) == at.next(index, m),
{
    reveal(Channel::next);
    let low = m.fetch16(c.source);
    let high = m.fetch16((c.source + 2) as u32);
    let header = m.fetch32(c.source);
    assert(low == m.fetch8(c.source) + 256 * m.fetch8((c.source + 1) as u32));
    assert(header == low + 0x1_0000 * high);
    assert(header % 0x1_0000 == low && header / 0x1_0000 == high);
    assert(high % 128 == m.fetch8((c.source + 2) as u32) % 128);
    lemma_signed_half(low);
    assert(c.with_header(m) == at);
}

/// A halfword as a signed number.
proof fn lemma_signed_half(value: u16)
    ensures
        value as i16 == (if value < 0x8000 { value as int } else { value - 0x1_0000 }),
        (value as i16) as i32 == (if value < 0x8000 { value as int } else { value - 0x1_0000 }),
{
    crate::bits::lemma_signed(value, 0, 0, 0);
}

/// A byte as a signed number.
proof fn lemma_signed_byte(value: u8)
    ensures
        value as i8 == (if value < 0x80 { value as int } else { value - 0x100 }),
{
    crate::bits::lemma_signed(0, value, 0, 0);
}

/// A PCM8 channel plays the signed byte at its position, scaled to 16 bits, and a PCM16 channel the
/// signed little-endian halfword; each moves on by what it read.
pub proof fn law_pcm_plays_what_memory_holds(c: Channel, index: int, m: MemoryState)
    requires
        c.position + 2 < 4 * (c.loop_start + c.length),
        c.source + c.position < 0xFFFF_FFF0,
        (c.source + c.position) % 2 == 0,
        c.control / 0x2000_0000 % 4 <= 1,
    ensures
        ({
            let first = m.fetch8((c.source + c.position) as u32) as int;
            let second = m.fetch8((c.source + c.position + 1) as u32) as int;
            let after = c.next(index, m);
            if c.control / 0x2000_0000 % 4 == 0 {
                &&& after.current == 256 * (if first < 128 { first } else { first - 256 })
                &&& after.position == c.position + 1
            } else {
                &&& after.current == first + 256 * (if second < 128 { second } else { second - 256 })
                &&& after.position == c.position + 2
            }
        }),
{
    reveal(Channel::next);
    let at = (c.source + c.position) as u32;
    lemma_signed_byte(m.fetch8(at));
    lemma_signed_half(m.fetch16(at));
    assert(c.source.wrapping_add(c.position) == at);
}

/// Noise is a shift register of fifteen bits: each sample drops the low bit, and the new top bit is
/// whether the two lowest differed. The sample is full scale up or down by the new low bit.
pub proof fn law_noise_is_a_shift_register(c: Channel, index: int, m: MemoryState)
    requires
        index == 14 || index == 15,
        c.control / 0x2000_0000 % 4 == 3,
        c.noise < 0x8000,
    ensures
        ({
            let after = c.next(index, m);
            let differ = (c.noise + c.noise / 2) % 2;
            &&& after.noise == c.noise / 2 + 0x4000 * differ
            &&& after.noise % 2 == 1 ==> after.current == 0x7FFF
            &&& after.noise % 2 == 0 ==> after.current == -0x8000
            &&& c.noise > 0 ==> after.noise > 0
        }),
{
    reveal(Channel::next);
    let n = c.noise;
    let feedback = (n ^ (n >> 1u16)) & 1;
    assert(feedback as int == (n + n / 2) % 2 && ((n >> 1u16) | (feedback << 14u16)) as int == n / 2
        + 0x4000 * feedback) by (bit_vector)
        requires
            n < 0x8000,
            feedback == (n ^ (n >> 1u16)) & 1,
    ;
}

/// A looping channel that reaches its end goes on at its loop point, and an ADPCM one with the decoder
/// as it was there.
pub proof fn law_a_loop_resumes_at_the_loop_point(c: Channel, index: int, m: MemoryState)
    requires
        c.control / 0x800_0000 % 4 == 1,
        c.control / 0x2000_0000 % 4 <= 2,
        c.position > 0,
        c.position < 0x8000_0000,
        4 * (c.loop_start + c.length) <= c.position,
    ensures
        ({
            let after = c.next(index, m);
            &&& after.position == 4 * c.loop_start
            &&& after.control == c.control
            &&& !after.adpcm_high_nibble
            &&& c.control / 0x2000_0000 % 4 == 2 ==> after.adpcm_value == c.adpcm_loop_value
                && after.adpcm_index == c.adpcm_loop_index
        }),
{
    reveal(Channel::next);
}

/// The decoder is remembered where the loop point goes past, and only once.
pub proof fn law_the_loop_point_is_remembered(c: Channel, index: int, m: MemoryState)
    requires
        decoding(c),
    ensures
        ({
            let after = c.next(index, m);
            if !c.adpcm_loop_saved && c.position >= 4 * c.loop_start {
                &&& after.adpcm_loop_value == after.adpcm_value
                &&& after.adpcm_loop_index == after.adpcm_index
                &&& after.adpcm_loop_saved
            } else {
                &&& after.adpcm_loop_value == c.adpcm_loop_value
                &&& after.adpcm_loop_index == c.adpcm_loop_index
                &&& after.adpcm_loop_saved == c.adpcm_loop_saved
            }
        }),
{
    reveal(Channel::next);
}

/// A channel's rate is the clock over twice what its timer is short of 65536, and an output sample
/// moves it by its rate over the output rate.
pub proof fn law_the_timer_sets_the_rate(c: Channel)
    ensures
        ({
            let period = 2 * (0x1_0000 - c.timer);
            &&& c.rate() * period <= CLOCK < (c.rate() + 1) * period
            &&& (c.stride() - c.fraction) * AUDIO_SAMPLE_RATE <= c.rate() * 0x1_0000
            &&& c.rate() * 0x1_0000 < (c.stride() - c.fraction + 1) * AUDIO_SAMPLE_RATE
        }),
{
    let period = 2 * (0x1_0000 - c.timer);
    super::channel::lemma_rate(period);
    let rate = CLOCK as int / period;
    vstd::arithmetic::div_mod::lemma_fundamental_div_mod(CLOCK as int, period);
    assert(rate * period <= CLOCK < (rate + 1) * period) by (nonlinear_arith)
        requires
            CLOCK as int == period * rate + CLOCK as int % period,
            0 <= CLOCK as int % period < period,
    ;
}

/// Raising the busy bit starts a channel from its first sample; writing the register while it runs
/// does not move it.
pub proof fn law_a_start_begins_at_the_beginning(c: Channel, value: u32)
    ensures
        c.controlled(value).control == value,
        c.controlled(value).source == c.source && c.controlled(value).timer == c.timer,
        c.controlled(value).loop_start == c.loop_start && c.controlled(value).length == c.length,
        c.control < 0x8000_0000 && value >= 0x8000_0000 ==> {
            let after = c.controlled(value);
            &&& after.position == 0 && after.fraction == 0 && after.current == 0
            &&& !after.adpcm_high_nibble && !after.adpcm_loop_saved
            &&& after.psg_phase == 0 && after.noise == 0x7FFF
        },
        c.control >= 0x8000_0000 || value < 0x8000_0000 ==> c.controlled(value) == (Channel {
            control: value,
            ..c
        }),
{
}

/// Volume is linear in its seven bits, and the divider makes it 1, 2, 4 or 16 times quieter.
pub proof fn law_volume_is_linear_and_divided(c: Channel)
    ensures
        ({
            let by = c.control / 0x100 % 4;
            let divider = if by == 0 { 1int } else if by == 1 { 2 } else if by == 2 { 4 } else { 16 };
            loudness(c) * divider == 16 * (c.current * (c.control % 0x80))
        }),
{
    let by = c.control / 0x100 % 4;
    let v = c.current * (c.control % 0x80);
    let divider = if by == 0 { 1int } else if by == 1 { 2 } else if by == 2 { 4 } else { 16 };
    assert(loudness(c) == v * (16int / divider));
    assert(v * (16int / divider) * divider == 16 * v) by (nonlinear_arith)
        requires
            divider == 1 || divider == 2 || divider == 4 || divider == 16,
    ;
}

/// What one channel adds to a side.
pub open spec fn added(c: Channel, i: int, m: MemoryState, share: int) -> int {
    if c.busy() { loudness(c.advanced(i, m)) * share } else { 0 }
}

/// The share of a channel that goes right, out of 128.
pub open spec fn right_share(c: Channel, i: int, m: MemoryState) -> int {
    c.advanced(i, m).control as int / 0x1_0000 % 0x80
}

/// Panning splits a channel between the two sides: one channel more adds its loudness to them in
/// parts of 128, as many of them right as its panning says and the rest left.
pub proof fn law_panning_splits_a_channel(before: Seq<Channel>, m: MemoryState, n: nat)
    ensures
        ({
            let c = before[n as int];
            let share = right_share(c, n as int, m);
            &&& right_sum(before, m, n + 1) - right_sum(before, m, n) == added(
                c,
                n as int,
                m,
                share,
            )
            &&& left_sum(before, m, n + 1) - left_sum(before, m, n) == added(
                c,
                n as int,
                m,
                128 - share,
            )
            &&& left_sum(before, m, n + 1) + right_sum(before, m, n + 1) == left_sum(before, m, n)
                + right_sum(before, m, n) + added(c, n as int, m, 128)
        }),
{
    let c = before[n as int];
    if c.busy() {
        let l = loudness(c.advanced(n as int, m));
        let share = right_share(c, n as int, m);
        assert(l * share + l * (128 - share) == l * 128) by (nonlinear_arith);
    }
}

/// With one channel running, and the master switch on, what is heard is that channel alone, times the
/// master volume.
pub proof fn law_one_running_channel_is_heard(s: ApuState, m: MemoryState, i: int)
    requires
        s.wf(),
        s.soundcnt >= 0x8000,
        0 <= i < 16,
        s.channels[i].busy(),
        forall|j: int| 0 <= j < 16 && j != i ==> !(#[trigger] s.channels[j]).busy(),
    ensures
        ({
            let l = loudness(s.channels[i].advanced(i, m));
            let share = right_share(s.channels[i], i, m);
            let full = 32768 * 127 * 16 * 128 * 127 * 8;
            let left = l * (128 - share) * (s.soundcnt % 0x80);
            let right = l * share * (s.soundcnt % 0x80);
            &&& -full <= left <= full ==> s.mix(m).left == left
            &&& -full <= right <= full ==> s.mix(m).right == right
        }),
{
    lemma_alone(s.channels, m, i, 16);
    assert(super::FULL_SCALE as int == 32768 * 127 * 16 * 128 * 127 * 8) by (nonlinear_arith);
}

proof fn lemma_alone(channels: Seq<Channel>, m: MemoryState, i: int, n: nat)
    requires
        n <= 16,
        0 <= i < 16,
        channels[i].busy(),
        forall|j: int| 0 <= j < 16 && j != i ==> !(#[trigger] channels[j]).busy(),
    ensures
        ({
            let l = loudness(channels[i].advanced(i, m));
            let share = right_share(channels[i], i, m);
            &&& left_sum(channels, m, n) == (if n > i { l * (128 - share) } else { 0 })
            &&& right_sum(channels, m, n) == (if n > i { l * share } else { 0 })
        }),
    decreases n,
{
    if n > 0 {
        lemma_alone(channels, m, i, (n - 1) as nat);
        if n - 1 != i {
            assert(!channels[n - 1].busy());
        }
    }
}

/// A channel that is stopped is not heard and does not move, and one that runs is where its own
/// playing takes it.
pub proof fn law_stopped_channels_stay(s: ApuState, m: MemoryState, i: int)
    requires
        s.wf(),
        0 <= i < 16,
    ensures
        s.soundcnt < 0x8000 ==> s.mixed(m).channels == s.channels,
        s.soundcnt >= 0x8000 && s.channels[i].control < 0x8000_0000 ==> s.mixed(m).channels[i]
            == s.channels[i],
        s.soundcnt >= 0x8000 && s.channels[i].control >= 0x8000_0000 ==> s.mixed(m).channels[i]
            == s.channels[i].advanced(i, m),
        s.mixed(m).output.len() == s.output.len() + 1,
{
}

/// Channel registers are sixteen bytes apart: what is written to one channel's reaches that channel
/// and no other.
pub proof fn law_channel_registers_are_separate(s: ApuState, i: int, value: u32)
    requires
        s.wf(),
        0 <= i < 16,
    ensures
        ({
            let at = 0x0400_0400 + 16 * i;
            &&& s.written(at as u32, value).channels[i] == s.channels[i].controlled(value)
            &&& s.written((at + 4) as u32, value).channels[i].source == value % 0x0800_0000
            &&& s.written((at + 8) as u32, value).channels[i].timer == value % 0x1_0000
            &&& s.written((at + 8) as u32, value).channels[i].loop_start == value / 0x1_0000
            &&& s.written((at + 12) as u32, value).channels[i].length == value % 0x0040_0000
            &&& forall|offset: int, j: int|
                0 <= offset < 16 && 0 <= j < 16 && j != i ==> #[trigger] s.written(
                    (at + offset) as u32,
                    value,
                ).channels[j] == s.channels[j]
        }),
{
}

} // verus!
