//! What the registers of a DMA channel mean, stated of the words that a program writes.

use vstd::prelude::*;
use super::dma::{is_channel, max_words, step_of, AddressStep, Channel, DmaState, StartTiming, BASE};
use crate::nds::Core;

verus! {

/// A channel moves what its three registers say: the source, the destination, and a word whose low half
/// counts units with zero for the most there can be, and whose high half says how big they are, how each
/// address moves, whether to interrupt and when to start. One that starts at once is armed by the write.
#[verifier::rlimit(40)]
pub proof fn law_a_channel_moves_what_was_written(
    s: DmaState,
    index: u32,
    source: u32,
    destination: u32,
    value: u32,
)
    requires
        s.wf(),
        index < 4,
        s.channels[index as int].control < 0x8000,
        value >= 0x8000_0000,
    ensures
        ({
            let at = 0x0400_00B0 + 12 * index;
            let after = s.written(at as u32, source).written((at + 4) as u32, destination).written(
                (at + 8) as u32,
                value,
            );
            let channel = after.channels[index as int];
            let t = channel.transfer(s.core, index as usize);
            let (asked, most) = if s.core == Core::Arm9 {
                (value % 0x20_0000, 0x20_0000u32)
            } else if index == 3 {
                (value % 0x1_0000, 0x1_0000)
            } else {
                (value % 0x4000, 0x4000)
            };
            let immediate = if s.core == Core::Arm9 {
                value / 0x800_0000 % 8 == 0
            } else {
                value / 0x1000_0000 % 4 == 0
            };
            &&& t.channel == index && t.source == source && t.destination == destination
            &&& t.words == (if asked == 0 { most } else { asked })
            &&& t.unit == (if value / 0x400_0000 % 2 == 1 { 4int } else { 2 })
            &&& t.raise_irq == (value / 0x4000_0000 % 2 == 1)
            &&& (t.destination_step == AddressStep::Decrement) == (value / 0x20_0000 % 4 == 1)
            &&& (t.destination_step == AddressStep::Fixed) == (value / 0x20_0000 % 4 == 2)
            &&& (t.destination_step == AddressStep::IncrementReload) == (value / 0x20_0000 % 4 == 3)
            &&& (t.source_step == AddressStep::Decrement) == (value / 0x80_0000 % 4 == 1)
            &&& (t.source_step == AddressStep::Fixed) == (value / 0x80_0000 % 4 == 2)
            &&& t.source_step != AddressStep::IncrementReload
            &&& immediate ==> channel.armed
            &&& !s.channels[index as int].armed && !immediate ==> !channel.armed
            &&& forall|i: int|
                0 <= i < 4 && i != index ==> #[trigger] after.channels[i] == s.channels[i]
        }),
{
    let at = 0x0400_00B0 + 12 * index;
    assert(is_channel(at as u32) && is_channel((at + 4) as u32) && is_channel((at + 8) as u32));
    assert((at - BASE) / 12 == index && (at - BASE) % 12 == 0);
    assert((at + 4 - BASE) / 12 == index && (at + 4 - BASE) % 12 == 4);
    assert((at + 8 - BASE) / 12 == index && (at + 8 - BASE) % 12 == 8);
    let one = s.written(at as u32, source);
    let two = one.written((at + 4) as u32, destination);
    let three = two.written((at + 8) as u32, value);
    assert(one.channels[index as int] == (Channel { source, ..s.channels[index as int] }));
    assert(two.channels[index as int] == (Channel { destination, ..one.channels[index as int] }));
    assert(three.channels[index as int] == two.channels[index as int].counted(value).controlled(
        s.core,
        (value / 0x1_0000) as u16,
        value,
    ));
    let high = (value / 0x1_0000) as u16;
    assert(high / 0x400 % 2 == value / 0x400_0000 % 2);
    assert(high / 0x4000 % 2 == value / 0x4000_0000 % 2);
    assert(high / 0x20 % 4 == value / 0x20_0000 % 4);
    assert(high / 0x80 % 4 == value / 0x80_0000 % 4);
    assert(high / 0x800 % 8 == value / 0x800_0000 % 8);
    assert(high / 0x1000 % 4 == value / 0x1000_0000 % 4);
    let channel = three.channels[index as int];
    assert(channel.control == high && channel.current_source == source
        && channel.current_destination == destination);
    let t = channel.transfer(s.core, index as usize);
    assert(t.words == channel.count(s.core, index as usize));
    if s.core == Core::Arm9 {
        assert(channel.words == value % 0x20_0000);
    } else {
        assert(channel.words == value % 0x1_0000);
        assert(value % 0x1_0000 % 0x4000 == value % 0x4000);
    }
    assert(step_of(high / 0x20) == t.destination_step);
    assert(channel.unit_size() == (if high / 0x400 % 2 == 1 { 4u32 } else { 2u32 }));
    assert(t.unit == channel.unit_size());
    if s.core == Core::Arm9 {
        assert(t.words == (if value % 0x20_0000 == 0 { 0x20_0000 } else { value % 0x20_0000 }));
    } else if index == 3 {
        assert(max_words(s.core, index as usize) == 0x1_0000);
        assert(channel.words % 0x1_0000 == value % 0x1_0000);
        assert(t.words == (if value % 0x1_0000 == 0 { 0x1_0000 } else { value % 0x1_0000 }));
    } else {
        assert(t.words == (if value % 0x4000 == 0 { 0x4000 } else { value % 0x4000 }));
    }
    assert((t.source_step == AddressStep::Decrement) == (value / 0x80_0000 % 4 == 1));
    assert((t.source_step == AddressStep::Fixed) == (value / 0x80_0000 % 4 == 2));
    assert forall|i: int| 0 <= i < 4 && i != index implies #[trigger] three.channels[i] == s.channels[i] by {
        assert(two.channels[i] == s.channels[i]);
    }
}

/// Over a transfer each address moves by all its units: up, down or not at all.
pub proof fn law_addresses_move_by_what_was_moved(channel: Channel, core: Core, index: usize)
    ensures
        ({
            let t = channel.transfer(core, index);
            let after = channel.finished(core, index);
            let span = t.words * t.unit;
            &&& t.source_step == AddressStep::Increment ==> after.current_source == (t.source + span)
                % 0x1_0000_0000
            &&& t.source_step == AddressStep::Decrement ==> after.current_source == (t.source - span)
                % 0x1_0000_0000
            &&& t.source_step == AddressStep::Fixed ==> after.current_source == t.source
            &&& t.destination_step == AddressStep::Increment ==> after.current_destination == (
            t.destination + span) % 0x1_0000_0000
            &&& t.destination_step == AddressStep::Decrement ==> after.current_destination == (
            t.destination - span) % 0x1_0000_0000
            &&& t.destination_step == AddressStep::Fixed ==> after.current_destination == t.destination
            &&& t.destination_step == AddressStep::IncrementReload ==> after.current_destination
                == channel.destination
            &&& !after.armed
        }),
{
    let t = channel.transfer(core, index);
    assert(0 < t.words * t.unit <= 0x80_0000) by {
        assert(t.unit == 2 || t.unit == 4);
    }
}

/// A trigger arms the enabled channels whose control asks for it by number, and does nothing else: on the
/// ARM9 vertical blanking is 1, horizontal blanking 2, the cartridge 5 and the geometry engine 7; on the
/// ARM7 vertical blanking is 1 and the cartridge 2.
pub proof fn law_triggers_go_by_number(s: DmaState, i: int)
    requires
        s.wf(),
        0 <= i < 4,
    ensures
        ({
            let c = s.channels[i];
            let nine = s.core == Core::Arm9;
            let wants = |n: int|
                c.control >= 0x8000 && (if nine {
                    c.control / 0x800 % 8 == n
                } else {
                    c.control / 0x1000 % 4 == n
                });
            &&& s.triggered(StartTiming::VBlank).channels[i].armed == (c.armed || wants(1))
            &&& s.triggered(StartTiming::CardSlot).channels[i].armed == (c.armed || wants(
                if nine { 5 } else { 2 },
            ))
            &&& nine ==> s.triggered(StartTiming::HBlank).channels[i].armed == (c.armed || wants(2))
            &&& nine ==> s.triggered(StartTiming::GeometryFifo).channels[i].armed == (c.armed || wants(7))
            &&& forall|t: StartTiming|
                (#[trigger] s.triggered(t)).channels[i] == c || s.triggered(t).channels[i] == (Channel {
                    armed: true,
                    ..c
                })
        }),
{
}

/// The count and the control of a channel read back as they were written.
pub proof fn law_the_control_word_reads_back(s: DmaState, index: u32, value: u32)
    requires
        s.wf(),
        index < 4,
    ensures
        s.written((0x0400_00B8 + 12 * index) as u32, value).word((0x0400_00B8 + 12 * index) as u32)
            == Some(value),
{
    let at = 0x0400_00B8 + 12 * index;
    assert(is_channel(at as u32));
    assert((at - BASE) / 12 == index && (at - BASE) % 12 == 8);
    let (nine, seven) = ((value % 0x20_0000) as u32, (value % 0x1_0000) as u32);
    let high = (value / 0x1_0000) as u16;
    assert(nine == value % 0x20_0000 && seven == value % 0x1_0000 && high == value / 0x1_0000 ==> nine | ((
    high as u32) << 16u32) == value && seven | ((high as u32) << 16u32) == value) by (bit_vector);
}

} // verus!
