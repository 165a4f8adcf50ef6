//! The two-way queues and the sync nibbles between the cores.

use handheld::nds::ipc::{Ipc, FIFO_DEPTH};
use handheld::nds::Core;
use handheld::fault::Fault;
use handheld::state::{StateError, StateReader, StateWriter};

const ARM9: Core = Core::Arm9;
const ARM7: Core = Core::Arm7;

const ENABLE: u16 = 1 << 15;

fn enabled() -> Ipc {
    let mut ipc = Ipc::new();
    ipc.write_control(ARM9, ENABLE);
    ipc.write_control(ARM7, ENABLE);
    ipc
}

#[test]
fn each_core_reads_the_others_sync_nibble_and_its_own() {
    let mut ipc = Ipc::new();
    ipc.write_sync(ARM9, 0x0500);
    ipc.write_sync(ARM7, 0x0A00);

    assert_eq!(ipc.read_sync(ARM9) & 0x0F, 0x0A, "ARM7's output, low");
    assert_eq!((ipc.read_sync(ARM9) >> 8) & 0x0F, 0x05, "its own, high");
    assert_eq!(ipc.read_sync(ARM7) & 0x0F, 0x05);
    assert_eq!((ipc.read_sync(ARM7) >> 8) & 0x0F, 0x0A);
}

#[test]
fn the_sync_strobe_is_not_a_stored_bit() {
    let mut ipc = Ipc::new();
    ipc.write_sync(ARM9, 1 << 13);
    assert_eq!(
        ipc.read_sync(ARM9) & (1 << 13),
        0,
        "bit 13 never reads back"
    );
}

#[test]
fn a_sync_strobe_interrupts_the_other_core_only_when_it_asked() {
    let mut ipc = Ipc::new();
    ipc.write_sync(ARM9, 1 << 13);
    assert!(!ipc.take_pending(ARM7).any());

    ipc.write_sync(ARM7, 1 << 14);
    ipc.write_sync(ARM9, 1 << 13);
    let irqs = ipc.take_pending(ARM7);
    assert!(irqs.sync);
    assert!(!ipc.take_pending(ARM9).any(), "and never the sender");
    assert!(!ipc.take_pending(ARM7).any());
}

#[test]
fn a_word_sent_by_one_core_is_received_by_the_other() {
    let mut ipc = enabled();
    ipc.send(ARM9, 0xDEAD_BEEF);
    assert_eq!(ipc.receive_len(ARM7), 1);
    assert_eq!(ipc.receive_len(ARM9), 0, "the other direction is separate");
    assert_eq!(ipc.receive(ARM7), 0xDEAD_BEEF);
    assert_eq!(ipc.receive_len(ARM7), 0);

    ipc.send(ARM7, 0x1234_5678);
    assert_eq!(ipc.receive(ARM9), 0x1234_5678);
}

#[test]
fn the_fifo_is_first_in_first_out_and_holds_sixteen_words() {
    let mut ipc = enabled();
    for i in 0..FIFO_DEPTH as u32 {
        ipc.send(ARM9, i);
    }
    assert_eq!(ipc.receive_len(ARM7), FIFO_DEPTH);
    assert_eq!(ipc.read_control(ARM9) & 0b10, 0b10, "send FIFO reads full");
    assert_eq!(ipc.read_control(ARM7) & (1 << 9), 1 << 9, "recv reads full");

    for i in 0..FIFO_DEPTH as u32 {
        assert_eq!(ipc.receive(ARM7), i);
    }
    assert_eq!(ipc.read_control(ARM9) & 1, 1, "send FIFO reads empty");
}

#[test]
fn the_ring_wraps_rather_than_filling_up_permanently() {
    let mut ipc = enabled();
    for round in 0..3u32 {
        for i in 0..10u32 {
            ipc.send(ARM9, round * 100 + i);
        }
        for i in 0..10u32 {
            assert_eq!(ipc.receive(ARM7), round * 100 + i);
        }
    }
    assert_eq!(ipc.receive_len(ARM7), 0);
}

#[test]
fn overflowing_the_send_fifo_sets_the_error_flag_and_drops_the_word() {
    let mut ipc = enabled();
    for i in 0..FIFO_DEPTH as u32 {
        ipc.send(ARM9, i);
    }
    assert_eq!(ipc.read_control(ARM9) & (1 << 14), 0, "no error yet");
    ipc.send(ARM9, 0xFFFF);
    assert_eq!(ipc.read_control(ARM9) & (1 << 14), 1 << 14);
    assert_eq!(ipc.receive_len(ARM7), FIFO_DEPTH, "nothing was overwritten");
    for i in 0..FIFO_DEPTH as u32 {
        assert_eq!(ipc.receive(ARM7), i);
    }
}

#[test]
fn reading_an_empty_fifo_repeats_the_last_word_and_flags_the_error() {
    let mut ipc = enabled();
    ipc.send(ARM9, 0xAAAA_5555);
    assert_eq!(ipc.receive(ARM7), 0xAAAA_5555);
    assert_eq!(ipc.read_control(ARM7) & (1 << 14), 0);

    assert_eq!(ipc.receive(ARM7), 0xAAAA_5555, "repeats, not zero");
    assert_eq!(ipc.read_control(ARM7) & (1 << 14), 1 << 14);
}

#[test]
fn the_error_flag_is_sticky_until_acknowledged_by_writing_it() {
    let mut ipc = enabled();
    ipc.receive(ARM7);
    assert_eq!(ipc.read_control(ARM7) & (1 << 14), 1 << 14);
    ipc.write_control(ARM7, ENABLE);
    assert_eq!(ipc.read_control(ARM7) & (1 << 14), 1 << 14);
    ipc.write_control(ARM7, ENABLE | (1 << 14));
    assert_eq!(ipc.read_control(ARM7) & (1 << 14), 0);
}

#[test]
fn the_receive_interrupt_fires_on_the_empty_to_nonempty_edge_only() {
    let mut ipc = enabled();
    ipc.write_control(ARM7, ENABLE | (1 << 10));

    ipc.send(ARM9, 1);
    assert!(ipc.take_pending(ARM7).recv_not_empty, "the edge");
    ipc.send(ARM9, 2);
    assert!(
        !ipc.take_pending(ARM7).any(),
        "a second word is not a second edge"
    );

    ipc.receive(ARM7);
    ipc.receive(ARM7);
    ipc.send(ARM9, 3);
    assert!(ipc.take_pending(ARM7).recv_not_empty);
}

#[test]
fn the_send_empty_interrupt_fires_when_the_other_core_drains_the_last_word() {
    let mut ipc = enabled();
    ipc.write_control(ARM9, ENABLE | (1 << 2));
    assert!(ipc.take_pending(ARM9).send_empty);

    ipc.send(ARM9, 1);
    ipc.send(ARM9, 2);
    assert!(!ipc.take_pending(ARM9).any());

    ipc.receive(ARM7);
    assert!(!ipc.take_pending(ARM9).any(), "still one word left");
    ipc.receive(ARM7);
    assert!(ipc.take_pending(ARM9).send_empty, "now it is empty");
}

#[test]
fn arming_an_interrupt_that_is_already_armed_does_not_re_raise_it() {
    let mut ipc = enabled();
    ipc.write_control(ARM9, ENABLE | (1 << 2));
    assert!(ipc.take_pending(ARM9).send_empty);
    ipc.write_control(ARM9, ENABLE | (1 << 2));
    assert!(
        !ipc.take_pending(ARM9).any(),
        "level, not edge, would flood the core"
    );
}

#[test]
fn clearing_the_send_fifo_discards_only_that_direction() {
    let mut ipc = enabled();
    ipc.send(ARM9, 1);
    ipc.send(ARM7, 2);
    ipc.write_control(ARM9, ENABLE | (1 << 3));
    assert_eq!(ipc.receive_len(ARM7), 0, "the ARM9's send FIFO");
    assert_eq!(ipc.receive_len(ARM9), 1, "not the ARM7's");
}

#[test]
fn a_disabled_fifo_swallows_sends_and_repeats_on_receive() {
    let mut ipc = Ipc::new();
    ipc.send(ARM9, 0x1234);
    assert_eq!(ipc.receive_len(ARM7), 0, "not stored");
    assert_eq!(ipc.read_control(ARM9) & (1 << 14), 0, "and not an error");

    ipc.write_control(ARM9, ENABLE);
    ipc.send(ARM9, 0x5678);
    assert_eq!(ipc.receive(ARM7), 0, "reads the last-received value, zero");
    assert_eq!(ipc.receive_len(ARM7), 1, "and does not pop");
    ipc.write_control(ARM7, ENABLE);
    assert_eq!(ipc.receive(ARM7), 0x5678);
}

#[test]
fn the_control_register_reports_both_directions_from_each_side() {
    let mut ipc = enabled();
    ipc.send(ARM9, 1);
    assert_eq!(ipc.read_control(ARM9) & 1, 0, "ARM9 send not empty");
    assert_eq!(ipc.read_control(ARM7) & (1 << 8), 0, "ARM7 recv not empty");
    assert_eq!(ipc.read_control(ARM7) & 1, 1, "ARM7 send is empty");
    assert_eq!(ipc.read_control(ARM9) & (1 << 8), 1 << 8, "ARM9 recv empty");
}

#[test]
fn a_full_round_trip_handshake_behaves_the_way_a_game_drives_it() {
    let mut ipc = enabled();
    ipc.write_control(ARM9, ENABLE | (1 << 10));
    ipc.write_sync(ARM9, 1 << 14);
    ipc.write_sync(ARM7, 1 << 14);

    ipc.send(ARM7, 0xC0DE_0001);
    ipc.write_sync(ARM7, 0x0100 | (1 << 13) | (1 << 14));

    let arm9 = ipc.take_pending(ARM9);
    assert!(arm9.recv_not_empty && arm9.sync);
    assert_eq!(ipc.receive(ARM9), 0xC0DE_0001);
    assert_eq!(
        ipc.read_sync(ARM9) & 0x0F,
        1,
        "the ARM7's nibble came with it"
    );

    ipc.send(ARM9, 0xC0DE_0002);
    assert_eq!(ipc.receive(ARM7), 0xC0DE_0002);
    assert_eq!(ipc.read_control(ARM9) & (1 << 14), 0, "no errors anywhere");
    assert_eq!(ipc.read_control(ARM7) & (1 << 14), 0);
}

#[test]
fn ipc_round_trips_through_a_save_state_mid_queue() {

    let mut ipc = enabled();
    for i in 0..12u32 {
        ipc.send(ARM9, i);
    }
    for _ in 0..8 {
        ipc.receive(ARM7);
    }
    for i in 100..106u32 {
        ipc.send(ARM9, i);
    }
    ipc.write_sync(ARM9, 0x0700);
    ipc.receive(ARM9);

    let mut w = StateWriter::new();
    ipc.save(&mut w);
    let blob = w.into_bytes();
    let mut restored = Ipc::new();
    restored.load(&mut StateReader::new(blob.clone())).unwrap();

    assert_eq!(restored.receive_len(ARM7), 10);
    for i in 8..12u32 {
        assert_eq!(restored.receive(ARM7), i);
    }
    for i in 100..106u32 {
        assert_eq!(restored.receive(ARM7), i);
    }
    assert_eq!((restored.read_sync(ARM7)) & 0x0F, 0x07);
    assert_eq!(restored.read_control(ARM9) & (1 << 14), 1 << 14);
}

#[test]
fn a_state_with_impossible_ring_indices_is_rejected() {

    let ipc = enabled();
    let mut w = StateWriter::new();
    ipc.save(&mut w);
    let mut bytes = w.into_bytes();
    *bytes.last_mut().unwrap() = 99;

    let mut restored = Ipc::new();
    assert!(restored.load(&mut StateReader::new(bytes)).is_err());
}

#[test]
fn an_impossible_ring_names_the_error_and_has_been_read() {
    let mut ipc = enabled();
    ipc.send(ARM7, 5);
    ipc.send(ARM9, 6);
    let mut saved = enabled();
    saved.send(ARM9, 0x77);
    let mut w = StateWriter::new();
    saved.save(&mut w);
    let bytes = w.into_bytes();

    // The second ring claims 99 words, and that is what it now claims here.
    let mut second = bytes.clone();
    *second.last_mut().unwrap() = 99;
    assert_eq!(
        ipc.load(&mut StateReader::new(second)),
        Err(StateError::Malformed(Fault::RingIndices))
    );
    assert_eq!(ipc.receive_len(ARM7), 99);
    assert_eq!(ipc.peek_receive(ARM7), 0x77);
    assert_eq!(ipc.receive_len(ARM9), 0, "the first ring was fine");

    // A bad first ring leaves the second alone.
    let mut ipc = enabled();
    ipc.send(ARM9, 6);
    let mut first = bytes.clone();
    first[26 + 65] = 17;
    assert_eq!(
        ipc.load(&mut StateReader::new(first)),
        Err(StateError::Malformed(Fault::RingIndices))
    );
    assert_eq!(ipc.receive_len(ARM9), 17);
    assert_eq!(ipc.peek_receive(ARM7), 6);

    // Emptying the ring makes it sound again.
    ipc.write_control(ARM7, 0x8008);
    assert_eq!(ipc.receive_len(ARM9), 0);
    ipc.send(ARM7, 9);
    assert_eq!(ipc.receive(ARM9), 9);
}

#[test]
fn a_ring_that_is_cut_off_is_read_as_far_as_it_goes() {
    let mut saved = enabled();
    saved.send(ARM9, 0x77);
    let mut w = StateWriter::new();
    saved.save(&mut w);
    let mut bytes = w.into_bytes();
    bytes.pop();
    let mut ipc = enabled();
    ipc.send(ARM9, 5);
    assert_eq!(ipc.load(&mut StateReader::new(bytes)), Err(StateError::UnexpectedEnd));
    // The words and where they begin were there; how many there are was not.
    assert_eq!(ipc.receive_len(ARM7), 1);
    assert_eq!(ipc.peek_receive(ARM7), 0x77);
}

#[test]
fn peeking_does_not_take_the_word() {
    let mut ipc = enabled();
    ipc.send(ARM9, 7);
    assert_eq!(ipc.peek_receive(ARM7), 7);
    assert_eq!(ipc.receive_len(ARM7), 1);
}

#[test]
fn a_saved_ring_keeps_where_it_begins_and_its_stale_words() {
    let mut ipc = enabled();
    for word in [0x11, 0x22, 0x33] {
        ipc.send(ARM9, word);
    }
    ipc.receive(ARM7);
    let mut w = StateWriter::new();
    ipc.save(&mut w);
    let bytes = w.into_bytes();
    let ring = &bytes[bytes.len() - 66..];
    assert_eq!(&ring[..12], &[0x11, 0, 0, 0, 0x22, 0, 0, 0, 0x33, 0, 0, 0]);
    assert_eq!(&ring[64..], &[1, 2], "one word in, two words long");
}
