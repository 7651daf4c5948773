use echosync::streaming::{AudioPacket, PacketFlags, StreamingError};

#[test]
fn new_packet_computes_size_and_timestamp() {
    let data = vec![1_u8, 2, 3, 4, 5];
    let packet = AudioPacket::new(
        1,
        0,
        data.clone(),
        PacketFlags::new(),
        "device-a",
        "session-1",
        4000,
    )
    .expect("packet within size limit should construct");

    assert_eq!(packet.packet_size, data.len());
    assert_eq!(packet.opus_data, data);
    assert!(packet.timestamp_ms > 0);
}

#[test]
fn new_packet_rejects_oversized_payload() {
    let data = vec![0_u8; 100];
    let result = AudioPacket::new(1, 0, data, PacketFlags::new(), "device-a", "session-1", 50);

    assert_eq!(
        result,
        Err(StreamingError::PacketTooLarge { max: 50, actual: 100 })
    );
}

#[test]
fn payload_exactly_at_the_limit_is_accepted() {
    let packet = AudioPacket::new(9, 4, vec![7_u8; 50], PacketFlags::new(), "d", "s", 50).unwrap();
    assert_eq!(packet.packet_size, 50);
    assert_eq!(packet.packet_id, 9);
    assert_eq!(packet.sequence_number, 4);
    assert_eq!(packet.sender_id, "d");
    assert_eq!(packet.session_id, "s");
}

#[test]
fn flags_set_contains_and_clear_round_trip() {
    let mut flags = PacketFlags::new();
    assert!(!flags.contains(PacketFlags::KEYFRAME));

    flags.set(PacketFlags::KEYFRAME);
    assert!(flags.contains(PacketFlags::KEYFRAME));

    flags.set(PacketFlags::END_OF_STREAM);
    assert!(flags.contains(PacketFlags::KEYFRAME));
    assert!(flags.contains(PacketFlags::END_OF_STREAM));

    flags.clear(PacketFlags::KEYFRAME);
    assert!(!flags.contains(PacketFlags::KEYFRAME));
    assert!(flags.contains(PacketFlags::END_OF_STREAM));
}

#[test]
fn flags_set_then_clear_leaves_other_flags() {
    let mut flags = PacketFlags(PacketFlags::SILENCE | PacketFlags::RETRANSMIT);
    flags.set(PacketFlags::KEYFRAME);
    flags.clear(PacketFlags::KEYFRAME);
    assert_eq!(flags, PacketFlags(PacketFlags::SILENCE | PacketFlags::RETRANSMIT));
    assert_eq!(PacketFlags::new(), PacketFlags(0));
}

#[test]
fn cloned_packet_equals_its_source() {
    let packet = AudioPacket::new(3, 2, vec![1, 2], PacketFlags::new(), "a", "b", 10).unwrap();
    let copy = packet.clone();
    assert_eq!(copy, packet);
}

#[test]
fn new_at_stamps_the_given_time() {
    let packet = AudioPacket::new_at(1, 2, vec![9; 3], PacketFlags::new(), "a", "b", 10, 1_234).unwrap();
    assert_eq!(packet.timestamp_ms, 1_234);
    assert_eq!(packet.packet_size, 3);
    assert_eq!(
        AudioPacket::new_at(1, 2, vec![9; 11], PacketFlags::new(), "a", "b", 10, 5),
        Err(StreamingError::PacketTooLarge { max: 10, actual: 11 })
    );
}
