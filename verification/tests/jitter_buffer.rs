use echosync::buffer::{BufferConfig, BufferError, JitterBuffer};
use echosync::streaming::{AudioPacket, PacketFlags};
use echosync::time_span::TimeSpan;

fn make_packet(sequence_number: u64) -> AudioPacket {
    AudioPacket::new(
        sequence_number,
        sequence_number,
        vec![0u8; 16],
        PacketFlags::new(),
        "device-a",
        "session-1",
        4000,
    )
    .expect("small packet fits within the default max size")
}

fn ms(v: u64) -> TimeSpan {
    TimeSpan::from_millis(v)
}

fn zero_delay_config() -> BufferConfig {
    let mut config = BufferConfig::for_tests();
    config.target_delay = TimeSpan::zero();
    config.min_target_delay = TimeSpan::zero();
    config.adaptive_enabled = false;
    config.max_packet_age = TimeSpan::from_secs(3600);
    config
}

fn insert(buffer: &mut JitterBuffer, seq: u64, now_ms: u64) -> Result<(), BufferError> {
    buffer.insert_packet(make_packet(seq), ms(now_ms), TimeSpan::zero())
}

#[test]
fn insert_then_next_packet_round_trips_in_order() {
    let mut buffer = JitterBuffer::new(zero_delay_config()).unwrap();
    insert(&mut buffer, 0, 0).unwrap();

    let packet = buffer.next_packet(ms(0)).unwrap();
    assert_eq!(packet.unwrap().sequence_number, 0);
}

#[test]
fn packets_are_delivered_in_sequence_order_despite_out_of_order_arrival() {
    let mut buffer = JitterBuffer::new(zero_delay_config()).unwrap();
    insert(&mut buffer, 2, 0).unwrap();
    insert(&mut buffer, 0, 1).unwrap();
    insert(&mut buffer, 1, 2).unwrap();

    let first = buffer.next_packet(ms(3)).unwrap().unwrap();
    let second = buffer.next_packet(ms(3)).unwrap().unwrap();
    let third = buffer.next_packet(ms(3)).unwrap().unwrap();
    assert_eq!(
        [first.sequence_number, second.sequence_number, third.sequence_number],
        [0, 1, 2]
    );
}

#[test]
fn duplicate_packet_is_rejected() {
    let mut buffer = JitterBuffer::new(zero_delay_config()).unwrap();
    insert(&mut buffer, 0, 0).unwrap();
    let result = insert(&mut buffer, 0, 1);
    assert_eq!(result, Err(BufferError::DuplicatePacket { sequence_number: 0 }));
}

#[test]
fn already_delivered_packet_arriving_again_is_rejected() {
    let mut buffer = JitterBuffer::new(zero_delay_config()).unwrap();
    insert(&mut buffer, 0, 0).unwrap();
    buffer.next_packet(ms(0)).unwrap();

    let result = insert(&mut buffer, 0, 1);
    assert_eq!(result, Err(BufferError::DuplicatePacket { sequence_number: 0 }));
}

#[test]
fn missing_packet_does_not_block_delivery_of_the_next_available_one() {
    let mut buffer = JitterBuffer::new(zero_delay_config()).unwrap();
    insert(&mut buffer, 1, 0).unwrap();

    let packet = buffer.next_packet(ms(0)).unwrap().unwrap();
    assert_eq!(packet.sequence_number, 1);
}

#[test]
fn next_packet_returns_none_before_target_delay_elapses() {
    let mut config = BufferConfig::for_tests();
    config.target_delay = ms(200);
    config.min_target_delay = ms(200);
    config.max_target_delay = ms(200);
    config.adaptive_enabled = false;

    let mut buffer = JitterBuffer::new(config).unwrap();
    insert(&mut buffer, 0, 1000).unwrap();

    assert_eq!(buffer.next_packet(ms(1000)).unwrap(), None);
    assert_eq!(buffer.next_packet(ms(1199)).unwrap(), None);
    assert_eq!(buffer.next_packet(ms(1200)).unwrap().unwrap().sequence_number, 0);
}

#[test]
fn overflow_drops_oldest_packet_to_make_room() {
    let mut config = zero_delay_config();
    config.max_buffer_size = 2;
    config.initial_buffer_size = 2;
    let mut buffer = JitterBuffer::new(config).unwrap();

    insert(&mut buffer, 0, 0).unwrap();
    insert(&mut buffer, 1, 0).unwrap();
    insert(&mut buffer, 2, 0).unwrap();

    assert_eq!(buffer.len(), 2);
    assert_eq!(buffer.statistics().packets_dropped, 1);
    assert!(buffer.peek().unwrap().sequence_number >= 1);
}

#[test]
fn stale_packet_beyond_max_age_is_dropped_on_next_packet() {
    let mut config = BufferConfig::for_tests();
    config.max_packet_age = ms(1);
    config.target_delay = ms(500);
    config.min_target_delay = ms(500);
    config.max_target_delay = ms(500);
    config.adaptive_enabled = false;

    let mut buffer = JitterBuffer::new(config).unwrap();
    insert(&mut buffer, 0, 100).unwrap();

    assert_eq!(buffer.next_packet(ms(120)).unwrap(), None);
    assert_eq!(buffer.statistics().packets_dropped, 1);
    assert!(buffer.is_empty());
}

#[test]
fn packet_exactly_at_max_age_is_kept() {
    let mut config = zero_delay_config();
    config.max_packet_age = ms(10);
    config.target_delay = ms(50);
    config.max_target_delay = ms(100);
    let mut buffer = JitterBuffer::new(config).unwrap();
    insert(&mut buffer, 0, 0).unwrap();
    assert_eq!(buffer.next_packet(ms(10)).unwrap(), None);
    assert_eq!(buffer.len(), 1);
    assert_eq!(buffer.statistics().packets_dropped, 0);
}

#[test]
fn flush_drains_everything_immediately_in_order() {
    let mut config = BufferConfig::for_tests();
    config.target_delay = TimeSpan::from_secs(10);
    config.min_target_delay = ms(1);
    config.max_target_delay = TimeSpan::from_secs(20);
    config.adaptive_enabled = false;
    let mut buffer = JitterBuffer::new(config).unwrap();

    insert(&mut buffer, 2, 0).unwrap();
    insert(&mut buffer, 0, 0).unwrap();
    insert(&mut buffer, 1, 0).unwrap();

    let drained = buffer.flush();
    let sequences: Vec<u64> = drained.iter().map(|p| p.sequence_number).collect();
    assert_eq!(sequences, vec![0, 1, 2]);
    assert!(buffer.is_empty());
    assert_eq!(buffer.statistics().packets_delivered, 3);
}

#[test]
fn reset_clears_buffered_packets_and_restores_configured_delay() {
    let mut buffer = JitterBuffer::new(zero_delay_config()).unwrap();
    insert(&mut buffer, 0, 0).unwrap();
    buffer.set_target_delay(ms(0)).unwrap();

    buffer.reset();

    assert!(buffer.is_empty());
    assert_eq!(buffer.current_delay(), buffer.config().target_delay);
}

#[test]
fn set_target_delay_rejects_values_outside_configured_bounds() {
    let mut buffer = JitterBuffer::new(BufferConfig::for_tests()).unwrap();
    let too_low = ms(0);
    let result = buffer.set_target_delay(too_low);
    assert!(matches!(result, Err(BufferError::InvalidTargetDelay { .. })));
    assert_eq!(
        result,
        Err(BufferError::InvalidTargetDelay { requested_ms: 0, min_ms: 5, max_ms: 100 })
    );
}

#[test]
fn set_target_delay_within_bounds_succeeds() {
    let mut buffer = JitterBuffer::new(BufferConfig::for_tests()).unwrap();
    let config = BufferConfig::for_tests();
    let mid = TimeSpan::from_nanos(
        ((config.min_target_delay.as_nanos() + config.max_target_delay.as_nanos()) / 2) as u64,
    );
    assert!(buffer.set_target_delay(mid).is_ok());
    assert_eq!(buffer.current_delay(), mid);
}

#[test]
fn adaptive_delay_grows_when_jitter_is_high() {
    let mut config = BufferConfig::for_tests();
    config.target_delay = ms(10);
    config.min_target_delay = ms(5);
    config.max_target_delay = ms(100);
    config.adaptive_step = ms(20);
    config.adaptive_enabled = true;
    let mut buffer = JitterBuffer::new(config).unwrap();

    let initial_delay = buffer.current_delay();
    // The jitter estimate asks for 40 ms of headroom: the delay moves one
    // step (20 ms) toward 10 + 40 = 50 ms.
    buffer.insert_packet(make_packet(0), ms(0), ms(40)).unwrap();
    assert_eq!(buffer.current_delay(), ms(30));
    buffer.insert_packet(make_packet(1), ms(5), ms(40)).unwrap();
    assert_eq!(buffer.current_delay(), ms(50));
    buffer.insert_packet(make_packet(2), ms(65), ms(40)).unwrap();
    assert_eq!(buffer.current_delay(), ms(50));
    assert!(buffer.current_delay() >= initial_delay);
}

#[test]
fn adaptive_delay_shrinks_back_and_stays_within_bounds() {
    let mut config = BufferConfig::for_tests();
    config.target_delay = ms(10);
    config.min_target_delay = ms(5);
    config.max_target_delay = ms(30);
    config.adaptive_step = ms(20);
    let mut buffer = JitterBuffer::new(config).unwrap();
    buffer.insert_packet(make_packet(0), ms(0), ms(500)).unwrap();
    assert_eq!(buffer.current_delay(), ms(30));
    buffer.insert_packet(make_packet(1), ms(1), TimeSpan::zero()).unwrap();
    assert_eq!(buffer.current_delay(), ms(10));
}

#[test]
fn statistics_reflect_buffered_and_delivered_counts() {
    let mut buffer = JitterBuffer::new(zero_delay_config()).unwrap();
    insert(&mut buffer, 0, 0).unwrap();
    insert(&mut buffer, 1, 0).unwrap();
    buffer.next_packet(ms(0)).unwrap();

    let stats = buffer.statistics();
    assert_eq!(stats.packets_buffered, 2);
    assert_eq!(stats.packets_delivered, 1);
    assert_eq!(stats.max_occupancy, 2);
}

#[test]
fn stress_thousands_of_out_of_order_packets_deliver_in_sequence() {
    let mut config = zero_delay_config();
    config.max_buffer_size = 5000;
    config.duplicate_cache_size = 5000;
    let mut buffer = JitterBuffer::new(config).unwrap();

    let mut sequences: Vec<u64> = (0..4000).collect();
    sequences.sort_by_key(|&s| (s * 2654435761u64) % 4000);

    for &sequence_number in &sequences {
        insert(&mut buffer, sequence_number, 0).unwrap();
    }

    let mut delivered = Vec::with_capacity(4000);
    while let Some(packet) = buffer.next_packet(ms(0)).unwrap() {
        delivered.push(packet.sequence_number);
    }

    assert_eq!(delivered, (0..4000).collect::<Vec<u64>>());
    assert_eq!(buffer.statistics().packets_delivered, 4000);
}

#[test]
fn invalid_configuration_is_refused_with_its_reason() {
    let mut config = BufferConfig::for_tests();
    config.duplicate_cache_size = 0;
    match JitterBuffer::new(config) {
        Err(e) => assert_eq!(
            e,
            BufferError::InvalidConfiguration("duplicate_cache_size must be greater than zero".into())
        ),
        Ok(_) => panic!("an invalid configuration was accepted"),
    }
}

#[test]
fn packet_behind_the_watermark_is_already_processed() {
    let mut config = zero_delay_config();
    config.duplicate_cache_size = 1;
    let mut buffer = JitterBuffer::new(config).unwrap();
    insert(&mut buffer, 0, 0).unwrap();
    insert(&mut buffer, 1, 0).unwrap();
    buffer.next_packet(ms(0)).unwrap();
    buffer.next_packet(ms(0)).unwrap();
    assert_eq!(
        insert(&mut buffer, 0, 0),
        Err(BufferError::AlreadyProcessed { sequence_number: 0 })
    );
}

#[test]
fn rejected_duplicates_are_counted_whether_buffered_or_delivered() {
    let mut buffer = JitterBuffer::new(zero_delay_config()).unwrap();
    insert(&mut buffer, 0, 0).unwrap();
    assert_eq!(insert(&mut buffer, 0, 1), Err(BufferError::DuplicatePacket { sequence_number: 0 }));
    assert_eq!(buffer.statistics().window.duplicates_detected, 1);
    assert_eq!(buffer.len(), 1);
    assert_eq!(buffer.statistics().packets_buffered, 1);
    buffer.next_packet(ms(1)).unwrap();
    assert_eq!(insert(&mut buffer, 0, 2), Err(BufferError::DuplicatePacket { sequence_number: 0 }));
    assert_eq!(buffer.statistics().window.duplicates_detected, 2);
}

#[test]
fn deliveries_rise_across_releases_and_a_flush() {
    let mut buffer = JitterBuffer::new(zero_delay_config()).unwrap();
    for s in [5u64, 1, 3] {
        insert(&mut buffer, s, 0).unwrap();
    }
    let first = buffer.next_packet(ms(0)).unwrap().unwrap().sequence_number;
    insert(&mut buffer, 2, 0).unwrap();
    assert_eq!(insert(&mut buffer, 0, 0), Err(BufferError::AlreadyProcessed { sequence_number: 0 }));
    let rest: Vec<u64> = buffer.flush().iter().map(|p| p.sequence_number).collect();
    assert_eq!(first, 1);
    assert_eq!(rest, vec![2, 3, 5]);
}
