use echosync::buffer::{BufferConfig, BufferError};
use echosync::scheduler::{SchedulerConfig, SchedulerError};
use echosync::streaming::{StreamingConfig, StreamingError};
use echosync::time_span::TimeSpan;

#[test]
fn config_default_config_validates() {
    assert!(BufferConfig::default().validate().is_ok());
}

#[test]
fn config_for_tests_config_validates() {
    assert!(BufferConfig::for_tests().validate().is_ok());
}

#[test]
fn default_config_validates() {
    assert!(SchedulerConfig::default().validate().is_ok());
}

#[test]
fn for_tests_config_validates() {
    assert!(SchedulerConfig::for_tests().validate().is_ok());
}

#[test]
fn zero_max_buffer_size_is_rejected() {
    let mut config = BufferConfig::default();
    config.max_buffer_size = 0;
    assert_eq!(
        config.validate(),
        Err(BufferError::InvalidConfiguration(
            "max_buffer_size must be greater than zero".into()
        ))
    );
}

#[test]
fn initial_larger_than_max_is_rejected() {
    let mut config = BufferConfig::default();
    config.initial_buffer_size = config.max_buffer_size + 1;
    assert!(config.validate().is_err());
}

#[test]
fn inverted_delay_bounds_are_rejected() {
    let mut config = BufferConfig::default();
    config.min_target_delay = TimeSpan::from_millis(500);
    config.max_target_delay = TimeSpan::from_millis(100);
    assert!(config.validate().is_err());
}

#[test]
fn target_delay_outside_bounds_is_rejected() {
    let mut config = BufferConfig::default();
    config.target_delay = config.max_target_delay.add(TimeSpan::from_millis(1));
    assert!(config.validate().is_err());
}

#[test]
fn zero_duplicate_cache_is_rejected() {
    let mut config = BufferConfig::default();
    config.duplicate_cache_size = 0;
    assert!(config.validate().is_err());
}

#[test]
fn buffer_config_errors_name_the_broken_invariant_in_order() {
    let mut config = BufferConfig::default();
    config.initial_buffer_size = config.max_buffer_size + 1;
    assert_eq!(
        config.validate(),
        Err(BufferError::InvalidConfiguration(
            "initial_buffer_size cannot exceed max_buffer_size".into()
        ))
    );
    let mut config = BufferConfig::default();
    config.min_target_delay = TimeSpan::from_millis(500);
    config.max_target_delay = TimeSpan::from_millis(100);
    assert_eq!(
        config.validate(),
        Err(BufferError::InvalidConfiguration(
            "min_target_delay cannot exceed max_target_delay".into()
        ))
    );
    let mut config = BufferConfig::default();
    config.target_delay = TimeSpan::from_millis(10);
    assert_eq!(
        config.validate(),
        Err(BufferError::InvalidConfiguration(
            "target_delay must fall within [min_target_delay, max_target_delay]".into()
        ))
    );
    let mut config = BufferConfig::default();
    config.duplicate_cache_size = 0;
    config.max_buffer_size = 0;
    assert_eq!(
        config.validate(),
        Err(BufferError::InvalidConfiguration(
            "max_buffer_size must be greater than zero".into()
        ))
    );
}

#[test]
fn buffer_defaults_match_documented_values() {
    let config = BufferConfig::default();
    assert_eq!(config.initial_buffer_size, 32);
    assert_eq!(config.max_buffer_size, 512);
    assert_eq!(config.target_delay, TimeSpan::from_millis(60));
    assert_eq!(config.min_target_delay, TimeSpan::from_millis(20));
    assert_eq!(config.max_target_delay, TimeSpan::from_millis(400));
    assert_eq!(config.max_packet_age, TimeSpan::from_millis(1000));
    assert_eq!(config.duplicate_cache_size, 256);
    assert_eq!(config.max_missing_packets, 50);
    assert!(config.adaptive_enabled);
    assert_eq!(config.adaptive_step, TimeSpan::from_millis(5));
}

#[test]
fn zero_max_late_threshold_is_rejected() {
    let mut config = SchedulerConfig::default();
    config.max_late_threshold = TimeSpan::zero();
    assert!(config.validate().is_err());
}

#[test]
fn zero_max_early_threshold_is_rejected() {
    let mut config = SchedulerConfig::default();
    config.max_early_threshold = TimeSpan::zero();
    assert!(config.validate().is_err());
}

#[test]
fn zero_scheduling_interval_is_rejected() {
    let mut config = SchedulerConfig::default();
    config.scheduling_interval = TimeSpan::zero();
    assert!(config.validate().is_err());
}

#[test]
fn zero_queue_capacity_is_rejected() {
    let mut config = SchedulerConfig::default();
    config.queue_capacity = 0;
    assert!(config.validate().is_err());
}

#[test]
fn zero_timeline_resolution_is_rejected() {
    let mut config = SchedulerConfig::default();
    config.timeline_resolution = TimeSpan::zero();
    assert!(config.validate().is_err());
}

#[test]
fn scheduler_config_errors_name_the_broken_invariant() {
    let mut config = SchedulerConfig::default();
    config.queue_capacity = 0;
    assert_eq!(
        config.validate(),
        Err(SchedulerError::InvalidConfiguration(
            "queue_capacity must be greater than zero".into()
        ))
    );
    let mut config = SchedulerConfig::default();
    config.timeline_resolution = TimeSpan::zero();
    assert_eq!(
        config.validate(),
        Err(SchedulerError::InvalidConfiguration(
            "timeline_resolution must be greater than zero".into()
        ))
    );
}

#[test]
fn streaming_defaults_match_documented_values() {
    let config = StreamingConfig::default();
    assert_eq!(config.outbound_queue_capacity, 512);
    assert_eq!(config.inbound_queue_capacity, 512);
    assert_eq!(config.packet_timeout, TimeSpan::from_millis(200));
    assert_eq!(config.max_packet_size_bytes, 4000);
    assert_eq!(config.max_retry_count, 3);
    assert_eq!(config.retry_backoff, TimeSpan::from_millis(20));
    assert_eq!(config.worker_count, 2);
    let small = StreamingConfig::for_tests();
    assert_eq!(small.outbound_queue_capacity, 8);
    assert_eq!(small.worker_count, 1);
}

#[test]
fn error_display_messages_include_relevant_fields() {
    assert!(BufferError::BufferFull { capacity: 10 }.to_string().contains("10"));
    assert!(BufferError::DuplicatePacket { sequence_number: 7 }
        .to_string()
        .contains('7'));
    assert!(BufferError::AlreadyProcessed { sequence_number: 3 }
        .to_string()
        .contains('3'));
    assert!(BufferError::PacketTooOld { sequence_number: 9, max_age_ms: 500 }
        .to_string()
        .contains("500"));
    assert!(BufferError::InvalidTargetDelay { requested_ms: 1, min_ms: 20, max_ms: 400 }
        .to_string()
        .contains('1'));
    assert_eq!(BufferError::BufferEmpty.to_string(), "buffer is empty");

    assert!(SchedulerError::DuplicatePacket { packet_id: 42 }
        .to_string()
        .contains("42"));
    assert!(SchedulerError::QueueFull { capacity: 10 }.to_string().contains("10"));
    assert!(SchedulerError::PacketExpired { packet_id: 7, late_by_ms: 500 }
        .to_string()
        .contains("500"));
    assert!(SchedulerError::PacketNotFound { packet_id: 3 }.to_string().contains("3"));
    assert_eq!(SchedulerError::NotStarted.to_string(), "scheduler is not started");
    assert_eq!(
        SchedulerError::AlreadyStarted.to_string(),
        "scheduler is already started"
    );
}

#[test]
fn error_errors_are_comparable_for_test_assertions() {
    assert_eq!(SchedulerError::NotStarted, SchedulerError::NotStarted);
    assert_ne!(SchedulerError::NotStarted, SchedulerError::AlreadyStarted);
}

#[test]
fn error_messages_are_exact() {
    assert_eq!(
        BufferError::BufferFull { capacity: 10 }.to_string(),
        "buffer full: capacity of 10 packets exceeded"
    );
    assert_eq!(
        BufferError::PacketTooOld { sequence_number: 9, max_age_ms: 500 }.to_string(),
        "packet too old: sequence 9 exceeded max age of 500 ms"
    );
    assert_eq!(
        BufferError::InvalidTargetDelay { requested_ms: 1, min_ms: 20, max_ms: 400 }.to_string(),
        "invalid target delay: 1 ms is outside allowed range [20, 400] ms"
    );
    assert_eq!(
        SchedulerError::PacketExpired { packet_id: 7, late_by_ms: 500 }.to_string(),
        "packet 7 expired: 500 ms past the maximum late threshold"
    );
    assert_eq!(
        SchedulerError::SyncError("synchronizer is not started".into()).to_string(),
        "clock synchronization error: synchronizer is not started"
    );
    assert_eq!(
        SchedulerError::QueueFull { capacity: 0 }.to_string(),
        "playback queue is full (capacity: 0)"
    );
}

#[test]
fn streaming_error_messages_name_their_fields() {
    let e = StreamingError::PacketTooLarge { max: 4000, actual: 5000 };
    assert_eq!(e.to_string(), "packet too large: max allowed 4000 bytes, got 5000 bytes");
    assert_eq!(
        StreamingError::QueueOverflow { capacity: 8 }.to_string(),
        "queue overflow: capacity of 8 packets exceeded"
    );
    assert_eq!(StreamingError::QueueClosed.to_string(), "queue channel is closed");
}
