use echosync::scheduler::playback_scheduler::Punctuality;
use echosync::scheduler::{PlaybackScheduler, PlaybackTimeline, SchedulerConfig, SchedulerError};
use echosync::streaming::{AudioPacket, PacketFlags};
use echosync::time_span::TimeSpan;

fn ms(v: u64) -> TimeSpan {
    TimeSpan::from_millis(v)
}

fn make_packet(packet_id: u64, sequence_number: u64) -> AudioPacket {
    AudioPacket::new(packet_id, sequence_number, vec![0u8; 8], PacketFlags::new(), "device-a", "session-1", 4000)
        .unwrap()
}

fn scheduler() -> PlaybackScheduler {
    PlaybackScheduler::new(SchedulerConfig::for_tests()).unwrap()
}

#[test]
fn current_time_advances_with_paused_clock() {
    let timeline = PlaybackTimeline::new(ms(1));
    assert_eq!(timeline.current_time(TimeSpan::zero()), TimeSpan::zero());
    assert_eq!(timeline.current_time(ms(100)), ms(100));
}

#[test]
fn first_packet_anchors_expected_playback_time_to_now() {
    let mut timeline = PlaybackTimeline::new(ms(1));
    let expected = timeline.expected_playback_time(1_000, ms(50));
    assert_eq!(expected, ms(50));
}

#[test]
fn subsequent_packets_offset_from_the_anchor() {
    let mut timeline = PlaybackTimeline::new(ms(1));
    let _ = timeline.expected_playback_time(1_000, TimeSpan::zero());
    let expected = timeline.expected_playback_time(1_040, ms(10));
    assert_eq!(expected, ms(40));
}

#[test]
fn out_of_order_early_timestamp_clamps_to_anchor() {
    let mut timeline = PlaybackTimeline::new(ms(1));
    let anchor_time = timeline.expected_playback_time(1_000, TimeSpan::zero());
    let expected = timeline.expected_playback_time(900, TimeSpan::zero());
    assert_eq!(expected, anchor_time);
}

#[test]
fn calculate_deadline_adds_latency() {
    let mut timeline = PlaybackTimeline::new(ms(1));
    let deadline = timeline.calculate_deadline(1_000, ms(150), TimeSpan::zero());
    assert_eq!(deadline, ms(150));
}

#[test]
fn reset_clears_anchor_and_restarts_clock() {
    let mut timeline = PlaybackTimeline::new(ms(1));
    let _ = timeline.expected_playback_time(5_000, ms(200));
    timeline.reset().unwrap();
    // The clock restarts with the caller's elapsed time back at zero.
    assert_eq!(timeline.current_time(TimeSpan::zero()), TimeSpan::zero());
    let expected = timeline.expected_playback_time(5_000, TimeSpan::zero());
    assert_eq!(expected, TimeSpan::zero());
}

#[test]
fn resolution_quantizes_current_time_reads() {
    let timeline = PlaybackTimeline::new(ms(10));
    assert_eq!(timeline.current_time(ms(24)), ms(20));
}

#[test]
fn zero_resolution_falls_back_to_one_millisecond() {
    let timeline = PlaybackTimeline::new(TimeSpan::zero());
    assert_eq!(timeline.current_time(ms(5)), ms(5));
    assert_eq!(timeline.current_time(TimeSpan::from_nanos(5_400_000)), ms(5));
}

#[test]
fn schedule_before_start_fails() {
    let mut sched = scheduler();
    let report = sched.schedule_packet(make_packet(1, 0), 0, TimeSpan::zero());
    assert_eq!(report.result, Err(SchedulerError::NotStarted));
    assert!(report.punctuality.is_none());
}

#[test]
fn next_packet_before_start_fails() {
    let mut sched = scheduler();
    assert!(matches!(sched.next_packet(TimeSpan::zero()), Err(SchedulerError::NotStarted)));
}

#[test]
fn starting_twice_fails() {
    let mut sched = scheduler();
    sched.start().unwrap();
    assert_eq!(sched.start(), Err(SchedulerError::AlreadyStarted));
}

#[test]
fn stopping_without_starting_fails() {
    let mut sched = scheduler();
    assert_eq!(sched.stop(), Err(SchedulerError::NotStarted));
}

#[test]
fn schedule_then_next_packet_releases_once_deadline_arrives() {
    let mut sched = scheduler();
    sched.start().unwrap();
    // Anchors the timeline at t=0; deadline = 0 + playback_latency (20ms).
    let report = sched.schedule_packet(make_packet(1, 0), 0, TimeSpan::zero());
    assert_eq!(report.result, Ok(20));
    assert_eq!(report.punctuality, Some(Punctuality::OnTime));
    assert!(sched.next_packet(TimeSpan::zero()).unwrap().is_none());
    assert!(sched.next_packet(ms(19)).unwrap().is_none());

    let released = sched.next_packet(ms(21)).unwrap().unwrap();
    assert_eq!(released.packet.packet_id, 1);
    assert_eq!(released.playback_offset_ms, 1);
}

#[test]
fn packets_release_in_deadline_order_not_schedule_order() {
    let mut sched = scheduler();
    sched.start().unwrap();
    sched.schedule_packet(make_packet(1, 0), 0, TimeSpan::zero()).result.unwrap();
    sched.schedule_packet(make_packet(2, 1), 0, ms(5)).result.unwrap();

    let first = sched.next_packet(ms(35)).unwrap().unwrap();
    let second = sched.next_packet(ms(35)).unwrap().unwrap();
    assert_eq!([first.packet.packet_id, second.packet.packet_id], [1, 2]);
}

#[test]
fn duplicate_scheduling_is_rejected() {
    let mut sched = scheduler();
    sched.start().unwrap();
    sched.schedule_packet(make_packet(1, 0), 0, TimeSpan::zero()).result.unwrap();
    let report = sched.schedule_packet(make_packet(1, 0), 0, TimeSpan::zero());
    assert_eq!(report.result, Err(SchedulerError::DuplicatePacket { packet_id: 1 }));
}

#[test]
fn excessively_late_packets_are_dropped() {
    let mut sched = scheduler();
    sched.start().unwrap();
    sched.schedule_packet(make_packet(1, 0), 0, TimeSpan::zero()).result.unwrap();
    // 10 s later the deadline (20 ms) lies far beyond the late threshold.
    let report = sched.schedule_packet(make_packet(2, 1), 0, TimeSpan::from_secs(10));
    assert_eq!(report.punctuality, Some(Punctuality::Dropped));
    assert_eq!(
        report.result,
        Err(SchedulerError::PacketExpired { packet_id: 2, late_by_ms: 9_980 })
    );
    assert_eq!(sched.queue_occupancy(), 1);
}

#[test]
fn late_and_early_packets_are_classified_and_queued() {
    let mut sched = scheduler();
    sched.start().unwrap();
    sched.schedule_packet(make_packet(1, 0), 0, TimeSpan::zero()).result.unwrap();
    // Deadline 20 ms, now 50 ms: 30 ms late, within the 50 ms threshold.
    let late = sched.schedule_packet(make_packet(2, 1), 0, ms(50));
    assert_eq!(late.punctuality, Some(Punctuality::Late));
    assert_eq!(late.result, Ok(30));
    // Timestamp 1000 ms after the anchor: deadline 1020 ms, 970 ms ahead.
    let early = sched.schedule_packet(make_packet(3, 2), 1_000, ms(50));
    assert_eq!(early.punctuality, Some(Punctuality::Early));
    assert_eq!(early.result, Ok(970));
    assert_eq!(sched.queue_occupancy(), 3);
}

#[test]
fn scheduler_queue_full_is_rejected() {
    let mut config = SchedulerConfig::for_tests();
    config.queue_capacity = 1;
    let mut sched = PlaybackScheduler::new(config).unwrap();
    sched.start().unwrap();
    sched.schedule_packet(make_packet(1, 0), 0, TimeSpan::zero()).result.unwrap();
    let report = sched.schedule_packet(make_packet(2, 1), 0, TimeSpan::zero());
    assert_eq!(report.result, Err(SchedulerError::QueueFull { capacity: 1 }));
}

#[test]
fn cancel_packet_prevents_release() {
    let mut sched = scheduler();
    sched.start().unwrap();
    sched.schedule_packet(make_packet(1, 0), 0, TimeSpan::zero()).result.unwrap();
    assert!(sched.cancel_packet(1).unwrap());
    assert!(!sched.cancel_packet(1).unwrap());
    assert!(sched.next_packet(ms(50)).unwrap().is_none());
}

#[test]
fn scheduler_clear_empties_the_queue() {
    let mut sched = scheduler();
    sched.start().unwrap();
    sched.schedule_packet(make_packet(1, 0), 0, TimeSpan::zero()).result.unwrap();
    sched.schedule_packet(make_packet(2, 1), 0, TimeSpan::zero()).result.unwrap();
    sched.clear().unwrap();
    assert!(sched.next_packet(ms(50)).unwrap().is_none());
    assert_eq!(sched.queue_occupancy(), 0);
}

#[test]
fn stop_preserves_queue_and_statistics() {
    let mut sched = scheduler();
    sched.start().unwrap();
    sched.schedule_packet(make_packet(1, 0), 0, TimeSpan::zero()).result.unwrap();
    sched.stop().unwrap();
    assert_eq!(sched.queue_occupancy(), 1);
    assert!(!sched.is_running());
}

#[test]
fn invalid_scheduler_configuration_is_refused() {
    let mut config = SchedulerConfig::for_tests();
    config.scheduling_interval = TimeSpan::zero();
    match PlaybackScheduler::new(config) {
        Err(e) => assert_eq!(
            e,
            SchedulerError::InvalidConfiguration("scheduling_interval must be greater than zero".into())
        ),
        Ok(_) => panic!("an invalid configuration was accepted"),
    }
}

#[test]
fn stress_thousands_of_packets_schedule_and_release_cleanly() {
    let mut config = SchedulerConfig::for_tests();
    config.queue_capacity = 5_000;
    let mut sched = PlaybackScheduler::new(config).unwrap();
    sched.start().unwrap();
    for i in 0..2_000u64 {
        sched.schedule_packet(make_packet(i, i), 0, TimeSpan::zero()).result.unwrap();
    }
    let mut released = Vec::new();
    while let Some(rel) = sched.next_packet(ms(100)).unwrap() {
        released.push(rel.packet.sequence_number);
    }
    assert_eq!(released, (0..2_000u64).collect::<Vec<u64>>());
}
