use echosync::buffer::packet_window::{PacketWindow, WindowStatistics};
use echosync::buffer::BufferError;

#[test]
fn first_packet_is_always_admitted_and_counted_in_order() {
    let mut window = PacketWindow::new(8, 3);
    assert!(window.admit_sequence(10).is_ok());
    assert_eq!(window.statistics().packets_in_order, 1);
}

#[test]
fn in_order_admit_then_advance_moves_watermark_forward() {
    let mut window = PacketWindow::new(8, 3);
    window.admit_sequence(0).unwrap();
    let lost = window.advance(0);
    assert_eq!(lost, 0);
    assert_eq!(window.expected_sequence(), Some(1));

    window.admit_sequence(1).unwrap();
    window.advance(1);
    assert_eq!(window.expected_sequence(), Some(2));
}

#[test]
fn out_of_order_admit_is_counted_as_reordered() {
    let mut window = PacketWindow::new(8, 3);
    window.admit_sequence(0).unwrap();
    window.advance(0);

    window.admit_sequence(2).unwrap();
    assert_eq!(window.statistics().packets_reordered, 1);
}

#[test]
fn gap_beyond_tolerance_is_flagged_late() {
    let mut window = PacketWindow::new(8, 2);
    window.admit_sequence(0).unwrap();
    window.advance(0);

    window.admit_sequence(10).unwrap();
    assert_eq!(window.statistics().late_packets, 1);
}

#[test]
fn delivered_packet_reporting_as_duplicate_is_rejected() {
    let mut window = PacketWindow::new(8, 3);
    window.admit_sequence(5).unwrap();
    window.advance(5);

    let result = window.admit_sequence(5);
    assert_eq!(result, Err(BufferError::DuplicatePacket { sequence_number: 5 }));
}

#[test]
fn sequence_behind_watermark_and_evicted_from_cache_is_already_processed() {
    let mut window = PacketWindow::new(2, 3);
    window.admit_sequence(0).unwrap();
    window.advance(0);
    window.admit_sequence(1).unwrap();
    window.advance(1);
    window.admit_sequence(2).unwrap();
    window.advance(2);
    let result = window.admit_sequence(0);
    assert_eq!(result, Err(BufferError::AlreadyProcessed { sequence_number: 0 }));
}

#[test]
fn advance_reports_lost_count_for_skipped_sequence_numbers() {
    let mut window = PacketWindow::new(8, 10);
    window.admit_sequence(0).unwrap();
    window.advance(0);

    window.admit_sequence(5).unwrap();
    let lost = window.advance(5);
    assert_eq!(lost, 4);
    assert_eq!(window.statistics().packets_lost, 4);
}

#[test]
fn reset_clears_watermark_cache_and_stats() {
    let mut window = PacketWindow::new(8, 3);
    window.admit_sequence(0).unwrap();
    window.advance(0);
    window.admit_sequence(1).unwrap();

    window.reset();

    assert_eq!(window.expected_sequence(), None);
    assert_eq!(window.statistics(), WindowStatistics::default());
    assert!(window.admit_sequence(0).is_ok());
}

#[test]
fn zero_capacity_cache_never_remembers_but_watermark_still_rejects() {
    let mut window = PacketWindow::new(0, 3);
    window.admit_sequence(0).unwrap();
    window.advance(0);
    assert_eq!(
        window.admit_sequence(0),
        Err(BufferError::AlreadyProcessed { sequence_number: 0 })
    );
}

#[test]
fn delivered_packet_is_never_admitted_again() {
    // A delivered sequence number is refused while remembered, and still
    // refused (as behind the watermark) once the cache has forgotten it.
    let mut window = PacketWindow::new(1, 3);
    window.admit_sequence(7).unwrap();
    window.advance(7);
    assert_eq!(
        window.admit_sequence(7),
        Err(BufferError::DuplicatePacket { sequence_number: 7 })
    );
    window.admit_sequence(8).unwrap();
    window.advance(8);
    assert_eq!(
        window.admit_sequence(7),
        Err(BufferError::AlreadyProcessed { sequence_number: 7 })
    );
    assert_eq!(window.statistics().duplicates_detected, 2);
}

#[test]
fn watermark_never_moves_backwards() {
    let mut window = PacketWindow::new(8, 3);
    window.admit_sequence(10).unwrap();
    window.advance(10);
    assert_eq!(window.expected_sequence(), Some(11));
    // Delivering an older number (out of band) keeps the watermark.
    let lost = window.advance(3);
    assert_eq!(lost, 0);
    assert_eq!(window.expected_sequence(), Some(11));
}

#[test]
fn advance_at_max_sequence_keeps_watermark_and_counts_gap() {
    let mut window = PacketWindow::new(4, 3);
    window.admit_sequence(0).unwrap();
    window.advance(0);
    let lost = window.advance(u64::MAX);
    assert_eq!(lost, u64::MAX - 1);
    assert_eq!(window.expected_sequence(), Some(u64::MAX));
}
