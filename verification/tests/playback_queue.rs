use echosync::scheduler::playback_queue::{PlaybackQueue, ScheduledPacket};
use echosync::scheduler::SchedulerError;
use echosync::streaming::{AudioPacket, PacketFlags};
use echosync::time_span::TimeSpan;

fn packet(packet_id: u64, sequence_number: u64) -> AudioPacket {
    AudioPacket::new(
        packet_id,
        sequence_number,
        vec![0u8; 8],
        PacketFlags::new(),
        "device-a",
        "session-1",
        4000,
    )
    .unwrap()
}

fn item(packet_id: u64, sequence_number: u64, deadline_ms: u64) -> ScheduledPacket {
    ScheduledPacket {
        packet: packet(packet_id, sequence_number),
        deadline: TimeSpan::from_millis(deadline_ms),
        scheduled_at: TimeSpan::zero(),
    }
}

#[test]
fn enqueue_then_dequeue_round_trips() {
    let mut queue = PlaybackQueue::new(10);
    queue.enqueue(item(1, 0, 100)).unwrap();

    let popped = queue.dequeue().unwrap().unwrap();
    assert_eq!(popped.packet.packet_id, 1);
    assert!(queue.is_empty());
}

#[test]
fn dequeue_returns_earliest_deadline_first() {
    let mut queue = PlaybackQueue::new(10);
    queue.enqueue(item(1, 0, 300)).unwrap();
    queue.enqueue(item(2, 1, 100)).unwrap();
    queue.enqueue(item(3, 2, 200)).unwrap();

    let mut order = Vec::new();
    while let Some(p) = queue.dequeue().unwrap() {
        order.push(p.packet.packet_id);
    }
    assert_eq!(order, vec![2, 3, 1]);
}

#[test]
fn equal_deadlines_break_ties_by_sequence_number() {
    let mut queue = PlaybackQueue::new(10);
    queue.enqueue(item(1, 5, 100)).unwrap();
    queue.enqueue(item(2, 2, 100)).unwrap();
    queue.enqueue(item(3, 8, 100)).unwrap();

    let mut order = Vec::new();
    while let Some(p) = queue.dequeue().unwrap() {
        order.push(p.packet.sequence_number);
    }
    assert_eq!(order, vec![2, 5, 8]);
}

#[test]
fn peek_does_not_remove() {
    let mut queue = PlaybackQueue::new(10);
    queue.enqueue(item(1, 0, 100)).unwrap();

    let peeked = queue.peek().unwrap().unwrap();
    assert_eq!(peeked.packet.packet_id, 1);
    assert_eq!(queue.size(), 1);
}

#[test]
fn peek_and_dequeue_on_empty_queue_return_none() {
    let mut queue = PlaybackQueue::new(10);
    assert_eq!(queue.peek().unwrap(), None);
    assert_eq!(queue.dequeue().unwrap(), None);
}

#[test]
fn duplicate_packet_id_is_rejected() {
    let mut queue = PlaybackQueue::new(10);
    queue.enqueue(item(1, 0, 100)).unwrap();
    let result = queue.enqueue(item(1, 1, 200));
    assert_eq!(result, Err(SchedulerError::DuplicatePacket { packet_id: 1 }));
}

#[test]
fn playback_queue_queue_full_is_rejected() {
    let mut queue = PlaybackQueue::new(2);
    queue.enqueue(item(1, 0, 100)).unwrap();
    queue.enqueue(item(2, 1, 200)).unwrap();

    let result = queue.enqueue(item(3, 2, 300));
    assert_eq!(result, Err(SchedulerError::QueueFull { capacity: 2 }));
}

#[test]
fn cancel_removes_a_specific_packet_regardless_of_position() {
    let mut queue = PlaybackQueue::new(10);
    queue.enqueue(item(1, 0, 300)).unwrap();
    queue.enqueue(item(2, 1, 100)).unwrap();
    queue.enqueue(item(3, 2, 200)).unwrap();

    assert!(queue.cancel(2).unwrap());
    assert!(!queue.contains(2));
    assert_eq!(queue.size(), 2);

    let mut order = Vec::new();
    while let Some(p) = queue.dequeue().unwrap() {
        order.push(p.packet.packet_id);
    }
    assert_eq!(order, vec![3, 1]);
}

#[test]
fn cancel_unknown_packet_returns_false() {
    let mut queue = PlaybackQueue::new(10);
    assert!(!queue.cancel(999).unwrap());
}

#[test]
fn playback_queue_clear_empties_the_queue() {
    let mut queue = PlaybackQueue::new(10);
    queue.enqueue(item(1, 0, 100)).unwrap();
    queue.enqueue(item(2, 1, 200)).unwrap();

    queue.clear().unwrap();

    assert!(queue.is_empty());
    assert!(!queue.contains(1));
    assert_eq!(queue.dequeue().unwrap(), None);
}

#[test]
fn is_full_reflects_capacity() {
    let mut queue = PlaybackQueue::new(1);
    assert!(!queue.is_full());
    queue.enqueue(item(1, 0, 100)).unwrap();
    assert!(queue.is_full());
}

#[test]
fn stress_many_packets_dequeue_in_deadline_order() {
    let mut queue = PlaybackQueue::new(5000);
    for i in 0..2000u64 {
        let deadline = (2000 - i) as u64;
        queue.enqueue(item(i, i, deadline)).unwrap();
    }

    let mut last_deadline = 0u64;
    let mut count = 0;
    while let Some(p) = queue.dequeue().unwrap() {
        assert!(p.deadline.as_millis() as u64 >= last_deadline);
        last_deadline = p.deadline.as_millis() as u64;
        count += 1;
    }
    assert_eq!(count, 2000);
}

#[test]
fn enqueue_then_cancel_restores_the_queue() {
    let mut queue = PlaybackQueue::new(4);
    queue.enqueue(item(1, 0, 50)).unwrap();
    queue.enqueue(item(2, 1, 40)).unwrap();
    assert!(queue.cancel(2).unwrap());
    assert_eq!(queue.size(), 1);
    assert!(queue.contains(1));
    assert!(!queue.contains(2));
    // The id is free again after cancelling.
    queue.enqueue(item(2, 1, 40)).unwrap();
    assert_eq!(queue.peek().unwrap().unwrap().packet.packet_id, 2);
}

#[test]
fn a_full_queue_is_left_unchanged_by_a_rejected_enqueue() {
    let mut queue = PlaybackQueue::new(1);
    queue.enqueue(item(1, 0, 100)).unwrap();
    assert_eq!(
        queue.enqueue(item(2, 1, 10)),
        Err(SchedulerError::QueueFull { capacity: 1 })
    );
    // A duplicate id is reported before a full queue.
    assert_eq!(
        queue.enqueue(item(1, 0, 100)),
        Err(SchedulerError::DuplicatePacket { packet_id: 1 })
    );
    assert_eq!(queue.size(), 1);
    assert_eq!(queue.dequeue().unwrap().unwrap().packet.packet_id, 1);
}

#[test]
fn a_dequeued_packet_is_no_longer_queued() {
    let mut queue = PlaybackQueue::new(4);
    queue.enqueue(item(7, 0, 30)).unwrap();
    queue.enqueue(item(8, 1, 10)).unwrap();
    let first = queue.dequeue().unwrap().unwrap();
    assert_eq!(first.packet.packet_id, 8);
    assert!(!queue.contains(8));
    assert!(queue.contains(7));
}
