use stt::capture::{
    next_send_action, CaptureMonitor, CaptureNotice, SendAction, SendEvent, CHANNEL_CAPACITY,
    MAX_PENDING_CHUNKS, ONE_SECOND_OF_SAMPLES,
};

const SEC: u128 = 1_000_000_000;

#[test]
fn a_chunk_is_taken_from_the_front() {
    let mut monitor = CaptureMonitor::new(3, false, 0);
    let mut buffer = vec![1, 2];
    let polled = monitor.poll(&mut buffer, 1);
    assert_eq!(polled.chunk, None);
    assert_eq!(polled.buffer_size, 2);
    assert!(!polled.should_log);
    assert_eq!(buffer, vec![1, 2]);

    buffer.extend([3, 4, 5]);
    let polled = monitor.poll(&mut buffer, 5 * SEC);
    assert_eq!(polled.chunk, Some(vec![1, 2, 3]));
    assert_eq!(polled.buffer_size, 5);
    assert!(polled.should_log);
    assert_eq!(buffer, vec![4, 5]);
}

#[test]
fn an_empty_chunk_is_always_there() {
    let mut monitor = CaptureMonitor::new(0, false, 0);
    let mut buffer = vec![7];
    assert_eq!(monitor.poll(&mut buffer, 0).chunk, Some(vec![]));
    assert_eq!(buffer, vec![7]);
}

#[test]
fn no_sample_is_lost() {
    let mut monitor = CaptureMonitor::new(4, false, 0);
    let mut buffer: Vec<u32> = Vec::new();
    let mut taken = Vec::new();
    let mut next = 0;
    for round in 0..20 {
        for _ in 0..(round % 7) {
            buffer.push(next);
            next += 1;
        }
        if let Some(chunk) = monitor.poll(&mut buffer, 0).chunk {
            assert_eq!(chunk.len(), 4);
            taken.extend(chunk);
        }
    }
    taken.extend(buffer);
    assert_eq!(taken, (0..next).collect::<Vec<_>>());
}

#[test]
fn growth_beyond_a_chunk_is_reported() {
    let mut monitor = CaptureMonitor::new(10, false, 0);
    assert_eq!(monitor.report(10, true, SEC), vec![]);
    assert_eq!(monitor.report(20, true, SEC), vec![]);
    assert_eq!(
        monitor.report(31, true, SEC),
        vec![CaptureNotice::Growing { was: 20, now: 31, by: 11 }]
    );
    assert_eq!(monitor.report(5, true, SEC), vec![]);
    // A report that is not due changes nothing.
    assert_eq!(monitor.report(1000, false, SEC), vec![]);
    assert_eq!(
        monitor.report(16, true, SEC),
        vec![CaptureNotice::Growing { was: 5, now: 16, by: 11 }]
    );
}

#[test]
fn reports_restart_the_interval() {
    let mut monitor = CaptureMonitor::new(1, false, 0);
    let mut buffer: Vec<u8> = Vec::new();
    assert!(monitor.poll(&mut buffer, 5 * SEC).should_log);
    monitor.report(0, true, 5 * SEC);
    assert!(!monitor.poll(&mut buffer, 10 * SEC - 1).should_log);
    assert!(monitor.poll(&mut buffer, 10 * SEC).should_log);
}

#[test]
fn status_is_reported_in_debug_mode() {
    let mut monitor = CaptureMonitor::new(100_000, true, 0);
    let mut buffer = vec![0u8; 30_000];
    monitor.poll(&mut buffer, 0);
    buffer.truncate(25_000);
    let polled = monitor.poll(&mut buffer, 0);
    assert_eq!(
        monitor.report(polled.buffer_size, true, 0),
        vec![
            CaptureNotice::BufferStatus { current: 25_000, max: 30_000 },
            CaptureNotice::FallingBehind,
        ]
    );
}

#[test]
fn the_largest_buffer_is_remembered() {
    let mut monitor = CaptureMonitor::new(usize::MAX, true, 0);
    for size in [3, 17, 5, 16] {
        monitor.poll(&mut vec![0u8; size], 0);
    }
    assert_eq!(
        monitor.report(16, true, 0),
        vec![CaptureNotice::BufferStatus { current: 16, max: 17 }]
    );
}

#[test]
fn a_second_of_audio_is_told_as_in_milliseconds() {
    for size in [0, 1, 23_999, 24_000, 24_001, 24_002, 1 << 24, (1 << 24) + 1, usize::MAX] {
        let milliseconds = (size as f32 / 24000.0) * 1000.0;
        assert_eq!(milliseconds > 1000.0, size > ONE_SECOND_OF_SAMPLES);
        let mut monitor = CaptureMonitor::new(usize::MAX, false, 0);
        let behind = monitor.report(size, true, 0).contains(&CaptureNotice::FallingBehind);
        assert_eq!(behind, milliseconds > 1000.0);
    }
}

#[test]
fn chunks_are_numbered_from_one() {
    let mut monitor = CaptureMonitor::new(1, false, 0);
    assert_eq!(monitor.send_count(), 0);
    assert!(monitor.can_count());
    assert_eq!(monitor.next_chunk(), 1);
    assert_eq!(monitor.next_chunk(), 2);
    assert_eq!(monitor.send_count(), 2);
}

#[test]
fn load_is_shed_beyond_the_limit() {
    assert_eq!(next_send_action(SendEvent::Ready { pending: 0 }), SendAction::Offer);
    assert_eq!(next_send_action(SendEvent::Ready { pending: 25 }), SendAction::Offer);
    assert_eq!(next_send_action(SendEvent::Ready { pending: 26 }), SendAction::Shed);
    assert_eq!(next_send_action(SendEvent::Ready { pending: u64::MAX }), SendAction::Shed);
}

#[test]
fn a_full_channel_is_waited_for() {
    assert_eq!(next_send_action(SendEvent::Delivered), SendAction::CountPending);
    assert_eq!(next_send_action(SendEvent::Full), SendAction::Block);
    assert_eq!(next_send_action(SendEvent::Disconnected), SendAction::Stop);
}

#[test]
fn delivered_chunks_are_counted_as_pending() {
    let events = [
        SendEvent::Ready { pending: 3 },
        SendEvent::Full,
        SendEvent::Delivered,
        SendEvent::Ready { pending: 30 },
        SendEvent::Delivered,
        SendEvent::Disconnected,
    ];
    let counted = events
        .iter()
        .filter(|event| next_send_action(**event) == SendAction::CountPending)
        .count();
    assert_eq!(counted, 2);
}

#[test]
fn debug_mode_changes_no_chunk() {
    let mut quiet = CaptureMonitor::new(4, false, 0);
    let mut loud = CaptureMonitor::new(4, true, 0);
    let (mut quiet_buffer, mut loud_buffer): (Vec<u32>, Vec<u32>) = (Vec::new(), Vec::new());
    for round in 0..30u32 {
        let samples = vec![round; (round * 5 % 9) as usize];
        quiet_buffer.extend(&samples);
        loud_buffer.extend(&samples);
        let now = round as u128 * SEC;
        let (a, b) = (quiet.poll(&mut quiet_buffer, now), loud.poll(&mut loud_buffer, now));
        assert_eq!(a.chunk, b.chunk);
        assert_eq!(a.should_log, b.should_log);
        let warnings = quiet.report(a.buffer_size, a.should_log, now);
        let mut notices = loud.report(b.buffer_size, b.should_log, now);
        notices.retain(|notice| !matches!(notice, CaptureNotice::BufferStatus { .. }));
        assert_eq!(warnings, notices);
        assert_eq!(quiet_buffer, loud_buffer);
    }
}

#[test]
fn shedding_keeps_the_channel_open() {
    let (sender, receiver) = std::sync::mpsc::sync_channel(CHANNEL_CAPACITY);
    let mut pending = 0;
    for chunk in 0..500 {
        if next_send_action(SendEvent::Ready { pending }) == SendAction::Offer {
            assert!(sender.try_send(chunk).is_ok());
            pending += 1;
        }
        assert!(pending <= MAX_PENDING_CHUNKS + 1);
        if chunk % 3 == 0 {
            assert!(receiver.try_recv().is_ok());
            pending -= 1;
        }
    }
}

#[test]
fn the_channel_stays_open_however_the_threads_interleave() {
    // Two threads step by step, in an order drawn from a fixed row of numbers.
    let mut counter: u64 = 0;
    let (mut queued, mut taken) = (0usize, false);
    let mut ready: Option<u64> = None;
    let mut sent = false;
    let mut draw: u32 = 1;
    let mut shed = 0;
    for _ in 0..100_000 {
        draw = draw.wrapping_mul(1_664_525).wrapping_add(1_013_904_223);
        match (draw >> 16) % 7 {
            0 if taken => {
                counter = counter.wrapping_sub(1);
                taken = false;
            }
            1 if queued > 0 && !taken => {
                queued -= 1;
                taken = true;
            }
            0 | 1 => {}
            _ => match (ready, sent) {
                (_, true) => {
                    counter = counter.wrapping_add(1);
                    sent = false;
                }
                (None, false) => ready = Some(counter),
                (Some(pending), false) => {
                    assert!(queued as u64 <= pending);
                    if next_send_action(SendEvent::Ready { pending }) == SendAction::Offer {
                        queued += 1;
                        sent = true;
                    } else {
                        shed += 1;
                    }
                    ready = None;
                }
            },
        }
        assert!(queued as u64 <= MAX_PENDING_CHUNKS + 1);
        assert!(queued < CHANNEL_CAPACITY);
    }
    assert!(shed > 0);
}
