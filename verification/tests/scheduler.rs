use bmidi_play::{ConfigError, EventSource, KeyKind, Payload, Scheduler, Segment, TimedEvent};
use crossbeam_channel::{unbounded, Sender};

fn note(delay: u32, note: u8) -> TimedEvent {
    TimedEvent {
        delay,
        channel: 0,
        payload: Payload::Key { kind: KeyKind::Press, note, velocity: 100 },
    }
}

fn new_scheduler() -> (Scheduler, Sender<TimedEvent>) {
    let (tx, rx) = unbounded();
    let scheduler = Scheduler::new(120, 96, 44100, 0, EventSource::new(rx)).unwrap();
    (scheduler, tx)
}

fn total(plan: &[Segment]) -> u64 {
    plan.iter().map(|s| s.frames).sum()
}

fn applied(plan: &[Segment]) -> Vec<TimedEvent> {
    plan.iter().filter_map(|s| s.event.clone()).collect()
}

fn is_sentinel(e: &TimedEvent) -> bool {
    e.delay == 0 && matches!(e.payload, Payload::Meta { typ: 0, ref data } if data.is_empty())
}

#[test]
fn new_rejects_zero_bpm_first() {
    let (_tx, rx) = unbounded();
    let r = Scheduler::new(0, 0, 0, 0, EventSource::new(rx));
    assert!(matches!(r, Err(ConfigError::InvalidBpm)));
}

#[test]
fn new_rejects_zero_ppqn() {
    let (_tx, rx) = unbounded();
    let r = Scheduler::new(120, 0, 44100, 0, EventSource::new(rx));
    assert!(matches!(r, Err(ConfigError::InvalidPpqn)));
}

#[test]
fn new_rejects_zero_sample_rate() {
    let (_tx, rx) = unbounded();
    let r = Scheduler::new(120, 96, 0, 0, EventSource::new(rx));
    assert!(matches!(r, Err(ConfigError::InvalidSampleRate)));
}

#[test]
fn new_starts_at_position_zero() {
    let (s, _tx) = new_scheduler();
    assert_eq!(s.cursor, 0);
    assert_eq!(s.next_cursor, 0);
    assert!(!s.finished);
    assert_eq!((s.bpm, s.ppqn, s.sample_rate), (120, 96, 44100));
    assert!(is_sentinel(&s.current_event));
}

#[test]
fn fill_of_length_zero_is_empty() {
    let (mut s, _tx) = new_scheduler();
    let plan = s.fill_buffer(0, 10);
    assert!(plan.is_empty());
    assert_eq!(s.cursor, 0);
}

#[test]
fn eighth_note_gap_renders_full_buffer_without_fetch() {
    // An eighth note at 120 bpm / 96 ppqn / 44100 Hz is due 11025 samples
    // ahead; a 1024-sample buffer inside that gap renders in full with no
    // event fetched. The sender stays alive, so a scheduler that consulted
    // the channel anyway would block and fail this test.
    let (mut s, tx) = new_scheduler();
    tx.send(note(48, 60)).unwrap();
    let first = s.fill_buffer(1024, 100);
    assert_eq!(total(&first), 1024);
    assert_eq!(s.cursor, 1024);
    assert_eq!(s.next_cursor, 11025);
    let first_applied = applied(&first);
    assert_eq!(first_applied.len(), 1);
    assert!(is_sentinel(&first_applied[0]));
    assert_eq!(s.current_event, note(48, 60));

    let second = s.fill_buffer(1024, 100);
    assert_eq!(second.len(), 1);
    assert_eq!(second[0].frames, 1024);
    assert!(second[0].event.is_none());
    assert_eq!(s.cursor, 2048);
    assert_eq!(s.next_cursor, 11025);
    assert!(!s.finished);
    drop(tx);
}

#[test]
fn stream_end_pads_buffers_indefinitely() {
    let (mut s, tx) = new_scheduler();
    tx.send(note(10, 60)).unwrap();
    tx.send(note(20, 61)).unwrap();
    drop(tx);

    // samples(10) = 2296, so the first event lands 2296 samples in; the
    // second is due at 2296 + 4593 = 6889, past this buffer.
    let first = s.fill_buffer(4096, 100);
    assert_eq!(total(&first), 4096);
    let first_applied = applied(&first);
    assert_eq!(first_applied.len(), 2);
    assert!(is_sentinel(&first_applied[0]));
    assert_eq!(first_applied[1], note(10, 60));
    assert_eq!(first[1].frames, 2296);
    assert_eq!(s.cursor, 4096);
    assert_eq!(s.next_cursor, 6889);

    // The stream ends inside this buffer: it is still filled in full.
    let second = s.fill_buffer(4096, 100);
    assert_eq!(total(&second), 4096);
    assert!(applied(&second).is_empty());
    assert!(s.finished);
    assert_eq!(s.cursor, 8192);
    assert_eq!(s.next_cursor, 8192);

    // Every later request returns one full-length silent span, without
    // touching the channel and without error.
    for len in [4096usize, 512, 4096] {
        let plan = s.fill_buffer(len, 100);
        assert_eq!(plan.len(), 1);
        assert_eq!(plan[0].frames, len as u64);
        assert!(plan[0].event.is_none());
    }
    assert_eq!(s.cursor, 8192 + 4096 + 512 + 4096);
}

#[test]
fn zero_delay_burst_is_drained_in_one_buffer() {
    let (mut s, tx) = new_scheduler();
    tx.send(note(0, 10)).unwrap();
    tx.send(note(0, 11)).unwrap();
    tx.send(note(0, 12)).unwrap();
    tx.send(note(48, 13)).unwrap();
    let plan = s.fill_buffer(256, 100);
    assert_eq!(total(&plan), 256);
    assert_eq!(plan.len(), 5);
    for seg in &plan[..4] {
        assert_eq!(seg.frames, 0);
    }
    let events = applied(&plan);
    assert_eq!(events.len(), 4);
    assert!(is_sentinel(&events[0]));
    assert_eq!(&events[1..], &[note(0, 10), note(0, 11), note(0, 12)]);
    assert_eq!(s.current_event, note(48, 13));
    assert_eq!(s.cursor, 256);
    assert_eq!(s.next_cursor, 11025);
    drop(tx);
}

#[test]
fn exhausted_fetch_budget_defers_the_pending_event() {
    let (mut s, tx) = new_scheduler();
    tx.send(note(0, 10)).unwrap();
    tx.send(note(0, 11)).unwrap();
    tx.send(note(48, 12)).unwrap();

    // Only two waits allowed: the third zero-delay event stays queued and
    // the pending due position defers to the end of this buffer.
    let first = s.fill_buffer(100, 2);
    assert_eq!(total(&first), 100);
    let first_applied = applied(&first);
    assert_eq!(first_applied.len(), 2);
    assert!(is_sentinel(&first_applied[0]));
    assert_eq!(first_applied[1], note(0, 10));
    assert_eq!(s.current_event, note(0, 11));
    assert_eq!(s.next_cursor, 100);

    // With budget again available, the deferred event fires at the start of
    // the next buffer.
    let second = s.fill_buffer(100, 100);
    assert_eq!(total(&second), 100);
    assert_eq!(applied(&second), vec![note(0, 11)]);
    assert_eq!(s.current_event, note(48, 12));
    assert_eq!(s.cursor, 200);
    assert_eq!(s.next_cursor, 100 + 11025);
    drop(tx);
}

#[test]
fn events_apply_in_order_exactly_once_across_buffers() {
    let (mut s, tx) = new_scheduler();
    // samples(1) = 229, samples(2) = 459.
    tx.send(note(1, 60)).unwrap();
    tx.send(note(1, 61)).unwrap();
    tx.send(note(2, 62)).unwrap();
    drop(tx);

    let mut all_applied = Vec::new();
    let mut rendered = 0u64;
    for _ in 0..4 {
        let plan = s.fill_buffer(300, 100);
        assert_eq!(total(&plan), 300);
        rendered += total(&plan);
        all_applied.extend(applied(&plan));
    }
    // The producer's order is kept, each event fires at most once; the last
    // event stays pending when the stream ends right after it.
    assert_eq!(all_applied.len(), 3);
    assert!(is_sentinel(&all_applied[0]));
    assert_eq!(&all_applied[1..], &[note(1, 60), note(1, 61)]);
    assert_eq!(rendered, 1200);
    assert_eq!(s.cursor, 1200);
    assert!(s.finished);
}
