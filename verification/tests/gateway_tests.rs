use frame_analyzer::{CollectorAction, CollectorState, FrameDuration, PendingEvents};

#[test]
fn control_transitions() {
    assert_eq!(CollectorState::Running.pause(), CollectorState::Paused);
    assert_eq!(CollectorState::Paused.pause(), CollectorState::Paused);
    assert_eq!(CollectorState::Stopped.pause(), CollectorState::Stopped);

    assert_eq!(CollectorState::Paused.resume(), CollectorState::Running);
    assert_eq!(CollectorState::Running.resume(), CollectorState::Running);
    assert_eq!(CollectorState::Stopped.resume(), CollectorState::Stopped);

    assert_eq!(CollectorState::Running.stop(), CollectorState::Stopped);
    assert_eq!(CollectorState::Paused.stop(), CollectorState::Stopped);

    assert!(CollectorState::Paused.is_paused());
    assert!(!CollectorState::Running.is_paused());
    assert!(!CollectorState::Stopped.is_paused());
}

#[test]
fn paused_loop_never_collects_until_resumed() {
    // However many frames the target keeps producing, a paused collector
    // queues nothing: its every pass only waits.
    let paused = CollectorState::Running.pause();
    assert_eq!(paused.step(), CollectorAction::WaitForResume);
    assert_ne!(paused.step(), CollectorAction::CollectOnce);

    // After a resume, collection continues where it left off.
    let resumed = paused.resume();
    assert_eq!(resumed.step(), CollectorAction::CollectOnce);

    // A stop observed while paused still tears the loop down.
    assert_eq!(paused.stop().step(), CollectorAction::Exit);
}

#[test]
fn pending_events_are_fifo_per_pid() {
    let mut q = PendingEvents::new();
    assert_eq!(q.len(), 0);

    q.push(1, FrameDuration::from_nanos(100));
    q.push(2, FrameDuration::from_nanos(200));
    q.push(1, FrameDuration::from_nanos(300));
    assert_eq!(q.len(), 3);

    // The earliest match is taken, wherever it stands in the queue.
    let d = q.take_first_match(1).expect("an event for pid 1 is queued");
    assert_eq!(d, FrameDuration::from_nanos(100));
    assert_eq!(q.len(), 2);

    let d = q.take_first_match(1).expect("a second event for pid 1");
    assert_eq!(d, FrameDuration::from_nanos(300));
    assert_eq!(q.len(), 1);

    let d = q.take_first_match(2).expect("the event for pid 2 is intact");
    assert_eq!(d, FrameDuration::from_nanos(200));
    assert_eq!(q.len(), 0);
}

#[test]
fn receive_without_matching_event_is_no_data() {
    let mut q = PendingEvents::new();
    assert_eq!(q.take_first_match(1), None);

    q.push(2, FrameDuration::from_nanos(50));
    // No event for pid 1: "no data", and the queue is left untouched.
    assert_eq!(q.take_first_match(1), None);
    assert_eq!(q.len(), 1);
}

#[test]
fn clear_leaves_a_clean_queue() {
    let mut q = PendingEvents::new();
    q.push(1, FrameDuration::from_nanos(100));
    q.push(2, FrameDuration::from_nanos(200));
    q.clear();
    assert_eq!(q.len(), 0);
    assert_eq!(q.take_first_match(1), None);

    // Independently usable again afterwards.
    q.push(3, FrameDuration::from_nanos(700));
    assert_eq!(q.take_first_match(3), Some(FrameDuration::from_nanos(700)));
}
