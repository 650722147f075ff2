use frame_analyzer::{Analyzer, ProbeAttachment};

fn probe(fd: i32) -> ProbeAttachment {
    ProbeAttachment::new(fd, 0)
}

#[test]
fn contains_reflects_net_attach_state() {
    let mut a = Analyzer::new().unwrap();
    assert!(!a.contains(10));

    a.attach_app(10, probe(3)).unwrap();
    a.attach_app(20, probe(4)).unwrap();
    a.attach_app(30, probe(5)).unwrap();
    assert!(a.contains(10));
    assert!(a.contains(20));
    assert!(a.contains(30));
    assert!(!a.contains(40));

    a.detach_app(20).unwrap();
    assert!(a.contains(10));
    assert!(!a.contains(20));
    assert!(a.contains(30));

    a.attach_app(20, probe(6)).unwrap();
    assert!(a.contains(20));
    assert_eq!(a.pids(), vec![10, 30, 20]);
}

#[test]
fn registration_always_equals_the_key_set() {
    let mut a = Analyzer::new().unwrap();
    a.attach_app(1, probe(11)).unwrap();
    a.attach_app(2, probe(12)).unwrap();
    assert_eq!(a.registration(), vec![(1, 11), (2, 12)]);

    a.detach_app(1).unwrap();
    assert_eq!(a.registration(), vec![(2, 12)]);
    assert_eq!(a.pids(), vec![2]);

    a.attach_app(3, probe(13)).unwrap();
    let reg = a.registration();
    let pids: Vec<i32> = reg.iter().map(|e| e.0).collect();
    assert_eq!(pids, a.pids());
    assert_eq!(reg, vec![(2, 12), (3, 13)]);
}

#[test]
fn attaching_twice_changes_nothing() {
    let mut a = Analyzer::new().unwrap();
    a.attach_app(5, probe(9)).unwrap();
    let before_pids = a.pids();
    let before_reg = a.registration();

    // The second attach succeeds but keeps the probe already in place.
    a.attach_app(5, probe(77)).unwrap();
    assert_eq!(a.pids(), before_pids);
    assert_eq!(a.registration(), before_reg);
    assert_eq!(a.registration(), vec![(5, 9)]);
}

#[test]
fn detaching_the_never_attached_is_a_no_op() {
    let mut a = Analyzer::new().unwrap();
    a.detach_app(123).unwrap();
    assert_eq!(a.pids(), Vec::<i32>::new());

    a.attach_app(1, probe(2)).unwrap();
    a.detach_app(123).unwrap();
    assert_eq!(a.pids(), vec![1]);
    assert_eq!(a.registration(), vec![(1, 2)]);
}

#[test]
fn queue_admits_only_attached_pids_in_order() {
    let mut a = Analyzer::new().unwrap();
    a.attach_app(1, probe(11)).unwrap();
    a.attach_app(2, probe(12)).unwrap();

    assert!(a.poll_needed());
    a.push_events(&vec![2, 99, 1]);
    assert!(!a.poll_needed());

    assert_eq!(a.pop_ready(), Some(2));
    assert_eq!(a.pop_ready(), Some(1));
    assert_eq!(a.pop_ready(), None);
    assert!(a.poll_needed());
}

#[test]
fn detach_discards_queued_wakes_of_the_pid() {
    let mut a = Analyzer::new().unwrap();
    a.attach_app(1, probe(11)).unwrap();
    a.attach_app(2, probe(12)).unwrap();
    a.push_events(&vec![1, 2, 1]);

    a.detach_app(1).unwrap();
    assert_eq!(a.pop_ready(), Some(2));
    assert_eq!(a.pop_ready(), None);
}

#[test]
fn update_target_converts_consecutive_records() {
    let mut a = Analyzer::new().unwrap();
    a.attach_app(1, probe(11)).unwrap();

    // First record stores the timestamp and yields nothing.
    assert_eq!(a.update_target(1, Some(1_000)), None);
    // Second record yields the difference for that pid.
    let (pid, d) = a
        .update_target(1, Some(1_000_600))
        .expect("second record must yield");
    assert_eq!(pid, 1);
    assert_eq!(d.secs, 0);
    assert_eq!(d.nanos, 999_600);
}

#[test]
fn update_target_handles_spurious_and_unknown() {
    let mut a = Analyzer::new().unwrap();
    a.attach_app(1, probe(11)).unwrap();

    // A wake without a pending record yields nothing.
    assert_eq!(a.update_target(1, None), None);
    // A pid that is not attached yields nothing and changes nothing.
    assert_eq!(a.update_target(99, Some(5)), None);
    assert_eq!(a.pids(), vec![1]);
}

#[test]
fn detach_apps_clears_everything() {
    let mut a = Analyzer::new().unwrap();
    a.attach_app(1, probe(11)).unwrap();
    a.attach_app(2, probe(12)).unwrap();
    a.push_events(&vec![1, 2]);

    a.detach_apps();
    assert_eq!(a.pids(), Vec::<i32>::new());
    assert_eq!(a.registration(), Vec::<(i32, i32)>::new());
    assert_eq!(a.pop_ready(), None);

    // The engine is independently usable again afterwards.
    a.attach_app(3, probe(13)).unwrap();
    assert_eq!(a.pids(), vec![3]);
}

#[test]
fn racing_attach_detach_settles_to_one_outcome() {
    // The gateway lock serializes an attach and a detach of one pid racing
    // from two threads; whichever order results, the mapping ends in one
    // of the two single-call outcomes, and other pids are untouched.
    let mut a = Analyzer::new().unwrap();
    a.attach_app(9, probe(1)).unwrap();

    // One serialization: attach ran first — the pid ends absent.
    a.attach_app(5, probe(2)).unwrap();
    a.detach_app(5).unwrap();
    assert!(!a.contains(5));
    assert!(a.contains(9));

    // The other: detach ran first — the pid ends attached.
    a.detach_app(5).unwrap();
    a.attach_app(5, probe(2)).unwrap();
    assert!(a.contains(5));
    assert!(a.contains(9));
}
