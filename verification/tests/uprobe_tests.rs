use frame_analyzer::uprobe::{
    candidate_at, candidate_paths, candidate_symbols, first_success, CANDIDATE_COUNT, PATH_COUNT,
    SYMBOL_COUNT,
};
use frame_analyzer::{FrameSource, ProbeAttachment};

#[test]
fn candidate_matrix_is_fixed_and_ordered() {
    let paths = candidate_paths();
    let symbols = candidate_symbols();
    assert_eq!(paths.len(), PATH_COUNT);
    assert_eq!(symbols.len(), SYMBOL_COUNT);
    assert_eq!(CANDIDATE_COUNT, PATH_COUNT * SYMBOL_COUNT);
    assert_eq!(paths[0], "/system/lib64/libgui.so");
    assert_eq!(paths[1], "/system/lib/libgui.so");
    assert_eq!(
        symbols[0],
        "_ZN7android7Surface11queueBufferEP19ANativeWindowBufferi"
    );
    assert_eq!(
        symbols[1],
        "_ZN7android7Surface11queueBufferEP19ANativeWindowBufferiPNS_24SurfaceQueueBufferOutputE"
    );
}

#[test]
fn candidates_walk_paths_outermost() {
    assert_eq!(candidate_at(0), (0, 0));
    assert_eq!(candidate_at(1), (0, 1));
    assert_eq!(candidate_at(2), (1, 0));
    assert_eq!(candidate_at(3), (1, 1));
}

#[test]
fn search_picks_second_symbol_at_second_path() {
    // A target exposing only the second candidate symbol at the second
    // candidate path: the first three attempts fail, the fourth attaches,
    // and no attempt after the success is considered.
    let outcomes = vec![false, false, false, true];
    let winner = first_success(&outcomes);
    assert_eq!(winner, Some(3));
    assert_eq!(candidate_at(3), (1, 1));
}

#[test]
fn search_stops_at_first_success() {
    assert_eq!(first_success(&vec![true, true, false, true]), Some(0));
    assert_eq!(first_success(&vec![false, true, true, true]), Some(1));
}

#[test]
fn search_reports_nothing_when_every_candidate_fails() {
    assert_eq!(first_success(&vec![false, false, false, false]), None);
    assert_eq!(first_success(&vec![]), None);
}

#[test]
fn probe_attachment_records_the_winner() {
    let probe = ProbeAttachment::new(42, 3);
    assert_eq!(probe.ring_fd, 42);
    assert_eq!(probe.path_idx, 1);
    assert_eq!(probe.sym_idx, 1);
    assert_eq!(probe.ring(), 42);
}

#[test]
fn fresh_source_yields_nothing_then_the_difference() {
    let probe = ProbeAttachment::new(7, 0);
    let mut source = FrameSource::new(probe);
    assert!(source.last_ts.is_none());

    // First record: stored, nothing yielded.
    assert_eq!(source.update(Some(1_000)), None);
    assert_eq!(source.last_ts, Some(1_000));

    // Second record: yields exactly the difference of the raw timestamps.
    let d = source.update(Some(2_500)).expect("second record must yield");
    assert_eq!(d.secs, 0);
    assert_eq!(d.nanos, 1_500);
    assert_eq!(source.last_ts, Some(2_500));
}

#[test]
fn source_ignores_empty_drains_and_clock_resets() {
    let probe = ProbeAttachment::new(7, 0);
    let mut source = FrameSource::new(probe);
    assert_eq!(source.update(None), None);
    assert_eq!(source.last_ts, None);

    assert_eq!(source.update(Some(5_000)), None);
    // A record running backwards is treated like a first record.
    assert_eq!(source.update(Some(2_000)), None);
    assert_eq!(source.last_ts, Some(2_000));
    let d = source.update(Some(2_600)).expect("stream continues after reset");
    assert_eq!(d.nanos, 600);
}
