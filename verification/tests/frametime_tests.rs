use frame_analyzer::frametime::NANOS_PER_SEC;
use frame_analyzer::record::parse_timestamp;
use frame_analyzer::{FrameDuration, FrameTime};

#[test]
fn from_nanos_splits_exactly() {
    let d = FrameDuration::from_nanos(1_500_000_000);
    assert_eq!(d.secs, 1);
    assert_eq!(d.nanos, 500_000_000);

    let d = FrameDuration::from_nanos(999_999_999);
    assert_eq!(d.secs, 0);
    assert_eq!(d.nanos, 999_999_999);

    let d = FrameDuration::from_nanos(0);
    assert_eq!(d.secs, 0);
    assert_eq!(d.nanos, 0);

    let d = FrameDuration::from_nanos(NANOS_PER_SEC as u64);
    assert_eq!(d.secs, 1);
    assert_eq!(d.nanos, 0);
}

#[test]
fn from_nanos_largest_value() {
    let d = FrameDuration::from_nanos(u64::MAX);
    assert_eq!(d.secs, 18_446_744_073);
    assert_eq!(d.nanos, 709_551_615);
}

#[test]
fn frame_time_is_exact_when_it_fits() {
    let d = FrameDuration::from_nanos(2_000_000_003);
    let ft = FrameTime::from_duration(&d);
    assert_eq!(ft.secs, 2);
    assert_eq!(ft.nanos, 3);
}

#[test]
fn frame_time_saturates_seconds() {
    let d = FrameDuration::from_nanos(u64::MAX);
    let ft = FrameTime::from_duration(&d);
    assert_eq!(ft.secs, u32::MAX);
    assert_eq!(ft.nanos, 709_551_615);
}

#[test]
fn parse_timestamp_reads_little_endian() {
    let bytes: Vec<u8> = vec![1, 2, 3, 4, 5, 6, 7, 8];
    assert_eq!(parse_timestamp(&bytes), Some(0x0807_0605_0403_0201));

    let zero: Vec<u8> = vec![0; 8];
    assert_eq!(parse_timestamp(&zero), Some(0));

    let max: Vec<u8> = vec![0xff; 8];
    assert_eq!(parse_timestamp(&max), Some(u64::MAX));
}

#[test]
fn parse_timestamp_rejects_malformed_records() {
    assert_eq!(parse_timestamp(&[]), None);
    assert_eq!(parse_timestamp(&[1, 2, 3, 4, 5, 6, 7]), None);
    assert_eq!(parse_timestamp(&[1, 2, 3, 4, 5, 6, 7, 8, 9]), None);
}
