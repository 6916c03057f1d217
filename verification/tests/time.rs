use garlemald::time::{timestamp_from_seconds, unix_timestamp};

#[test]
fn timestamp_truncates_seconds_and_maps_pre_epoch_to_zero() {
    assert_eq!(timestamp_from_seconds(Some(1_700_000_000)), 1_700_000_000);
    assert_eq!(timestamp_from_seconds(Some(0x1_0000_0005)), 5);
    assert_eq!(timestamp_from_seconds(None), 0);
}

#[test]
fn unix_timestamp_is_after_2020() {
    assert!(unix_timestamp() > 1_577_836_800);
}
