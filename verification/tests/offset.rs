use chrono::NaiveDateTime;
use media_renamer::offset::{offset_timestamp, timestamp_offset_action};

#[test]
fn offset_can_update_a_file_without_renaming_it() {
    let datetime = "2024-03-15T14:30:52";

    let action = timestamp_offset_action("/tmp/photo.jpg", &Some(datetime.to_string()), 3600, false).unwrap();

    let expected = NaiveDateTime::parse_from_str(datetime, "%Y-%m-%dT%H:%M:%S")
        .unwrap()
        .and_utc()
        .timestamp()
        + 3600;
    assert_eq!(action.timestamp, expected);
    assert_eq!(action.path, "/tmp/photo.jpg");
    assert!(!action.write_exif);
}

#[test]
fn offset_is_skipped_when_zero_missing_or_unparsable() {
    assert!(timestamp_offset_action("/p", &Some("2024-03-15T14:30:52".to_string()), 0, true).is_none());
    assert!(timestamp_offset_action("/p", &None, 60, true).is_none());
    assert!(timestamp_offset_action("/p", &Some("yesterday".to_string()), 60, true).is_none());
}

#[test]
fn offset_exact_values() {
    let epoch = timestamp_offset_action("/p", &Some("1970-01-01T00:00:00".to_string()), 1, false).unwrap();
    assert_eq!(epoch.timestamp, 1);
    let later = timestamp_offset_action("/p", &Some("2024-03-15T14:30:52".to_string()), 8, false).unwrap();
    assert_eq!(later.timestamp, 1710513060);
    let a = timestamp_offset_action("/p", &Some("1970-01-01T00:00:00".to_string()), -7200, true).unwrap();
    assert_eq!(a.timestamp, -7200);
    assert!(a.write_exif);
}

#[test]
fn offset_overflow_is_not_applied() {
    assert_eq!(offset_timestamp(Some(i64::MAX), 1), None);
    assert_eq!(offset_timestamp(Some(5), -10), Some(-5));
    assert_eq!(offset_timestamp(None, 10), None);
}
