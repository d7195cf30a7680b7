use bearcad::command_log::{timestamp_from_unix_secs, utc_timestamp};

#[test]
fn utc_timestamp_has_expected_shape() {
    let ts = utc_timestamp();
    assert_eq!(ts.len(), 15, "timestamp = {ts}");
    assert_eq!(&ts[8..9], "-");
    assert!(ts[..8].chars().all(|c| c.is_ascii_digit()));
    assert!(ts[9..].chars().all(|c| c.is_ascii_digit()));
}

#[test]
fn timestamp_of_epoch() {
    assert_eq!(timestamp_from_unix_secs(0), "19700101-000000");
}

#[test]
fn timestamp_of_known_instants() {
    // 2000-02-29T12:34:56Z, a leap day.
    assert_eq!(timestamp_from_unix_secs(951_827_696), "20000229-123456");
    // 2026-06-30T00:00:00Z.
    assert_eq!(timestamp_from_unix_secs(1_782_777_600), "20260630-000000");
    // Last second of 1999.
    assert_eq!(timestamp_from_unix_secs(946_684_799), "19991231-235959");
}

#[test]
fn timestamp_before_epoch() {
    assert_eq!(timestamp_from_unix_secs(-1), "19691231-235959");
    assert_eq!(timestamp_from_unix_secs(-86_400), "19691231-000000");
}

#[test]
fn timestamp_of_last_second_of_year_9999() {
    assert_eq!(timestamp_from_unix_secs(253_402_300_799), "99991231-235959");
}
