use std::time::{Duration, SystemTime, UNIX_EPOCH};
use caffeine::domain::models::SessionInfo;
use caffeine::infrastructure::ipc::{format_session, now_secs, parse_session};
use caffeine::ipc::Status;

fn info(pid: u32, expiry: Option<u64>, prevent_display: bool, jiggle: bool) -> SessionInfo {
    SessionInfo { pid, expiry, prevent_display, jiggle }
}

#[test]
fn session_text_layout() {
    assert_eq!(format_session(&info(42, Some(1700000000), true, false)), "42\n1700000000\ntrue\nfalse\n");
    assert_eq!(format_session(&info(7, None, false, true)), "7\n0\nfalse\ntrue\n");
}

#[test]
fn session_roundtrip() {
    for s in [
        info(1, None, true, true),
        info(u32::MAX, Some(u64::MAX), false, false),
        info(12345, Some(1), true, false),
    ] {
        assert_eq!(parse_session(&format_session(&s)), Some(s));
    }
    // An expiry of 0 is the indefinite marker.
    assert_eq!(parse_session(&format_session(&info(3, Some(0), true, true))), Some(info(3, None, true, true)));
}

#[test]
fn session_reading_rules() {
    // The jiggle line is optional.
    assert_eq!(parse_session("5\n0\ntrue\n"), Some(info(5, None, true, false)));
    assert_eq!(parse_session("5\n0\ntrue"), Some(info(5, None, true, false)));
    assert_eq!(parse_session("5\n0\ntrue\nmaybe\n"), Some(info(5, None, true, false)));
    // CRLF line endings and a leading '+' are accepted, as `str::parse` does.
    assert_eq!(parse_session("+5\r\n10\r\nfalse\r\ntrue\r\n"), Some(info(5, Some(10), false, true)));
    // Missing or malformed required lines.
    assert_eq!(parse_session(""), None);
    assert_eq!(parse_session("5\n0\n"), None);
    assert_eq!(parse_session("5\n0\nTrue\n"), None);
    assert_eq!(parse_session("-5\n0\ntrue\n"), None);
    assert_eq!(parse_session("4294967296\n0\ntrue\n"), None);
    assert_eq!(parse_session(" 5\n0\ntrue\n"), None);
}

#[test]
fn status_record_roundtrip() {
    let st = Status { pid: 99, started_at: 1000, expiry: Some(2000), prevent_display: true };
    assert_eq!(st.content(), "99\n1000\n2000\ntrue\n");
    let back = Status::from_content(&st.content()).unwrap();
    assert_eq!((back.pid, back.started_at, back.expiry, back.prevent_display), (99, 1000, Some(2000), true));
    let indefinite = Status { pid: 1, started_at: 2, expiry: None, prevent_display: false };
    assert_eq!(indefinite.content(), "1\n2\n0\nfalse\n");
    assert_eq!(Status::from_content(&indefinite.content()).unwrap().expiry, None);
    // All four lines are required.
    assert!(Status::from_content("1\n2\n0\n").is_none());
}

#[test]
fn wall_clock_is_after_2020() {
    assert!(now_secs() > 1_577_836_800);
    assert!(caffeine::ipc::now_secs() > 1_577_836_800);
}

#[test]
fn seconds_since_epoch() {
    assert_eq!(caffeine::ipc::secs_since_epoch(Ok(Duration::from_millis(12_999))), 12);
    let before = UNIX_EPOCH.duration_since(SystemTime::now());
    assert!(before.is_err());
    assert_eq!(caffeine::ipc::secs_since_epoch(before), 0);
}
