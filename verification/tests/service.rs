use caffeine::application::service::{CaffeineService, StatusUpdate, NANOS_PER_SEC};
use caffeine::domain::models::SessionInfo;

const S: u64 = NANOS_PER_SEC;

#[test]
fn new_service_is_inactive() {
    let s = CaffeineService::new(true, false, 0, 77);
    assert!(!s.is_active());
    assert_eq!(s.remaining(0), None);
    assert_eq!(s.status_text(0), "Inactive");
    assert_eq!(s.sync_status(0, 1000), StatusUpdate::Delete);
    assert!(s.prevent_display());
    assert_eq!(s.pid(), 77);
    let j = s.jiggle_config();
    assert_eq!((j.idle_threshold_millis, j.interval_secs), (300_000, 60));
}

#[test]
fn timed_session_expires() {
    let mut s = CaffeineService::new(true, false, 0, 1);
    s.activate(true, 10 * S, Some(90));
    assert!(s.is_active());
    assert_eq!(s.remaining(10 * S), Some(90 * S as u128));
    assert_eq!(s.status_text(10 * S), "Active · 1m30s remaining");
    assert_eq!(s.status_text(10 * S + S / 2), "Active · 1m29s remaining");
    assert!(!s.tick(99 * S));
    assert!(s.is_active());
    assert!(s.tick(100 * S));
    assert!(!s.is_active());
    assert_eq!(s.remaining(100 * S), None);
    assert_eq!(s.status_text(100 * S), "Inactive");
}

#[test]
fn indefinite_session_never_expires() {
    let mut s = CaffeineService::new(false, false, 0, 1);
    s.activate(true, 0, None);
    assert!(!s.tick(u64::MAX));
    assert!(s.is_active());
    assert_eq!(s.status_text(5), "Active · indefinite");
}

#[test]
fn failed_acquisition_leaves_session_inactive() {
    let mut s = CaffeineService::new(true, true, 0, 1);
    s.activate(false, 0, Some(60));
    assert!(!s.is_active());
    assert_eq!(s.status_text(0), "Inactive");
    assert!(!s.maybe_jiggle(0, u64::MAX));
    // The timer still runs out.
    assert!(s.tick(60 * S));
}

#[test]
fn jiggle_rules() {
    let mut s = CaffeineService::new(true, true, 0, 1);
    s.activate(true, 0, None);
    // User active within the last 5 minutes: no jiggle.
    assert!(!s.maybe_jiggle(0, 299_999));
    assert!(s.maybe_jiggle(0, 300_000));
    // Not again before 60 s have passed.
    assert!(!s.maybe_jiggle(59 * S, 400_000));
    assert!(s.maybe_jiggle(60 * S, 400_000));
    // Disabling forgets the last jiggle; re-enabling jiggles at once.
    s.set_jiggle_enabled(false);
    assert!(!s.jiggle_enabled());
    assert!(!s.maybe_jiggle(61 * S, 400_000));
    s.set_jiggle_enabled(true);
    assert!(s.maybe_jiggle(61 * S, 400_000));
    // Deactivation stops jiggling.
    s.deactivate();
    assert!(!s.maybe_jiggle(500 * S, 400_000));
}

#[test]
fn sync_status_records_the_session() {
    let mut s = CaffeineService::new(false, true, 0, 4242);
    s.activate(true, 5 * S, Some(3600));
    assert_eq!(
        s.sync_status(65 * S + 1, 1_700_000_000),
        StatusUpdate::Write(SessionInfo { pid: 4242, expiry: Some(1_700_003_539), prevent_display: false, jiggle: true })
    );
    s.activate(true, 0, None);
    assert_eq!(
        s.sync_status(0, 1_700_000_000),
        StatusUpdate::Write(SessionInfo { pid: 4242, expiry: None, prevent_display: false, jiggle: true })
    );
    assert_eq!(s.shutdown(), StatusUpdate::Delete);
    assert!(!s.is_active());
    assert_eq!(s.sync_status(0, 1_700_000_000), StatusUpdate::Delete);
    let mut idle = CaffeineService::new(true, false, 0, 1);
    assert_eq!(idle.shutdown(), StatusUpdate::Delete);
}

#[test]
fn battery_guard() {
    let mut off = CaffeineService::new(true, false, 0, 1);
    off.activate(true, 0, None);
    assert!(!off.battery_check_due(0));
    assert!(!off.check_battery(0, Some(1)));
    assert!(off.is_active());

    let mut s = CaffeineService::new(true, false, 20, 1);
    s.activate(true, 0, None);
    assert!(s.battery_check_due(0));
    assert!(!s.check_battery(0, Some(50)));
    assert!(!s.battery_check_due(29 * S));
    assert!(!s.check_battery(29 * S, Some(5)));
    assert!(s.is_active());
    assert!(s.battery_check_due(30 * S));
    assert!(!s.check_battery(30 * S, None));
    assert!(s.check_battery(60 * S, Some(19)));
    assert!(!s.is_active());
}
