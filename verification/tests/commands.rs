use caffeine::commands::{cmd_status, cmd_stop};
use caffeine::domain::models::SessionInfo;

fn info(pid: u32, expiry: Option<u64>, prevent_display: bool, jiggle: bool) -> SessionInfo {
    SessionInfo { pid, expiry, prevent_display, jiggle }
}

#[test]
fn status_not_running() {
    let r = cmd_status(None, false, 0, false);
    assert_eq!(r.output, "○ Not running\n");
    assert!(!r.delete_status_file);
    let r = cmd_status(None, false, 0, true);
    assert_eq!(r.output, "{\"running\":false}\n");
    // A stale file is deleted.
    let r = cmd_status(Some(info(5, None, true, false)), false, 0, false);
    assert!(r.delete_status_file);
    assert_eq!(r.output, "○ Not running\n");
    assert!(r.signal_pid.is_none());
}

#[test]
fn status_human_output() {
    let r = cmd_status(Some(info(12, None, true, true)), true, 100, false);
    assert!(!r.delete_status_file);
    assert_eq!(
        r.output,
        "● Active — indefinite\n  display + system sleep prevented\n  Keep Status Active: enabled\n  PID 12\n"
    );
    let r = cmd_status(Some(info(12, Some(5500), false, false)), true, 100, false);
    assert_eq!(r.output, "● Active — 1h30m remaining\n  system sleep prevented\n  PID 12\n");
    let r = cmd_status(Some(info(12, Some(100), false, false)), true, 100, false);
    assert_eq!(r.output, "● Running (timer expired — menu bar still open)\n  PID 12\n");
}

#[test]
fn status_json_output() {
    let r = cmd_status(Some(info(12, Some(160), true, false)), true, 100, true);
    assert_eq!(
        r.output,
        "{\n  \"expiry_unix\": 160,\n  \"jiggle\": false,\n  \"pid\": 12,\n  \"prevent_display\": true,\n  \"remaining_secs\": 60,\n  \"running\": true\n}\n"
    );
    let r = cmd_status(Some(info(3, None, false, true)), true, 100, true);
    assert_eq!(
        r.output,
        "{\n  \"expiry_unix\": null,\n  \"jiggle\": true,\n  \"pid\": 3,\n  \"prevent_display\": false,\n  \"remaining_secs\": null,\n  \"running\": true\n}\n"
    );
    let r = cmd_status(Some(info(3, Some(50), false, true)), true, 100, true);
    assert!(r.output.contains("\"remaining_secs\": null"));
}

#[test]
fn stop_command() {
    let r = cmd_stop(None, false);
    assert_eq!(r.output, "caffeine is not running\n");
    assert_eq!(r.signal_pid, None);
    assert!(!r.delete_status_file);
    let r = cmd_stop(Some(info(9, None, true, false)), false);
    assert_eq!(r.output, "caffeine is not running\n");
    assert!(r.delete_status_file);
    assert_eq!(r.signal_pid, None);
    let r = cmd_stop(Some(info(9, None, true, false)), true);
    assert_eq!(r.output, "Stopped caffeine (PID 9)\n");
    assert_eq!(r.signal_pid, Some(9));
    assert!(!r.delete_status_file);
}

#[test]
fn stop_never_signals_a_group_or_every_process() {
    for pid in [0u32, 2_147_483_648, u32::MAX] {
        let r = cmd_stop(Some(info(pid, None, true, false)), true);
        assert_eq!(r.signal_pid, None);
        assert!(r.delete_status_file);
        assert_eq!(r.output, "caffeine is not running\n");
        // `status` goes by liveness alone.
        let r = cmd_status(Some(info(pid, None, true, false)), true, 0, false);
        assert!(!r.delete_status_file);
        assert!(r.output.starts_with("● Active — indefinite\n"));
    }
    let r = cmd_stop(Some(info(2_147_483_647, None, true, false)), true);
    assert_eq!(r.signal_pid, Some(2_147_483_647));
}
