use caffeine::domain::models::{CaffeineConfig, JiggleConfig};
use caffeine::infrastructure::login_item::plist_content;
use caffeine::menu::{menu_action, menu_layout, menu_presets, toggle_label, MenuAction, MenuEntry};
use caffeine::menu::MenuEntry::{
    Indefinite, KeepStatus, LaunchAtLogin, Preset, Quit, Separator, Status, Toggle, Update,
};
use caffeine::power::assertion_error;

#[test]
fn plist_names_the_executable() {
    let p = plist_content("/usr/local/bin/caffeine");
    assert!(p.starts_with("<?xml version=\"1.0\" encoding=\"UTF-8\"?>\n"));
    assert!(p.contains("<string>com.juliocanizalez.caffeine</string>"));
    assert!(p.contains("        <string>/usr/local/bin/caffeine</string>\n    </array>"));
    assert!(p.contains("<key>RunAtLoad</key>\n    <false/>"));
    assert!(p.ends_with("</dict>\n</plist>\n"));
}

#[test]
fn assertion_error_codes_in_hex() {
    assert_eq!(
        assertion_error(true, 0xe00002c2u32 as i32),
        "IOPMAssertionCreateWithName(display) error: 0xe00002c2"
    );
    assert_eq!(assertion_error(false, 0), "IOPMAssertionCreateWithName(idle) error: 0x0");
    assert_eq!(assertion_error(false, 255), "IOPMAssertionCreateWithName(idle) error: 0xff");
    assert_eq!(assertion_error(true, -1), format!("IOPMAssertionCreateWithName(display) error: {:#x}", -1i32));
}

#[test]
fn config_defaults_and_cli_merge() {
    let cfg = CaffeineConfig::default();
    assert!(cfg.prevent_display);
    assert!(!cfg.keep_status_active);
    assert_eq!(cfg.battery_threshold, 0);
    assert!(cfg.check_for_updates);
    assert_eq!(cfg.menu_durations, vec!["15m", "30m", "1h", "2h", "4h"]);
    assert_eq!(cfg.merge_cli(false, false), (true, false));
    assert_eq!(cfg.merge_cli(true, true), (false, true));
    let j = JiggleConfig::default();
    assert_eq!((j.idle_threshold_millis, j.interval_secs), (300_000, 60));
}

#[test]
fn presets_from_config() {
    let durations: Vec<String> = ["15m", "inf", "90", "bogus", "1h30m", "0"].iter().map(|s| s.to_string()).collect();
    let (presets, warnings) = menu_presets(&durations);
    let got: Vec<(String, u64)> = presets.into_iter().map(|p| (p.label, p.secs)).collect();
    assert_eq!(
        got,
        vec![("15m".to_string(), 900), ("1h30m".to_string(), 5400), ("1h30m".to_string(), 5400)]
    );
    let w: Vec<(usize, String)> = warnings.into_iter().map(|w| (w.index, w.message)).collect();
    assert_eq!(
        w,
        vec![
            (3, "expected a number, got 'bogus'".to_string()),
            (5, "duration must be greater than zero".to_string())
        ]
    );
}

#[test]
fn menu_order() {
    assert_eq!(
        menu_layout(false, 2),
        vec![Status, Separator, Preset(0), Preset(1), Indefinite, Separator, KeepStatus, Separator, LaunchAtLogin, Separator, Toggle, Separator, Quit]
    );
    let with_update = menu_layout(true, 0);
    assert_eq!(&with_update[..4], &[Update, Separator, Status, Separator]);
    assert_eq!(with_update.len(), 13);
}

#[test]
fn menu_clicks() {
    let presets = vec![900u64, 5400];
    assert_eq!(menu_action(Quit, true, false, &presets), MenuAction::Quit);
    assert_eq!(menu_action(Update, true, false, &presets), MenuAction::OpenReleases);
    assert_eq!(menu_action(Toggle, true, false, &presets), MenuAction::Deactivate);
    assert_eq!(menu_action(Toggle, false, false, &presets), MenuAction::Activate(None));
    assert_eq!(menu_action(KeepStatus, true, false, &presets), MenuAction::SetJiggle(true));
    assert_eq!(menu_action(KeepStatus, true, true, &presets), MenuAction::SetJiggle(false));
    assert_eq!(menu_action(LaunchAtLogin, false, false, &presets), MenuAction::ToggleLoginItem);
    assert_eq!(menu_action(Indefinite, true, false, &presets), MenuAction::Activate(None));
    assert_eq!(menu_action(Preset(1), true, false, &presets), MenuAction::Activate(Some(5400)));
    assert_eq!(menu_action(Preset(2), true, false, &presets), MenuAction::Ignore);
    assert_eq!(menu_action(Status, true, false, &presets), MenuAction::Ignore);
    let _ = MenuEntry::Separator;
    assert_eq!(toggle_label(true), "Stop");
    assert_eq!(toggle_label(false), "Resume");
}
