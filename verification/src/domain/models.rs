//! The plain data that the application and its ports exchange.
use vstd::prelude::*;

verus! {

/// Snapshot of a running session — persisted to and read from the IPC file.
#[derive(Clone, Copy, Debug, PartialEq, Eq, Structural)]
pub struct SessionInfo {
    pub pid: u32,
    pub expiry: Option<u64>,
    pub prevent_display: bool,
    pub jiggle: bool,
}

/// Jiggle behaviour parameters: how long the user must have been idle before
/// a jiggle, and the least time between two jiggles.
#[derive(Clone, Copy, Debug, PartialEq, Eq, Structural)]
pub struct JiggleConfig {
    pub idle_threshold_millis: u64,
    pub interval_secs: u64,
}

impl Default for JiggleConfig {
    fn default() -> (r: Self)
        ensures
            r.idle_threshold_millis == 300_000,
            r.interval_secs == 60,
    {
        JiggleConfig { idle_threshold_millis: 300_000, interval_secs: 60 }
    }
}

/// User configuration, as read from `~/.config/caffeine/config.toml`.
#[derive(Debug)]
pub struct CaffeineConfig {
    /// Prevent display sleep in addition to system sleep.
    pub prevent_display: bool,
    /// Enable jiggle mode by default.
    pub keep_status_active: bool,
    /// Auto-deactivate when the battery drops below this percentage (0 = disabled).
    pub battery_threshold: u8,
    /// Check GitHub for newer releases on startup.
    pub check_for_updates: bool,
    /// The duration presets offered in the menu.
    pub menu_durations: Vec<String>,
}

/// The menu presets offered when the configuration names none.
pub open spec fn default_menu_durations() -> Seq<Seq<char>> {
    seq!["15m"@, "30m"@, "1h"@, "2h"@, "4h"@]
}

pub open spec fn string_views(v: Seq<String>) -> Seq<Seq<char>> {
    v.map_values(|s: String| s@)
}

impl Default for CaffeineConfig {
    fn default() -> (r: Self)
        ensures
            r.prevent_display,
            !r.keep_status_active,
            r.battery_threshold == 0,
            r.check_for_updates,
            string_views(r.menu_durations@) == default_menu_durations(),
    {
        let mut menu_durations: Vec<String> = Vec::new();
        menu_durations.push(String::from_str("15m"));
        menu_durations.push(String::from_str("30m"));
        menu_durations.push(String::from_str("1h"));
        menu_durations.push(String::from_str("2h"));
        menu_durations.push(String::from_str("4h"));
        assert(string_views(menu_durations@) =~= default_menu_durations());
        CaffeineConfig {
            prevent_display: true,
            keep_status_active: false,
            battery_threshold: 0,
            check_for_updates: true,
            menu_durations,
        }
    }
}

impl CaffeineConfig {
    /// Merges the command-line flags into the configuration (the command line
    /// wins): returns `(prevent_display, jiggle_enabled)`.
    pub fn merge_cli(&self, no_display: bool, keep_status_active: bool) -> (r: (bool, bool))
        ensures
            r.0 == (!no_display && self.prevent_display),
            r.1 == (keep_status_active || self.keep_status_active),
    {
        let prevent_display = if no_display {
            false
        } else {
            self.prevent_display
        };
        (prevent_display, keep_status_active || self.keep_status_active)
    }
}

} // verus!
