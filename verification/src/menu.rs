//! The tray menu: its duration presets and the order of its entries.
use vstd::prelude::*;

use crate::domain::models::string_views;
use crate::duration::{duration_as_secs, fmt, fmt_spec, overflows, parse, parse_spec};

verus! {

/// A duration preset of the menu: its label and its length in seconds.
pub struct MenuPreset {
    pub label: String,
    pub secs: u64,
}

/// A configured duration that could not be read: its position and the reason.
pub struct PresetWarning {
    pub index: usize,
    pub message: String,
}

/// The presets for the configured durations, in order: each readable,
/// limited duration gives a preset labelled as `fmt` writes it; indefinite
/// entries are skipped.
pub open spec fn presets_spec(ds: Seq<Seq<char>>) -> Seq<(Seq<char>, nat)>
    decreases ds.len(),
{
    if ds.len() == 0 {
        Seq::empty()
    } else {
        let before = presets_spec(ds.drop_last());
        match parse_spec(ds.last()) {
            Ok(Some(n)) => before.push((fmt_spec(n), n)),
            _ => before,
        }
    }
}

/// The warnings for the configured durations that do not parse, in order.
pub open spec fn warnings_spec(ds: Seq<Seq<char>>) -> Seq<(int, Seq<char>)>
    decreases ds.len(),
{
    if ds.len() == 0 {
        Seq::empty()
    } else {
        let before = warnings_spec(ds.drop_last());
        match parse_spec(ds.last()) {
            Err(m) => before.push((ds.len() - 1, m)),
            _ => before,
        }
    }
}

pub open spec fn preset_views(v: Seq<MenuPreset>) -> Seq<(Seq<char>, nat)> {
    v.map_values(|p: MenuPreset| (p.label@, p.secs as nat))
}

pub open spec fn warning_views(v: Seq<PresetWarning>) -> Seq<(int, Seq<char>)> {
    v.map_values(|w: PresetWarning| (w.index as int, w.message@))
}

/// The menu presets for the configured `durations`, and the warnings for
/// those that cannot be read.
pub fn menu_presets(durations: &Vec<String>) -> (r: (Vec<MenuPreset>, Vec<PresetWarning>))
    requires
        forall|i: int| 0 <= i < durations.len() ==> !overflows(#[trigger] durations@[i]@),
    ensures
        preset_views(r.0@) == presets_spec(string_views(durations@)),
        warning_views(r.1@) == warnings_spec(string_views(durations@)),
{
    let mut presets: Vec<MenuPreset> = Vec::new();
    let mut warnings: Vec<PresetWarning> = Vec::new();
    let mut i: usize = 0;
    while i < durations.len()
        invariant
            i <= durations.len(),
            forall|j: int| 0 <= j < durations.len() ==> !overflows(#[trigger] durations@[j]@),
            preset_views(presets@) == presets_spec(string_views(durations@).take(i as int)),
            warning_views(warnings@) == warnings_spec(string_views(durations@).take(i as int)),
        decreases durations.len() - i,
    {
        let ghost ds = string_views(durations@);
        let ghost before = ds.take(i as int);
        assert(ds.take(i + 1).drop_last() =~= before);
        assert(ds.take(i + 1).last() == durations@[i as int]@);
        let ghost old_presets = presets@;
        let ghost old_warnings = warnings@;
        match parse(durations[i].as_str()) {
            Ok(Some(d)) => {
                let secs = duration_as_secs(&d);
                let label = fmt(d);
                presets.push(MenuPreset { label, secs });
                assert(preset_views(presets@) =~= preset_views(old_presets).push(
                    (label@, secs as nat),
                ));
            },
            Ok(None) => {},
            Err(message) => {
                warnings.push(PresetWarning { index: i, message });
                assert(warning_views(warnings@) =~= warning_views(old_warnings).push(
                    (i as int, message@),
                ));
            },
        }
        i = i + 1;
    }
    assert(string_views(durations@).take(durations.len() as int) =~= string_views(durations@));
    (presets, warnings)
}

/// An entry of the tray menu.
#[derive(Clone, Copy, Debug, PartialEq, Eq, Structural)]
pub enum MenuEntry {
    Update,
    Separator,
    Status,
    Preset(usize),
    Indefinite,
    KeepStatus,
    LaunchAtLogin,
    Toggle,
    Quit,
}

/// The menu, top to bottom: the update banner (when shown), the status line,
/// the presets and "Indefinite", the two toggles, Stop/Resume and Quit.
pub open spec fn layout_spec(show_update: bool, n_presets: nat) -> Seq<MenuEntry> {
    (if show_update {
        seq![MenuEntry::Update, MenuEntry::Separator]
    } else {
        Seq::empty()
    }) + seq![MenuEntry::Status, MenuEntry::Separator] + Seq::new(
        n_presets,
        |i: int| MenuEntry::Preset(i as usize),
    ) + seq![
        MenuEntry::Indefinite,
        MenuEntry::Separator,
        MenuEntry::KeepStatus,
        MenuEntry::Separator,
        MenuEntry::LaunchAtLogin,
        MenuEntry::Separator,
        MenuEntry::Toggle,
        MenuEntry::Separator,
        MenuEntry::Quit,
    ]
}

/// The entries of the tray menu, built (or rebuilt) with the update banner
/// when `show_update`.
pub fn menu_layout(show_update: bool, n_presets: usize) -> (r: Vec<MenuEntry>)
    ensures
        r@ == layout_spec(show_update, n_presets as nat),
{
    let mut v: Vec<MenuEntry> = Vec::new();
    if show_update {
        v.push(MenuEntry::Update);
        v.push(MenuEntry::Separator);
    }
    v.push(MenuEntry::Status);
    v.push(MenuEntry::Separator);
    let ghost head = v@;
    let mut i: usize = 0;
    while i < n_presets
        invariant
            i <= n_presets,
            v@ == head + Seq::new(i as nat, |j: int| MenuEntry::Preset(j as usize)),
        decreases n_presets - i,
    {
        v.push(MenuEntry::Preset(i));
        i = i + 1;
        assert(v@ =~= head + Seq::new(i as nat, |j: int| MenuEntry::Preset(j as usize)));
    }
    v.push(MenuEntry::Indefinite);
    v.push(MenuEntry::Separator);
    v.push(MenuEntry::KeepStatus);
    v.push(MenuEntry::Separator);
    v.push(MenuEntry::LaunchAtLogin);
    v.push(MenuEntry::Separator);
    v.push(MenuEntry::Toggle);
    v.push(MenuEntry::Separator);
    v.push(MenuEntry::Quit);
    assert(v@ =~= layout_spec(show_update, n_presets as nat));
    v
}

/// What a click on a menu entry asks for.
#[derive(Clone, Copy, Debug, PartialEq, Eq, Structural)]
pub enum MenuAction {
    /// Shut the service down, delete the status file and leave the event loop.
    Quit,
    /// Open the releases page.
    OpenReleases,
    /// Stop the session, then record it in the status file.
    Deactivate,
    /// Start a session of the given seconds (`None` = indefinite), then record it.
    Activate(Option<u64>),
    /// Turn jiggling on or off, then record it.
    SetJiggle(bool),
    /// Turn the login item off when it is on, else on.
    ToggleLoginItem,
    /// Nothing to do.
    Ignore,
}

/// The action for a click on `entry`, given whether a session is active,
/// whether jiggling is on, and the presets' lengths in seconds.
pub open spec fn menu_action_spec(
    entry: MenuEntry,
    active: bool,
    jiggle_enabled: bool,
    presets: Seq<u64>,
) -> MenuAction {
    match entry {
        MenuEntry::Quit => MenuAction::Quit,
        MenuEntry::Update => MenuAction::OpenReleases,
        MenuEntry::Toggle => if active {
            MenuAction::Deactivate
        } else {
            MenuAction::Activate(None)
        },
        MenuEntry::KeepStatus => MenuAction::SetJiggle(!jiggle_enabled),
        MenuEntry::LaunchAtLogin => MenuAction::ToggleLoginItem,
        MenuEntry::Indefinite => MenuAction::Activate(None),
        MenuEntry::Preset(i) => if i < presets.len() {
            MenuAction::Activate(Some(presets[i as int]))
        } else {
            MenuAction::Ignore
        },
        MenuEntry::Status => MenuAction::Ignore,
        MenuEntry::Separator => MenuAction::Ignore,
    }
}

pub fn menu_action(entry: MenuEntry, active: bool, jiggle_enabled: bool, presets: &Vec<u64>) -> (r:
    MenuAction)
    ensures
        r == menu_action_spec(entry, active, jiggle_enabled, presets@),
{
    match entry {
        MenuEntry::Quit => MenuAction::Quit,
        MenuEntry::Update => MenuAction::OpenReleases,
        MenuEntry::Toggle => if active {
            MenuAction::Deactivate
        } else {
            MenuAction::Activate(None)
        },
        MenuEntry::KeepStatus => MenuAction::SetJiggle(!jiggle_enabled),
        MenuEntry::LaunchAtLogin => MenuAction::ToggleLoginItem,
        MenuEntry::Indefinite => MenuAction::Activate(None),
        MenuEntry::Preset(i) => if i < presets.len() {
            MenuAction::Activate(Some(presets[i]))
        } else {
            MenuAction::Ignore
        },
        MenuEntry::Status => MenuAction::Ignore,
        MenuEntry::Separator => MenuAction::Ignore,
    }
}

pub open spec fn toggle_label_text(active: bool) -> Seq<char> {
    if active {
        "Stop"@
    } else {
        "Resume"@
    }
}

/// The label of the Stop/Resume entry.
pub fn toggle_label(active: bool) -> (r: String)
    ensures
        r@ == toggle_label_text(active),
{
    if active {
        String::from_str("Stop")
    } else {
        String::from_str("Resume")
    }
}

// ── Laws ──────────────────────────────────────────────────────────────────────

/// Every preset appears, in order, between the status line's separator and
/// "Indefinite", whether or not the update banner is shown; the banner only
/// puts `[Update, Separator]` in front, and the entries after the presets are
/// the same fixed tail.
pub proof fn lemma_layout_shape(show_update: bool, n_presets: nat)
    ensures
        ({
            let base = layout_spec(false, n_presets);
            &&& layout_spec(true, n_presets) == seq![MenuEntry::Update, MenuEntry::Separator]
                + base
            &&& base.len() == n_presets + 11
            &&& base[0] == MenuEntry::Status
            &&& base[1] == MenuEntry::Separator
            &&& forall|i: int|
                2 <= i < 2 + n_presets ==> #[trigger] base[i] == MenuEntry::Preset((i - 2) as usize)
            &&& base[2 + n_presets as int] == MenuEntry::Indefinite
            &&& base[base.len() - 1] == MenuEntry::Quit
            &&& forall|i: int|
                0 <= i < base.len() ==> (#[trigger] base[i] is Preset <==> 2 <= i < 2 + n_presets)
        }),
{
    let base = layout_spec(false, n_presets);
    assert(layout_spec(true, n_presets) =~= seq![MenuEntry::Update, MenuEntry::Separator] + base);
}

/// A click on "Keep Status Active" flips jiggling whatever the session's state
/// and whatever the presets; Stop/Resume stops an active session and starts an
/// indefinite one otherwise; a preset starts a session of its own length.
pub proof fn lemma_click_actions(active: bool, jiggle_enabled: bool, presets: Seq<u64>, i: usize)
    ensures
        menu_action_spec(MenuEntry::KeepStatus, active, jiggle_enabled, presets)
            == MenuAction::SetJiggle(!jiggle_enabled),
        menu_action_spec(MenuEntry::KeepStatus, true, jiggle_enabled, presets)
            == menu_action_spec(MenuEntry::KeepStatus, false, jiggle_enabled, presets),
        active ==> menu_action_spec(MenuEntry::Toggle, active, jiggle_enabled, presets)
            == MenuAction::Deactivate,
        !active ==> menu_action_spec(MenuEntry::Toggle, active, jiggle_enabled, presets)
            == MenuAction::Activate(None),
        i < presets.len() ==> menu_action_spec(MenuEntry::Preset(i), active, jiggle_enabled, presets)
            == MenuAction::Activate(Some(presets[i as int])),
        menu_action_spec(MenuEntry::Indefinite, active, jiggle_enabled, presets)
            == MenuAction::Activate(None),
        menu_action_spec(MenuEntry::Quit, active, jiggle_enabled, presets) == MenuAction::Quit,
{
}

} // verus!
