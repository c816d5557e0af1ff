//! The keep-awake session: when it is active, when it expires, when to jiggle,
//! what to record in the status file and when the battery guard steps in.
//!
//! The service decides; the caller performs. Clock readings, the outcome of
//! acquiring the power assertions, the idle time and the battery level are
//! handed in as plain values, and the service answers with what to do
//! (hold or drop the power guard, jiggle, write or delete the status file).
//! Monotonic clock readings are in nanoseconds.
use vstd::prelude::*;

use crate::domain::models::{JiggleConfig, SessionInfo};
use crate::duration::{fmt_spec, fmt_total};

verus! {

pub const NANOS_PER_SEC: u64 = 1_000_000_000;

/// How often the battery guard looks at the battery, in seconds.
pub const BATTERY_CHECK_INTERVAL_SECS: u64 = 30;

/// What to do with the status file.
#[derive(Clone, Copy, Debug, PartialEq, Eq, Structural)]
pub enum StatusUpdate {
    Delete,
    Write(SessionInfo),
}

/// The abstract state of a `CaffeineService`.
pub struct ServiceState {
    /// Whether the power assertions are held.
    pub active: bool,
    /// The monotonic instant (ns) at which the session ends; `None` = indefinite.
    pub expiry: Option<int>,
    pub prevent_display: bool,
    pub jiggle_enabled: bool,
    pub idle_threshold_millis: int,
    pub interval_secs: int,
    /// The monotonic instant (ns) of the last jiggle.
    pub last_jiggle: Option<int>,
    pub battery_threshold: int,
    /// The monotonic instant (ns) of the last battery check.
    pub last_battery_check: Option<int>,
    pub pid: int,
}

impl ServiceState {
    /// The jiggle thresholds that every service keeps: 5 minutes of idle time,
    /// and 60 s between jiggles.
    pub open spec fn wf(self) -> bool {
        self.idle_threshold_millis == 300_000 && self.interval_secs == 60
    }

    pub open spec fn initial(
        prevent_display: bool,
        jiggle_enabled: bool,
        battery_threshold: int,
        pid: int,
    ) -> ServiceState {
        ServiceState {
            active: false,
            expiry: None,
            prevent_display,
            jiggle_enabled,
            idle_threshold_millis: 300_000,
            interval_secs: 60,
            last_jiggle: None,
            battery_threshold,
            last_battery_check: None,
            pid,
        }
    }

    /// Time left (ns) at `now`; zero once the expiry has passed.
    pub open spec fn remaining(self, now: int) -> Option<int> {
        match self.expiry {
            None => None,
            Some(e) => Some(
                if e > now {
                    e - now
                } else {
                    0
                },
            ),
        }
    }

    /// `activate`: the session holds the assertions iff acquiring them
    /// succeeded, and ends `dur` seconds after `now` (never, for `None`).
    pub open spec fn activated(self, acquired: bool, now: int, dur: Option<u64>) -> ServiceState {
        ServiceState {
            active: acquired,
            expiry: match dur {
                Some(d) => Some(now + d * NANOS_PER_SEC),
                None => None,
            },
            ..self
        }
    }

    pub open spec fn deactivated(self) -> ServiceState {
        ServiceState { active: false, expiry: None, last_jiggle: None, ..self }
    }

    pub open spec fn expires_at(self, now: int) -> bool {
        self.expiry matches Some(e) && e <= now
    }

    /// `tick`: an expired session is deactivated.
    pub open spec fn ticked(self, now: int) -> ServiceState {
        if self.expires_at(now) {
            self.deactivated()
        } else {
            self
        }
    }

    pub open spec fn with_jiggle(self, enabled: bool) -> ServiceState {
        ServiceState {
            jiggle_enabled: enabled,
            last_jiggle: if enabled {
                self.last_jiggle
            } else {
                None
            },
            ..self
        }
    }

    /// No jiggle yet, or at least `interval_secs` whole seconds since the last one.
    pub open spec fn jiggle_due(self, now: int) -> bool {
        match self.last_jiggle {
            None => true,
            Some(t) => (if now > t {
                now - t
            } else {
                0
            }) / (NANOS_PER_SEC as int) >= self.interval_secs,
        }
    }

    /// Jiggle when enabled, active, idle for at least the threshold, and due.
    pub open spec fn should_jiggle(self, now: int, idle_millis: int) -> bool {
        &&& self.jiggle_enabled
        &&& self.active
        &&& idle_millis >= self.idle_threshold_millis
        &&& self.jiggle_due(now)
    }

    pub open spec fn after_jiggle_check(self, now: int, idle_millis: int) -> ServiceState {
        if self.should_jiggle(now, idle_millis) {
            ServiceState { last_jiggle: Some(now), ..self }
        } else {
            self
        }
    }

    /// The status-file action for the state: delete when inactive, else
    /// record the session with its expiry as a Unix time `wall` + remaining seconds.
    pub open spec fn status_update(self, now: int, wall: int) -> Option<SessionInfo> {
        if !self.active {
            None
        } else {
            Some(
                SessionInfo {
                    pid: self.pid as u32,
                    expiry: match self.remaining(now) {
                        None => None,
                        Some(r) => Some((wall + r / (NANOS_PER_SEC as int)) as u64),
                    },
                    prevent_display: self.prevent_display,
                    jiggle: self.jiggle_enabled,
                },
            )
        }
    }

    /// The status line for the menu.
    pub open spec fn status_text(self, now: int) -> Seq<char> {
        if !self.active {
            "Inactive"@
        } else {
            match self.remaining(now) {
                None => "Active · indefinite"@,
                Some(r) => "Active · "@ + fmt_spec((r / (NANOS_PER_SEC as int)) as nat)
                    + " remaining"@,
            }
        }
    }

    pub open spec fn battery_check_due(self, now: int) -> bool {
        &&& self.battery_threshold > 0
        &&& match self.last_battery_check {
            None => true,
            Some(t) => now >= t + BATTERY_CHECK_INTERVAL_SECS * NANOS_PER_SEC,
        }
    }

    /// The battery guard trips when the check is due, the session is active
    /// and the battery reports a level below the threshold.
    pub open spec fn battery_trips(self, now: int, percent: Option<u8>) -> bool {
        &&& self.battery_check_due(now)
        &&& self.active
        &&& percent matches Some(p) && p < self.battery_threshold
    }

    pub open spec fn after_battery_check(self, now: int, percent: Option<u8>) -> ServiceState {
        if !self.battery_check_due(now) {
            self
        } else if self.battery_trips(now, percent) {
            ServiceState { last_battery_check: Some(now), ..self.deactivated() }
        } else {
            ServiceState { last_battery_check: Some(now), ..self }
        }
    }
}

pub struct CaffeineService {
    active: bool,
    expiry: Option<u128>,
    prevent_display: bool,
    jiggle_enabled: bool,
    jiggle_config: JiggleConfig,
    last_jiggle: Option<u64>,
    battery_threshold: u8,
    last_battery_check: Option<u64>,
    pid: u32,
}

impl View for CaffeineService {
    type V = ServiceState;

    closed spec fn view(&self) -> ServiceState {
        ServiceState {
            active: self.active,
            expiry: match self.expiry {
                Some(e) => Some(e as int),
                None => None,
            },
            prevent_display: self.prevent_display,
            jiggle_enabled: self.jiggle_enabled,
            idle_threshold_millis: self.jiggle_config.idle_threshold_millis as int,
            interval_secs: self.jiggle_config.interval_secs as int,
            last_jiggle: match self.last_jiggle {
                Some(t) => Some(t as int),
                None => None,
            },
            battery_threshold: self.battery_threshold as int,
            last_battery_check: match self.last_battery_check {
                Some(t) => Some(t as int),
                None => None,
            },
            pid: self.pid as int,
        }
    }
}

impl CaffeineService {
    #[verifier::type_invariant]
    spec fn thresholds_fixed(self) -> bool {
        self.jiggle_config.idle_threshold_millis == 300_000 && self.jiggle_config.interval_secs
            == 60
    }

    /// The jiggle thresholds; every service keeps the defaults.
    pub fn jiggle_config(&self) -> (r: JiggleConfig)
        ensures
            self@.wf(),
            r.idle_threshold_millis == self@.idle_threshold_millis,
            r.interval_secs == self@.interval_secs,
    {
        proof {
            use_type_invariant(self);
        }
        self.jiggle_config
    }

    pub fn new(prevent_display: bool, jiggle_enabled: bool, battery_threshold: u8, pid: u32) -> (s:
        Self)
        ensures
            s@ == ServiceState::initial(
                prevent_display,
                jiggle_enabled,
                battery_threshold as int,
                pid as int,
            ),
    {
        CaffeineService {
            active: false,
            expiry: None,
            prevent_display,
            jiggle_enabled,
            jiggle_config: JiggleConfig::default(),
            last_jiggle: None,
            battery_threshold,
            last_battery_check: None,
            pid,
        }
    }

    pub fn is_active(&self) -> (r: bool)
        ensures
            r == self@.active,
    {
        self.active
    }

    /// Whether the power assertions are to include display sleep.
    pub fn prevent_display(&self) -> (r: bool)
        ensures
            r == self@.prevent_display,
    {
        self.prevent_display
    }

    /// Whether jiggling is enabled.
    pub fn jiggle_enabled(&self) -> (r: bool)
        ensures
            r == self@.jiggle_enabled,
    {
        self.jiggle_enabled
    }

    pub fn pid(&self) -> (r: u32)
        ensures
            r == self@.pid,
    {
        self.pid
    }

    /// Time left in the session at `now`, in nanoseconds; `None` when indefinite.
    pub fn remaining(&self, now: u64) -> (r: Option<u128>)
        ensures
            match r {
                None => self@.remaining(now as int) == None::<int>,
                Some(x) => self@.remaining(now as int) == Some(x as int),
            },
    {
        match self.expiry {
            None => None,
            Some(e) => Some(
                if e > now as u128 {
                    e - now as u128
                } else {
                    0
                },
            ),
        }
    }

    pub fn status_text(&self, now: u64) -> (r: String)
        ensures
            r@ == self@.status_text(now as int),
    {
        if !self.active {
            return String::from_str("Inactive");
        }
        match self.remaining(now) {
            None => String::from_str("Active · indefinite"),
            Some(rem) => {
                let mut s = String::from_str("Active · ");
                let text = fmt_total(rem / NANOS_PER_SEC as u128);
                s.append(text.as_str());
                s.append(" remaining");
                s
            },
        }
    }

    /// Starts (or restarts) the session at `now`. `acquired` is whether the
    /// power assertions were granted; `dur` is the length in seconds.
    pub fn activate(&mut self, acquired: bool, now: u64, dur: Option<u64>)
        ensures
            final(self)@ == old(self)@.activated(acquired, now as int, dur),
    {
        proof {
            use_type_invariant(&*self);
        }
        self.active = acquired;
        self.expiry = match dur {
            Some(d) => Some(now as u128 + d as u128 * NANOS_PER_SEC as u128),
            None => None,
        };
    }

    pub fn deactivate(&mut self)
        ensures
            final(self)@ == old(self)@.deactivated(),
    {
        proof {
            use_type_invariant(&*self);
        }
        self.active = false;
        self.expiry = None;
        self.last_jiggle = None;
    }

    /// Check expiry; returns `true` when the session has just expired and was
    /// deactivated, in which case the status file is to be deleted.
    pub fn tick(&mut self, now: u64) -> (expired: bool)
        ensures
            expired == old(self)@.expires_at(now as int),
            final(self)@ == old(self)@.ticked(now as int),
    {
        match self.expiry {
            Some(e) => {
                if e <= now as u128 {
                    self.deactivate();
                    true
                } else {
                    false
                }
            },
            None => false,
        }
    }

    pub fn set_jiggle_enabled(&mut self, enabled: bool)
        ensures
            final(self)@ == old(self)@.with_jiggle(enabled),
    {
        proof {
            use_type_invariant(&*self);
        }
        self.jiggle_enabled = enabled;
        if !enabled {
            self.last_jiggle = None;
        }
    }

    /// Runs the jiggle logic at `now`, given how long the user has been idle
    /// (ms); returns `true` when a jiggle is to be posted now.
    pub fn maybe_jiggle(&mut self, now: u64, idle_millis: u64) -> (jiggle: bool)
        ensures
            jiggle == old(self)@.should_jiggle(now as int, idle_millis as int),
            final(self)@ == old(self)@.after_jiggle_check(now as int, idle_millis as int),
    {
        proof {
            use_type_invariant(&*self);
        }
        if !self.jiggle_enabled || !self.active {
            return false;
        }
        let due = match self.last_jiggle {
            None => true,
            Some(t) => {
                let elapsed = if now > t {
                    now - t
                } else {
                    0
                };
                elapsed / NANOS_PER_SEC >= self.jiggle_config.interval_secs
            },
        };
        if idle_millis >= self.jiggle_config.idle_threshold_millis && due {
            self.last_jiggle = Some(now);
            true
        } else {
            false
        }
    }

    /// What the status file should hold: `wall` is the current Unix time in
    /// seconds. The recorded expiry must fit in a `u64`.
    pub fn sync_status(&self, now: u64, wall: u64) -> (r: StatusUpdate)
        requires
            self@.active ==> match self@.remaining(now as int) {
                Some(rem) => wall + rem / (NANOS_PER_SEC as int) <= u64::MAX,
                None => true,
            },
        ensures
            match self@.status_update(now as int, wall as int) {
                None => r == StatusUpdate::Delete,
                Some(info) => r == StatusUpdate::Write(info),
            },
    {
        if !self.active {
            return StatusUpdate::Delete;
        }
        let expiry = match self.remaining(now) {
            None => None,
            Some(rem) => Some(wall + (rem / NANOS_PER_SEC as u128) as u64),
        };
        StatusUpdate::Write(
            SessionInfo {
                pid: self.pid,
                expiry,
                prevent_display: self.prevent_display,
                jiggle: self.jiggle_enabled,
            },
        )
    }

    /// Deactivate before process exit; the status file is always to be deleted.
    pub fn shutdown(&mut self) -> (r: StatusUpdate)
        ensures
            final(self)@ == old(self)@.deactivated(),
            r == StatusUpdate::Delete,
    {
        self.deactivate();
        StatusUpdate::Delete
    }

    /// Whether the battery guard wants a battery reading at `now`.
    pub fn battery_check_due(&self, now: u64) -> (r: bool)
        ensures
            r == self@.battery_check_due(now as int),
    {
        if self.battery_threshold == 0 {
            return false;
        }
        match self.last_battery_check {
            None => true,
            Some(t) => now as u128 >= t as u128 + BATTERY_CHECK_INTERVAL_SECS as u128
                * NANOS_PER_SEC as u128,
        }
    }

    /// The battery guard: given the battery level read at `now`, deactivates
    /// the session when it is below the threshold; returns `true` when it did.
    pub fn check_battery(&mut self, now: u64, percent: Option<u8>) -> (tripped: bool)
        ensures
            tripped == old(self)@.battery_trips(now as int, percent),
            final(self)@ == old(self)@.after_battery_check(now as int, percent),
            tripped ==> old(self)@.active && !final(self)@.active,
            !old(self)@.active ==> !tripped && final(self)@.active == old(self)@.active,
    {
        proof {
            use_type_invariant(&*self);
        }
        if !self.battery_check_due(now) {
            return false;
        }
        self.last_battery_check = Some(now);
        let low = match percent {
            Some(p) => p < self.battery_threshold,
            None => false,
        };
        if self.active && low {
            self.deactivate();
            true
        } else {
            false
        }
    }
}

// ── Laws ──────────────────────────────────────────────────────────────────────

/// A session started for `d` seconds expires exactly once `d` seconds have
/// passed since it started.
pub proof fn lemma_timed_session_expiry(st: ServiceState, acquired: bool, start: int, d: u64, now: int)
    ensures
        st.activated(acquired, start, Some(d)).expires_at(now) == (now >= start + d
            * NANOS_PER_SEC),
{
}

/// An indefinite session never expires: ticking leaves it unchanged.
pub proof fn lemma_indefinite_never_expires(st: ServiceState, acquired: bool, start: int, now: int)
    ensures
        st.activated(acquired, start, None).ticked(now) == st.activated(acquired, start, None),
{
}

/// After an expiry, deactivation or shutdown, nothing is held and nothing is left pending.
pub proof fn lemma_deactivated_is_idle(st: ServiceState, now: int)
    ensures
        !st.deactivated().active,
        st.deactivated().remaining(now) == None::<int>,
        st.deactivated().status_update(now, 0) == None::<SessionInfo>,
        st.deactivated().status_text(now) == "Inactive"@,
        !st.deactivated().should_jiggle(now, 0x7fff_ffff_ffff_ffff),
{
}

/// Two jiggles are at least the configured interval apart.
pub proof fn lemma_jiggle_spacing(st: ServiceState, t1: int, i1: int, t2: int, i2: int)
    requires
        st.interval_secs >= 0,
        st.should_jiggle(t1, i1),
        t2 >= t1,
    ensures
        st.after_jiggle_check(t1, i1).should_jiggle(t2, i2) ==> t2 - t1 >= st.interval_secs
            * NANOS_PER_SEC,
{
    let st2 = st.after_jiggle_check(t1, i1);
    if st2.should_jiggle(t2, i2) {
        assert(st2.last_jiggle == Some(t1));
        let e = t2 - t1;
        let q = e / (NANOS_PER_SEC as int);
        assert(q >= st.interval_secs);
        assert(q * (NANOS_PER_SEC as int) <= e) by (nonlinear_arith)
            requires
                e >= 0,
                q == e / (NANOS_PER_SEC as int),
        ;
        assert(st.interval_secs * NANOS_PER_SEC <= q * (NANOS_PER_SEC as int)) by (
        nonlinear_arith)
            requires
                q >= st.interval_secs,
        ;
    }
}

/// Smart pause: no jiggle while the user has been active within the idle
/// threshold, nor while the session is inactive or jiggling is disabled.
pub proof fn lemma_jiggle_needs_idle_user(st: ServiceState, now: int, idle_millis: int)
    ensures
        st.should_jiggle(now, idle_millis) ==> idle_millis >= st.idle_threshold_millis
            && st.active && st.jiggle_enabled,
{
}

/// The status file is written exactly while the session is active, and it
/// records the session's own settings.
pub proof fn lemma_status_mirrors_session(st: ServiceState, now: int, wall: int)
    ensures
        st.status_update(now, wall) is Some <==> st.active,
        st.status_update(now, wall) matches Some(info) ==> info.pid == st.pid as u32
            && info.prevent_display == st.prevent_display && info.jiggle == st.jiggle_enabled
            && (info.expiry is None <==> st.expiry is None),
{
}

/// The battery guard is due again at most 30 s after its last check, and a
/// due check that reads a level below a nonzero threshold deactivates an
/// active session: so a low battery stops the session within 30 s of the
/// level dropping, as long as the checks keep running.
pub proof fn lemma_battery_guard_trips_within_interval(st: ServiceState, now: int, p: u8)
    requires
        st.battery_threshold > 0,
        st.active,
        p < st.battery_threshold,
        st.last_battery_check matches Some(t) ==> now >= t + BATTERY_CHECK_INTERVAL_SECS
            * NANOS_PER_SEC,
    ensures
        st.battery_check_due(now),
        st.battery_trips(now, Some(p)),
        !st.after_battery_check(now, Some(p)).active,
        st.after_battery_check(now, Some(p)).expiry == None::<int>,
        st.after_battery_check(now, Some(p)).last_battery_check == Some(now),
{
}

/// After a check at `now`, the next check is due exactly from 30 s later on.
pub proof fn lemma_battery_check_interval(st: ServiceState, now: int, p: Option<u8>, later: int)
    requires
        st.battery_threshold > 0,
        st.battery_check_due(now),
    ensures
        st.after_battery_check(now, p).battery_check_due(later) == (later >= now
            + BATTERY_CHECK_INTERVAL_SECS * NANOS_PER_SEC),
{
}

/// The battery guard only ever stops a running session: it trips only when
/// the session was active, leaves it inactive, and never trips again on the
/// session it stopped, however low the battery stays.
pub proof fn lemma_battery_guard_trips_once(st: ServiceState, t1: int, p1: Option<u8>, t2: int, p2: Option<u8>)
    ensures
        st.battery_trips(t1, p1) ==> st.active && !st.after_battery_check(t1, p1).active,
        !st.active ==> !st.battery_trips(t1, p1) && !st.after_battery_check(t1, p1).active,
        st.battery_trips(t1, p1) ==> !st.after_battery_check(t1, p1).battery_trips(t2, p2),
{
}

/// With a threshold of 0 the battery guard never deactivates the session.
pub proof fn lemma_battery_guard_disabled(st: ServiceState, now: int, percent: Option<u8>)
    requires
        st.battery_threshold == 0,
    ensures
        st.after_battery_check(now, percent) == st,
        !st.battery_trips(now, percent),
{
}

} // verus!
