//! The `status` and `stop` subcommands: what they print and what they do,
//! given what the status file holds and whether its process is alive.
use vstd::prelude::*;

use crate::domain::models::SessionInfo;
use crate::duration::{fmt_spec, fmt_total};
use crate::text::{decimal, push_decimal};

verus! {

// ── Trusted: serde_json ───────────────────────────────────────────────────────

/// The text of `serde_json::to_string_pretty` applied to the JSON object
/// `{"running": running, "pid": pid, "expiry_unix": expiry, "remaining_secs": remaining,
/// "prevent_display": prevent_display, "jiggle": jiggle}` (`None` as `null`).
pub uninterp spec fn status_json_text(
    running: bool,
    pid: u32,
    expiry: Option<u64>,
    remaining: Option<u64>,
    prevent_display: bool,
    jiggle: bool,
) -> Seq<char>;

/// Builds the object with `serde_json::to_value` and `serde_json::Map::insert`,
/// and writes it with `serde_json::to_string_pretty`. Trusted: the result is
/// `status_json_text` of the arguments.
#[verifier::external_body]
fn status_json(
    running: bool,
    pid: u32,
    expiry: Option<u64>,
    remaining: Option<u64>,
    prevent_display: bool,
    jiggle: bool,
) -> (r: String)
    ensures
        r@ == status_json_text(running, pid, expiry, remaining, prevent_display, jiggle),
{
    let mut map = serde_json::Map::new();
    map.insert("running".to_string(), serde_json::Value::Bool(running));
    map.insert("pid".to_string(), serde_json::Value::from(pid));
    map.insert("expiry_unix".to_string(), serde_json::to_value(expiry).unwrap());
    map.insert("remaining_secs".to_string(), serde_json::to_value(remaining).unwrap());
    map.insert("prevent_display".to_string(), serde_json::Value::Bool(prevent_display));
    map.insert("jiggle".to_string(), serde_json::Value::Bool(jiggle));
    serde_json::to_string_pretty(&serde_json::Value::Object(map)).unwrap()
}

// ── What the commands do ──────────────────────────────────────────────────────

/// The effect of a subcommand: whether to delete a stale status file, which
/// process to send `SIGTERM`, and what to print on stdout.
pub struct CommandOutcome {
    pub delete_status_file: bool,
    pub signal_pid: Option<u32>,
    pub output: String,
}

/// Whether `pid` names a single process that `kill` can address: 0 names
/// the caller's process group, and values past `i32::MAX` become negative
/// `pid_t`s that name groups or every process.
pub open spec fn is_process_id(pid: u32) -> bool {
    0 < pid && pid <= i32::MAX
}

pub fn valid_pid(pid: u32) -> (r: bool)
    ensures
        r == is_process_id(pid),
{
    0 < pid && pid <= i32::MAX as u32
}

/// Whether the status file names a running instance: a process id that
/// addresses one process, and that process is alive.
pub open spec fn names_live_instance(s: SessionInfo, alive: bool) -> bool {
    alive && is_process_id(s.pid)
}

pub open spec fn not_running_text(json: bool) -> Seq<char> {
    if json {
        "{\"running\":false}\n"@
    } else {
        "○ Not running\n"@
    }
}

pub open spec fn mode_text(prevent_display: bool) -> Seq<char> {
    if prevent_display {
        "display + system"@
    } else {
        "system"@
    }
}

pub open spec fn pid_line(pid: u32) -> Seq<char> {
    "  PID "@ + decimal(pid as nat) + "\n"@
}

/// The lines under the headline of an active session.
pub open spec fn session_details(s: SessionInfo) -> Seq<char> {
    "  "@ + mode_text(s.prevent_display) + " sleep prevented\n"@ + (if s.jiggle {
        "  Keep Status Active: enabled\n"@
    } else {
        Seq::empty()
    }) + pid_line(s.pid)
}

/// Seconds left until `expiry` at `now`, when it has not passed.
pub open spec fn remaining_secs(expiry: Option<u64>, now: u64) -> Option<u64> {
    match expiry {
        Some(e) => if e >= now {
            Some((e - now) as u64)
        } else {
            None
        },
        None => None,
    }
}

/// What `status` prints for the session `s` of a live process.
pub open spec fn live_status_text(s: SessionInfo, now: u64, json: bool) -> Seq<char> {
    if json {
        status_json_text(true, s.pid, s.expiry, remaining_secs(s.expiry, now), s.prevent_display, s.jiggle)
            + "\n"@
    } else {
        match s.expiry {
            None => "● Active — indefinite\n"@ + session_details(s),
            Some(e) => if e > now {
                "● Active — "@ + fmt_spec((e - now) as nat) + " remaining\n"@ + session_details(s)
            } else {
                "● Running (timer expired — menu bar still open)\n"@ + pid_line(s.pid)
            },
        }
    }
}

/// `status`: `read` is what the status file holds, `alive` whether its
/// process is alive, `now` the Unix time in seconds. A file whose process is
/// gone is stale: it is deleted and the instance reported as not running.
pub fn cmd_status(read: Option<SessionInfo>, alive: bool, now: u64, json: bool) -> (r: CommandOutcome)
    ensures
        r.signal_pid is None,
        r.delete_status_file == (read is Some && !alive),
        r.output@ == match read {
            None => not_running_text(json),
            Some(s) => if alive {
                live_status_text(s, now, json)
            } else {
                not_running_text(json)
            },
        },
{
    let s = match read {
        None => {
            return CommandOutcome {
                delete_status_file: false,
                signal_pid: None,
                output: not_running(json),
            };
        },
        Some(s) => s,
    };
    if !alive {
        return CommandOutcome { delete_status_file: true, signal_pid: None, output: not_running(json) };
    }
    let mut out;
    if json {
        let remaining = match s.expiry {
            Some(e) => if e >= now {
                Some(e - now)
            } else {
                None
            },
            None => None,
        };
        out = status_json(true, s.pid, s.expiry, remaining, s.prevent_display, s.jiggle);
        out.append("\n");
    } else {
        match s.expiry {
            None => {
                out = String::from_str("● Active — indefinite\n");
                push_details(&mut out, &s);
            },
            Some(e) => {
                if e > now {
                    out = String::from_str("● Active — ");
                    let rem = fmt_total((e - now) as u128);
                    out.append(rem.as_str());
                    out.append(" remaining\n");
                    push_details(&mut out, &s);
                } else {
                    out = String::from_str("● Running (timer expired — menu bar still open)\n");
                    push_pid_line(&mut out, s.pid);
                }
            },
        }
    }
    CommandOutcome { delete_status_file: false, signal_pid: None, output: out }
}

fn not_running(json: bool) -> (r: String)
    ensures
        r@ == not_running_text(json),
{
    if json {
        String::from_str("{\"running\":false}\n")
    } else {
        String::from_str("○ Not running\n")
    }
}

fn push_pid_line(out: &mut String, pid: u32)
    ensures
        final(out)@ == old(out)@ + pid_line(pid),
{
    out.append("  PID ");
    push_decimal(out, pid as u128);
    out.append("\n");
    assert(final(out)@ =~= old(out)@ + pid_line(pid));
}

fn push_details(out: &mut String, s: &SessionInfo)
    ensures
        final(out)@ == old(out)@ + session_details(*s),
{
    out.append("  ");
    if s.prevent_display {
        out.append("display + system");
    } else {
        out.append("system");
    }
    out.append(" sleep prevented\n");
    if s.jiggle {
        out.append("  Keep Status Active: enabled\n");
    }
    push_pid_line(out, s.pid);
    assert(final(out)@ =~= old(out)@ + session_details(*s));
}

pub open spec fn stop_text(read: Option<SessionInfo>, alive: bool) -> Seq<char> {
    match read {
        Some(s) => if names_live_instance(s, alive) {
            "Stopped caffeine (PID "@ + decimal(s.pid as nat) + ")\n"@
        } else {
            "caffeine is not running\n"@
        },
        None => "caffeine is not running\n"@,
    }
}

/// `stop`: terminates the live instance that the status file names, and no
/// other process; a stale file (process gone, or a pid that addresses no
/// single process) is deleted instead.
pub fn cmd_stop(read: Option<SessionInfo>, alive: bool) -> (r: CommandOutcome)
    ensures
        r.delete_status_file == (read matches Some(s) && !names_live_instance(s, alive)),
        r.signal_pid == match read {
            Some(s) => if names_live_instance(s, alive) {
                Some(s.pid)
            } else {
                None
            },
            None => None,
        },
        r.signal_pid matches Some(p) ==> is_process_id(p),
        r.output@ == stop_text(read, alive),
{
    match read {
        None => CommandOutcome {
            delete_status_file: false,
            signal_pid: None,
            output: String::from_str("caffeine is not running\n"),
        },
        Some(s) => {
            if !(alive && valid_pid(s.pid)) {
                CommandOutcome {
                    delete_status_file: true,
                    signal_pid: None,
                    output: String::from_str("caffeine is not running\n"),
                }
            } else {
                let mut out = String::from_str("Stopped caffeine (PID ");
                push_decimal(&mut out, s.pid as u128);
                out.append(")\n");
                CommandOutcome { delete_status_file: false, signal_pid: Some(s.pid), output: out }
            }
        },
    }
}

// ── Laws ──────────────────────────────────────────────────────────────────────

/// For a live session that has not expired, timed or not, the human status
/// output differs between jiggle on and off by exactly the line
/// "  Keep Status Active: enabled": the returned texts are what comes before
/// and after that line.
pub proof fn lemma_status_shows_keep_status(s: SessionInfo, now: u64) -> (r: (Seq<char>, Seq<char>))
    requires
        s.expiry matches Some(e) ==> e > now,
    ensures
        live_status_text(SessionInfo { jiggle: true, ..s }, now, false) == r.0
            + "  Keep Status Active: enabled\n"@ + r.1,
        live_status_text(SessionInfo { jiggle: false, ..s }, now, false) == r.0 + r.1,
{
    let head = match s.expiry {
        None => "● Active — indefinite\n"@,
        Some(e) => "● Active — "@ + fmt_spec((e - now) as nat) + " remaining\n"@,
    };
    let a = head + ("  "@ + mode_text(s.prevent_display) + " sleep prevented\n"@);
    let b = pid_line(s.pid);
    let on = SessionInfo { jiggle: true, ..s };
    let off = SessionInfo { jiggle: false, ..s };
    assert(session_details(on) =~= "  "@ + mode_text(s.prevent_display) + " sleep prevented\n"@
        + "  Keep Status Active: enabled\n"@ + b);
    assert(session_details(off) =~= "  "@ + mode_text(s.prevent_display) + " sleep prevented\n"@
        + Seq::<char>::empty() + b);
    assert(live_status_text(on, now, false) =~= a + "  Keep Status Active: enabled\n"@ + b);
    assert(live_status_text(off, now, false) =~= a + b);
    (a, b)
}

/// A timed session that has not expired shows the same lines under its
/// headline as the same session without a time limit: only the headline
/// differs, giving the time left instead of "indefinite".
pub proof fn lemma_timed_status_details(s: SessionInfo, e: u64, now: u64) -> (details: Seq<char>)
    requires
        e > now,
    ensures
        live_status_text(SessionInfo { expiry: Some(e), ..s }, now, false) == "● Active — "@
            + fmt_spec((e - now) as nat) + " remaining\n"@ + details,
        live_status_text(SessionInfo { expiry: None, ..s }, now, false)
            == "● Active — indefinite\n"@ + details,
{
    let d = session_details(SessionInfo { expiry: None, ..s });
    assert(session_details(SessionInfo { expiry: Some(e), ..s }) == d);
    d
}

} // verus!
