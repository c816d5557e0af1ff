//! The status-file record with the session's start time, and the wall clock.
use std::time::{Duration, SystemTime, SystemTimeError, UNIX_EPOCH};
use vstd::prelude::*;

use crate::duration::{duration_as_secs, duration_secs};
use crate::infrastructure::ipc::{expiry_field, push_bool};
use crate::text::{
    bool_text, chars_of, decimal, lemma_bool_plain_line, lemma_decimal, lemma_digits_plain_line,
    lemma_line_then, lemma_nth_line_succ, lemma_unsigned_decimal, next_line, nth_line, parse_bool,
    parse_bool_range, parse_u32, parse_u64, parse_unsigned_range, push_char, push_decimal,
};

verus! {

// ── Trusted: the system clock ─────────────────────────────────────────────────

/// `std::time::SystemTime`, carried through opaquely.
#[verifier::external_type_specification]
#[verifier::external_body]
pub struct ExSystemTime(SystemTime);

/// `std::time::SystemTimeError`, carried through opaquely.
#[verifier::external_type_specification]
#[verifier::external_body]
pub struct ExSystemTimeError(SystemTimeError);

/// Calls `SystemTime::now`. Nothing is promised of the reading.
#[verifier::external_body]
fn system_time_now() -> SystemTime {
    SystemTime::now()
}

/// Calls `SystemTime::duration_since(UNIX_EPOCH)`. Nothing is promised of the
/// result, which depends on the clock reading.
#[verifier::external_body]
fn since_unix_epoch(t: &SystemTime) -> Result<Duration, SystemTimeError> {
    t.duration_since(UNIX_EPOCH)
}

/// Whole seconds of a time since the Unix epoch, or 0 when the time lies
/// before it (as `unwrap_or_default().as_secs()`).
pub fn secs_since_epoch(since: Result<Duration, SystemTimeError>) -> (r: u64)
    ensures
        match since {
            Ok(d) => r == duration_secs(d),
            Err(_) => r == 0,
        },
{
    match since {
        Ok(d) => duration_as_secs(&d),
        Err(_) => 0,
    }
}

/// The current Unix time in whole seconds (0 if the clock is before 1970).
pub fn now_secs() -> u64 {
    secs_since_epoch(since_unix_epoch(&system_time_now()))
}

// ── The record ────────────────────────────────────────────────────────────────

pub struct Status {
    pub pid: u32,
    pub started_at: u64,
    pub expiry: Option<u64>,
    pub prevent_display: bool,
}

/// The file's text: pid, start time, expiry (0 = indefinite) and display
/// flag, one per line.
pub open spec fn status_text(pid: u32, started_at: u64, expiry: Option<u64>, prevent_display: bool) -> Seq<char> {
    decimal(pid as nat) + seq!['\n'] + (decimal(started_at as nat) + seq!['\n'] + (decimal(
        expiry_field(expiry),
    ) + seq!['\n'] + (bool_text(prevent_display) + seq!['\n'])))
}

/// What reading the file's text gives: four lines holding a pid, a start
/// time, an expiry (0 = indefinite) and the display flag, as
/// `(pid, started_at, expiry, prevent_display)`.
pub open spec fn status_from_text(s: Seq<char>) -> Option<(u32, u64, Option<u64>, bool)> {
    match (nth_line(s, 0), nth_line(s, 1), nth_line(s, 2), nth_line(s, 3)) {
        (Some(l0), Some(l1), Some(l2), Some(l3)) => match (
            parse_u32(l0),
            parse_u64(l1),
            parse_u64(l2),
            parse_bool(l3),
        ) {
            (Some(pid), Some(st), Some(e), Some(pd)) => Some(
                (
                    pid,
                    st,
                    if e == 0 {
                        None
                    } else {
                        Some(e)
                    },
                    pd,
                ),
            ),
            _ => None,
        },
        _ => None,
    }
}

impl Status {
    pub open spec fn fields(&self) -> (u32, u64, Option<u64>, bool) {
        (self.pid, self.started_at, self.expiry, self.prevent_display)
    }

    /// The text that `write` puts in the status file.
    pub fn content(&self) -> (r: String)
        ensures
            r@ == status_text(self.pid, self.started_at, self.expiry, self.prevent_display),
    {
        let mut out = String::new();
        push_decimal(&mut out, self.pid as u128);
        push_char(&mut out, '\n');
        push_decimal(&mut out, self.started_at as u128);
        push_char(&mut out, '\n');
        let e: u64 = match self.expiry {
            Some(x) => x,
            None => 0,
        };
        push_decimal(&mut out, e as u128);
        push_char(&mut out, '\n');
        push_bool(&mut out, self.prevent_display);
        push_char(&mut out, '\n');
        assert(out@ =~= status_text(self.pid, self.started_at, self.expiry, self.prevent_display));
        out
    }

    /// Reads a record from the status file's text, as `read` does.
    pub fn from_content(content: &str) -> (r: Option<Status>)
        ensures
            match r {
                None => status_from_text(content@) == None::<(u32, u64, Option<u64>, bool)>,
                Some(st) => status_from_text(content@) == Some(st.fields()),
            },
    {
        let v = chars_of(content);
        let hi = v.len();
        let ghost s0 = v@.subrange(0, hi as int);
        assert(s0 =~= content@);
        let (a0, b0, n0) = match next_line(&v, 0, hi) {
            Some(x) => x,
            None => {
                return None;
            },
        };
        let ghost s1 = v@.subrange(n0 as int, hi as int);
        proof {
            lemma_nth_line_succ(s0, 0);
        }
        let (a1, b1, n1) = match next_line(&v, n0, hi) {
            Some(x) => x,
            None => {
                return None;
            },
        };
        let ghost s2 = v@.subrange(n1 as int, hi as int);
        proof {
            lemma_nth_line_succ(s0, 1);
            lemma_nth_line_succ(s1, 0);
        }
        let (a2, b2, n2) = match next_line(&v, n1, hi) {
            Some(x) => x,
            None => {
                return None;
            },
        };
        let ghost s3 = v@.subrange(n2 as int, hi as int);
        proof {
            lemma_nth_line_succ(s0, 2);
            lemma_nth_line_succ(s1, 1);
            lemma_nth_line_succ(s2, 0);
        }
        let (a3, b3, _n3) = match next_line(&v, n2, hi) {
            Some(x) => x,
            None => {
                return None;
            },
        };
        let pid = match parse_unsigned_range(&v, a0, b0, u32::MAX as u64) {
            Some(p) => p as u32,
            None => {
                return None;
            },
        };
        let started_at = match parse_unsigned_range(&v, a1, b1, u64::MAX) {
            Some(x) => x,
            None => {
                return None;
            },
        };
        let e = match parse_unsigned_range(&v, a2, b2, u64::MAX) {
            Some(x) => x,
            None => {
                return None;
            },
        };
        let prevent_display = match parse_bool_range(&v, a3, b3) {
            Some(b) => b,
            None => {
                return None;
            },
        };
        Some(
            Status {
                pid,
                started_at,
                expiry: if e == 0 {
                    None
                } else {
                    Some(e)
                },
                prevent_display,
            },
        )
    }
}

/// Reading a record back gives what was written (an expiry of 0 reads back
/// as indefinite).
#[verifier::rlimit(40)]
pub proof fn lemma_status_roundtrip(pid: u32, started_at: u64, expiry: Option<u64>, prevent_display: bool)
    ensures
        status_from_text(status_text(pid, started_at, expiry, prevent_display)) == Some(
            (
                pid,
                started_at,
                if expiry == Some(0u64) {
                    None
                } else {
                    expiry
                },
                prevent_display,
            ),
        ),
{
    let d0 = decimal(pid as nat);
    let d1 = decimal(started_at as nat);
    let d2 = decimal(expiry_field(expiry));
    let b3 = bool_text(prevent_display);
    let r3 = b3 + seq!['\n'];
    let r2 = d2 + seq!['\n'] + r3;
    let r1 = d1 + seq!['\n'] + r2;
    let s = d0 + seq!['\n'] + r1;
    assert(s == status_text(pid, started_at, expiry, prevent_display));
    lemma_decimal(pid as nat);
    lemma_decimal(started_at as nat);
    lemma_decimal(expiry_field(expiry));
    lemma_digits_plain_line(d0);
    lemma_digits_plain_line(d1);
    lemma_digits_plain_line(d2);
    lemma_bool_plain_line(prevent_display);
    lemma_line_then(d0, r1);
    lemma_line_then(d1, r2);
    lemma_line_then(d2, r3);
    lemma_line_then(b3, Seq::<char>::empty());
    assert(b3 + seq!['\n'] + Seq::<char>::empty() =~= r3);
    lemma_nth_line_succ(s, 0);
    lemma_nth_line_succ(s, 1);
    lemma_nth_line_succ(s, 2);
    lemma_nth_line_succ(r1, 0);
    lemma_nth_line_succ(r1, 1);
    lemma_nth_line_succ(r2, 0);
    lemma_unsigned_decimal(pid as nat);
    lemma_unsigned_decimal(started_at as nat);
    lemma_unsigned_decimal(expiry_field(expiry));
    assert(nth_line(s, 0) == Some(d0));
    assert(nth_line(s, 1) == Some(d1));
    assert(nth_line(s, 2) == Some(d2));
    assert(nth_line(s, 3) == Some(b3));
    assert(parse_u32(d0) == Some(pid));
    assert(parse_u64(d1) == Some(started_at));
    assert(parse_u64(d2) == Some(expiry_field(expiry) as u64));
    assert(parse_bool(b3) == Some(prevent_display));
}

} // verus!
