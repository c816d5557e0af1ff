//! The status file of a running instance: what is written and how it is read back.
use vstd::prelude::*;

use crate::domain::models::SessionInfo;
use crate::text::{
    bool_text, chars_of, decimal, lemma_bool_plain_line, lemma_decimal, lemma_digits_plain_line,
    lemma_line_then, lemma_nth_line_succ, lemma_unsigned_decimal, line_rest, next_line, nth_line,
    parse_bool, parse_bool_range, parse_u32, parse_u64, parse_unsigned_range, push_char,
    push_decimal,
};

verus! {

/// The expiry as the file records it: 0 for an indefinite session.
pub open spec fn expiry_field(e: Option<u64>) -> nat {
    match e {
        Some(x) => x as nat,
        None => 0,
    }
}

/// The file's text: pid, expiry (0 = indefinite), display flag and jiggle
/// flag, one per line.
pub open spec fn session_text(info: SessionInfo) -> Seq<char> {
    decimal(info.pid as nat) + seq!['\n'] + (decimal(expiry_field(info.expiry)) + seq!['\n'] + (
    bool_text(info.prevent_display) + seq!['\n'] + (bool_text(info.jiggle) + seq!['\n'])))
}

/// What reading the file's text gives: the first three lines must hold a
/// pid, an expiry and the display flag; a missing or unreadable fourth line
/// means jiggle is off.
pub open spec fn session_from_text(s: Seq<char>) -> Option<SessionInfo> {
    match (nth_line(s, 0), nth_line(s, 1), nth_line(s, 2)) {
        (Some(l0), Some(l1), Some(l2)) => match (parse_u32(l0), parse_u64(l1), parse_bool(l2)) {
            (Some(pid), Some(e), Some(pd)) => Some(
                SessionInfo {
                    pid,
                    expiry: if e == 0 {
                        None
                    } else {
                        Some(e)
                    },
                    prevent_display: pd,
                    jiggle: match nth_line(s, 3) {
                        Some(l3) => match parse_bool(l3) {
                            Some(j) => j,
                            None => false,
                        },
                        None => false,
                    },
                },
            ),
            _ => None,
        },
        _ => None,
    }
}

/// The session as it reads back: an expiry of 0 is the indefinite marker.
pub open spec fn normalized(info: SessionInfo) -> SessionInfo {
    SessionInfo {
        expiry: if info.expiry == Some(0u64) {
            None
        } else {
            info.expiry
        },
        ..info
    }
}

/// Reading the status file gives back what was written (an expiry of 0
/// reads back as indefinite).
pub proof fn lemma_session_roundtrip(info: SessionInfo)
    ensures
        session_from_text(session_text(info)) == Some(normalized(info)),
{
    let d0 = decimal(info.pid as nat);
    let d1 = decimal(expiry_field(info.expiry));
    let b2 = bool_text(info.prevent_display);
    let b3 = bool_text(info.jiggle);
    let r3 = b3 + seq!['\n'];
    let r2 = b2 + seq!['\n'] + r3;
    let r1 = d1 + seq!['\n'] + r2;
    let s = d0 + seq!['\n'] + r1;
    assert(s == session_text(info));
    lemma_decimal(info.pid as nat);
    lemma_decimal(expiry_field(info.expiry));
    lemma_digits_plain_line(d0);
    lemma_digits_plain_line(d1);
    lemma_bool_plain_line(info.prevent_display);
    lemma_bool_plain_line(info.jiggle);
    lemma_line_then(d0, r1);
    lemma_line_then(d1, r2);
    lemma_line_then(b2, r3);
    lemma_line_then(b3, Seq::<char>::empty());
    assert(b3 + seq!['\n'] + Seq::<char>::empty() =~= r3);
    lemma_nth_line_succ(s, 0);
    lemma_nth_line_succ(s, 1);
    lemma_nth_line_succ(s, 2);
    lemma_nth_line_succ(r1, 0);
    lemma_nth_line_succ(r1, 1);
    lemma_nth_line_succ(r2, 0);
    lemma_unsigned_decimal(info.pid as nat);
    lemma_unsigned_decimal(expiry_field(info.expiry));
    assert(nth_line(s, 1) == Some(d1));
    assert(nth_line(s, 2) == Some(b2));
    assert(nth_line(s, 3) == Some(b3));
}

/// Writes a session in the status file's format.
pub fn format_session(info: &SessionInfo) -> (r: String)
    ensures
        r@ == session_text(*info),
{
    let mut out = String::new();
    push_decimal(&mut out, info.pid as u128);
    push_char(&mut out, '\n');
    let e: u64 = match info.expiry {
        Some(x) => x,
        None => 0,
    };
    push_decimal(&mut out, e as u128);
    push_char(&mut out, '\n');
    push_bool(&mut out, info.prevent_display);
    push_char(&mut out, '\n');
    push_bool(&mut out, info.jiggle);
    push_char(&mut out, '\n');
    assert(out@ =~= session_text(*info));
    out
}

pub(crate) fn push_bool(out: &mut String, b: bool)
    ensures
        final(out)@ == old(out)@ + bool_text(b),
{
    if b {
        push_char(out, 't');
        push_char(out, 'r');
        push_char(out, 'u');
        push_char(out, 'e');
    } else {
        push_char(out, 'f');
        push_char(out, 'a');
        push_char(out, 'l');
        push_char(out, 's');
        push_char(out, 'e');
    }
    assert(final(out)@ =~= old(out)@ + bool_text(b));
}

/// Reads a session from the status file's text.
pub fn parse_session(content: &str) -> (r: Option<SessionInfo>)
    ensures
        r == session_from_text(content@),
{
    let v = chars_of(content);
    let hi = v.len();
    let ghost s0 = v@.subrange(0, hi as int);
    assert(s0 =~= content@);
    let (a0, b0, n0) = match next_line(&v, 0, hi) {
        Some(x) => x,
        None => {
            return None;
        },
    };
    let ghost s1 = v@.subrange(n0 as int, hi as int);
    proof {
        lemma_nth_line_succ(s0, 0);
    }
    let (a1, b1, n1) = match next_line(&v, n0, hi) {
        Some(x) => x,
        None => {
            return None;
        },
    };
    let ghost s2 = v@.subrange(n1 as int, hi as int);
    proof {
        lemma_nth_line_succ(s0, 1);
        lemma_nth_line_succ(s1, 0);
    }
    let (a2, b2, n2) = match next_line(&v, n1, hi) {
        Some(x) => x,
        None => {
            return None;
        },
    };
    let ghost s3 = v@.subrange(n2 as int, hi as int);
    proof {
        lemma_nth_line_succ(s0, 2);
        lemma_nth_line_succ(s1, 1);
        lemma_nth_line_succ(s2, 0);
    }
    let pid = match parse_unsigned_range(&v, a0, b0, u32::MAX as u64) {
        Some(p) => p as u32,
        None => {
            return None;
        },
    };
    let e = match parse_unsigned_range(&v, a1, b1, u64::MAX) {
        Some(x) => x,
        None => {
            return None;
        },
    };
    let pd = match parse_bool_range(&v, a2, b2) {
        Some(b) => b,
        None => {
            return None;
        },
    };
    let jiggle = match next_line(&v, n2, hi) {
        Some((a3, b3, _)) => match parse_bool_range(&v, a3, b3) {
            Some(j) => j,
            None => false,
        },
        None => false,
    };
    Some(
        SessionInfo {
            pid,
            expiry: if e == 0 {
                None
            } else {
                Some(e)
            },
            prevent_display: pd,
            jiggle,
        },
    )
}

/// The current Unix time in whole seconds (0 if the clock is before 1970).
pub fn now_secs() -> u64 {
    crate::ipc::now_secs()
}

} // verus!
