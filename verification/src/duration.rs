//! Human-readable durations: `30` (minutes), `2h`, `90s`, `1h30m`, `inf`, ...
use std::time::Duration;
use vstd::prelude::*;

use crate::text::{
    all_digits, chars_of, decimal, digits_value, is_digit, is_digit_char, lemma_decimal,
    push_char, push_decimal, push_range, range_eq_str, trim, trim_range, trim_start,
};

verus! {

// ── Trusted: `std::time::Duration` ────────────────────────────────────────────

/// The value of `Duration::from_secs(secs)`.
pub uninterp spec fn duration_of_secs(secs: u64) -> Duration;

/// The value of `d.as_secs()`: the whole seconds of `d`.
pub uninterp spec fn duration_secs(d: Duration) -> u64;

/// Calls `Duration::from_secs`. Trusted: the result is the duration named
/// `duration_of_secs(secs)`, and its whole seconds are `secs` (std documents
/// `from_secs` as building a duration of that many whole seconds).
#[verifier::external_body]
pub(crate) fn duration_from_secs(secs: u64) -> (d: Duration)
    ensures
        d == duration_of_secs(secs),
        duration_secs(d) == secs,
{
    Duration::from_secs(secs)
}

/// Calls `Duration::as_secs`. Trusted: the result is `duration_secs(*d)`.
#[verifier::external_body]
pub(crate) fn duration_as_secs(d: &Duration) -> (secs: u64)
    ensures
        secs == duration_secs(*d),
{
    d.as_secs()
}

// ── The grammar ───────────────────────────────────────────────────────────────

/// How a duration string ends up: a total in seconds, or the first fault met.
pub enum ScanOutcome {
    Total(int),
    ExpectedNumber(Seq<char>),
    TooLarge,
    UnknownUnit(char),
}

/// The number of decimal digits at the start of `s`.
pub open spec fn leading_digits(s: Seq<char>) -> nat
    decreases s.len(),
{
    if s.len() > 0 && is_digit(s[0]) {
        1 + leading_digits(s.drop_first())
    } else {
        0
    }
}

pub open spec fn is_unit(c: char) -> bool {
    c == 'h' || c == 'm' || c == 's'
}

/// `n` units of `c` in seconds.
pub open spec fn unit_amount(n: int, c: char) -> int {
    if c == 'h' {
        n * 3600
    } else if c == 'm' {
        n * 60
    } else {
        n
    }
}

/// Reads `number unit number unit ... [number]` from `rest`, adding to `acc`.
/// The second component is the largest running total that the reading
/// computes; the totals only grow, so it is the last one.
pub open spec fn scan(rest: Seq<char>, acc: int) -> (ScanOutcome, int)
    decreases rest.len(),
{
    let k = leading_digits(rest);
    if k == 0 {
        (ScanOutcome::ExpectedNumber(rest), acc)
    } else {
        let n = digits_value(rest.take(k as int));
        if n > u64::MAX {
            (ScanOutcome::TooLarge, acc)
        } else if k >= rest.len() {
            (ScanOutcome::Total(acc + n * 60), acc + n * 60)
        } else if !is_unit(rest[k as int]) {
            (ScanOutcome::UnknownUnit(rest[k as int]), acc)
        } else if k + 1 >= rest.len() {
            (
                ScanOutcome::Total(acc + unit_amount(n as int, rest[k as int])),
                acc + unit_amount(n as int, rest[k as int]),
            )
        } else {
            scan(rest.skip(k as int + 1), acc + unit_amount(n as int, rest[k as int]))
        }
    }
}

/// The words that mean "no time limit" (after trimming).
pub open spec fn is_indefinite(t: Seq<char>) -> bool {
    t.len() == 0 || t == "inf"@ || t == "∞"@ || t == "forever"@ || t == "indefinite"@
}

pub open spec fn expected_number_message(rest: Seq<char>) -> Seq<char> {
    "expected a number, got '"@ + rest + "'"@
}

pub open spec fn too_large_message() -> Seq<char> {
    "number too large: number too large to fit in target type"@
}

pub open spec fn unknown_unit_message(c: char) -> Seq<char> {
    "unknown unit '"@ + seq![c] + "', expected h/m/s"@
}

pub open spec fn not_positive_message() -> Seq<char> {
    "duration must be greater than zero"@
}

/// What `parse` gives for `s`: `Ok(None)` for an indefinite session,
/// `Ok(Some(n))` for `n` seconds, or the error message.
pub open spec fn parse_spec(s: Seq<char>) -> Result<Option<nat>, Seq<char>> {
    let t = trim(s);
    if is_indefinite(t) {
        Ok(None)
    } else {
        match scan(t, 0).0 {
            ScanOutcome::Total(n) => if n == 0 {
                Err(not_positive_message())
            } else {
                Ok(Some(n as nat))
            },
            ScanOutcome::ExpectedNumber(rest) => Err(expected_number_message(rest)),
            ScanOutcome::TooLarge => Err(too_large_message()),
            ScanOutcome::UnknownUnit(c) => Err(unknown_unit_message(c)),
        }
    }
}

/// Whether reading `s` computes a running total past `u64::MAX`, where the
/// seconds counter overflows.
pub open spec fn overflows(s: Seq<char>) -> bool {
    let t = trim(s);
    !is_indefinite(t) && scan(t, 0).1 > u64::MAX
}

/// The text `fmt` writes for `total` seconds.
pub open spec fn fmt_spec(total: nat) -> Seq<char> {
    let h = total / 3600;
    let m = (total % 3600) / 60;
    let s = total % 60;
    if h > 0 && m == 0 && s == 0 {
        decimal(h) + seq!['h']
    } else if h > 0 && s == 0 {
        decimal(h) + seq!['h'] + decimal(m) + seq!['m']
    } else if h == 0 && m > 0 && s == 0 {
        decimal(m) + seq!['m']
    } else if h == 0 && m > 0 {
        decimal(m) + seq!['m'] + decimal(s) + seq!['s']
    } else if h == 0 && m == 0 {
        decimal(s) + seq!['s']
    } else {
        decimal(h) + seq!['h'] + decimal(m) + seq!['m']
    }
}

// ── Lemmas ────────────────────────────────────────────────────────────────────

proof fn lemma_scan_peak(rest: Seq<char>, acc: int)
    requires
        acc >= 0,
    ensures
        scan(rest, acc).1 >= acc,
        scan(rest, acc).0 matches ScanOutcome::Total(n) ==> n == scan(rest, acc).1,
    decreases rest.len(),
{
    let k = leading_digits(rest);
    if k > 0 && k < rest.len() && digits_value(rest.take(k as int)) <= u64::MAX && is_unit(
        rest[k as int],
    ) && k + 1 < rest.len() {
        lemma_scan_peak(
            rest.skip(k as int + 1),
            acc + unit_amount(digits_value(rest.take(k as int)) as int, rest[k as int]),
        );
    }
}

proof fn lemma_leading_digits_bound(s: Seq<char>)
    ensures
        leading_digits(s) <= s.len(),
        all_digits(s.take(leading_digits(s) as int)),
        leading_digits(s) < s.len() ==> !is_digit(s[leading_digits(s) as int]),
    decreases s.len(),
{
    if s.len() > 0 && is_digit(s[0]) {
        lemma_leading_digits_bound(s.drop_first());
        let k = leading_digits(s);
        assert forall|i: int| 0 <= i < k implies is_digit(#[trigger] s.take(k as int)[i]) by {
            if i > 0 {
                assert(s.take(k as int)[i] == s.drop_first().take(k - 1)[i - 1]);
            }
        }
        if k < s.len() {
            assert(s[k as int] == s.drop_first()[k - 1]);
        }
    }
}

proof fn lemma_leading_digits_concat(d: Seq<char>, r: Seq<char>)
    requires
        all_digits(d),
        r.len() == 0 || !is_digit(r[0]),
    ensures
        leading_digits(d + r) == d.len(),
    decreases d.len(),
{
    if d.len() > 0 {
        assert((d + r).drop_first() =~= d.drop_first() + r);
        lemma_leading_digits_concat(d.drop_first(), r);
    } else {
        assert(d + r =~= r);
    }
}

/// Reading one `number unit` token that ends the input.
proof fn lemma_scan_last_token(n: nat, c: char, acc: int)
    requires
        n <= u64::MAX,
        is_unit(c),
    ensures
        scan(decimal(n) + seq![c], acc) == (
            ScanOutcome::Total(acc + unit_amount(n as int, c)),
            acc + unit_amount(n as int, c),
        ),
{
    lemma_decimal(n);
    let s = decimal(n) + seq![c];
    lemma_leading_digits_concat(decimal(n), seq![c]);
    assert(s.take(decimal(n).len() as int) =~= decimal(n));
    assert(s[decimal(n).len() as int] == c);
}

/// Reading one `number unit` token followed by more input.
proof fn lemma_scan_token(n: nat, c: char, rest: Seq<char>, acc: int)
    requires
        n <= u64::MAX,
        is_unit(c),
        rest.len() > 0,
    ensures
        scan(decimal(n) + seq![c] + rest, acc) == scan(rest, acc + unit_amount(n as int, c)),
{
    lemma_decimal(n);
    let s = decimal(n) + seq![c] + rest;
    assert(s =~= decimal(n) + (seq![c] + rest));
    lemma_leading_digits_concat(decimal(n), seq![c] + rest);
    assert(s.take(decimal(n).len() as int) =~= decimal(n));
    assert(s[decimal(n).len() as int] == c);
    assert(s.skip(decimal(n).len() as int + 1) =~= rest);
}

proof fn lemma_not_indefinite(t: Seq<char>)
    requires
        t.len() > 0,
        is_digit(t[0]),
    ensures
        !is_indefinite(t),
{
    reveal_strlit("inf");
    reveal_strlit("∞");
    reveal_strlit("forever");
    reveal_strlit("indefinite");
    assert(t != "inf"@ && t != "∞"@ && t != "forever"@ && t != "indefinite"@) by {
        if t == "inf"@ {
            assert(t[0] == 'i');
        }
        if t == "∞"@ {
            assert(t[0] == '∞');
        }
        if t == "forever"@ {
            assert(t[0] == 'f');
        }
        if t == "indefinite"@ {
            assert(t[0] == 'i');
        }
    }
}

proof fn lemma_trim_token_text(t: Seq<char>)
    requires
        t.len() > 0,
        is_digit(t[0]),
        is_unit(t.last()) || is_digit(t.last()),
    ensures
        trim(t) == t,
{
    assert(trim_start(t) == t);
}

/// A bare decimal number means that many minutes.
pub proof fn lemma_bare_number_is_minutes(n: nat)
    requires
        0 < n,
        n * 60 <= u64::MAX,
    ensures
        parse_spec(decimal(n)) == Ok::<Option<nat>, Seq<char>>(Some(n * 60)),
        !overflows(decimal(n)),
{
    lemma_decimal(n);
    let t = decimal(n);
    lemma_leading_digits_concat(t, Seq::<char>::empty());
    assert(t + Seq::<char>::empty() =~= t);
    assert(t.take(t.len() as int) =~= t);
    lemma_trim_token_text(t);
    lemma_not_indefinite(t);
}

/// Reading back what `fmt` writes gives the same number of seconds, for every
/// positive total that `fmt` writes in full: under an hour, or a whole number
/// of minutes.
pub proof fn lemma_fmt_parse_roundtrip(total: nat)
    requires
        0 < total <= u64::MAX,
        total < 3600 || total % 60 == 0,
    ensures
        parse_spec(fmt_spec(total)) == Ok::<Option<nat>, Seq<char>>(Some(total)),
        !overflows(fmt_spec(total)),
{
    let h = total / 3600;
    let m = (total % 3600) / 60;
    let s = total % 60;
    assert(total == h * 3600 + m * 60 + s);
    assert(h <= u64::MAX && m <= u64::MAX && s <= u64::MAX);
    let t = fmt_spec(total);
    if h > 0 && m == 0 && s == 0 {
        lemma_scan_last_token(h, 'h', 0);
        lemma_decimal(h);
        assert(t[0] == decimal(h)[0]);
    } else if h > 0 && s == 0 {
        lemma_scan_last_token(m, 'm', (h * 3600) as int);
        lemma_scan_token(h, 'h', decimal(m) + seq!['m'], 0);
        assert(t =~= decimal(h) + seq!['h'] + (decimal(m) + seq!['m']));
        lemma_decimal(h);
        assert(t[0] == decimal(h)[0]);
    } else if h == 0 && m > 0 && s == 0 {
        lemma_scan_last_token(m, 'm', 0);
        lemma_decimal(m);
        assert(t[0] == decimal(m)[0]);
    } else if h == 0 && m > 0 {
        lemma_scan_last_token(s, 's', (m * 60) as int);
        lemma_scan_token(m, 'm', decimal(s) + seq!['s'], 0);
        assert(t =~= decimal(m) + seq!['m'] + (decimal(s) + seq!['s']));
        lemma_decimal(m);
        assert(t[0] == decimal(m)[0]);
    } else {
        lemma_scan_last_token(s, 's', 0);
        lemma_decimal(s);
        assert(t[0] == decimal(s)[0]);
    }
    lemma_trim_token_text(t);
    lemma_not_indefinite(t);
}

/// `parse` never yields a zero-length session.
pub proof fn lemma_parse_positive(s: Seq<char>)
    ensures
        parse_spec(s) matches Ok(Some(n)) ==> n > 0,
{
    lemma_scan_peak(trim(s), 0);
}

// ── Executable ────────────────────────────────────────────────────────────────

/// The reading of a duration string, by character positions.
enum Scanned {
    Total(u64),
    Overflow,
    ExpectedNumber(usize),
    TooLarge,
    UnknownUnit(char),
    ExpectedUnit,
}

spec fn scanned_agrees(r: Scanned, v: Seq<char>, lo: int, hi: int) -> bool {
    let (o, peak) = scan(v.subrange(lo, hi), 0);
    match r {
        Scanned::Overflow => peak > u64::MAX,
        Scanned::Total(n) => peak <= u64::MAX && o == ScanOutcome::Total(n as int),
        Scanned::ExpectedNumber(p) => peak <= u64::MAX && lo <= p <= hi && o
            == ScanOutcome::ExpectedNumber(v.subrange(p as int, hi)),
        Scanned::TooLarge => peak <= u64::MAX && o == ScanOutcome::TooLarge,
        Scanned::UnknownUnit(c) => peak <= u64::MAX && o == ScanOutcome::UnknownUnit(c),
        Scanned::ExpectedUnit => false,
    }
}

/// The end of the run of digits that starts at `pos`.
fn digit_run_end(v: &Vec<char>, pos: usize, hi: usize) -> (end: usize)
    requires
        pos <= hi <= v.len(),
    ensures
        pos <= end <= hi,
        end - pos == leading_digits(v@.subrange(pos as int, hi as int)),
{
    let mut j = pos;
    while j < hi && is_digit_char(v[j])
        invariant
            pos <= j <= hi <= v.len(),
            leading_digits(v@.subrange(pos as int, hi as int)) == (j - pos) + leading_digits(
                v@.subrange(j as int, hi as int),
            ),
        decreases hi - j,
    {
        assert(v@.subrange(j as int, hi as int).drop_first() =~= v@.subrange(
            (j + 1) as int,
            hi as int,
        ));
        j = j + 1;
    }
    j
}

/// Reads the number at `pos`: its value and where it ends, or the fault.
fn parse_num(v: &Vec<char>, pos: usize, hi: usize) -> (r: Result<(u64, usize), Scanned>)
    requires
        pos < hi <= v.len(),
    ensures
        ({
            let rest = v@.subrange(pos as int, hi as int);
            let k = leading_digits(rest);
            match r {
                Ok((n, end)) => k > 0 && end == pos + k && n == digits_value(rest.take(k as int)),
                Err(Scanned::ExpectedNumber(p)) => k == 0 && p == pos,
                Err(Scanned::TooLarge) => k > 0 && digits_value(rest.take(k as int)) > u64::MAX,
                _ => false,
            }
        }),
{
    let ghost rest = v@.subrange(pos as int, hi as int);
    let end = digit_run_end(v, pos, hi);
    if end == pos {
        return Err(Scanned::ExpectedNumber(pos));
    }
    proof {
        lemma_leading_digits_bound(rest);
    }
    assert(rest.take((end - pos) as int) =~= v@.subrange(pos as int, end as int));
    assert(crate::text::unsigned_body(v@.subrange(pos as int, end as int)) == v@.subrange(
        pos as int,
        end as int,
    ));
    match crate::text::parse_unsigned_range(v, pos, end, u64::MAX) {
        Some(n) => Ok((n, end)),
        None => Err(Scanned::TooLarge),
    }
}

/// Reads the unit at `pos` of `v[..hi]`: the number of seconds it stands
/// for, or the fault (an unknown unit, or nothing left to read).
fn parse_unit(v: &Vec<char>, pos: usize, hi: usize) -> (r: Result<u64, Scanned>)
    requires
        hi <= v.len(),
    ensures
        match r {
            Ok(u) => pos < hi && is_unit(v@[pos as int]) && forall|n: int|
                #[trigger] unit_amount(n, v@[pos as int]) == n * u,
            Err(Scanned::UnknownUnit(c)) => pos < hi && c == v@[pos as int] && !is_unit(c),
            Err(Scanned::ExpectedUnit) => pos >= hi,
            _ => false,
        },
{
    if pos >= hi {
        return Err(Scanned::ExpectedUnit);
    }
    let c = v[pos];
    if c == 'h' {
        Ok(3600)
    } else if c == 'm' {
        Ok(60)
    } else if c == 's' {
        Ok(1)
    } else {
        Err(Scanned::UnknownUnit(c))
    }
}

fn scan_range(v: &Vec<char>, lo: usize, hi: usize) -> (r: Scanned)
    requires
        lo < hi <= v.len(),
    ensures
        scanned_agrees(r, v@, lo as int, hi as int),
{
    let mut pos = lo;
    let mut acc: u64 = 0;
    loop
        invariant
            lo <= pos < hi <= v.len(),
            scan(v@.subrange(lo as int, hi as int), 0) == scan(
                v@.subrange(pos as int, hi as int),
                acc as int,
            ),
        decreases hi - pos,
    {
        let ghost rest = v@.subrange(pos as int, hi as int);
        proof {
            lemma_leading_digits_bound(rest);
            lemma_scan_peak(rest, acc as int);
        }
        let (n, end) = match parse_num(v, pos, hi) {
            Ok(x) => x,
            Err(e) => {
                return e;
            },
        };
        if end == hi {
            // A bare number counts minutes.
            let total: u128 = acc as u128 + n as u128 * 60;
            if total > u64::MAX as u128 {
                return Scanned::Overflow;
            }
            return Scanned::Total(total as u64);
        }
        assert(rest[(end - pos) as int] == v@[end as int]);
        let unit = match parse_unit(v, end, hi) {
            Ok(u) => u,
            Err(e) => {
                return e;
            },
        };
        let total: u128 = acc as u128 + n as u128 * unit as u128;
        assert(unit_amount(n as int, v@[end as int]) == n * unit);
        if end + 1 == hi {
            if total > u64::MAX as u128 {
                return Scanned::Overflow;
            }
            return Scanned::Total(total as u64);
        }
        assert(rest.skip((end - pos) as int + 1) =~= v@.subrange((end + 1) as int, hi as int));
        proof {
            lemma_scan_peak(v@.subrange((end + 1) as int, hi as int), total as int);
        }
        if total > u64::MAX as u128 {
            return Scanned::Overflow;
        }
        acc = total as u64;
        pos = end + 1;
    }
}

/// Whether `v[lo..hi]` is one of the words meaning "indefinite".
fn is_indefinite_range(v: &Vec<char>, lo: usize, hi: usize) -> (r: bool)
    requires
        lo <= hi <= v.len(),
    ensures
        r == is_indefinite(v@.subrange(lo as int, hi as int)),
{
    lo == hi || range_eq_str(v, lo, hi, "inf") || range_eq_str(v, lo, hi, "∞") || range_eq_str(
        v,
        lo,
        hi,
        "forever",
    ) || range_eq_str(v, lo, hi, "indefinite")
}

/// Whether `parse` would overflow its seconds counter on `s`; `parse`
/// requires that it does not.
pub fn parse_overflows(s: &str) -> (r: bool)
    ensures
        r == overflows(s@),
{
    let v = chars_of(s);
    let (lo, hi) = trim_range(&v, 0, v.len());
    assert(v@.subrange(0, v.len() as int) =~= s@);
    if is_indefinite_range(&v, lo, hi) {
        return false;
    }
    match scan_range(&v, lo, hi) {
        Scanned::Overflow => true,
        _ => false,
    }
}

/// Parse human-readable duration strings.
///
/// Supported formats:
/// - `30`      → 30 minutes (plain number = minutes)
/// - `30m`     → 30 minutes
/// - `2h`      → 2 hours
/// - `90s`     → 90 seconds
/// - `1h30m`   → 1 hour 30 minutes
/// - `inf`, `∞`, or omitted → indefinite (returns Ok(None))
pub fn parse(s: &str) -> (res: Result<Option<Duration>, String>)
    requires
        !overflows(s@),
    ensures
        match parse_spec(s@) {
            Ok(None) => res matches Ok(None),
            Ok(Some(n)) => res matches Ok(Some(d)) && d == duration_of_secs(n as u64)
                && duration_secs(d) == n,
            Err(m) => res matches Err(e) && e@ == m,
        },
{
    let v = chars_of(s);
    let (lo, hi) = trim_range(&v, 0, v.len());
    assert(v@.subrange(0, v.len() as int) =~= s@);
    if is_indefinite_range(&v, lo, hi) {
        return Ok(None);
    }
    match scan_range(&v, lo, hi) {
        Scanned::Total(n) => {
            if n == 0 {
                Err(String::from_str("duration must be greater than zero"))
            } else {
                Ok(Some(duration_from_secs(n)))
            }
        },
        Scanned::Overflow | Scanned::ExpectedUnit => {
            assert(false);
            Err(String::new())
        },
        Scanned::ExpectedNumber(p) => {
            let mut m = String::from_str("expected a number, got '");
            push_range(&mut m, &v, p, hi);
            m.append("'");
            Err(m)
        },
        Scanned::TooLarge => Err(
            String::from_str("number too large: number too large to fit in target type"),
        ),
        Scanned::UnknownUnit(c) => {
            let mut m = String::from_str("unknown unit '");
            push_char(&mut m, c);
            m.append("', expected h/m/s");
            Err(m)
        },
    }
}

/// The compact text for `total` seconds.
pub fn fmt_total(total: u128) -> (r: String)
    ensures
        r@ == fmt_spec(total as nat),
{
    let h = total / 3600;
    let m = (total % 3600) / 60;
    let s = total % 60;
    let mut out = String::new();
    if h > 0 && m == 0 && s == 0 {
        push_decimal(&mut out, h);
        push_char(&mut out, 'h');
    } else if h > 0 && s == 0 {
        push_decimal(&mut out, h);
        push_char(&mut out, 'h');
        push_decimal(&mut out, m);
        push_char(&mut out, 'm');
    } else if h == 0 && m > 0 && s == 0 {
        push_decimal(&mut out, m);
        push_char(&mut out, 'm');
    } else if h == 0 && m > 0 {
        push_decimal(&mut out, m);
        push_char(&mut out, 'm');
        push_decimal(&mut out, s);
        push_char(&mut out, 's');
    } else if h == 0 && m == 0 {
        push_decimal(&mut out, s);
        push_char(&mut out, 's');
    } else {
        push_decimal(&mut out, h);
        push_char(&mut out, 'h');
        push_decimal(&mut out, m);
        push_char(&mut out, 'm');
    }
    assert(out@ =~= fmt_spec(total as nat));
    out
}

/// Format a Duration into a compact human-readable string.
/// Examples: "2h", "1h30m", "23m", "45s"
pub fn fmt(d: Duration) -> (r: String)
    ensures
        r@ == fmt_spec(duration_secs(d) as nat),
{
    let total = duration_as_secs(&d);
    fmt_total(total as u128)
}

} // verus!
