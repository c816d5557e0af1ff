//! Deciding whether the latest published release is newer than this build.
use vstd::prelude::*;

use crate::text::{chars_of, field_rest, lemma_nth_field_succ, next_field, nth_field, parse_u32, parse_unsigned_range};

verus! {

// ── Trusted: serde_json ───────────────────────────────────────────────────────

/// The `tag_name` string of the JSON object `body`, as serde_json reads it;
/// `None` when `body` is not JSON or has no string `tag_name`.
pub uninterp spec fn release_tag_name(body: Seq<char>) -> Option<Seq<char>>;

/// Calls `serde_json::from_str::<serde_json::Value>`, then `Value::get("tag_name")`
/// and `Value::as_str`. Trusted: the result is `release_tag_name(body@)`; what
/// serde_json accepts as JSON is not restated here.
#[verifier::external_body]
fn json_tag_name(body: &str) -> (r: Option<String>)
    ensures
        match r {
            Some(t) => release_tag_name(body@) == Some(t@),
            None => release_tag_name(body@) == None::<Seq<char>>,
        },
{
    let value: serde_json::Value = serde_json::from_str(body).ok()?;
    let tag = value.get("tag_name")?.as_str()?;
    Some(tag.to_string())
}

// ── Versions ──────────────────────────────────────────────────────────────────

/// Component `k` of a dotted version: `s.split('.')`'s `k`-th item read as a
/// `u32`, or 0 when it is missing or not a number.
pub open spec fn version_part(s: Seq<char>, k: nat) -> u32 {
    match nth_field(s, '.', k) {
        Some(f) => match parse_u32(f) {
            Some(n) => n,
            None => 0,
        },
        None => 0,
    }
}

pub open spec fn version_triple(s: Seq<char>) -> (u32, u32, u32) {
    (version_part(s, 0), version_part(s, 1), version_part(s, 2))
}

/// The lexicographic order of `(major, minor, patch)` triples.
pub open spec fn triple_gt(a: (u32, u32, u32), b: (u32, u32, u32)) -> bool {
    a.0 > b.0 || (a.0 == b.0 && (a.1 > b.1 || (a.1 == b.1 && a.2 > b.2)))
}

pub open spec fn semver_gt_spec(a: Seq<char>, b: Seq<char>) -> bool {
    triple_gt(version_triple(a), version_triple(b))
}

/// `s` without its leading `v` characters (`str::trim_start_matches('v')`).
pub open spec fn trim_leading_v(s: Seq<char>) -> Seq<char>
    decreases s.len(),
{
    if s.len() > 0 && s[0] == 'v' {
        trim_leading_v(s.drop_first())
    } else {
        s
    }
}

fn field_value(v: &Vec<char>, lo: usize, hi: usize) -> (r: u32)
    requires
        lo <= hi <= v.len(),
    ensures
        r == match parse_u32(v@.subrange(lo as int, hi as int)) {
            Some(n) => n,
            None => 0,
        },
{
    match parse_unsigned_range(v, lo, hi, u32::MAX as u64) {
        Some(n) => n as u32,
        None => 0,
    }
}

fn version_triple_of(s: &str) -> (r: (u32, u32, u32))
    ensures
        r == version_triple(s@),
{
    let v = chars_of(s);
    let hi = v.len();
    let ghost s0 = v@.subrange(0, hi as int);
    assert(s0 =~= s@);
    let (end0, next0) = next_field(&v, 0, hi, '.');
    let major = field_value(&v, 0, end0);
    proof {
        lemma_nth_field_succ(s0, '.', 0);
        lemma_nth_field_succ(s0, '.', 1);
    }
    let n1 = match next0 {
        Some(n) => n,
        None => {
            return (major, 0, 0);
        },
    };
    let ghost s1 = v@.subrange(n1 as int, hi as int);
    let (end1, next1) = next_field(&v, n1, hi, '.');
    let minor = field_value(&v, n1, end1);
    proof {
        lemma_nth_field_succ(s1, '.', 0);
    }
    let n2 = match next1 {
        Some(n) => n,
        None => {
            return (major, minor, 0);
        },
    };
    let (end2, _next2) = next_field(&v, n2, hi, '.');
    let patch = field_value(&v, n2, end2);
    (major, minor, patch)
}

/// Whether version `a` is newer than version `b`, comparing
/// `(major, minor, patch)` in order.
pub fn semver_gt(a: &str, b: &str) -> (r: bool)
    ensures
        r == semver_gt_spec(a@, b@),
{
    let x = version_triple_of(a);
    let y = version_triple_of(b);
    x.0 > y.0 || (x.0 == y.0 && (x.1 > y.1 || (x.1 == y.1 && x.2 > y.2)))
}

fn without_leading_v(s: &str) -> (r: String)
    ensures
        r@ == trim_leading_v(s@),
{
    let v = chars_of(s);
    let mut i: usize = 0;
    assert(v@.subrange(0, v.len() as int) =~= s@);
    while i < v.len() && v[i] == 'v'
        invariant
            i <= v.len(),
            v@ == s@,
            trim_leading_v(v@.subrange(i as int, v.len() as int)) == trim_leading_v(s@),
        decreases v.len() - i,
    {
        assert(v@.subrange(i as int, v.len() as int).drop_first() =~= v@.subrange(
            (i + 1) as int,
            v.len() as int,
        ));
        i = i + 1;
    }
    let mut out = String::new();
    crate::text::push_range(&mut out, &v, i, v.len());
    assert(out@ =~= v@.subrange(i as int, v.len() as int));
    out
}

/// The release `tag` when it names a newer version than `current` (the tag's
/// leading `v` is ignored), else `None`.
pub fn newer_tag(tag: &str, current: &str) -> (r: Option<String>)
    ensures
        r is Some <==> semver_gt_spec(trim_leading_v(tag@), current@),
        r matches Some(t) ==> t@ == tag@,
{
    let latest = without_leading_v(tag);
    if semver_gt(latest.as_str(), current) {
        Some(String::from_str(tag))
    } else {
        None
    }
}

/// Given the body of the GitHub "latest release" response, the release tag
/// when it is newer than `current`, else `None`.
pub fn newer_release(body: &str, current: &str) -> (r: Option<String>)
    ensures
        match release_tag_name(body@) {
            None => r is None,
            Some(tag) => (r is Some <==> semver_gt_spec(trim_leading_v(tag), current@)) && (r matches Some(t) ==> t@ == tag),
        },
{
    match json_tag_name(body) {
        Some(tag) => newer_tag(tag.as_str(), current),
        None => None,
    }
}

// ── Laws ──────────────────────────────────────────────────────────────────────

/// No version is newer than itself.
pub proof fn lemma_semver_irreflexive(a: Seq<char>)
    ensures
        !semver_gt_spec(a, a),
{
}

/// Of two versions, at most one is newer than the other.
pub proof fn lemma_semver_asymmetric(a: Seq<char>, b: Seq<char>)
    ensures
        !(semver_gt_spec(a, b) && semver_gt_spec(b, a)),
{
}

/// "Newer than" is transitive.
pub proof fn lemma_semver_transitive(a: Seq<char>, b: Seq<char>, c: Seq<char>)
    requires
        semver_gt_spec(a, b),
        semver_gt_spec(b, c),
    ensures
        semver_gt_spec(a, c),
{
}

} // verus!
