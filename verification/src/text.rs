//! Character-level building blocks shared by the parsers and formatters:
//! decimal and hexadecimal numerals, Rust's unsigned-integer and `bool`
//! text syntax, line and field splitting, and whitespace trimming.
use vstd::prelude::*;

verus! {

// ── Digits ────────────────────────────────────────────────────────────────────

pub open spec fn is_digit(c: char) -> bool {
    '0' <= c && c <= '9'
}

pub open spec fn digit_value(c: char) -> nat {
    (c as int - '0' as int) as nat
}

/// The lower-case hexadecimal digit for `d` (the decimal digit when `d < 10`).
pub open spec fn digit_char(d: nat) -> char {
    if d == 0 { '0' }
    else if d == 1 { '1' }
    else if d == 2 { '2' }
    else if d == 3 { '3' }
    else if d == 4 { '4' }
    else if d == 5 { '5' }
    else if d == 6 { '6' }
    else if d == 7 { '7' }
    else if d == 8 { '8' }
    else if d == 9 { '9' }
    else if d == 10 { 'a' }
    else if d == 11 { 'b' }
    else if d == 12 { 'c' }
    else if d == 13 { 'd' }
    else if d == 14 { 'e' }
    else { 'f' }
}

pub open spec fn all_digits(s: Seq<char>) -> bool {
    forall|i: int| 0 <= i < s.len() ==> is_digit(#[trigger] s[i])
}

/// The number that a string of decimal digits denotes.
pub open spec fn digits_value(s: Seq<char>) -> nat
    decreases s.len(),
{
    if s.len() == 0 {
        0
    } else {
        digits_value(s.drop_last()) * 10 + digit_value(s.last())
    }
}

/// The decimal numeral of `n`, without sign or leading zeros.
pub open spec fn decimal(n: nat) -> Seq<char>
    decreases n,
{
    if n < 10 {
        seq![digit_char(n)]
    } else {
        decimal(n / 10).push(digit_char(n % 10))
    }
}

/// The lower-case hexadecimal numeral of `n`, without prefix or leading zeros.
pub open spec fn hexadecimal(n: nat) -> Seq<char>
    decreases n,
{
    if n < 16 {
        seq![digit_char(n)]
    } else {
        hexadecimal(n / 16).push(digit_char(n % 16))
    }
}

pub proof fn lemma_digit_char(d: nat)
    requires
        d < 10,
    ensures
        is_digit(digit_char(d)),
        digit_value(digit_char(d)) == d,
{
}

pub proof fn lemma_decimal(n: nat)
    ensures
        decimal(n).len() > 0,
        all_digits(decimal(n)),
        digits_value(decimal(n)) == n,
        decimal(n)[0] != '+',
    decreases n,
{
    lemma_digit_char(n % 10);
    if n >= 10 {
        lemma_decimal(n / 10);
        let d = decimal(n);
        assert(d.drop_last() =~= decimal(n / 10));
        assert(d[0] == decimal(n / 10)[0]);
        assert(d.last() == digit_char(n % 10));
        assert(digits_value(d) == digits_value(decimal(n / 10)) * 10 + digit_value(
            digit_char(n % 10),
        ));
        assert((n / 10) * 10 + n % 10 == n);
    } else {
        let d = decimal(n);
        assert(d.drop_last() =~= Seq::<char>::empty());
        assert(digits_value(d.drop_last()) == 0);
        assert(d.last() == digit_char(n));
        assert(n % 10 == n);
    }
}

// ── Unsigned integers and booleans as Rust's `FromStr` reads them ─────────────

/// The text after the optional leading `+` that `u32`/`u64` parsing accepts.
pub open spec fn unsigned_body(s: Seq<char>) -> Seq<char> {
    if s.len() > 0 && s[0] == '+' {
        s.drop_first()
    } else {
        s
    }
}

/// What `str::parse` of an unsigned integer reads, before the range check:
/// an optional `+` followed by at least one decimal digit and nothing else.
pub open spec fn unsigned_value(s: Seq<char>) -> Option<nat> {
    let b = unsigned_body(s);
    if b.len() > 0 && all_digits(b) {
        Some(digits_value(b))
    } else {
        None
    }
}

/// `s.parse::<u32>().ok()`.
pub open spec fn parse_u32(s: Seq<char>) -> Option<u32> {
    match unsigned_value(s) {
        Some(n) => if n <= u32::MAX {
            Some(n as u32)
        } else {
            None
        },
        None => None,
    }
}

/// `s.parse::<u64>().ok()`.
pub open spec fn parse_u64(s: Seq<char>) -> Option<u64> {
    match unsigned_value(s) {
        Some(n) => if n <= u64::MAX {
            Some(n as u64)
        } else {
            None
        },
        None => None,
    }
}

/// `s.parse::<bool>().ok()`: exactly `true` or `false`.
pub open spec fn parse_bool(s: Seq<char>) -> Option<bool> {
    if s == seq!['t', 'r', 'u', 'e'] {
        Some(true)
    } else if s == seq!['f', 'a', 'l', 's', 'e'] {
        Some(false)
    } else {
        None
    }
}

/// How `format!("{}", b)` writes a `bool`.
pub open spec fn bool_text(b: bool) -> Seq<char> {
    if b {
        seq!['t', 'r', 'u', 'e']
    } else {
        seq!['f', 'a', 'l', 's', 'e']
    }
}

pub proof fn lemma_unsigned_decimal(n: nat)
    ensures
        unsigned_value(decimal(n)) == Some(n),
{
    lemma_decimal(n);
}

// ── Searching, lines and fields ──────────────────────────────────────────────

/// The index of the first `c` in `s`, or `s.len()` when there is none.
pub open spec fn index_of(s: Seq<char>, c: char) -> nat
    decreases s.len(),
{
    if s.len() == 0 {
        0
    } else if s[0] == c {
        0
    } else {
        1 + index_of(s.drop_first(), c)
    }
}

pub proof fn lemma_index_of(s: Seq<char>, c: char)
    ensures
        index_of(s, c) <= s.len(),
        index_of(s, c) < s.len() ==> s[index_of(s, c) as int] == c,
        forall|i: int| 0 <= i < index_of(s, c) ==> s[i] != c,
    decreases s.len(),
{
    if s.len() > 0 && s[0] != c {
        lemma_index_of(s.drop_first(), c);
        assert forall|i: int| 0 <= i < index_of(s, c) implies s[i] != c by {
            if i > 0 {
                assert(s[i] == s.drop_first()[i - 1]);
            }
        }
    }
}

/// `l` with one trailing carriage return removed.
pub open spec fn strip_cr(l: Seq<char>) -> Seq<char> {
    if l.len() > 0 && l.last() == '\r' {
        l.drop_last()
    } else {
        l
    }
}

/// The `k`-th item of `str::lines`: lines end at `\n` or `\r\n`, and a final
/// line ending is optional.
pub open spec fn nth_line(s: Seq<char>, k: nat) -> Option<Seq<char>>
    decreases s.len(),
{
    if s.len() == 0 {
        None
    } else {
        let i = index_of(s, '\n');
        if i < s.len() {
            if k == 0 {
                Some(strip_cr(s.take(i as int)))
            } else {
                nth_line(s.skip(i as int + 1), (k - 1) as nat)
            }
        } else if k == 0 {
            Some(s)
        } else {
            None
        }
    }
}

/// The `k`-th item of `str::split(sep)`.
pub open spec fn nth_field(s: Seq<char>, sep: char, k: nat) -> Option<Seq<char>>
    decreases s.len(),
{
    let i = index_of(s, sep);
    if k == 0 {
        Some(s.take(i as int))
    } else if i < s.len() {
        nth_field(s.skip(i as int + 1), sep, (k - 1) as nat)
    } else {
        None
    }
}

// ── Whitespace ────────────────────────────────────────────────────────────────

/// `char::is_whitespace`: the Unicode `White_Space` property.
pub open spec fn is_whitespace(c: char) -> bool {
    ('\u{9}' <= c && c <= '\u{d}') || c == ' ' || c == '\u{85}' || c == '\u{a0}' || c
        == '\u{1680}' || ('\u{2000}' <= c && c <= '\u{200a}') || c == '\u{2028}' || c
        == '\u{2029}' || c == '\u{202f}' || c == '\u{205f}' || c == '\u{3000}'
}

pub open spec fn trim_start(s: Seq<char>) -> Seq<char>
    decreases s.len(),
{
    if s.len() > 0 && is_whitespace(s[0]) {
        trim_start(s.drop_first())
    } else {
        s
    }
}

pub open spec fn trim_end(s: Seq<char>) -> Seq<char>
    decreases s.len(),
{
    if s.len() > 0 && is_whitespace(s.last()) {
        trim_end(s.drop_last())
    } else {
        s
    }
}

/// `str::trim`.
pub open spec fn trim(s: Seq<char>) -> Seq<char> {
    trim_end(trim_start(s))
}

// ── Executable helpers ───────────────────────────────────────────────────────

/// Calls `String::push`. Trusted: the string afterwards is the old one with
/// `c` appended.
#[verifier::external_body]
pub(crate) fn push_char(s: &mut String, c: char)
    ensures
        final(s)@ == old(s)@.push(c),
{
    s.push(c);
}

/// The characters of `s`.
pub fn chars_of(s: &str) -> (v: Vec<char>)
    ensures
        v@ == s@,
{
    let mut v: Vec<char> = Vec::new();
    for c in it: s.chars()
        invariant
            v@ == it.seq().take(it.index() as int),
    {
        v.push(c);
    }
    v
}

/// Appends `v[lo..hi]` to `out`.
pub fn push_range(out: &mut String, v: &Vec<char>, lo: usize, hi: usize)
    requires
        lo <= hi <= v.len(),
    ensures
        final(out)@ == old(out)@ + v@.subrange(lo as int, hi as int),
{
    let mut i = lo;
    while i < hi
        invariant
            lo <= i <= hi <= v.len(),
            out@ == old(out)@ + v@.subrange(lo as int, i as int),
        decreases hi - i,
    {
        push_char(out, v[i]);
        i = i + 1;
        assert(v@.subrange(lo as int, i as int) =~= v@.subrange(lo as int, (i - 1) as int).push(
            v@[i - 1],
        ));
    }
}

/// Whether `v[lo..hi]` spells `lit`.
pub fn range_eq_str(v: &Vec<char>, lo: usize, hi: usize, lit: &str) -> (r: bool)
    requires
        lo <= hi <= v.len(),
    ensures
        r == (v@.subrange(lo as int, hi as int) == lit@),
{
    let w = chars_of(lit);
    if hi - lo != w.len() {
        return false;
    }
    let mut i: usize = 0;
    while i < w.len()
        invariant
            lo <= hi <= v.len(),
            hi - lo == w.len(),
            w@ == lit@,
            forall|j: int| 0 <= j < i ==> v@[lo + j] == w@[j],
        decreases w.len() - i,
    {
        if v[lo + i] != w[i] {
            assert(v@.subrange(lo as int, hi as int)[i as int] != lit@[i as int]);
            return false;
        }
        i = i + 1;
    }
    assert(v@.subrange(lo as int, hi as int) =~= lit@);
    true
}

pub fn digit_char_of(d: u128) -> (c: char)
    requires
        d < 16,
    ensures
        c == digit_char(d as nat),
{
    if d == 0 { '0' }
    else if d == 1 { '1' }
    else if d == 2 { '2' }
    else if d == 3 { '3' }
    else if d == 4 { '4' }
    else if d == 5 { '5' }
    else if d == 6 { '6' }
    else if d == 7 { '7' }
    else if d == 8 { '8' }
    else if d == 9 { '9' }
    else if d == 10 { 'a' }
    else if d == 11 { 'b' }
    else if d == 12 { 'c' }
    else if d == 13 { 'd' }
    else if d == 14 { 'e' }
    else { 'f' }
}

/// Appends the decimal numeral of `n`.
pub fn push_decimal(out: &mut String, n: u128)
    ensures
        final(out)@ == old(out)@ + decimal(n as nat),
    decreases n,
{
    if n >= 10 {
        push_decimal(out, n / 10);
    }
    push_char(out, digit_char_of(n % 10));
    if n >= 10 {
        assert(decimal(n as nat) == decimal((n / 10) as nat).push(digit_char((n % 10) as nat)));
    }
    assert(final(out)@ =~= old(out)@ + decimal(n as nat));
}

/// Appends the lower-case hexadecimal numeral of `n`.
pub fn push_hexadecimal(out: &mut String, n: u128)
    ensures
        final(out)@ == old(out)@ + hexadecimal(n as nat),
    decreases n,
{
    if n >= 16 {
        push_hexadecimal(out, n / 16);
    }
    push_char(out, digit_char_of(n % 16));
    if n >= 16 {
        assert(hexadecimal(n as nat) == hexadecimal((n / 16) as nat).push(
            digit_char((n % 16) as nat),
        ));
    }
    assert(final(out)@ =~= old(out)@ + hexadecimal(n as nat));
}

pub fn is_digit_char(c: char) -> (r: bool)
    ensures
        r == is_digit(c),
{
    '0' <= c && c <= '9'
}

/// The value of the digits `v[lo..hi]`, or `max + 1` when that value exceeds `max`.
fn digits_value_capped(v: &Vec<char>, lo: usize, hi: usize, max: u64) -> (r: u128)
    requires
        lo <= hi <= v.len(),
        all_digits(v@.subrange(lo as int, hi as int)),
    ensures
        r == if digits_value(v@.subrange(lo as int, hi as int)) <= max {
            digits_value(v@.subrange(lo as int, hi as int)) as int
        } else {
            max + 1
        },
{
    let cap: u128 = max as u128 + 1;
    let mut acc: u128 = 0;
    let mut i = lo;
    while i < hi
        invariant
            lo <= i <= hi <= v.len(),
            cap == max + 1,
            all_digits(v@.subrange(lo as int, hi as int)),
            acc == if digits_value(v@.subrange(lo as int, i as int)) <= max {
                digits_value(v@.subrange(lo as int, i as int)) as int
            } else {
                max + 1
            },
        decreases hi - i,
    {
        let c = v[i];
        assert(is_digit(v@.subrange(lo as int, hi as int)[i - lo]));
        let d: u128 = (c as u32 - '0' as u32) as u128;
        let next = acc * 10 + d;
        acc = if next > cap { cap } else { next };
        let ghost prev = v@.subrange(lo as int, i as int);
        i = i + 1;
        let ghost cur = v@.subrange(lo as int, i as int);
        assert(cur.drop_last() =~= prev);
        assert(cur.last() == c);
        assert(digits_value(cur) == digits_value(prev) * 10 + digit_value(c));
    }
    acc
}

/// `v[lo..hi].parse::<uN>().ok()` for an unsigned type whose largest value is `max`.
pub fn parse_unsigned_range(v: &Vec<char>, lo: usize, hi: usize, max: u64) -> (r: Option<u64>)
    requires
        lo <= hi <= v.len(),
    ensures
        r == match unsigned_value(v@.subrange(lo as int, hi as int)) {
            Some(n) => if n <= max {
                Some(n as u64)
            } else {
                None
            },
            None => None,
        },
{
    let ghost s = v@.subrange(lo as int, hi as int);
    let start = if lo < hi && v[lo] == '+' {
        lo + 1
    } else {
        lo
    };
    assert(unsigned_body(s) =~= v@.subrange(start as int, hi as int));
    if start == hi {
        return None;
    }
    let mut i = start;
    while i < hi
        invariant
            lo <= start <= i <= hi <= v.len(),
            unsigned_body(v@.subrange(lo as int, hi as int)) == v@.subrange(start as int, hi as int),
            all_digits(v@.subrange(start as int, i as int)),
        decreases hi - i,
    {
        if !is_digit_char(v[i]) {
            assert(v@.subrange(start as int, hi as int)[i - start] == v@[i as int]);
            return None;
        }
        i = i + 1;
        assert forall|j: int| 0 <= j < i - start implies is_digit(
            #[trigger] v@.subrange(start as int, i as int)[j],
        ) by {
            if j < i - 1 - start {
                assert(v@.subrange(start as int, (i - 1) as int)[j] == v@[start + j]);
            }
        }
    }
    let value = digits_value_capped(v, start, hi, max);
    if value > max as u128 {
        None
    } else {
        Some(value as u64)
    }
}

/// `v[lo..hi].parse::<bool>().ok()`.
pub fn parse_bool_range(v: &Vec<char>, lo: usize, hi: usize) -> (r: Option<bool>)
    requires
        lo <= hi <= v.len(),
    ensures
        r == parse_bool(v@.subrange(lo as int, hi as int)),
{
    proof {
        reveal_strlit("true");
        reveal_strlit("false");
    }
    if range_eq_str(v, lo, hi, "true") {
        assert("true"@ =~= seq!['t', 'r', 'u', 'e']);
        Some(true)
    } else if range_eq_str(v, lo, hi, "false") {
        assert("false"@ =~= seq!['f', 'a', 'l', 's', 'e']);
        Some(false)
    } else {
        assert("true"@ =~= seq!['t', 'r', 'u', 'e']);
        assert("false"@ =~= seq!['f', 'a', 'l', 's', 'e']);
        None
    }
}

/// The index of the first `c` in `v[lo..hi]`, or `hi`.
pub fn find_char(v: &Vec<char>, lo: usize, hi: usize, c: char) -> (r: usize)
    requires
        lo <= hi <= v.len(),
    ensures
        lo <= r <= hi,
        r - lo == index_of(v@.subrange(lo as int, hi as int), c),
{
    let mut j = lo;
    while j < hi
        invariant
            lo <= j <= hi <= v.len(),
            index_of(v@.subrange(lo as int, hi as int), c) == (j - lo) + index_of(
                v@.subrange(j as int, hi as int),
                c,
            ),
        decreases hi - j,
    {
        if v[j] == c {
            return j;
        }
        assert(v@.subrange(j as int, hi as int).drop_first() =~= v@.subrange(
            (j + 1) as int,
            hi as int,
        ));
        j = j + 1;
    }
    j
}

/// The next item of `str::lines` over `v[pos..hi]`: the bounds of the line and
/// the position after its line ending, or `None` when nothing is left.
pub fn next_line(v: &Vec<char>, pos: usize, hi: usize) -> (r: Option<(usize, usize, usize)>)
    requires
        pos <= hi <= v.len(),
    ensures
        match r {
            None => pos == hi,
            Some((a, b, next)) => {
                &&& pos == a <= b <= next <= hi
                &&& pos < next
                &&& nth_line(v@.subrange(pos as int, hi as int), 0) == Some(
                    v@.subrange(a as int, b as int),
                )
                &&& v@.subrange(next as int, hi as int) == line_rest(
                    v@.subrange(pos as int, hi as int),
                )
            },
        },
{
    if pos == hi {
        return None;
    }
    let ghost s = v@.subrange(pos as int, hi as int);
    let nl = find_char(v, pos, hi, '\n');
    proof {
        lemma_index_of(s, '\n');
    }
    if nl < hi {
        let end = if nl > pos && v[nl - 1] == '\r' {
            nl - 1
        } else {
            nl
        };
        assert(s.take((nl - pos) as int) =~= v@.subrange(pos as int, nl as int));
        assert(strip_cr(s.take((nl - pos) as int)) =~= v@.subrange(pos as int, end as int));
        assert(s.skip((nl - pos) as int + 1) =~= v@.subrange((nl + 1) as int, hi as int));
        Some((pos, end, nl + 1))
    } else {
        assert(v@.subrange(hi as int, hi as int) =~= Seq::<char>::empty());
        Some((pos, hi, hi))
    }
}

/// Whether `l` can stand as a line: no line feed, and no trailing carriage return.
pub open spec fn plain_line(l: Seq<char>) -> bool {
    &&& forall|i: int| 0 <= i < l.len() ==> #[trigger] l[i] != '\n'
    &&& l.len() > 0 ==> l.last() != '\r'
}

pub proof fn lemma_digits_plain_line(l: Seq<char>)
    requires
        all_digits(l),
    ensures
        plain_line(l),
{
    assert forall|i: int| 0 <= i < l.len() implies #[trigger] l[i] != '\n' by {
        assert(is_digit(l[i]));
    }
    if l.len() > 0 {
        assert(is_digit(l[l.len() - 1]));
    }
}

pub proof fn lemma_bool_plain_line(b: bool)
    ensures
        plain_line(bool_text(b)),
{
}

proof fn lemma_index_of_prefix(l: Seq<char>, c: char, r: Seq<char>)
    requires
        forall|i: int| 0 <= i < l.len() ==> l[i] != c,
    ensures
        index_of(l + seq![c] + r, c) == l.len(),
    decreases l.len(),
{
    if l.len() > 0 {
        assert((l + seq![c] + r).drop_first() =~= l.drop_first() + seq![c] + r);
        lemma_index_of_prefix(l.drop_first(), c, r);
    }
}

/// A line followed by a line feed reads back as that line.
pub proof fn lemma_line_then(l: Seq<char>, r: Seq<char>)
    requires
        plain_line(l),
    ensures
        nth_line(l + seq!['\n'] + r, 0) == Some(l),
        line_rest(l + seq!['\n'] + r) == r,
{
    let s = l + seq!['\n'] + r;
    lemma_index_of_prefix(l, '\n', r);
    assert(s.take(l.len() as int) =~= l);
    assert(s.skip(l.len() as int + 1) =~= r);
}

/// What follows the first line of `s` and its line ending.
pub open spec fn line_rest(s: Seq<char>) -> Seq<char> {
    let i = index_of(s, '\n');
    if i < s.len() {
        s.skip(i as int + 1)
    } else {
        Seq::empty()
    }
}

pub proof fn lemma_nth_line_succ(s: Seq<char>, k: nat)
    ensures
        nth_line(s, k + 1) == nth_line(line_rest(s), k),
{
    lemma_index_of(s, '\n');
    if s.len() > 0 {
        let i = index_of(s, '\n');
        if i < s.len() {
            assert((k + 1 - 1) as nat == k);
        }
    }
}

/// What follows the first field of `s` and its separator.
pub open spec fn field_rest(s: Seq<char>, sep: char) -> Option<Seq<char>> {
    let i = index_of(s, sep);
    if i < s.len() {
        Some(s.skip(i as int + 1))
    } else {
        None
    }
}

/// The end of the next field of `v[pos..hi]` split by `sep`, and where the
/// field after it starts, if there is one.
pub fn next_field(v: &Vec<char>, pos: usize, hi: usize, sep: char) -> (r: (usize, Option<usize>))
    requires
        pos <= hi <= v.len(),
    ensures
        pos <= r.0 <= hi,
        nth_field(v@.subrange(pos as int, hi as int), sep, 0) == Some(
            v@.subrange(pos as int, r.0 as int),
        ),
        match r.1 {
            None => field_rest(v@.subrange(pos as int, hi as int), sep) == None::<Seq<char>>,
            Some(next) => r.0 < next <= hi && field_rest(v@.subrange(pos as int, hi as int), sep)
                == Some(v@.subrange(next as int, hi as int)),
        },
{
    let ghost s = v@.subrange(pos as int, hi as int);
    let end = find_char(v, pos, hi, sep);
    proof {
        lemma_index_of(s, sep);
    }
    assert(s.take((end - pos) as int) =~= v@.subrange(pos as int, end as int));
    if end < hi {
        assert(s.skip((end - pos) as int + 1) =~= v@.subrange((end + 1) as int, hi as int));
        (end, Some(end + 1))
    } else {
        (end, None)
    }
}

pub proof fn lemma_nth_field_succ(s: Seq<char>, sep: char, k: nat)
    ensures
        nth_field(s, sep, k + 1) == match field_rest(s, sep) {
            Some(rest) => nth_field(rest, sep, k),
            None => None,
        },
{
    assert((k + 1 - 1) as nat == k);
}

/// Bounds of `str::trim` applied to `v[lo..hi]`.
pub fn trim_range(v: &Vec<char>, lo: usize, hi: usize) -> (r: (usize, usize))
    requires
        lo <= hi <= v.len(),
    ensures
        lo <= r.0 <= r.1 <= hi,
        v@.subrange(r.0 as int, r.1 as int) == trim(v@.subrange(lo as int, hi as int)),
{
    let mut a = lo;
    while a < hi && is_whitespace_char(v[a])
        invariant
            lo <= a <= hi <= v.len(),
            trim_start(v@.subrange(a as int, hi as int)) == trim_start(
                v@.subrange(lo as int, hi as int),
            ),
        decreases hi - a,
    {
        assert(v@.subrange(a as int, hi as int).drop_first() =~= v@.subrange(
            (a + 1) as int,
            hi as int,
        ));
        a = a + 1;
    }
    let mut b = hi;
    while b > a && is_whitespace_char(v[b - 1])
        invariant
            lo <= a <= b <= hi <= v.len(),
            trim_end(v@.subrange(a as int, b as int)) == trim_end(
                v@.subrange(a as int, hi as int),
            ),
        decreases b - a,
    {
        assert(v@.subrange(a as int, b as int).drop_last() =~= v@.subrange(
            a as int,
            (b - 1) as int,
        ));
        b = b - 1;
    }
    (a, b)
}

pub fn is_whitespace_char(c: char) -> (r: bool)
    ensures
        r == is_whitespace(c),
{
    ('\u{9}' <= c && c <= '\u{d}') || c == ' ' || c == '\u{85}' || c == '\u{a0}' || c
        == '\u{1680}' || ('\u{2000}' <= c && c <= '\u{200a}') || c == '\u{2028}' || c
        == '\u{2029}' || c == '\u{202f}' || c == '\u{205f}' || c == '\u{3000}'
}

} // verus!
