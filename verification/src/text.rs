//! Character-level text primitives shared by every parser of the library.
//!
//! Strings are modelled by their views (`Seq<char>`); executable helpers work
//! on `&[char]` so that positions are character positions.
use vstd::prelude::*;

verus! {

// ---------------------------------------------------------------------------
// Specifications
// ---------------------------------------------------------------------------

/// The Unicode `White_Space` property (what `char::is_whitespace` tests).
pub open spec fn is_ws(c: char) -> bool {
    ||| c == '\t' || c == '\n' || c == '\x0B' || c == '\x0C' || c == '\r' || c == ' '
    ||| c == '\u{85}' || c == '\u{A0}' || c == '\u{1680}'
    ||| ('\u{2000}' <= c && c <= '\u{200A}')
    ||| c == '\u{2028}' || c == '\u{2029}' || c == '\u{202F}' || c == '\u{205F}'
    ||| c == '\u{3000}'
}

pub open spec fn is_ascii_digit(c: char) -> bool {
    '0' <= c && c <= '9'
}

pub open spec fn digit_value(c: char) -> nat {
    (c as u32 - '0' as u32) as nat
}

/// Length of the longest prefix of `s` whose characters all satisfy `p`.
pub open spec fn lead_run(s: Seq<char>, p: spec_fn(char) -> bool) -> nat
    decreases s.len(),
{
    if s.len() > 0 && p(s[0]) {
        1 + lead_run(s.drop_first(), p)
    } else {
        0
    }
}

/// Length of the longest suffix of `s` whose characters all satisfy `p`.
pub open spec fn trail_run(s: Seq<char>, p: spec_fn(char) -> bool) -> nat
    decreases s.len(),
{
    if s.len() > 0 && p(s.last()) {
        1 + trail_run(s.drop_last(), p)
    } else {
        0
    }
}

pub open spec fn ws_pred() -> spec_fn(char) -> bool {
    |c: char| is_ws(c)
}

pub open spec fn eq_pred(x: char) -> spec_fn(char) -> bool {
    |c: char| c == x
}

/// `str::trim_start`
pub open spec fn trim_start(s: Seq<char>) -> Seq<char> {
    s.skip(lead_run(s, ws_pred()) as int)
}

/// `str::trim_end`
pub open spec fn trim_end(s: Seq<char>) -> Seq<char> {
    s.take(s.len() - trail_run(s, ws_pred()))
}

/// `str::trim`
pub open spec fn trim(s: Seq<char>) -> Seq<char> {
    trim_end(trim_start(s))
}

/// `str::trim_matches(c)` for a single character.
pub open spec fn trim_char(s: Seq<char>, c: char) -> Seq<char> {
    let t = s.skip(lead_run(s, eq_pred(c)) as int);
    t.take(t.len() - trail_run(t, eq_pred(c)))
}

/// `str::trim_start_matches(c)` for a single character.
pub open spec fn trim_start_char(s: Seq<char>, c: char) -> Seq<char> {
    s.skip(lead_run(s, eq_pred(c)) as int)
}

/// `str::trim_end_matches(c)` for a single character.
pub open spec fn trim_end_char(s: Seq<char>, c: char) -> Seq<char> {
    s.take(s.len() - trail_run(s, eq_pred(c)))
}

pub open spec fn starts_with(s: Seq<char>, p: Seq<char>) -> bool {
    p.len() <= s.len() && s.take(p.len() as int) == p
}

pub open spec fn ends_with(s: Seq<char>, p: Seq<char>) -> bool {
    p.len() <= s.len() && s.skip(s.len() - p.len()) == p
}

/// `str::trim_start_matches(p)` for a non-empty string pattern: strips
/// repeated leading copies of `p`.
pub open spec fn strip_prefix_rep(s: Seq<char>, p: Seq<char>) -> Seq<char>
    decreases s.len(),
{
    if p.len() > 0 && starts_with(s, p) {
        strip_prefix_rep(s.skip(p.len() as int), p)
    } else {
        s
    }
}

/// `p` occurs in `s` at position `i`.
pub open spec fn occurs_at(s: Seq<char>, p: Seq<char>, i: int) -> bool {
    0 <= i && i + p.len() <= s.len() && s.subrange(i, i + p.len()) == p
}

/// First occurrence of `p` in `s` at or after `i`.
pub open spec fn find_from(s: Seq<char>, p: Seq<char>, i: int) -> Option<int>
    decreases s.len() + 1 - i,
{
    if i < 0 || i + p.len() > s.len() {
        None
    } else if occurs_at(s, p, i) {
        Some(i)
    } else {
        find_from(s, p, i + 1)
    }
}

/// `str::find(p)`, in characters.
pub open spec fn find(s: Seq<char>, p: Seq<char>) -> Option<int> {
    find_from(s, p, 0)
}

/// `str::contains(p)`.
pub open spec fn contains(s: Seq<char>, p: Seq<char>) -> bool {
    find(s, p) is Some
}

/// `str::contains(c)` for a character.
pub open spec fn has_char(s: Seq<char>, c: char) -> bool {
    exists|i: int| 0 <= i < s.len() && s[i] == c
}

/// Last position of `c` in `s`.
pub open spec fn rfind_char(s: Seq<char>, c: char) -> Option<int>
    decreases s.len(),
{
    if s.len() == 0 {
        None
    } else if s.last() == c {
        Some(s.len() - 1)
    } else {
        rfind_char(s.drop_last(), c)
    }
}

/// `str::split(c)` for a character separator.
pub open spec fn split_char(s: Seq<char>, c: char) -> Seq<Seq<char>>
    decreases s.len(),
{
    match find(s, seq![c]) {
        None => seq![s],
        Some(i) => {
            proof {
                lemma_find_from_props(s, seq![c], 0);
            }
            seq![s.take(i)] + split_char(s.skip(i + 1), c)
        },
    }
}

/// `str::lines()`: split after each `'\n'`, dropping the line ending (`"\n"`
/// or `"\r\n"`); no empty line is produced after a final `'\n'`.
pub open spec fn lines(s: Seq<char>) -> Seq<Seq<char>>
    decreases s.len(),
{
    if s.len() == 0 {
        seq![]
    } else {
        match find(s, seq!['\n']) {
            None => seq![s],
            Some(i) => {
                proof {
                    lemma_find_from_props(s, seq!['\n'], 0);
                }
                seq![strip_cr(s.take(i))] + lines(s.skip(i + 1))
            },
        }
    }
}

pub open spec fn strip_cr(s: Seq<char>) -> Seq<char> {
    if s.len() > 0 && s.last() == '\r' {
        s.drop_last()
    } else {
        s
    }
}

/// `a.replace(from, to)` for single characters.
pub open spec fn replace_char(s: Seq<char>, from: char, to: char) -> Seq<char> {
    s.map_values(|c: char| if c == from { to } else { c })
}

/// Value of a sequence of ASCII decimal digits.
pub open spec fn digits_value(s: Seq<char>) -> nat
    decreases s.len(),
{
    if s.len() == 0 {
        0
    } else {
        digits_value(s.drop_last()) * 10 + digit_value(s.last())
    }
}

pub open spec fn all_digits(s: Seq<char>) -> bool {
    forall|i: int| 0 <= i < s.len() ==> is_ascii_digit(#[trigger] s[i])
}

/// What `str::parse` of an unsigned integer reads, before the range check:
/// an optional `'+'` followed by at least one ASCII digit.
pub open spec fn spec_parse_unsigned(s: Seq<char>) -> Option<nat> {
    let body = if s.len() > 0 && s[0] == '+' { s.drop_first() } else { s };
    if body.len() > 0 && all_digits(body) {
        Some(digits_value(body))
    } else {
        None
    }
}

/// `str::parse::<T>()` for an unsigned integer type with maximum `max`.
pub open spec fn parse_bounded(s: Seq<char>, max: nat) -> Option<nat> {
    match spec_parse_unsigned(s) {
        Some(v) => if v <= max { Some(v) } else { None },
        None => None,
    }
}

// ---------------------------------------------------------------------------
// Lemmas
// ---------------------------------------------------------------------------

pub proof fn lemma_lead_run(s: Seq<char>, p: spec_fn(char) -> bool, i: int)
    requires
        0 <= i <= s.len(),
        forall|j: int| 0 <= j < i ==> p(#[trigger] s[j]),
        i == s.len() || !p(s[i]),
    ensures
        lead_run(s, p) == i,
    decreases i,
{
    if i > 0 {
        let t = s.drop_first();
        assert forall|j: int| 0 <= j < i - 1 implies p(#[trigger] t[j]) by {
            assert(t[j] == s[j + 1]);
        }
        lemma_lead_run(t, p, i - 1);
    }
}

/// What `lead_run` counts.
pub proof fn lemma_lead_run_facts(s: Seq<char>, p: spec_fn(char) -> bool)
    ensures
        lead_run(s, p) <= s.len(),
        forall|j: int| 0 <= j < lead_run(s, p) ==> p(#[trigger] s[j]),
        lead_run(s, p) < s.len() ==> !p(s[lead_run(s, p) as int]),
    decreases s.len(),
{
    if s.len() > 0 && p(s[0]) {
        let t = s.drop_first();
        lemma_lead_run_facts(t, p);
        assert forall|j: int| 0 <= j < lead_run(s, p) implies p(#[trigger] s[j]) by {
            if j > 0 {
                assert(s[j] == t[j - 1]);
            }
        }
    }
}

pub proof fn lemma_trail_run(s: Seq<char>, p: spec_fn(char) -> bool, k: int)
    requires
        0 <= k <= s.len(),
        forall|j: int| s.len() - k <= j < s.len() ==> p(#[trigger] s[j]),
        k == s.len() || !p(s[s.len() - k - 1]),
    ensures
        trail_run(s, p) == k,
    decreases k,
{
    if k > 0 {
        let t = s.drop_last();
        assert forall|j: int| t.len() - (k - 1) <= j < t.len() implies p(#[trigger] t[j]) by {
            assert(t[j] == s[j]);
        }
        lemma_trail_run(t, p, k - 1);
    }
}

pub proof fn lemma_find_from_none(s: Seq<char>, p: Seq<char>, i: int)
    requires
        0 <= i,
        forall|j: int| i <= j ==> !occurs_at(s, p, j),
    ensures
        find_from(s, p, i) is None,
    decreases s.len() + 1 - i,
{
    if i + p.len() <= s.len() {
        lemma_find_from_none(s, p, i + 1);
    }
}

pub proof fn lemma_find_from_some(s: Seq<char>, p: Seq<char>, i: int, k: int)
    requires
        0 <= i <= k,
        occurs_at(s, p, k),
        forall|j: int| i <= j < k ==> !occurs_at(s, p, j),
    ensures
        find_from(s, p, i) == Some(k),
    decreases k - i,
{
    if i < k {
        lemma_find_from_some(s, p, i + 1, k);
    }
}

/// `find_from` returns the first position at or after `i` where `p` occurs.
pub proof fn lemma_find_from_props(s: Seq<char>, p: Seq<char>, i: int)
    requires
        0 <= i,
    ensures
        find_from(s, p, i) matches Some(k) ==> (i <= k && occurs_at(s, p, k) && forall|j: int|
            i <= j < k ==> !occurs_at(s, p, j)),
        find_from(s, p, i) is None ==> forall|j: int| i <= j ==> !occurs_at(s, p, j),
    decreases s.len() + 1 - i,
{
    if i + p.len() <= s.len() && !occurs_at(s, p, i) {
        lemma_find_from_props(s, p, i + 1);
    }
}

pub proof fn lemma_digits_value_push(s: Seq<char>, c: char)
    ensures
        digits_value(s.push(c)) == digits_value(s) * 10 + digit_value(c),
{
    assert(s.push(c).drop_last() =~= s);
}

// ---------------------------------------------------------------------------
// Conversions
// ---------------------------------------------------------------------------

/// Appends one character to a string (`String::push`).
#[verifier::external_body]
fn push_char(s: &mut String, c: char)
    ensures
        final(s)@ == old(s)@.push(c),
{
    s.push(c);
}

/// The characters of `s`, in order.
pub fn chars_of(s: &str) -> (v: Vec<char>)
    ensures
        v@ == s@,
{
    let mut v: Vec<char> = Vec::new();
    for c in it: s.chars()
        invariant
            v@ == it.seq().take(it.index() as int),
    {
        v.push(c);
    }
    v
}

/// A string holding exactly the given characters.
pub fn string_of(v: &[char]) -> (s: String)
    ensures
        s@ == v@,
{
    let mut s = String::new();
    let mut i: usize = 0;
    while i < v.len()
        invariant
            i <= v.len(),
            s@ == v@.take(i as int),
        decreases v.len() - i,
    {
        push_char(&mut s, v[i]);
        i += 1;
        assert(s@ =~= v@.take(i as int));
    }
    assert(v@.take(v.len() as int) =~= v@);
    s
}

/// Copy of a slice into a vector.
pub fn to_vec(s: &[char]) -> (v: Vec<char>)
    ensures
        v@ == s@,
{
    let mut v: Vec<char> = Vec::new();
    let mut i: usize = 0;
    while i < s.len()
        invariant
            i <= s.len(),
            v@ == s@.take(i as int),
        decreases s.len() - i,
    {
        v.push(s[i]);
        i += 1;
        assert(v@ =~= s@.take(i as int));
    }
    assert(s@.take(s.len() as int) =~= s@);
    v
}

/// `a` followed by `b`.
pub fn concat(a: &[char], b: &[char]) -> (v: Vec<char>)
    ensures
        v@ == a@ + b@,
{
    let mut v = to_vec(a);
    let mut i: usize = 0;
    while i < b.len()
        invariant
            i <= b.len(),
            v@ == a@ + b@.take(i as int),
        decreases b.len() - i,
    {
        v.push(b[i]);
        i += 1;
        assert(v@ =~= a@ + b@.take(i as int));
    }
    assert(b@.take(b.len() as int) =~= b@);
    v
}

/// Appends `b` to `v`.
pub fn append(v: &mut Vec<char>, b: &[char])
    ensures
        final(v)@ == old(v)@ + b@,
{
    let mut i: usize = 0;
    while i < b.len()
        invariant
            i <= b.len(),
            v@ == old(v)@ + b@.take(i as int),
        decreases b.len() - i,
    {
        v.push(b[i]);
        i += 1;
        assert(v@ =~= old(v)@ + b@.take(i as int));
    }
    assert(b@.take(b.len() as int) =~= b@);
}

// ---------------------------------------------------------------------------
// Comparisons and searches
// ---------------------------------------------------------------------------

pub fn eq(a: &[char], b: &[char]) -> (r: bool)
    ensures
        r == (a@ == b@),
{
    if a.len() != b.len() {
        return false;
    }
    let mut i: usize = 0;
    while i < a.len()
        invariant
            a.len() == b.len(),
            i <= a.len(),
            forall|j: int| 0 <= j < i ==> a@[j] == b@[j],
        decreases a.len() - i,
    {
        if a[i] != b[i] {
            return false;
        }
        i += 1;
    }
    assert(a@ =~= b@);
    true
}

/// `p` occurs in `s` at position `i`.
pub fn matches_at(s: &[char], p: &[char], i: usize) -> (r: bool)
    ensures
        r == occurs_at(s@, p@, i as int),
{
    if i > s.len() || p.len() > s.len() - i {
        return false;
    }
    let mut j: usize = 0;
    while j < p.len()
        invariant
            i + p.len() <= s.len(),
            j <= p.len(),
            forall|k: int| 0 <= k < j ==> s@[i + k] == p@[k],
        decreases p.len() - j,
    {
        if s[i + j] != p[j] {
            assert(s@.subrange(i as int, i + p.len())[j as int] != p@[j as int]);
            return false;
        }
        j += 1;
    }
    assert(s@.subrange(i as int, i + p.len()) =~= p@);
    true
}

pub fn starts_with_at(s: &[char], p: &[char]) -> (r: bool)
    ensures
        r == starts_with(s@, p@),
{
    let r = matches_at(s, p, 0);
    proof {
        if p@.len() <= s@.len() {
            assert(s@.subrange(0, p@.len() as int) =~= s@.take(p@.len() as int));
        }
    }
    r
}

pub fn ends_with_at(s: &[char], p: &[char]) -> (r: bool)
    ensures
        r == ends_with(s@, p@),
{
    if p.len() > s.len() {
        return false;
    }
    let r = matches_at(s, p, s.len() - p.len());
    proof {
        assert(s@.subrange(s@.len() - p@.len(), s@.len() as int) =~= s@.skip(
            s@.len() - p@.len(),
        ));
    }
    r
}

/// First occurrence of `p` in `s` at or after `from`.
pub fn find_from_at(s: &[char], p: &[char], from: usize) -> (r: Option<usize>)
    ensures
        r matches Some(k) ==> find_from(s@, p@, from as int) == Some(k as int),
        r is None ==> find_from(s@, p@, from as int) is None,
{
    let mut i = from;
    loop
        invariant
            from <= i,
            forall|j: int| from <= j < i ==> !occurs_at(s@, p@, j),
        ensures
            forall|j: int| from <= j ==> !occurs_at(s@, p@, j),
        decreases s.len() + 1 - i,
    {
        if i > s.len() || p.len() > s.len() - i {
            assert forall|j: int| from <= j implies !occurs_at(s@, p@, j) by {
                if j >= i {
                    assert(j + p@.len() > s@.len());
                }
            }
            break;
        }
        if matches_at(s, p, i) {
            proof {
                lemma_find_from_some(s@, p@, from as int, i as int);
            }
            return Some(i);
        }
        if i == s.len() {
            assert forall|j: int| from <= j implies !occurs_at(s@, p@, j) by {
                if j > i {
                    assert(j + p@.len() > s@.len());
                }
            }
            break;
        }
        i += 1;
    }
    proof {
        lemma_find_from_none(s@, p@, from as int);
    }
    None
}

pub fn find_at(s: &[char], p: &[char]) -> (r: Option<usize>)
    ensures
        r matches Some(k) ==> find(s@, p@) == Some(k as int),
        r is None ==> find(s@, p@) is None,
{
    find_from_at(s, p, 0)
}

pub fn contains_at(s: &[char], p: &[char]) -> (r: bool)
    ensures
        r == contains(s@, p@),
{
    find_at(s, p).is_some()
}

/// First position of `c` in `s`.
pub fn find_char(s: &[char], c: char) -> (r: Option<usize>)
    ensures
        r matches Some(k) ==> (find(s@, seq![c]) == Some(k as int) && k < s@.len() && s@[k as int]
            == c && forall|j: int| 0 <= j < k ==> s@[j] != c),
        r is None ==> find(s@, seq![c]) is None && !has_char(s@, c),
{
    let mut i: usize = 0;
    while i < s.len()
        invariant
            i <= s.len(),
            forall|j: int| 0 <= j < i ==> s@[j] != c,
        decreases s.len() - i,
    {
        if s[i] == c {
            proof {
                assert(s@.subrange(i as int, i + 1) =~= seq![c]);
                assert forall|j: int| 0 <= j < i implies !occurs_at(s@, seq![c], j) by {
                    if occurs_at(s@, seq![c], j) {
                        assert(s@.subrange(j, j + 1)[0] == s@[j]);
                    }
                }
                lemma_find_from_some(s@, seq![c], 0, i as int);
            }
            return Some(i);
        }
        i += 1;
    }
    proof {
        assert forall|j: int| 0 <= j implies !occurs_at(s@, seq![c], j) by {
            if occurs_at(s@, seq![c], j) {
                assert(s@.subrange(j, j + 1)[0] == s@[j]);
            }
        }
        lemma_find_from_none(s@, seq![c], 0);
    }
    None
}

/// Last position of `c` in `s`.
pub fn rfind_char_at(s: &[char], c: char) -> (r: Option<usize>)
    ensures
        r matches Some(k) ==> (rfind_char(s@, c) == Some(k as int) && k < s@.len() && s@[k
            as int] == c),
        r is None ==> rfind_char(s@, c) is None,
{
    let mut n: usize = s.len();
    assert(s@.take(n as int) =~= s@);
    while n > 0
        invariant
            n <= s.len(),
            rfind_char(s@, c) == rfind_char(s@.take(n as int), c),
        decreases n,
    {
        proof {
            assert(s@.take(n as int).drop_last() =~= s@.take(n - 1));
        }
        if s[n - 1] == c {
            return Some(n - 1);
        }
        n -= 1;
    }
    None
}

pub fn has_char_at(s: &[char], c: char) -> (r: bool)
    ensures
        r == has_char(s@, c),
{
    find_char(s, c).is_some()
}

// ---------------------------------------------------------------------------
// Trimming
// ---------------------------------------------------------------------------

pub fn is_whitespace(c: char) -> (r: bool)
    ensures
        r == is_ws(c),
{
    c == '\t' || c == '\n' || c == '\x0B' || c == '\x0C' || c == '\r' || c == ' ' || c == '\u{85}'
        || c == '\u{A0}' || c == '\u{1680}' || ('\u{2000}' <= c && c <= '\u{200A}') || c
        == '\u{2028}' || c == '\u{2029}' || c == '\u{202F}' || c == '\u{205F}' || c == '\u{3000}'
}

pub fn lead_ws_len(s: &[char]) -> (n: usize)
    ensures
        n == lead_run(s@, ws_pred()),
        n <= s.len(),
{
    let mut i: usize = 0;
    while i < s.len() && is_whitespace(s[i])
        invariant
            i <= s.len(),
            forall|j: int| 0 <= j < i ==> is_ws(#[trigger] s@[j]),
        decreases s.len() - i,
    {
        i += 1;
    }
    proof {
        lemma_lead_run(s@, ws_pred(), i as int);
    }
    i
}

pub fn trail_ws_len(s: &[char]) -> (n: usize)
    ensures
        n == trail_run(s@, ws_pred()),
        n <= s.len(),
{
    let mut k: usize = 0;
    while k < s.len() && is_whitespace(s[s.len() - 1 - k])
        invariant
            k <= s.len(),
            forall|j: int| s.len() - k <= j < s.len() ==> is_ws(#[trigger] s@[j]),
        decreases s.len() - k,
    {
        k += 1;
    }
    proof {
        lemma_trail_run(s@, ws_pred(), k as int);
    }
    k
}

pub fn lead_char_len(s: &[char], c: char) -> (n: usize)
    ensures
        n == lead_run(s@, eq_pred(c)),
        n <= s.len(),
{
    let mut i: usize = 0;
    while i < s.len() && s[i] == c
        invariant
            i <= s.len(),
            forall|j: int| 0 <= j < i ==> #[trigger] s@[j] == c,
        decreases s.len() - i,
    {
        i += 1;
    }
    proof {
        lemma_lead_run(s@, eq_pred(c), i as int);
    }
    i
}

pub fn trail_char_len(s: &[char], c: char) -> (n: usize)
    ensures
        n == trail_run(s@, eq_pred(c)),
        n <= s.len(),
{
    let mut k: usize = 0;
    while k < s.len() && s[s.len() - 1 - k] == c
        invariant
            k <= s.len(),
            forall|j: int| s.len() - k <= j < s.len() ==> #[trigger] s@[j] == c,
        decreases s.len() - k,
    {
        k += 1;
    }
    proof {
        lemma_trail_run(s@, eq_pred(c), k as int);
    }
    k
}

/// `str::trim`
pub fn trim_at(s: &[char]) -> (r: &[char])
    ensures
        r@ == trim(s@),
{
    let a = lead_ws_len(s);
    let t = &s[a..s.len()];
    let b = trail_ws_len(t);
    &t[0..t.len() - b]
}

/// `str::trim_start`
pub fn trim_start_at(s: &[char]) -> (r: &[char])
    ensures
        r@ == trim_start(s@),
{
    let a = lead_ws_len(s);
    &s[a..s.len()]
}

/// `str::trim_end`
pub fn trim_end_at(s: &[char]) -> (r: &[char])
    ensures
        r@ == trim_end(s@),
{
    let b = trail_ws_len(s);
    &s[0..s.len() - b]
}

/// `str::trim_matches(c)`
pub fn trim_char_at(s: &[char], c: char) -> (r: &[char])
    ensures
        r@ == trim_char(s@, c),
{
    let a = lead_char_len(s, c);
    let t = &s[a..s.len()];
    let b = trail_char_len(t, c);
    &t[0..t.len() - b]
}

/// `str::trim_start_matches(c)`
pub fn trim_start_char_at(s: &[char], c: char) -> (r: &[char])
    ensures
        r@ == trim_start_char(s@, c),
{
    let a = lead_char_len(s, c);
    &s[a..s.len()]
}

/// `str::trim_end_matches(c)`
pub fn trim_end_char_at(s: &[char], c: char) -> (r: &[char])
    ensures
        r@ == trim_end_char(s@, c),
{
    let b = trail_char_len(s, c);
    &s[0..s.len() - b]
}

/// `str::trim_start_matches(p)` for a string pattern.
pub fn strip_prefix_rep_at<'a>(s: &'a [char], p: &[char]) -> (r: &'a [char])
    ensures
        r@ == strip_prefix_rep(s@, p@),
{
    let mut i: usize = 0;
    if p.len() == 0 {
        return s;
    }
    assert(s@.skip(0) =~= s@);
    while i <= s.len() && matches_at(s, p, i)
        invariant
            i <= s.len(),
            p.len() > 0,
            strip_prefix_rep(s@, p@) == strip_prefix_rep(s@.skip(i as int), p@),
        decreases s.len() - i,
    {
        proof {
            let t = s@.skip(i as int);
            assert(t.take(p@.len() as int) =~= s@.subrange(i as int, i + p@.len()));
            assert(t.skip(p@.len() as int) =~= s@.skip(i + p@.len()));
        }
        i += p.len();
    }
    proof {
        let t = s@.skip(i as int);
        if p@.len() <= t.len() {
            assert(t.take(p@.len() as int) =~= s@.subrange(i as int, i + p@.len()));
        }
    }
    &s[i..s.len()]
}

// ---------------------------------------------------------------------------
// Splitting
// ---------------------------------------------------------------------------

proof fn lemma_split_step(s: Seq<char>, c: char, i: int)
    requires
        find(s, seq![c]) == Some(i),
    ensures
        split_char(s, c) == seq![s.take(i)] + split_char(s.skip(i + 1), c),
{
}

/// `str::split(c)`
pub fn split_char_at(s: &[char], c: char) -> (parts: Vec<Vec<char>>)
    ensures
        parts@.len() == split_char(s@, c).len(),
        forall|k: int| 0 <= k < parts@.len() ==> #[trigger] parts@[k]@ == split_char(s@, c)[k],
{
    let mut parts: Vec<Vec<char>> = Vec::new();
    let mut rest: &[char] = s;
    let ghost mut done: Seq<Seq<char>> = seq![];
    loop
        invariant
            parts@.len() == done.len(),
            forall|k: int| 0 <= k < parts@.len() ==> #[trigger] parts@[k]@ == done[k],
            split_char(s@, c) == done + split_char(rest@, c),
        decreases rest@.len(),
    {
        match find_char(rest, c) {
            None => {
                parts.push(to_vec(rest));
                proof {
                    assert(split_char(rest@, c) == seq![rest@]);
                    done = done.push(rest@);
                    assert(split_char(s@, c) =~= done);
                }
                return parts;
            },
            Some(i) => {
                assert(i < rest.len());
                let head = to_vec(&rest[0..i]);
                proof {
                    assert(rest@.subrange(0, i as int) =~= rest@.take(i as int));
                    lemma_split_step(rest@, c, i as int);
                    assert(rest@.subrange(i + 1, rest@.len() as int) =~= rest@.skip(i + 1));
                }
                parts.push(head);
                proof {
                    let old_done = done;
                    done = done.push(rest@.take(i as int));
                    assert(old_done + (seq![rest@.take(i as int)] + split_char(
                        rest@.skip(i + 1),
                        c,
                    )) =~= done + split_char(rest@.skip(i + 1), c));
                }
                rest = &rest[i + 1..rest.len()];
            },
        }
    }
}

/// Drops a trailing `'\r'`.
pub fn strip_cr_at(s: &[char]) -> (r: &[char])
    ensures
        r@ == strip_cr(s@),
{
    if s.len() > 0 && s[s.len() - 1] == '\r' {
        &s[0..s.len() - 1]
    } else {
        s
    }
}

/// `str::lines()`
pub fn lines_at(s: &[char]) -> (out: Vec<Vec<char>>)
    ensures
        out@.len() == lines(s@).len(),
        forall|k: int| 0 <= k < out@.len() ==> #[trigger] out@[k]@ == lines(s@)[k],
{
    let mut out: Vec<Vec<char>> = Vec::new();
    let mut rest: &[char] = s;
    let ghost mut done: Seq<Seq<char>> = seq![];
    loop
        invariant
            out@.len() == done.len(),
            forall|k: int| 0 <= k < out@.len() ==> #[trigger] out@[k]@ == done[k],
            lines(s@) == done + lines(rest@),
        decreases rest@.len(),
    {
        if rest.len() == 0 {
            assert(done + lines(rest@) =~= done);
            return out;
        }
        match find_char(rest, '\n') {
            None => {
                out.push(to_vec(rest));
                proof {
                    done = done.push(rest@);
                    assert(lines(s@) =~= done);
                }
                return out;
            },
            Some(i) => {
                let head = to_vec(strip_cr_at(&rest[0..i]));
                proof {
                    assert(rest@.subrange(0, i as int) =~= rest@.take(i as int));
                    assert(rest@.subrange(i + 1, rest@.len() as int) =~= rest@.skip(i + 1));
                }
                out.push(head);
                proof {
                    let old_done = done;
                    done = done.push(strip_cr(rest@.take(i as int)));
                    assert(old_done + (seq![strip_cr(rest@.take(i as int))] + lines(
                        rest@.skip(i + 1),
                    )) =~= done + lines(rest@.skip(i + 1)));
                }
                rest = &rest[i + 1..rest.len()];
            },
        }
    }
}

/// `s.replace(from, to)` for single characters.
pub fn replace_char_at(s: &[char], from: char, to: char) -> (r: Vec<char>)
    ensures
        r@ == replace_char(s@, from, to),
{
    let mut r: Vec<char> = Vec::new();
    let mut i: usize = 0;
    while i < s.len()
        invariant
            i <= s.len(),
            r@.len() == i,
            forall|j: int| 0 <= j < i ==> #[trigger] r@[j] == (if s@[j] == from { to } else { s@[j] }),
        decreases s.len() - i,
    {
        if s[i] == from {
            r.push(to);
        } else {
            r.push(s[i]);
        }
        i += 1;
    }
    assert(r@ =~= replace_char(s@, from, to));
    r
}

// ---------------------------------------------------------------------------
// Decimal numbers
// ---------------------------------------------------------------------------

/// Reads an unsigned decimal number as `str::parse` does for an unsigned
/// type whose maximum is `max`.
pub fn parse_unsigned(s: &[char], max: u64) -> (r: Option<u64>)
    ensures
        r matches Some(v) ==> parse_bounded(s@, max as nat) == Some(v as nat),
        r is None ==> parse_bounded(s@, max as nat) is None,
{
    let body: &[char] = if s.len() > 0 && s[0] == '+' {
        &s[1..s.len()]
    } else {
        s
    };
    proof {
        if s@.len() > 0 && s@[0] == '+' {
            assert(body@ =~= s@.drop_first());
        }
    }
    if body.len() == 0 {
        return None;
    }
    let mut value: u64 = 0;
    let mut i: usize = 0;
    let mut overflow = false;
    while i < body.len()
        invariant
            i <= body.len(),
            body@ == (if s@.len() > 0 && s@[0] == '+' {
                s@.drop_first()
            } else {
                s@
            }),
            all_digits(body@.take(i as int)),
            !overflow ==> value as nat == digits_value(body@.take(i as int)) && value <= max,
            overflow ==> digits_value(body@.take(i as int)) > max,
        decreases body.len() - i,
    {
        let c = body[i];
        if !('0' <= c && c <= '9') {
            proof {
                assert(!is_ascii_digit(body@[i as int]));
                assert(!all_digits(body@));
            }
            return None;
        }
        let d = (c as u32 - '0' as u32) as u64;
        proof {
            assert(body@.take(i + 1) =~= body@.take(i as int).push(c));
            lemma_digits_value_push(body@.take(i as int), c);
            assert(all_digits(body@.take(i + 1)));
        }
        if !overflow {
            if d > max || value > (max - d) / 10 {
                overflow = true;
                proof {
                    if d <= max {
                        assert(value * 10 + d > max) by (nonlinear_arith)
                            requires
                                value > (max - d) / 10,
                                d <= max,
                        ;
                    }
                }
            } else {
                proof {
                    assert(value * 10 + d <= max) by (nonlinear_arith)
                        requires
                            value <= (max - d) / 10,
                            d <= max,
                    ;
                }
                value = value * 10 + d;
            }
        } else {
            proof {
                assert(digits_value(body@.take(i as int)) * 10 + d > max) by (nonlinear_arith)
                    requires
                        digits_value(body@.take(i as int)) > max,
                ;
            }
        }
        i += 1;
    }
    assert(body@.take(body.len() as int) =~= body@);
    if overflow {
        None
    } else {
        Some(value)
    }
}

// ---------------------------------------------------------------------------
// Decimal formatting
// ---------------------------------------------------------------------------

pub open spec fn digit_char(d: nat) -> char {
    if d == 0 {
        '0'
    } else if d == 1 {
        '1'
    } else if d == 2 {
        '2'
    } else if d == 3 {
        '3'
    } else if d == 4 {
        '4'
    } else if d == 5 {
        '5'
    } else if d == 6 {
        '6'
    } else if d == 7 {
        '7'
    } else if d == 8 {
        '8'
    } else {
        '9'
    }
}

/// Decimal representation of `n` (what `format!("{}", n)` prints).
pub open spec fn decimal(n: nat) -> Seq<char>
    decreases n,
{
    if n < 10 {
        seq![digit_char(n)]
    } else {
        decimal(n / 10).push(digit_char(n % 10))
    }
}

proof fn lemma_digit_char_value(d: nat)
    requires
        d < 10,
    ensures
        digit_value(digit_char(d)) == d,
        is_ascii_digit(digit_char(d)),
{
}

/// The decimal text of a number is a non-empty run of ASCII digits whose
/// value is the number.
pub proof fn lemma_decimal_digits(n: nat)
    ensures
        decimal(n).len() > 0,
        all_digits(decimal(n)),
        digits_value(decimal(n)) == n,
    decreases n,
{
    if n < 10 {
        lemma_digit_char_value(n);
        lemma_digits_value_push(Seq::<char>::empty(), digit_char(n));
        assert(Seq::<char>::empty().push(digit_char(n)) =~= decimal(n));
    } else {
        lemma_decimal_digits(n / 10);
        let d = decimal(n / 10);
        lemma_digit_char_value(n % 10);
        lemma_digits_value_push(d, digit_char(n % 10));
        assert forall|i: int| 0 <= i < decimal(n).len() implies is_ascii_digit(#[trigger] decimal(n)[i]) by {
            if i < d.len() {
                assert(decimal(n)[i] == d[i]);
            }
        }
    }
}

/// Parsing the decimal text of a number within the bound gives it back.
pub proof fn lemma_parse_decimal(n: nat, max: nat)
    requires
        n <= max,
    ensures
        parse_bounded(decimal(n), max) == Some(n),
{
    lemma_decimal_digits(n);
    assert(is_ascii_digit(decimal(n)[0]));
}

/// The last occurrence of `c` is unchanged by appending characters other
/// than `c`.
pub proof fn lemma_rfind_char_append(a: Seq<char>, b: Seq<char>, c: char)
    requires
        forall|i: int| 0 <= i < b.len() ==> b[i] != c,
    ensures
        rfind_char(a + b, c) == rfind_char(a, c),
    decreases b.len(),
{
    if b.len() == 0 {
        assert(a + b =~= a);
    } else {
        assert((a + b).drop_last() =~= a + b.drop_last());
        lemma_rfind_char_append(a, b.drop_last(), c);
    }
}

/// A text that starts and ends with non-whitespace is its own trim.
pub proof fn lemma_trim_unchanged(s: Seq<char>)
    requires
        s.len() > 0,
        !is_ws(s[0]),
        !is_ws(s.last()),
    ensures
        trim(s) == s,
{
    assert(lead_run(s, ws_pred()) == 0);
    assert(s.skip(0) =~= s);
    assert(trail_run(s, ws_pred()) == 0);
    assert(s.take(s.len() as int) =~= s);
}

/// A text that starts and ends with a character other than `c` is its own
/// `trim_matches(c)`.
pub proof fn lemma_trim_char_unchanged(s: Seq<char>, c: char)
    requires
        s.len() > 0,
        s[0] != c,
        s.last() != c,
    ensures
        trim_char(s, c) == s,
{
    assert(lead_run(s, eq_pred(c)) == 0);
    assert(s.skip(0) =~= s);
    assert(trail_run(s, eq_pred(c)) == 0);
    assert(s.take(s.len() as int) =~= s);
}

/// Splitting a text without `c` at `c` gives the text itself.
pub proof fn lemma_split_char_absent(s: Seq<char>, c: char)
    requires
        forall|i: int| 0 <= i < s.len() ==> s[i] != c,
    ensures
        split_char(s, c) == seq![s],
{
    assert forall|j: int| 0 <= j implies !occurs_at(s, seq![c], j) by {
        if occurs_at(s, seq![c], j) {
            assert(s.subrange(j, j + 1)[0] == s[j]);
        }
    }
    lemma_find_from_none(s, seq![c], 0);
}

/// Splitting `a + [c] + b` at `c`, where `a` and `b` hold no `c`, gives `a`
/// and `b`.
pub proof fn lemma_split_char_once(a: Seq<char>, b: Seq<char>, c: char)
    requires
        forall|i: int| 0 <= i < a.len() ==> a[i] != c,
        forall|i: int| 0 <= i < b.len() ==> b[i] != c,
    ensures
        split_char(a + seq![c] + b, c) == seq![a, b],
{
    let s = a + seq![c] + b;
    let k = a.len() as int;
    assert(s.subrange(k, k + 1) =~= seq![c]);
    assert forall|j: int| 0 <= j < k implies !occurs_at(s, seq![c], j) by {
        if occurs_at(s, seq![c], j) {
            assert(s.subrange(j, j + 1)[0] == s[j]);
            assert(s[j] == a[j]);
        }
    }
    lemma_find_from_some(s, seq![c], 0, k);
    assert(s.take(k) =~= a);
    assert(s.skip(k + 1) =~= b);
    lemma_split_char_absent(b, c);
}

/// Splitting `a + [c] + b` at `c`, where `a` holds no `c`, gives `a`, then
/// the pieces of `b`.
pub proof fn lemma_split_char_prefix(a: Seq<char>, b: Seq<char>, c: char)
    requires
        forall|i: int| 0 <= i < a.len() ==> a[i] != c,
    ensures
        split_char(a + seq![c] + b, c) == seq![a] + split_char(b, c),
{
    let s = a + seq![c] + b;
    let k = a.len() as int;
    assert(s.subrange(k, k + 1) =~= seq![c]);
    assert forall|j: int| 0 <= j < k implies !occurs_at(s, seq![c], j) by {
        if occurs_at(s, seq![c], j) {
            assert(s.subrange(j, j + 1)[0] == s[j]);
            assert(s[j] == a[j]);
        }
    }
    lemma_find_from_some(s, seq![c], 0, k);
    assert(s.take(k) =~= a);
    assert(s.skip(k + 1) =~= b);
}

/// A trailing run stops at the last character outside it.
pub proof fn lemma_trail_run_stops(s: Seq<char>, p: spec_fn(char) -> bool, k: int)
    requires
        0 <= k < s.len(),
        !p(s[k]),
    ensures
        trail_run(s, p) <= s.len() - 1 - k,
    decreases s.len(),
{
    if s.len() - 1 > k && p(s.last()) {
        assert(s.drop_last()[k] == s[k]);
        lemma_trail_run_stops(s.drop_last(), p, k);
    }
}

fn digit_char_of(d: u64) -> (c: char)
    requires
        d < 10,
    ensures
        c == digit_char(d as nat),
{
    if d == 0 {
        '0'
    } else if d == 1 {
        '1'
    } else if d == 2 {
        '2'
    } else if d == 3 {
        '3'
    } else if d == 4 {
        '4'
    } else if d == 5 {
        '5'
    } else if d == 6 {
        '6'
    } else if d == 7 {
        '7'
    } else if d == 8 {
        '8'
    } else {
        '9'
    }
}

/// `format!("{}", n)` as characters.
pub fn format_decimal(n: u64) -> (r: Vec<char>)
    ensures
        r@ == decimal(n as nat),
    decreases n,
{
    if n < 10 {
        let mut v: Vec<char> = Vec::new();
        v.push(digit_char_of(n));
        assert(v@ =~= seq![digit_char(n as nat)]);
        v
    } else {
        let mut v = format_decimal(n / 10);
        v.push(digit_char_of(n % 10));
        v
    }
}

// ---------------------------------------------------------------------------
// Unicode case mapping (std)
// ---------------------------------------------------------------------------

/// What `str::to_lowercase` returns for a string with the given characters.
pub uninterp spec fn lowercase(s: Seq<char>) -> Seq<char>;

/// What `str::to_uppercase` returns for a string with the given characters.
pub uninterp spec fn uppercase(s: Seq<char>) -> Seq<char>;

/// The ASCII case mappings of a character (`char::to_ascii_lowercase` and
/// `to_ascii_uppercase`).
pub open spec fn ascii_lower(c: char) -> char {
    if 'A' <= c && c <= 'Z' {
        ((c as u32) + 32) as char
    } else {
        c
    }
}

pub open spec fn ascii_upper(c: char) -> char {
    if 'a' <= c && c <= 'z' {
        ((c as u32) - 32) as char
    } else {
        c
    }
}

pub open spec fn all_ascii(s: Seq<char>) -> bool {
    forall|i: int| 0 <= i < s.len() ==> (#[trigger] s[i] as u32) < 128
}

/// `str::to_lowercase`: the Unicode lowercase mapping of the whole string.
/// Its result is named here (the mapping is Unicode's table); for ASCII text
/// it is the ASCII mapping, character by character, as Unicode maps the
/// ASCII letters and leaves the other ASCII characters unchanged.
#[verifier::external_body]
fn str_to_lowercase(s: &str) -> (r: String)
    ensures
        r@ == lowercase(s@),
        all_ascii(s@) ==> r@ == s@.map_values(|c: char| ascii_lower(c)),
{
    s.to_lowercase()
}

/// `str::to_uppercase`: the Unicode uppercase mapping of the whole string.
/// Its result is named here (the mapping is Unicode's table); for ASCII text
/// it is the ASCII mapping, character by character.
#[verifier::external_body]
fn str_to_uppercase(s: &str) -> (r: String)
    ensures
        r@ == uppercase(s@),
        all_ascii(s@) ==> r@ == s@.map_values(|c: char| ascii_upper(c)),
{
    s.to_uppercase()
}

/// The lowercase mapping of the characters (see `lowercase`).
pub(crate) fn to_lowercase_at(s: &[char]) -> (r: Vec<char>)
    ensures
        r@ == lowercase(s@),
        all_ascii(s@) ==> r@ == s@.map_values(|c: char| ascii_lower(c)),
{
    chars_of(str_to_lowercase(string_of(s).as_str()).as_str())
}

/// The uppercase mapping of the characters (see `uppercase`).
pub(crate) fn to_uppercase_at(s: &[char]) -> (r: Vec<char>)
    ensures
        r@ == uppercase(s@),
        all_ascii(s@) ==> r@ == s@.map_values(|c: char| ascii_upper(c)),
{
    chars_of(str_to_uppercase(string_of(s).as_str()).as_str())
}

} // verus!
