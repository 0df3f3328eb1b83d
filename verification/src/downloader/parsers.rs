//! Video pages: where the title and the stream URL are found, including
//! the packed player scripts of MissAV and the Streamtape links of SupJav.
use vstd::prelude::*;
use crate::text;
use crate::text::{chars_of, concat, contains_at, format_decimal, split_char_at, string_of, to_uppercase_at, trim_at, trim_start_char_at};
use crate::weburl::{spec_url_parts, url_parts};
use crate::html::{
    dom_nodes_attr, dom_nodes_text, dom_text, nodes_attr, nodes_text, opt_strings_view, select_text,
    strings_view,
};
use crate::pattern::{
    group1, group1_exec, lookup_word, regex_captures, regex_captures_all, regex_find, regex_found, regex_groups,
    regex_groups_all, regex_replace_by_table, regex_replaced_by_table, table_lookup, table_view,
    groups_view,
};

verus! {

/// Title and stream URL of a video page.
#[derive(Debug, Clone)]
pub struct JableVideoPageInfo {
    pub title: String,
    pub m3u8_url: String,
}

// ---------------------------------------------------------------------------
// Packed scripts
// ---------------------------------------------------------------------------

/// The packer call `eval(function(p,a,c,k,e,d){...}('<packed>',<a>,<c>,'<keys>'.split('|')`.
pub open spec fn packer_pattern() -> Seq<char> {
    "eval\\s*\\(\\s*function\\s*\\(\\s*p\\s*,\\s*a\\s*,\\s*c\\s*,\\s*k\\s*,\\s*e\\s*,\\s*d\\s*\\)\\s*\\{[\\s\\S]*?\\}\\s*\\(\\s*'([\\s\\S]*?)'\\s*,\\s*(\\d+)\\s*,\\s*(\\d+)\\s*,\\s*'([\\s\\S]*?)'\\s*\\.split\\s*\\(\\s*'\\|'\\s*\\)"@
}

/// A word: `\b\w+\b`.
pub open spec fn word_pattern() -> Seq<char> {
    "\\b\\w+\\b"@
}

/// Digit `d` (below 36) of a number written in a base up to 36.
pub open spec fn digit36(d: nat) -> char {
    if d < 10 {
        (d + 48) as char
    } else {
        (d + 87) as char
    }
}

pub open spec fn base_digits(n: nat, b: nat) -> Seq<char>
    decreases n,
{
    if n == 0 || b < 2 {
        seq![]
    } else {
        proof {
            assert(n / b < n) by (nonlinear_arith)
                requires
                    b >= 2,
                    n > 0,
            ;
        }
        base_digits(n / b, b).push(digit36(n % b))
    }
}

/// `n` written in base `b` (2 to 36), `0` for zero.
pub open spec fn to_base(n: nat, b: nat) -> Seq<char> {
    if n == 0 {
        seq!['0']
    } else {
        base_digits(n, b)
    }
}

/// The value of a digit as JavaScript's `Number.prototype.toString(b)`
/// writes it: `0`-`9`, then the lower-case letters `a`-`z` for 10 to 35.
pub open spec fn digit_value36(c: char) -> Option<nat> {
    if '0' <= c && c <= '9' {
        Some((c as u32 - '0' as u32) as nat)
    } else if 'a' <= c && c <= 'z' {
        Some((c as u32 - 'a' as u32 + 10) as nat)
    } else {
        None
    }
}

/// The number such digits denote in base `b`; None when a character is not
/// a digit below `b`.
pub open spec fn read_base(s: Seq<char>, b: nat) -> Option<nat>
    decreases s.len(),
{
    if s.len() == 0 {
        Some(0)
    } else {
        match (read_base(s.drop_last(), b), digit_value36(s.last())) {
            (Some(v), Some(d)) => if d < b {
                Some(v * b + d)
            } else {
                None
            },
            _ => None,
        }
    }
}

proof fn lemma_digit36_value(d: nat)
    requires
        d < 36,
    ensures
        digit_value36(digit36(d)) == Some(d),
{
    if d < 10 {
        assert(digit36(d) as u32 == d + 48);
    } else {
        assert(digit36(d) as u32 == d + 87);
    }
}

proof fn lemma_base_digits_read(n: nat, b: nat)
    requires
        2 <= b <= 36,
    ensures
        read_base(base_digits(n, b), b) == Some(n),
    decreases n,
{
    if n > 0 {
        assert(n / b < n) by (nonlinear_arith)
            requires
                b >= 2,
                n > 0,
        ;
        lemma_base_digits_read(n / b, b);
        let d = n % b;
        assert(n % b < b) by (nonlinear_arith)
            requires
                b >= 2,
        ;
        lemma_digit36_value(d);
        let s = base_digits(n, b);
        assert(s.drop_last() =~= base_digits(n / b, b));
        assert((n / b) * b + n % b == n) by (nonlinear_arith)
            requires
                b >= 2,
        ;
    }
}

/// A number written by `to_base` reads back to itself in its base, with
/// the digits JavaScript's `toString(b)` uses (lower-case letters for 10 to
/// 35), without leading zeros; ten is `a` in every base above ten.
pub proof fn law_to_base_reads_back(n: nat, b: nat)
    requires
        2 <= b <= 36,
    ensures
        read_base(to_base(n, b), b) == Some(n),
        to_base(n, b).len() > 0,
        to_base(n, b).len() > 1 ==> to_base(n, b)[0] != '0',
        b > 10 ==> to_base(10, b) == seq!['a'],
{
    if n == 0 {
        assert(seq!['0'].drop_last() =~= Seq::<char>::empty());
        assert(digit_value36('0') == Some(0nat));
        assert(0 * b == 0);
    } else {
        lemma_base_digits_read(n, b);
        lemma_base_digits_nonzero(n, b);
    }
    if b > 10 {
        assert(10nat / b == 0nat) by (nonlinear_arith)
            requires
                b > 10,
        ;
        assert(10nat % b == 10nat) by (nonlinear_arith)
            requires
                b > 10,
        ;
        assert(base_digits(0, b) =~= Seq::<char>::empty());
        assert(to_base(10, b) =~= seq![digit36(10)]);
        assert(digit36(10) as u32 == 97);
    }
}

proof fn lemma_base_digits_nonzero(n: nat, b: nat)
    requires
        2 <= b <= 36,
        n > 0,
    ensures
        base_digits(n, b).len() > 0,
        base_digits(n, b)[0] != '0',
    decreases n,
{
    assert(n / b < n) by (nonlinear_arith)
        requires
            b >= 2,
            n > 0,
    ;
    let d = n % b;
    assert(n % b < b) by (nonlinear_arith)
        requires
            b >= 2,
    ;
    if n / b > 0 {
        lemma_base_digits_nonzero(n / b, b);
        assert(base_digits(n, b)[0] == base_digits(n / b, b)[0]);
    } else {
        assert(n < b) by (nonlinear_arith)
            requires
                b >= 2,
                n / b == 0,
        ;
        assert(n % b == n) by (nonlinear_arith)
            requires
                n < b,
        ;
        assert(base_digits(0, b) =~= Seq::<char>::empty());
        lemma_digit36_value(n);
        assert(base_digits(n, b)[0] == digit36(n));
    }
}

/// The dictionary of a packed script: the word of each number below `c`
/// (written in base `a`) is the key of that index, or the word itself when
/// the key is missing or empty.
pub open spec fn unpack_table(a: nat, c: nat, keys: Seq<Seq<char>>) -> Seq<(Seq<char>, Seq<char>)> {
    Seq::new(
        c,
        |i: int|
            (to_base(i as nat, a), if i < keys.len() && keys[i].len() > 0 {
                keys[i]
            } else {
                to_base(i as nat, a)
            }),
    )
}

proof fn lemma_table_lookup_at(t: Seq<(Seq<char>, Seq<char>)>, w: Seq<char>, k: int)
    requires
        0 <= k < t.len(),
        t[k].0 == w,
        forall|j: int| 0 <= j < k ==> (#[trigger] t[j]).0 != w,
    ensures
        table_lookup(t, w) == t[k].1,
    decreases k,
{
    if k > 0 {
        assert(t[0].0 != w);
        let r = t.drop_first();
        assert forall|j: int| 0 <= j < k - 1 implies (#[trigger] r[j]).0 != w by {
            assert(r[j] == t[j + 1]);
        }
        lemma_table_lookup_at(r, w, k - 1);
    }
}

proof fn lemma_table_lookup_absent(t: Seq<(Seq<char>, Seq<char>)>, w: Seq<char>)
    requires
        forall|j: int| 0 <= j < t.len() ==> (#[trigger] t[j]).0 != w,
    ensures
        table_lookup(t, w) == w,
    decreases t.len(),
{
    if t.len() > 0 {
        let r = t.drop_first();
        assert forall|j: int| 0 <= j < r.len() implies (#[trigger] r[j]).0 != w by {
            assert(r[j] == t[j + 1]);
        }
        lemma_table_lookup_absent(r, w);
    }
}

/// The dictionary of a packed script in a base up to 36 maps the number
/// `i` written in that base to the `i`-th key (when there is a non-empty
/// one), and leaves every other word as it is: different numbers are
/// written differently.
pub proof fn law_unpack_dictionary(a: nat, c: nat, keys: Seq<Seq<char>>, i: nat, w: Seq<char>)
    requires
        2 <= a <= 36,
    ensures
        i < c && i < keys.len() && keys[i as int].len() > 0 ==> table_lookup(unpack_table(a, c, keys), to_base(i, a))
            == keys[i as int],
        (forall|j: nat| j < c ==> #[trigger] to_base(j, a) != w) ==> table_lookup(unpack_table(a, c, keys), w) == w,
{
    let t = unpack_table(a, c, keys);
    if i < c && i < keys.len() && keys[i as int].len() > 0 {
        law_to_base_reads_back(i, a);
        assert forall|j: int| 0 <= j < i implies (#[trigger] t[j]).0 != to_base(i, a) by {
            law_to_base_reads_back(j as nat, a);
        }
        lemma_table_lookup_at(t, to_base(i, a), i as int);
    }
    if forall|j: nat| j < c ==> #[trigger] to_base(j, a) != w {
        assert forall|j: int| 0 <= j < t.len() implies (#[trigger] t[j]).0 != w by {
            assert(to_base(j as nat, a) != w);
        }
        lemma_table_lookup_absent(t, w);
    }
}

/// The packer's arguments: packed text, base, count and keys.
pub open spec fn packer_args(script: Seq<char>) -> Option<(Seq<char>, nat, nat, Seq<Seq<char>>)> {
    match regex_groups(packer_pattern(), script) {
        Some(g) => if g.len() >= 5 {
            match (g[1], g[2], g[3], g[4]) {
                (Some(p), Some(a), Some(c), Some(k)) => match (
                    text::parse_bounded(a, u32::MAX as nat),
                    text::parse_bounded(c, u32::MAX as nat),
                ) {
                    (Some(an), Some(cn)) => Some((p, an, cn, text::split_char(k, '|'))),
                    _ => None,
                },
                _ => None,
            }
        } else {
            None
        },
        None => None,
    }
}

/// Unpacking needs a digit beyond `z`: a base above 36 with more than 36
/// words (the packer never emits one).
pub open spec fn unpack_out_of_domain(script: Seq<char>) -> bool {
    match packer_args(script) {
        Some((_, a, c, _)) => !(a <= 1 || c > 200000) && a > 36 && c > 36,
        None => false,
    }
}

/// The unpacked script: each word of the packed text replaced through the
/// dictionary; None when there is no packer call, its base is below 2 or
/// its count above 200000.
pub open spec fn spec_unpack(script: Seq<char>) -> Option<Seq<char>> {
    match packer_args(script) {
        Some((p, a, c, keys)) => if a <= 1 || c > 200000 {
            None
        } else {
            regex_replaced_by_table(word_pattern(), p, unpack_table(a, c, keys))
        },
        None => None,
    }
}

fn digit36_exec(d: u32) -> (c: char)
    requires
        d < 36,
    ensures
        c == digit36(d as nat),
{
    if d < 10 {
        (d as u8 + 48) as char
    } else {
        (d as u8 + 87) as char
    }
}

fn to_base_exec(n: u32, b: u32) -> (r: Vec<char>)
    requires
        2 <= b,
        b > 36 ==> n < 36,
    ensures
        r@ == to_base(n as nat, b as nat),
{
    if n == 0 {
        let mut v: Vec<char> = Vec::new();
        v.push('0');
        return v;
    }
    let mut digits: Vec<char> = Vec::new();
    let mut m = n;
    while m > 0
        invariant
            2 <= b,
            b > 36 ==> n < 36,
            m <= n,
            n > 0,
            base_digits(n as nat, b as nat) == base_digits(m as nat, b as nat) + digits@,
        decreases m,
    {
        assert(m % b < 36) by (nonlinear_arith)
            requires
                b >= 2,
                b > 36 ==> m < 36,
        ;
        let d = digit36_exec(m % b);
        let ghost before = digits@;
        let mut nd: Vec<char> = Vec::new();
        nd.push(d);
        let mut j: usize = 0;
        while j < digits.len()
            invariant
                j <= digits@.len(),
                nd@ == seq![d] + digits@.take(j as int),
            decreases digits.len() - j,
        {
            nd.push(digits[j]);
            j += 1;
            assert(nd@ =~= seq![d] + digits@.take(j as int));
        }
        assert(digits@.take(j as int) =~= digits@);
        proof {
            assert((m / b) <= m) by (nonlinear_arith)
                requires
                    b >= 2,
            ;
            assert(base_digits(m as nat, b as nat) == base_digits((m / b) as nat, b as nat).push(digit36((m % b) as nat)));
            assert(base_digits((m / b) as nat, b as nat).push(d) + before =~= base_digits((m / b) as nat, b as nat) + (seq![d] + before));
        }
        digits = nd;
        m = m / b;
    }
    assert(base_digits(0, b as nat) =~= Seq::<char>::empty());
    assert(Seq::<char>::empty() + digits@ =~= digits@);
    digits
}

/// The dictionary of a packed script (see `unpack_table`).
fn build_table(a: u32, c: u32, keys: &Vec<Vec<char>>) -> (t: Vec<(String, String)>)
    requires
        2 <= a,
        a > 36 ==> c <= 36,
    ensures
        table_view(t@) == unpack_table(a as nat, c as nat, keys@.map_values(|k: Vec<char>| k@)),
{
    let ghost kv = keys@.map_values(|k: Vec<char>| k@);
    let mut t: Vec<(String, String)> = Vec::new();
    let mut i: u32 = 0;
    while i < c
        invariant
            2 <= a,
            a > 36 ==> c <= 36,
            i <= c,
            kv == keys@.map_values(|k: Vec<char>| k@),
            t@.len() == i,
            forall|j: int| 0 <= j < i ==> #[trigger] table_view(t@)[j] == unpack_table(a as nat, c as nat, kv)[j],
        decreases c - i,
    {
        let key = string_of(&to_base_exec(i, a));
        let ghost key_view = key@;
        let ii = i as usize;
        let val = if ii < keys.len() && keys[ii].len() > 0 {
            string_of(&keys[ii])
        } else {
            key.clone()
        };
        proof {
            if ii < keys.len() {
                assert(kv[i as int] == keys@[ii as int]@);
            }
        }
        assert(val@ == (if i < kv.len() && kv[i as int].len() > 0 {
            kv[i as int]
        } else {
            to_base(i as nat, a as nat)
        }));
        let ghost before = t@;
        t.push((key, val));
        assert forall|j: int| 0 <= j < i + 1 implies #[trigger] table_view(t@)[j] == unpack_table(a as nat, c as nat, kv)[j] by {
            assert(table_view(t@)[j] == (t@[j].0@, t@[j].1@));
            if j < i {
                assert(t@[j] == before[j]);
                assert(table_view(before)[j] == (before[j].0@, before[j].1@));
                assert(table_view(before)[j] == unpack_table(a as nat, c as nat, kv)[j]);
            } else {
                assert(t@[j].0@ == key_view);
                assert(t@[j].1@ == val@);
                assert(unpack_table(a as nat, c as nat, kv)[j] == (to_base(i as nat, a as nat), val@));
            }
        }
        i += 1;
    }
    assert(table_view(t@) =~= unpack_table(a as nat, c as nat, kv));
    t
}

fn packer_args_exec(script: &str) -> (r: Option<(String, u32, u32, Vec<Vec<char>>)>)
    ensures
        match r {
            Some((p, a, c, k)) => packer_args(script@) == Some(
                (p@, a as nat, c as nat, k@.map_values(|x: Vec<char>| x@)),
            ),
            None => packer_args(script@) is None,
        },
{
    let g = match regex_captures("eval\\s*\\(\\s*function\\s*\\(\\s*p\\s*,\\s*a\\s*,\\s*c\\s*,\\s*k\\s*,\\s*e\\s*,\\s*d\\s*\\)\\s*\\{[\\s\\S]*?\\}\\s*\\(\\s*'([\\s\\S]*?)'\\s*,\\s*(\\d+)\\s*,\\s*(\\d+)\\s*,\\s*'([\\s\\S]*?)'\\s*\\.split\\s*\\(\\s*'\\|'\\s*\\)", script) {
        Some(g) => g,
        None => return None,
    };
    if g.len() < 5 {
        return None;
    }
    let ghost gv = groups_view(g);
    assert(gv[1] == (match g@[1] {
        Some(s) => Some(s@),
        None => None,
    }));
    assert(gv[2] == (match g@[2] {
        Some(s) => Some(s@),
        None => None,
    }));
    assert(gv[3] == (match g@[3] {
        Some(s) => Some(s@),
        None => None,
    }));
    assert(gv[4] == (match g@[4] {
        Some(s) => Some(s@),
        None => None,
    }));
    match (&g[1], &g[2], &g[3], &g[4]) {
        (Some(p), Some(a), Some(c), Some(k)) => {
            match (
                crate::text::parse_unsigned(&chars_of(a.as_str()), u32::MAX as u64),
                crate::text::parse_unsigned(&chars_of(c.as_str()), u32::MAX as u64),
            ) {
                (Some(an), Some(cn)) => {
                    let keys = split_char_at(&chars_of(k.as_str()), '|');
                    assert(keys@.map_values(|x: Vec<char>| x@) =~= text::split_char(k@, '|'));
                    Some((p.clone(), an as u32, cn as u32, keys))
                },
                _ => None,
            }
        },
        _ => None,
    }
}

/// Unpacks a packed player script: outer None for a script outside the
/// unpacker's domain (see `unpack_out_of_domain`), else `spec_unpack`.
pub fn try_unpack_js_eval(script_text: &str) -> (r: Option<Option<String>>)
    ensures
        unpack_out_of_domain(script_text@) <==> r is None,
        r matches Some(u) ==> match u {
            Some(s) => spec_unpack(script_text@) == Some(s@),
            None => spec_unpack(script_text@) is None,
        },
{
    let (p, a, c, keys) = match packer_args_exec(script_text) {
        Some(x) => x,
        None => return Some(None),
    };
    if a <= 1 || c > 200000 {
        return Some(None);
    }
    if a > 36 && c > 36 {
        return None;
    }
    let table = build_table(a, c, &keys);
    Some(regex_replace_by_table("\\b\\w+\\b", p.as_str(), &table))
}

/// Unpacks a packed player script within the unpacker's domain (see
/// `spec_unpack`).
pub fn unpack_js_eval(script_text: &str) -> (r: Option<String>)
    requires
        !unpack_out_of_domain(script_text@),
    ensures
        match r {
            Some(s) => spec_unpack(script_text@) == Some(s@),
            None => spec_unpack(script_text@) is None,
        },
{
    match try_unpack_js_eval(script_text) {
        Some(u) => u,
        None => None,
    }
}


// ---------------------------------------------------------------------------
// Streamtape links
// ---------------------------------------------------------------------------

/// The script line that builds a Streamtape link: a quoted prefix, a
/// quoted suffix and a chain of `.substring(<n>)` calls.
pub open spec fn tape_pattern() -> Seq<char> {
    r#"getElementById\(\s*['"]robotlink['"]\s*\)\.innerHTML\s*=\s*['"]([^'"]*)['"]\s*\+\s*(?:\['"\]{2}\s*\+\s*)?\(\s*['"]([^'"]*)['"]\s*\)((?:\.substring\(\s*\d+\s*\))+)"#@
}

pub open spec fn substring_pattern() -> Seq<char> {
    r#"substring\(\s*(\d+)\s*\)"#@
}

/// Prefix, suffix and substring chain of the link script.
pub open spec fn tape_parts(html: Seq<char>) -> Option<(Seq<char>, Seq<char>, Seq<char>)> {
    match regex_groups(tape_pattern(), html) {
        Some(g) => if g.len() >= 4 {
            match (g[1], g[2], g[3]) {
                (Some(p), Some(s), Some(c)) => Some((p, s, c)),
                _ => None,
            }
        } else {
            None
        },
        None => None,
    }
}

/// One `.substring(<n>)` applied to the suffix's UTF-8 bytes: a number
/// below the length cuts that many bytes off the front (None when the cut
/// would split a character); anything else changes nothing.
pub open spec fn cut_step(b: Option<Seq<u8>>, g: Seq<Option<Seq<char>>>) -> Option<Seq<u8>> {
    match b {
        None => None,
        Some(bytes) => {
            let off = if g.len() > 1 {
                g[1]
            } else {
                None
            };
            match off {
                Some(o) => match text::parse_bounded(o, usize::MAX as nat) {
                    Some(n) => if n < bytes.len() {
                        if vstd::utf8::is_char_boundary(bytes, n as int) {
                            Some(bytes.subrange(n as int, bytes.len() as int))
                        } else {
                            None
                        }
                    } else {
                        Some(bytes)
                    },
                    None => Some(bytes),
                },
                None => Some(bytes),
            }
        },
    }
}

pub open spec fn cuts(b: Option<Seq<u8>>, gs: Seq<Seq<Option<Seq<char>>>>) -> Option<Seq<u8>>
    decreases gs.len(),
{
    if gs.len() == 0 {
        b
    } else {
        cut_step(cuts(b, gs.drop_last()), gs.last())
    }
}

/// The suffix after the substring calls, as bytes; None when a cut would
/// split a character.
pub open spec fn tape_suffix(html: Seq<char>) -> Option<Seq<u8>> {
    match tape_parts(html) {
        Some((_, s, c)) => cuts(Some(vstd::utf8::encode_utf8(s)), regex_groups_all(substring_pattern(), c)),
        None => None,
    }
}

/// A link script whose substring calls would cut inside a character.
pub open spec fn tape_out_of_domain(html: Seq<char>) -> bool {
    tape_parts(html) is Some && tape_suffix(html) is None
}

/// The Streamtape file URL of a player page: `https://` and the prefix
/// joined to the cut suffix, without leading slashes; None without the
/// link script or when the link is not a `get_video` one.
pub open spec fn spec_streamtape_url(html: Seq<char>) -> Option<Seq<char>> {
    match (tape_parts(html), tape_suffix(html)) {
        (Some((p, _, _)), Some(b)) => {
            let link = text::trim_start_char(p + vstd::utf8::decode_utf8(b), '/');
            if text::contains(link, "get_video"@) {
                Some("https://"@ + link)
            } else {
                None
            }
        },
        _ => None,
    }
}

/// Decodes the Streamtape link of a player page: outer None for a page out
/// of the decoder's domain (see `tape_out_of_domain`), else
/// `spec_streamtape_url`.
pub fn try_decode_streamtape_url(html: &str) -> (r: Option<Option<String>>)
    ensures
        tape_out_of_domain(html@) <==> r is None,
        r matches Some(u) ==> match u {
            Some(s) => spec_streamtape_url(html@) == Some(s@),
            None => spec_streamtape_url(html@) is None,
        },
{
    let g = match regex_captures(r#"getElementById\(\s*['"]robotlink['"]\s*\)\.innerHTML\s*=\s*['"]([^'"]*)['"]\s*\+\s*(?:\['"\]{2}\s*\+\s*)?\(\s*['"]([^'"]*)['"]\s*\)((?:\.substring\(\s*\d+\s*\))+)"#, html) {
        Some(g) => g,
        None => return Some(None),
    };
    if g.len() < 4 {
        return Some(None);
    }
    let ghost gv = groups_view(g);
    assert(gv[1] == (match g@[1] {
        Some(s) => Some(s@),
        None => None,
    }));
    assert(gv[2] == (match g@[2] {
        Some(s) => Some(s@),
        None => None,
    }));
    assert(gv[3] == (match g@[3] {
        Some(s) => Some(s@),
        None => None,
    }));
    let (prefix, suffix, subs) = match (&g[1], &g[2], &g[3]) {
        (Some(p), Some(s), Some(c)) => (p, s, c),
        _ => return Some(None),
    };
    let calls = regex_captures_all(r#"substring\(\s*(\d+)\s*\)"#, subs.as_str());
    let ghost cv = calls@.map_values(|x: Vec<Option<String>>| groups_view(x));
    let mut cur: String = suffix.clone();
    let mut i: usize = 0;
    assert(cv.take(0) =~= Seq::<Seq<Option<Seq<char>>>>::empty());
    while i < calls.len()
        invariant
            i <= calls@.len(),
            cv == calls@.map_values(|x: Vec<Option<String>>| groups_view(x)),
            cv == regex_groups_all(substring_pattern(), subs@),
            tape_parts(html@) == Some((prefix@, suffix@, subs@)),
            cuts(Some(vstd::utf8::encode_utf8(suffix@)), cv.take(i as int)) == Some(vstd::utf8::encode_utf8(cur@)),
        decreases calls.len() - i,
    {
        proof {
            assert(cv.take(i + 1).drop_last() =~= cv.take(i as int));
            assert(cv.take(i + 1).last() == cv[i as int]);
        }
        let c = &calls[i];
        let ghost cg = cv[i as int];
        let ghost before_bytes = vstd::utf8::encode_utf8(cur@);
        assert(cg == groups_view(*c));
        assert(cg.len() == c@.len());
        if c.len() > 1 {
            assert(cg[1] == (match c@[1] {
                Some(s) => Some(s@),
                None => None,
            }));
            match &c[1] {
                Some(o) => {
                    match crate::text::parse_unsigned(&chars_of(o.as_str()), usize::MAX as u64) {
                        Some(n) => {
                            let n = n as usize;
                            if n < cur.as_str().as_bytes().len() {
                                if !cur.as_str().is_char_boundary(n) {
                                    proof {
                                        lemma_cuts_stay_none(Some(vstd::utf8::encode_utf8(suffix@)), cv, i as int + 1);
                                    }
                                    return None;
                                }
                                let (_, rest) = cur.as_str().split_at(n);
                                let next = rest.to_string();
                                assert(vstd::utf8::encode_utf8(next@) == vstd::utf8::encode_utf8(cur@).subrange(n as int, vstd::utf8::encode_utf8(cur@).len() as int));
                                assert(cut_step(Some(before_bytes), cg) == Some(vstd::utf8::encode_utf8(next@)));
                                cur = next;
                            } else {
                                assert(cut_step(Some(before_bytes), cg) == Some(before_bytes));
                            }
                        },
                        None => {
                            assert(cut_step(Some(before_bytes), cg) == Some(before_bytes));
                        },
                    }
                },
                None => {
                    assert(cut_step(Some(before_bytes), cg) == Some(before_bytes));
                },
            }
        } else {
            assert(cut_step(Some(before_bytes), cg) == Some(before_bytes));
        }
        assert(cut_step(Some(before_bytes), cg) == Some(vstd::utf8::encode_utf8(cur@)));
        i += 1;
    }
    assert(cv.take(i as int) =~= cv);
    proof {
        vstd::utf8::encode_utf8_decode_utf8(cur@);
    }
    let joined = concat(&chars_of(prefix.as_str()), &chars_of(cur.as_str()));
    let link = trim_start_char_at(&joined, '/');
    if !contains_at(link, &chars_of("get_video")) {
        return Some(None);
    }
    Some(Some(string_of(&concat(&chars_of("https://"), link))))
}

proof fn lemma_cuts_stay_none(b: Option<Seq<u8>>, gs: Seq<Seq<Option<Seq<char>>>>, k: int)
    requires
        0 <= k <= gs.len(),
        cuts(b, gs.take(k)) is None,
    ensures
        cuts(b, gs) is None,
    decreases gs.len() - k,
{
    if k < gs.len() {
        assert(gs.take(k + 1).drop_last() =~= gs.take(k));
        lemma_cuts_stay_none(b, gs, k + 1);
    } else {
        assert(gs.take(k) =~= gs);
    }
}

/// The Streamtape file URL of a player page, within the decoder's domain
/// (see `spec_streamtape_url`).
pub fn decode_streamtape_url(html: &str) -> (r: Option<String>)
    requires
        !tape_out_of_domain(html@),
    ensures
        match r {
            Some(s) => spec_streamtape_url(html@) == Some(s@),
            None => spec_streamtape_url(html@) is None,
        },
{
    match try_decode_streamtape_url(html) {
        Some(u) => u,
        None => None,
    }
}


// ---------------------------------------------------------------------------
// MissAV video pages
// ---------------------------------------------------------------------------

pub open spec fn og_title_pattern() -> Seq<char> {
    r#"og:title"\s+content="([^"]+)""#@
}

pub open spec fn script_pattern() -> Seq<char> {
    r#"(?s)<script[^>]*>(.*?)</script>"#@
}

pub open spec fn source_pattern() -> Seq<char> {
    r#"source\s*=\s*[\\']*(https?://[^'\\;\s]+\.m3u8)"#@
}

pub open spec fn any_m3u8_pattern() -> Seq<char> {
    r#"(https?://[^\'\\;\s]+\.m3u8)"#@
}

/// The page title from its `og:title` meta tag, `missav_video` without one.
pub open spec fn missav_title(html: Seq<char>) -> Seq<char> {
    match group1(og_title_pattern(), html) {
        Some(t) => t,
        None => "missav_video"@,
    }
}

/// A script that holds the packed player: it calls `eval(function` and
/// mentions `m3u8`.
pub open spec fn packed_player(s: Seq<char>) -> bool {
    text::contains(s, "eval(function"@) && text::contains(s, "m3u8"@)
}

/// The stream found in an unpacked player: the address assigned to
/// `source`, else the first `.m3u8` address.
pub open spec fn stream_in_unpacked(u: Seq<char>) -> Option<Seq<char>> {
    match group1(source_pattern(), u) {
        Some(x) => Some(x),
        None => group1(any_m3u8_pattern(), u),
    }
}

/// Scanning the scripts from `i` on: the stream of the first packed player
/// that yields one; outer None when an unpacking on the way is out of the
/// unpacker's domain.
pub open spec fn stream_in_scripts(scripts: Seq<Seq<Option<Seq<char>>>>, i: int) -> Option<Option<Seq<char>>>
    decreases scripts.len() - i,
{
    if i < 0 || i >= scripts.len() {
        Some(None)
    } else {
        let content = if scripts[i].len() > 1 {
            scripts[i][1]
        } else {
            None
        };
        match content {
            Some(c) => if packed_player(c) {
                if unpack_out_of_domain(c) {
                    None
                } else {
                    match spec_unpack(c) {
                        Some(u) => match stream_in_unpacked(u) {
                            Some(x) => Some(Some(x)),
                            None => stream_in_scripts(scripts, i + 1),
                        },
                        None => stream_in_scripts(scripts, i + 1),
                    }
                }
            } else {
                stream_in_scripts(scripts, i + 1)
            },
            None => stream_in_scripts(scripts, i + 1),
        }
    }
}

/// A MissAV page whose packed players cannot all be unpacked on the way to
/// the stream.
pub open spec fn missav_page_out_of_domain(html: Seq<char>) -> bool {
    stream_in_scripts(regex_groups_all(script_pattern(), html), 0) is None
}

/// Title and stream URL of a MissAV video page; the error when no script
/// yields a stream.
pub open spec fn spec_missav_page(html: Seq<char>) -> Result<(Seq<char>, Seq<char>), Seq<char>> {
    match stream_in_scripts(regex_groups_all(script_pattern(), html), 0) {
        Some(Some(u)) => Ok((missav_title(html), u)),
        _ => Err("Could not find M3U8 stream URL in MissAV page. Possibly Cloudflare challenged or script changed."@),
    }
}


/// Reads a MissAV video page: outer None for a page out of the unpacker's
/// domain (see `missav_page_out_of_domain`), else `spec_missav_page`.
pub fn try_parse_missav_page(html: &str) -> (r: Option<Result<JableVideoPageInfo, String>>)
    ensures
        missav_page_out_of_domain(html@) <==> r is None,
        r matches Some(res) ==> match spec_missav_page(html@) {
            Ok((t, u)) => res matches Ok(info) && info.title@ == t && info.m3u8_url@ == u,
            Err(e) => res matches Err(m) && m@ == e,
        },
{
    let title = match group1_exec(r#"og:title"\s+content="([^"]+)""#, html) {
        Some(t) => t,
        None => "missav_video".to_string(),
    };
    let scripts = regex_captures_all(r#"(?s)<script[^>]*>(.*?)</script>"#, html);
    let ghost sv = scripts@.map_values(|x: Vec<Option<String>>| groups_view(x));
    let mut i: usize = 0;
    while i < scripts.len()
        invariant
            i <= scripts@.len(),
            sv == scripts@.map_values(|x: Vec<Option<String>>| groups_view(x)),
            sv == regex_groups_all(script_pattern(), html@),
            title@ == missav_title(html@),
            stream_in_scripts(sv, 0) == stream_in_scripts(sv, i as int),
        decreases scripts.len() - i,
    {
        let g = &scripts[i];
        assert(sv[i as int] == groups_view(*g));
        if g.len() > 1 {
            assert(sv[i as int][1] == (match g@[1] {
                Some(s) => Some(s@),
                None => None,
            }));
            match &g[1] {
                Some(c) => {
                    let cc = chars_of(c.as_str());
                    if contains_at(&cc, &chars_of("eval(function")) && contains_at(&cc, &chars_of("m3u8")) {
                        match try_unpack_js_eval(c.as_str()) {
                            None => return None,
                            Some(Some(u)) => {
                                match group1_exec(r#"source\s*=\s*[\\']*(https?://[^'\\;\s]+\.m3u8)"#, u.as_str()) {
                                    Some(x) => return Some(Ok(JableVideoPageInfo { title, m3u8_url: x })),
                                    None => {},
                                }
                                match group1_exec(r#"(https?://[^\'\\;\s]+\.m3u8)"#, u.as_str()) {
                                    Some(x) => return Some(Ok(JableVideoPageInfo { title, m3u8_url: x })),
                                    None => {},
                                }
                            },
                            Some(None) => {},
                        }
                    }
                },
                None => {},
            }
        }
        i += 1;
    }
    Some(Err("Could not find M3U8 stream URL in MissAV page. Possibly Cloudflare challenged or script changed.".to_string()))
}

/// Reads a MissAV video page within the unpacker's domain (see
/// `spec_missav_page`).
pub fn parse_missav_page(html: &str) -> (r: Result<JableVideoPageInfo, String>)
    requires
        !missav_page_out_of_domain(html@),
    ensures
        match spec_missav_page(html@) {
            Ok((t, u)) => r matches Ok(info) && info.title@ == t && info.m3u8_url@ == u,
            Err(e) => r matches Err(m) && m@ == e,
        },
{
    match try_parse_missav_page(html) {
        Some(r) => r,
        None => Err(String::new()),
    }
}

/// The referer of a MissAV page request: `<scheme>://<host>/` of the page
/// (`missav.ai` as host when it has none), or `https://missav.ai/` when it
/// does not parse.
pub fn missav_page_referer(url: &str) -> (r: String)
    ensures
        r@ == match spec_url_parts(url@) {
            Ok(p) => p.scheme + "://"@ + match p.host {
                Some(h) => h,
                None => "missav.ai"@,
            } + "/"@,
            Err(_) => "https://missav.ai/"@,
        },
{
    match url_parts(url) {
        Ok(p) => {
            let h = match p.host {
                Some(h) => h,
                None => "missav.ai".to_string(),
            };
            string_of(&concat(&concat(&concat(&chars_of(p.scheme.as_str()), &chars_of("://")), &chars_of(h.as_str())), &chars_of("/")))
        },
        Err(_) => "https://missav.ai/".to_string(),
    }
}

// ---------------------------------------------------------------------------
// Jable and SupJav video pages
// ---------------------------------------------------------------------------

/// A page's title: its trimmed `h1` text, else its trimmed `title` text.
pub open spec fn spec_page_title(html: Seq<char>) -> Seq<char> {
    if text::trim(dom_text(html, "h1"@)).len() > 0 {
        text::trim(dom_text(html, "h1"@))
    } else {
        text::trim(dom_text(html, "title"@))
    }
}

pub fn page_title(html: &str) -> (r: String)
    ensures
        r@ == spec_page_title(html@),
{
    let h = chars_of(select_text(html, "h1").as_str());
    let ht = trim_at(&h);
    if ht.len() > 0 {
        string_of(ht)
    } else {
        let t = chars_of(select_text(html, "title").as_str());
        string_of(trim_at(&t))
    }
}

pub open spec fn jable_m3u8_pattern() -> Seq<char> {
    r#"https?://[^\s'"\\]+\.m3u8"#@
}

/// The first stream address in the scripts that mention `hls` or `m3u8`.
pub open spec fn stream_in_jable_scripts(scripts: Seq<Seq<char>>, i: int) -> Option<Seq<char>>
    decreases scripts.len() - i,
{
    if i < 0 || i >= scripts.len() {
        None
    } else if text::contains(scripts[i], "hls"@) || text::contains(scripts[i], "m3u8"@) {
        match regex_found(jable_m3u8_pattern(), scripts[i]) {
            Some(m) => Some(m),
            None => stream_in_jable_scripts(scripts, i + 1),
        }
    } else {
        stream_in_jable_scripts(scripts, i + 1)
    }
}

/// Title and stream URL of a Jable video page; an error when no script
/// holds a stream.
pub open spec fn spec_jable_page(html: Seq<char>) -> Result<(Seq<char>, Seq<char>), Seq<char>> {
    match stream_in_jable_scripts(dom_nodes_text(html, "script"@), 0) {
        Some(u) => if u.len() > 0 {
            Ok((spec_page_title(html), u))
        } else {
            Err("Could not find JableTV M3U8 link in scripts"@)
        },
        None => Err("Could not find JableTV M3U8 link in scripts"@),
    }
}

pub fn parse_jable_page(html: &str) -> (r: Result<JableVideoPageInfo, String>)
    ensures
        match spec_jable_page(html@) {
            Ok((t, u)) => r matches Ok(info) && info.title@ == t && info.m3u8_url@ == u,
            Err(e) => r matches Err(m) && m@ == e,
        },
{
    let title = page_title(html);
    let scripts = nodes_text(html, "script");
    let ghost sv = strings_view(scripts@);
    let mut i: usize = 0;
    while i < scripts.len()
        invariant
            i <= scripts@.len(),
            sv == strings_view(scripts@),
            sv == dom_nodes_text(html@, "script"@),
            title@ == spec_page_title(html@),
            stream_in_jable_scripts(sv, 0) == stream_in_jable_scripts(sv, i as int),
        decreases scripts.len() - i,
    {
        assert(sv[i as int] == scripts@[i as int]@);
        let t = chars_of(scripts[i].as_str());
        if contains_at(&t, &chars_of("hls")) || contains_at(&t, &chars_of("m3u8")) {
            match regex_find(r#"https?://[^\s'"\\]+\.m3u8"#, scripts[i].as_str()) {
                Some(m) => {
                    if m.as_str().is_empty() {
                        return Err("Could not find JableTV M3U8 link in scripts".to_string());
                    }
                    return Ok(JableVideoPageInfo { title, m3u8_url: m });
                },
                None => {},
            }
        }
        i += 1;
    }
    Err("Could not find JableTV M3U8 link in scripts".to_string())
}

/// The servers of a SupJav video page: the upper-cased, trimmed text of each
/// server button with a `data-link`, and that link.
pub open spec fn supjav_servers_of(names: Seq<Seq<char>>, links: Seq<Option<Seq<char>>>) -> Seq<(Seq<char>, Seq<char>)>
    decreases links.len(),
{
    if links.len() == 0 {
        seq![]
    } else {
        let prev = supjav_servers_of(names.drop_last(), links.drop_last());
        match links.last() {
            Some(l) => prev.push((text::uppercase(text::trim(names[links.len() - 1])), l)),
            None => prev,
        }
    }
}

pub fn supjav_servers(html: &str) -> (r: Vec<(String, String)>)
    ensures
        r@.map_values(|p: (String, String)| (p.0@, p.1@)) == supjav_servers_of(
            dom_nodes_text(html@, "a.btn-server[data-link]"@),
            dom_nodes_attr(html@, "a.btn-server[data-link]"@, "data-link"@),
        ),
{
    let names = nodes_text(html, "a.btn-server[data-link]");
    let links = nodes_attr(html, "a.btn-server[data-link]", "data-link");
    let ghost nv = strings_view(names@);
    let ghost lv = opt_strings_view(links@);
    let mut out: Vec<(String, String)> = Vec::new();
    let mut i: usize = 0;
    assert(lv.take(0) =~= Seq::<Option<Seq<char>>>::empty());
    assert(out@.map_values(|p: (String, String)| (p.0@, p.1@)) =~= Seq::<(Seq<char>, Seq<char>)>::empty());
    while i < links.len()
        invariant
            i <= links@.len(),
            links@.len() == names@.len(),
            nv == strings_view(names@),
            lv == opt_strings_view(links@),
            out@.map_values(|p: (String, String)| (p.0@, p.1@)) == supjav_servers_of(nv.take(i as int), lv.take(i as int)),
        decreases links.len() - i,
    {
        proof {
            assert(nv.take(i + 1).drop_last() =~= nv.take(i as int));
            assert(lv.take(i + 1).drop_last() =~= lv.take(i as int));
            assert(lv.take(i + 1).last() == lv[i as int]);
            assert(nv.take(i + 1)[i as int] == names@[i as int]@);
        }
        match &links[i] {
            Some(l) => {
                let nc = chars_of(names[i].as_str());
                let name = string_of(&to_uppercase_at(trim_at(&nc)));
                let ghost before = out@.map_values(|p: (String, String)| (p.0@, p.1@));
                out.push((name, l.clone()));
                assert(out@.map_values(|p: (String, String)| (p.0@, p.1@)) =~= before.push((name@, l@)));
            },
            None => {},
        }
        i += 1;
    }
    assert(nv.take(i as int) =~= nv);
    assert(lv.take(i as int) =~= lv);
    out
}

/// The player address of a SupJav server: its link reversed, as the `c`
/// parameter of the SupremeJav player.
pub fn supremejav_url(link: &str) -> (r: String)
    ensures
        r@ == "https://lk1.supremejav.com/supjav.php?c="@ + link@.reverse(),
{
    let l = chars_of(link);
    let mut rev: Vec<char> = Vec::new();
    let mut i: usize = l.len();
    while i > 0
        invariant
            i <= l@.len(),
            rev@ == l@.skip(i as int).reverse(),
        decreases i,
    {
        rev.push(l[i - 1]);
        i -= 1;
        assert(rev@ =~= l@.skip(i as int).reverse());
    }
    assert(l@.skip(0) =~= l@);
    string_of(&concat(&chars_of("https://lk1.supremejav.com/supjav.php?c="), &rev))
}

/// `\/` unescaped to `/`, left to right.
pub open spec fn unescape_slashes(s: Seq<char>) -> Seq<char>
    decreases s.len(),
{
    if s.len() == 0 {
        seq![]
    } else if s.len() >= 2 && s[0] == '\\' && s[1] == '/' {
        seq!['/'] + unescape_slashes(s.skip(2))
    } else {
        seq![s[0]] + unescape_slashes(s.skip(1))
    }
}

pub open spec fn url_play_pattern() -> Seq<char> {
    r#"urlPlay[\s=:\'"]+(https?://[^\s'"\\]+\.m3u8[^\s'"\\]*)"#@
}

pub open spec fn any_stream_pattern() -> Seq<char> {
    r#"(https?://[^\s'"\\]+\.m3u8[^\s'"\\]*)"#@
}

/// The playlist a SupJav server's player names: the `urlPlay` address,
/// else the first `.m3u8` address, after unescaping slashes.
pub open spec fn spec_server_m3u8(body: Seq<char>) -> Option<Seq<char>> {
    let clean = unescape_slashes(body);
    match regex_groups(url_play_pattern(), clean) {
        Some(g) => if g.len() > 1 {
            g[1]
        } else {
            None
        },
        None => group1(any_stream_pattern(), clean),
    }
}

fn unescape_slashes_exec(s: &[char]) -> (r: Vec<char>)
    ensures
        r@ == unescape_slashes(s@),
{
    let mut out: Vec<char> = Vec::new();
    let mut i: usize = 0;
    assert(s@.skip(0) =~= s@);
    assert(out@ + unescape_slashes(s@.skip(0)) =~= unescape_slashes(s@));
    while i < s.len()
        invariant
            i <= s.len(),
            unescape_slashes(s@) == out@ + unescape_slashes(s@.skip(i as int)),
        decreases s.len() - i,
    {
        let ghost rest = s@.skip(i as int);
        if i + 1 < s.len() && s[i] == '\\' && s[i + 1] == '/' {
            assert(rest.skip(2) =~= s@.skip(i + 2));
            out.push('/');
            i += 2;
            assert(unescape_slashes(s@) =~= out@ + unescape_slashes(s@.skip(i as int)));
        } else {
            assert(rest.skip(1) =~= s@.skip(i + 1));
            out.push(s[i]);
            i += 1;
            assert(unescape_slashes(s@) =~= out@ + unescape_slashes(s@.skip(i as int)));
        }
    }
    assert(s@.skip(i as int) =~= Seq::<char>::empty());
    out
}

pub fn server_m3u8(body: &str) -> (r: Option<String>)
    ensures
        match r {
            Some(s) => spec_server_m3u8(body@) == Some(s@),
            None => spec_server_m3u8(body@) is None,
        },
{
    let clean = string_of(&unescape_slashes_exec(&chars_of(body)));
    match regex_captures(r#"urlPlay[\s=:\'"]+(https?://[^\s'"\\]+\.m3u8[^\s'"\\]*)"#, clean.as_str()) {
        Some(g) => {
            if g.len() > 1 {
                assert(groups_view(g)[1] == (match g@[1] {
                    Some(s) => Some(s@),
                    None => None,
                }));
                match &g[1] {
                    Some(s) => Some(s.clone()),
                    None => None,
                }
            } else {
                None
            }
        },
        None => group1_exec(r#"(https?://[^\s'"\\]+\.m3u8[^\s'"\\]*)"#, clean.as_str()),
    }
}

/// A Streamtape file is the full video when its size is unknown (0) or at
/// least 150 MB; smaller ones are previews.
pub open spec fn spec_streamtape_full(content_length: u64) -> bool {
    content_length == 0 || content_length >= 150_000_000
}

pub fn streamtape_is_full(content_length: u64) -> (r: bool)
    ensures
        r == spec_streamtape_full(content_length),
{
    content_length == 0 || content_length >= 150_000_000
}

/// The error when no SupJav server gave a stream.
pub fn servers_failed_message(last_error: Option<String>) -> (r: String)
    ensures
        r@ == "All SupJav servers failed. Last error: "@ + match last_error {
            Some(e) => e@,
            None => "unknown error"@,
        },
{
    let e = match last_error {
        Some(e) => e,
        None => "unknown error".to_string(),
    };
    string_of(&concat(&chars_of("All SupJav servers failed. Last error: "), &chars_of(e.as_str())))
}

} // verus!
