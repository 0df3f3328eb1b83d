//! Update check: version comparison and the choice of release.
use vstd::prelude::*;
use crate::text;
use crate::text::{chars_of, parse_unsigned, split_char_at, trim_at, trim_start_char_at};

verus! {

/// Result of an update check.
#[derive(Debug, Clone)]
pub struct UpdateInfo {
    pub current_version: String,
    pub latest_version: String,
    pub update_available: bool,
    pub changelog: String,
    pub release_url: String,
    pub published_at: Option<String>,
}

/// The version number part of a tag: trimmed, leading `v`s dropped, cut at
/// the first `-` or `+`.
pub open spec fn version_core(v: Seq<char>) -> Seq<char> {
    let t = text::trim_start_char(text::trim(v), 'v');
    t.take(text::lead_run(t, |c: char| c != '-' && c != '+') as int)
}

/// Component `k` of the dotted core; 0 when missing or not a number.
pub open spec fn version_component(parts: Seq<Seq<char>>, k: int) -> nat {
    if 0 <= k < parts.len() {
        match text::parse_bounded(parts[k], u64::MAX as nat) {
            Some(n) => n,
            None => 0,
        }
    } else {
        0
    }
}

/// (major, minor, patch) of a semver-ish string such as `v1.2.3-beta.1`.
pub open spec fn version_triple(v: Seq<char>) -> (nat, nat, nat) {
    let parts = text::split_char(version_core(v), '.');
    (version_component(parts, 0), version_component(parts, 1), version_component(parts, 2))
}

/// Lexicographic order of triples.
pub open spec fn triple_gt(a: (nat, nat, nat), b: (nat, nat, nat)) -> bool {
    a.0 > b.0 || (a.0 == b.0 && (a.1 > b.1 || (a.1 == b.1 && a.2 > b.2)))
}

/// A version written `major.minor.patch`.
pub open spec fn version_text(x: u64, y: u64, z: u64) -> Seq<char> {
    text::decimal(x as nat) + "."@ + text::decimal(y as nat) + "."@ + text::decimal(z as nat)
}

proof fn lemma_digits_facts(n: u64)
    ensures
        text::decimal(n as nat).len() > 0,
        forall|i: int| 0 <= i < text::decimal(n as nat).len() ==> text::is_ascii_digit(#[trigger] text::decimal(n as nat)[i]),
        text::parse_bounded(text::decimal(n as nat), u64::MAX as nat) == Some(n as nat),
        text::trim(text::decimal(n as nat)) == text::decimal(n as nat),
{
    text::lemma_decimal_digits(n as nat);
    text::lemma_parse_decimal(n as nat, u64::MAX as nat);
    let d = text::decimal(n as nat);
    assert(text::is_ascii_digit(d[0]) && text::is_ascii_digit(d.last()));
    text::lemma_trim_unchanged(d);
}

/// A version written `major.minor.patch`, with or without a leading `v`
/// (and with a pre-release part after `-`), is read as its three numbers.
pub proof fn law_version_text_reads_back(x: u64, y: u64, z: u64, pre: Seq<char>)
    ensures
        version_triple(version_text(x, y, z)) == (x as nat, y as nat, z as nat),
        version_triple("v"@ + version_text(x, y, z)) == (x as nat, y as nat, z as nat),
        version_triple(version_text(x, y, z) + "-"@ + pre) == (x as nat, y as nat, z as nat),
{
    reveal_strlit(".");
    reveal_strlit("v");
    reveal_strlit("-");
    lemma_digits_facts(x);
    lemma_digits_facts(y);
    lemma_digits_facts(z);
    let dx = text::decimal(x as nat);
    let dy = text::decimal(y as nat);
    let dz = text::decimal(z as nat);
    let s = version_text(x, y, z);
    let yz = dy + seq!['.'] + dz;
    assert(s =~= dx + seq!['.'] + yz);
    assert forall|i: int| 0 <= i < dx.len() implies dx[i] != '.' by {
        assert(text::is_ascii_digit(dx[i]));
    }
    assert forall|i: int| 0 <= i < dy.len() implies dy[i] != '.' by {
        assert(text::is_ascii_digit(dy[i]));
    }
    assert forall|i: int| 0 <= i < dz.len() implies dz[i] != '.' by {
        assert(text::is_ascii_digit(dz[i]));
    }
    text::lemma_split_char_prefix(dx, yz, '.');
    text::lemma_split_char_once(dy, dz, '.');
    let parts = text::split_char(s, '.');
    assert(parts =~= seq![dx, dy, dz]);
    // Every character of `s` is a digit or a dot.
    assert forall|i: int| 0 <= i < s.len() implies (#[trigger] s[i] != '-' && s[i] != '+' && !text::is_ws(s[i]) && s[i] != 'v') by {
        if i < dx.len() {
            assert(s[i] == dx[i] && text::is_ascii_digit(dx[i]));
        } else if i == dx.len() {
        } else if i < dx.len() + 1 + dy.len() {
            assert(s[i] == dy[i - dx.len() - 1] && text::is_ascii_digit(dy[i - dx.len() - 1]));
        } else if i == dx.len() + 1 + dy.len() {
        } else {
            assert(s[i] == dz[i - dx.len() - 2 - dy.len()] && text::is_ascii_digit(dz[i - dx.len() - 2 - dy.len()]));
        }
    }
    assert(s[0] == dx[0] && text::is_ascii_digit(dx[0]));
    assert(s.last() == dz.last() && text::is_ascii_digit(dz.last()));
    let p = |c: char| c != '-' && c != '+';
    // Plain.
    text::lemma_trim_unchanged(s);
    assert(text::lead_run(s, text::eq_pred('v')) == 0);
    assert(s.skip(0) =~= s);
    text::lemma_lead_run(s, p, s.len() as int);
    assert(s.take(s.len() as int) =~= s);
    assert(version_core(s) == s);
    // With a leading `v`.
    let vs = "v"@ + s;
    assert(vs =~= seq!['v'] + s);
    assert(vs.last() == s.last());
    text::lemma_trim_unchanged(vs);
    assert(vs.drop_first() =~= s);
    assert(text::lead_run(vs, text::eq_pred('v')) == 1);
    assert(vs.skip(1) =~= s);
    assert(version_core(vs) == s);
    // With a pre-release part.
    let ps = s + "-"@ + pre;
    assert(ps =~= s + seq!['-'] + pre);
    assert(ps[0] == s[0]);
    let tp = text::trim(ps);
    text::lemma_lead_run_facts(ps, text::ws_pred());
    assert(text::lead_run(ps, text::ws_pred()) == 0);
    assert(ps.skip(0) =~= ps);
    let te = text::trim_end(ps);
    text::lemma_trail_run_stops(ps, text::ws_pred(), s.len() as int);
    assert(te == ps.take(ps.len() - text::trail_run(ps, text::ws_pred())));
    assert(te.len() > s.len());
    assert(te.take(s.len() as int + 1) =~= s + seq!['-']);
    assert(tp == te);
    assert(te[0] == s[0]);
    assert(text::lead_run(te, text::eq_pred('v')) == 0);
    assert(te.skip(0) =~= te);
    assert(te[s.len() as int] == '-');
    assert forall|j: int| 0 <= j < s.len() implies p(#[trigger] te[j]) by {
        assert(te[j] == s[j]);
    }
    text::lemma_lead_run(te, p, s.len() as int);
    assert(te.take(s.len() as int) =~= s);
    assert(version_core(ps) == s);
}

/// "Newer" is a strict order on versions, in which a later major version is
/// newer than any version of an earlier one, a later minor version newer
/// than any of the same major version with an earlier minor one, a later
/// patch newer than an earlier one, and a pre-release neither newer nor
/// older than its release.
pub proof fn law_newer_order(a: Seq<char>, b: Seq<char>, c: Seq<char>, x: u64, y: u64, z: u64, pre: Seq<char>)
    ensures
        !triple_gt(version_triple(a), version_triple(a)),
        triple_gt(version_triple(a), version_triple(b)) ==> !triple_gt(version_triple(b), version_triple(a)),
        triple_gt(version_triple(a), version_triple(b)) && triple_gt(version_triple(b), version_triple(c)) ==> triple_gt(
            version_triple(a),
            version_triple(c),
        ),
        x < u64::MAX ==> triple_gt(version_triple(version_text((x + 1) as u64, 0, 0)), version_triple(version_text(x, y, z))),
        y < u64::MAX ==> triple_gt(version_triple(version_text(x, (y + 1) as u64, 0)), version_triple(version_text(x, y, z))),
        z < u64::MAX ==> triple_gt(version_triple(version_text(x, y, (z + 1) as u64)), version_triple(version_text(x, y, z))),
        !triple_gt(version_triple(version_text(x, y, z) + "-"@ + pre), version_triple(version_text(x, y, z))),
        !triple_gt(version_triple(version_text(x, y, z)), version_triple(version_text(x, y, z) + "-"@ + pre)),
{
    law_version_text_reads_back(x, y, z, pre);
    if x < u64::MAX {
        law_version_text_reads_back((x + 1) as u64, 0, 0, pre);
    }
    if y < u64::MAX {
        law_version_text_reads_back(x, (y + 1) as u64, 0, pre);
    }
    if z < u64::MAX {
        law_version_text_reads_back(x, y, (z + 1) as u64, pre);
    }
}

fn version_of(v: &str) -> (r: (u64, u64, u64))
    ensures
        (r.0 as nat, r.1 as nat, r.2 as nat) == version_triple(v@),
{
    let all = chars_of(v);
    let t = trim_start_char_at(trim_at(&all), 'v');
    let mut n: usize = 0;
    while n < t.len() && t[n] != '-' && t[n] != '+'
        invariant
            n <= t.len(),
            forall|j: int| 0 <= j < n ==> #[trigger] t@[j] != '-' && t@[j] != '+',
        decreases t.len() - n,
    {
        n += 1;
    }
    proof {
        text::lemma_lead_run(t@, |c: char| c != '-' && c != '+', n as int);
        assert(t@.subrange(0, n as int) =~= t@.take(n as int));
    }
    let core = &t[0..n];
    let parts = split_char_at(core, '.');
    let ghost pv = text::split_char(version_core(v@), '.');
    assert(parts@.len() == pv.len());
    let major = if parts.len() > 0 {
        match parse_unsigned(&parts[0], u64::MAX) {
            Some(x) => x,
            None => 0,
        }
    } else {
        0
    };
    let minor = if parts.len() > 1 {
        match parse_unsigned(&parts[1], u64::MAX) {
            Some(x) => x,
            None => 0,
        }
    } else {
        0
    };
    let patch = if parts.len() > 2 {
        match parse_unsigned(&parts[2], u64::MAX) {
            Some(x) => x,
            None => 0,
        }
    } else {
        0
    };
    (major, minor, patch)
}

/// Whether `a` is a strictly newer version than `b` ("1.2.3", "v1.2.3",
/// "0.1.5-beta.1": the pre-release part is ignored).
pub fn is_newer(a: &str, b: &str) -> (r: bool)
    ensures
        r == triple_gt(version_triple(a@), version_triple(b@)),
{
    let x = version_of(a);
    let y = version_of(b);
    x.0 > y.0 || (x.0 == y.0 && (x.1 > y.1 || (x.1 == y.1 && x.2 > y.2)))
}


/// What the update check reads of a release object of the GitHub API: a
/// string field is None when absent or not a string, a flag when absent or
/// not a boolean.
#[derive(Debug, Clone)]
pub struct ReleaseJson {
    pub is_object: bool,
    pub tag_name: Option<String>,
    pub body: Option<String>,
    pub html_url: Option<String>,
    pub published_at: Option<String>,
    pub prerelease: Option<bool>,
    pub draft: Option<bool>,
}

pub open spec fn str_or_empty(o: Option<String>) -> Seq<char> {
    match o {
        Some(s) => s@,
        None => seq![],
    }
}

pub open spec fn flag(o: Option<bool>) -> bool {
    match o {
        Some(b) => b,
        None => false,
    }
}

/// A prerelease or a draft.
pub open spec fn unstable(r: ReleaseJson) -> bool {
    flag(r.prerelease) || flag(r.draft)
}

/// The fields shown of a release: (tag, changelog, page URL, publication
/// date); None unless it is an object with a tag and a page URL.
pub open spec fn spec_release_fields(r: ReleaseJson) -> Option<(Seq<char>, Seq<char>, Seq<char>, Option<Seq<char>>)> {
    if !r.is_object || str_or_empty(r.tag_name).len() == 0 || str_or_empty(r.html_url).len() == 0 {
        None
    } else {
        Some(
            (
                str_or_empty(r.tag_name),
                str_or_empty(r.body),
                str_or_empty(r.html_url),
                match r.published_at {
                    Some(p) => Some(p@),
                    None => None,
                },
            ),
        )
    }
}

pub open spec fn fields_view(f: (String, String, String, Option<String>)) -> (Seq<char>, Seq<char>, Seq<char>, Option<Seq<char>>) {
    (f.0@, f.1@, f.2@, match f.3 {
        Some(p) => Some(p@),
        None => None,
    })
}

/// The fields of a release (see `spec_release_fields`).
pub fn release_fields(r: &ReleaseJson) -> (out: Option<(String, String, String, Option<String>)>)
    ensures
        match out {
            Some(f) => spec_release_fields(*r) == Some(fields_view(f)),
            None => spec_release_fields(*r) is None,
        },
{
    if !r.is_object {
        return None;
    }
    let tag = match &r.tag_name {
        Some(t) => t.clone(),
        None => String::new(),
    };
    let body = match &r.body {
        Some(b) => b.clone(),
        None => String::new(),
    };
    let url = match &r.html_url {
        Some(u) => u.clone(),
        None => String::new(),
    };
    let published = match &r.published_at {
        Some(p) => Some(p.clone()),
        None => None,
    };
    if tag.as_str().is_empty() || url.as_str().is_empty() {
        return None;
    }
    Some((tag, body, url, published))
}

/// The first release from position `i` on that is neither a prerelease nor
/// a draft.
pub open spec fn first_stable_from(l: Seq<ReleaseJson>, i: int) -> Option<int>
    decreases l.len() - i,
{
    if i < 0 || i >= l.len() {
        None
    } else if !unstable(l[i]) {
        Some(i)
    } else {
        first_stable_from(l, i + 1)
    }
}

/// The release to present: the latest one when it is stable (a malformed one
/// is an error); else the first stable release of the list (an error
/// without a list, without a stable release, or when it is malformed).
pub open spec fn spec_pick_release(latest: ReleaseJson, list: Option<Seq<ReleaseJson>>) -> Result<
    (Seq<char>, Seq<char>, Seq<char>, Option<Seq<char>>),
    Seq<char>,
> {
    if !unstable(latest) {
        match spec_release_fields(latest) {
            Some(f) => Ok(f),
            None => Err("GitHub 返回数据异常"@),
        }
    } else {
        match list {
            None => Err("GitHub 返回数据异常"@),
            Some(l) => match first_stable_from(l, 0) {
                Some(k) => match spec_release_fields(l[k]) {
                    Some(f) => Ok(f),
                    None => Err("没有可用的正式版本"@),
                },
                None => Err("没有可用的正式版本"@),
            },
        }
    }
}

/// The release list is needed when the latest release is a prerelease or a
/// draft: a stable release must then be found among the others.
pub fn needs_release_list(latest: &ReleaseJson) -> (r: bool)
    ensures
        r == unstable(*latest),
{
    let pre = match latest.prerelease {
        Some(b) => b,
        None => false,
    };
    let draft = match latest.draft {
        Some(b) => b,
        None => false,
    };
    pre || draft
}

/// Chooses the release to present (see `spec_pick_release`); `list` is
/// None when the list could not be read as an array.
pub fn pick_release_fields(latest: &ReleaseJson, list: Option<&Vec<ReleaseJson>>) -> (r: Result<
    (String, String, String, Option<String>),
    String,
>)
    ensures
        match spec_pick_release(
            *latest,
            match list {
                Some(l) => Some(l@),
                None => None,
            },
        ) {
            Ok(f) => r matches Ok(g) && fields_view(g) == f,
            Err(e) => r matches Err(m) && m@ == e,
        },
{
    let latest_unstable = match latest.prerelease {
        Some(b) => b,
        None => false,
    } || match latest.draft {
        Some(b) => b,
        None => false,
    };
    if !latest_unstable {
        return match release_fields(latest) {
            Some(f) => Ok(f),
            None => Err("GitHub 返回数据异常".to_string()),
        };
    }
    let l = match list {
        Some(l) => l,
        None => return Err("GitHub 返回数据异常".to_string()),
    };
    let mut k: usize = 0;
    while k < l.len()
        invariant
            k <= l@.len(),
            unstable(*latest),
            list == Some(l),
            first_stable_from(l@, 0) == first_stable_from(l@, k as int),
        decreases l.len() - k,
    {
        let r = &l[k];
        let u = match r.prerelease {
            Some(b) => b,
            None => false,
        } || match r.draft {
            Some(b) => b,
            None => false,
        };
        if !u {
            assert(*r == l@[k as int]);
            return match release_fields(r) {
                Some(f) => Ok(f),
                None => Err("没有可用的正式版本".to_string()),
            };
        }
        k += 1;
    }
    Err("没有可用的正式版本".to_string())
}

/// The outcome of an update check against the running version.
pub fn update_info(
    current_version: &str,
    fields: (String, String, String, Option<String>),
) -> (r: UpdateInfo)
    ensures
        r.current_version@ == current_version@,
        r.latest_version@ == fields.0@,
        r.update_available == triple_gt(version_triple(fields.0@), version_triple(current_version@)),
        r.changelog@ == fields.1@,
        r.release_url@ == fields.2@,
        r.published_at == fields.3,
{
    let available = is_newer(fields.0.as_str(), current_version);
    UpdateInfo {
        current_version: current_version.to_string(),
        latest_version: fields.0,
        update_available: available,
        changelog: fields.1,
        release_url: fields.2,
        published_at: fields.3,
    }
}

} // verus!
