//! HLS playlists: media segments, byte ranges, encryption keys and the
//! choice among the variants of a master playlist.
use vstd::prelude::*;
use crate::text;
use crate::pattern;
use crate::text::{
    chars_of, concat, contains_at, ends_with_at, eq, lines_at, parse_unsigned, split_char_at, starts_with_at, string_of,
    to_lowercase_at, to_uppercase_at, trim_at, trim_char_at, trim_start_char_at,
};
use crate::weburl::{spec_url_join, spec_url_parts, url_join, url_parts};
use crate::downloader::utils::{hex_pairs_on_char_boundaries, hex_pairs_sliceable, parse_hex, spec_parse_hex};

verus! {

/// One media segment (or init segment) of an HLS playlist.
#[derive(Debug, Clone)]
pub struct Segment {
    pub url: String,
    /// (start, length) from `#EXT-X-BYTERANGE:length@start`, when present.
    pub byte_range: Option<(u64, u64)>,
}

pub struct SegmentView {
    pub url: Seq<char>,
    pub byte_range: Option<(u64, u64)>,
}

impl View for Segment {
    type V = SegmentView;

    open spec fn view(&self) -> SegmentView {
        SegmentView { url: self.url@, byte_range: self.byte_range }
    }
}

/// What a media playlist describes. Each segment has, at the same index of
/// `segment_durations`, the duration text of the `#EXTINF` tag that preceded
/// it (None without one); adding up the durations is left to the caller.
#[derive(Debug, Clone)]
pub struct M3u8Info {
    pub segments: Vec<Segment>,
    pub segment_durations: Vec<Option<String>>,
    /// fMP4 init segment from `#EXT-X-MAP` (must be prepended when merging).
    pub init_segment: Option<Segment>,
    pub key_url: Option<String>,
    pub iv: Option<Vec<u8>>,
}

pub struct M3u8InfoView {
    pub segments: Seq<SegmentView>,
    pub segment_durations: Seq<Option<Seq<char>>>,
    pub init_segment: Option<SegmentView>,
    pub key_url: Option<Seq<char>>,
    pub iv: Option<Seq<u8>>,
}

pub open spec fn opt_str_view(o: Option<String>) -> Option<Seq<char>> {
    match o {
        Some(s) => Some(s@),
        None => None,
    }
}

pub open spec fn opt_segment_view(o: Option<Segment>) -> Option<SegmentView> {
    match o {
        Some(s) => Some(s@),
        None => None,
    }
}

impl View for M3u8Info {
    type V = M3u8InfoView;

    open spec fn view(&self) -> M3u8InfoView {
        M3u8InfoView {
            segments: self.segments@.map_values(|s: Segment| s@),
            segment_durations: self.segment_durations@.map_values(|d: Option<String>| opt_str_view(d)),
            init_segment: opt_segment_view(self.init_segment),
            key_url: opt_str_view(self.key_url),
            iv: crate::downloader::utils::view_opt_bytes(self.iv),
        }
    }
}

/// A variant stream of a master playlist.
#[derive(Debug, Clone)]
pub struct Variant {
    pub uri: String,
    pub bandwidth: Option<usize>,
    pub resolution: Option<(usize, usize)>,
}

// ---------------------------------------------------------------------------
// BYTERANGE
// ---------------------------------------------------------------------------

/// A `BYTERANGE` value (`"82112@752"`, or `"82112"` when the range continues
/// from the previous one, `last_end`, or from 0): (start, length).
pub open spec fn spec_byterange(value: Seq<char>, last_end: Option<u64>) -> Option<(u64, u64)> {
    let v = text::trim_char(text::trim(value), '"');
    let parts = text::split_char(v, '@');
    match text::parse_bounded(text::trim(parts[0]), u64::MAX as nat) {
        None => None,
        Some(len) => if parts.len() >= 2 && text::trim(parts[1]).len() > 0 {
            match text::parse_bounded(text::trim(parts[1]), u64::MAX as nat) {
                Some(start) => Some((start as u64, len as u64)),
                None => None,
            }
        } else {
            Some(
                (
                    match last_end {
                        Some(e) => e,
                        None => 0,
                    },
                    len as u64,
                ),
            )
        },
    }
}

/// `BYTERANGE` values as HLS writes them: `<length>@<offset>` is the range
/// of `length` bytes from `offset`; a bare `<length>` starts where the last
/// range ended (at 0 without one).
pub proof fn law_byterange_values(len: u64, offset: u64, last_end: Option<u64>)
    ensures
        spec_byterange(text::decimal(len as nat) + "@"@ + text::decimal(offset as nat), last_end) == Some(
            (offset, len),
        ),
        spec_byterange(text::decimal(len as nat), last_end) == Some(
            (
                match last_end {
                    Some(e) => e,
                    None => 0,
                },
                len,
            ),
        ),
{
    reveal_strlit("@");
    let a = text::decimal(len as nat);
    let b = text::decimal(offset as nat);
    text::lemma_decimal_digits(len as nat);
    text::lemma_decimal_digits(offset as nat);
    text::lemma_parse_decimal(len as nat, u64::MAX as nat);
    text::lemma_parse_decimal(offset as nat, u64::MAX as nat);
    assert(text::is_ascii_digit(a[0]) && text::is_ascii_digit(a.last()));
    assert(text::is_ascii_digit(b[0]) && text::is_ascii_digit(b.last()));
    assert forall|i: int| 0 <= i < a.len() implies a[i] != '@' by {
        assert(text::is_ascii_digit(a[i]));
    }
    assert forall|i: int| 0 <= i < b.len() implies b[i] != '@' by {
        assert(text::is_ascii_digit(b[i]));
    }
    // With an offset.
    let v = a + "@"@ + b;
    assert(v =~= a + seq!['@'] + b);
    assert(v[0] == a[0] && v.last() == b.last());
    text::lemma_trim_unchanged(v);
    text::lemma_trim_char_unchanged(v, '"');
    text::lemma_split_char_once(a, b, '@');
    text::lemma_trim_unchanged(a);
    text::lemma_trim_unchanged(b);
    assert((len as nat) as u64 == len && (offset as nat) as u64 == offset);
    // Without one.
    text::lemma_trim_char_unchanged(a, '"');
    text::lemma_split_char_absent(a, '@');
}

proof fn lemma_split_nonempty(s: Seq<char>, c: char)
    ensures
        text::split_char(s, c).len() >= 1,
{
    reveal_with_fuel(text::split_char, 1);
}

/// Parses a `BYTERANGE` attribute value. Returns (start, length).
pub fn parse_byterange_attr(value: &str, last_end: Option<u64>) -> (r: Option<(u64, u64)>)
    ensures
        r == spec_byterange(value@, last_end),
{
    let all = chars_of(value);
    let v = trim_char_at(trim_at(&all), '"');
    let parts = split_char_at(v, '@');
    proof {
        lemma_split_nonempty(v@, '@');
    }
    let len = match parse_unsigned(trim_at(&parts[0]), u64::MAX) {
        Some(l) => l,
        None => return None,
    };
    if parts.len() >= 2 {
        let s = trim_at(&parts[1]);
        if s.len() > 0 {
            return match parse_unsigned(s, u64::MAX) {
                Some(start) => Some((start, len)),
                None => None,
            };
        }
    }
    Some(
        (
            match last_end {
                Some(e) => e,
                None => 0,
            },
            len,
        ),
    )
}

// ---------------------------------------------------------------------------
// EXT-X-STREAM-INF
// ---------------------------------------------------------------------------

/// Reads one `KEY=VALUE` attribute into the (bandwidth, resolution) read so
/// far. `BANDWIDTH` is replaced (by None when not a number); `RESOLUTION`
/// only when it is `<w>x<h>` with numbers.
pub open spec fn stream_inf_step(
    attr: Seq<char>,
    st: (Option<usize>, Option<(usize, usize)>),
) -> (Option<usize>, Option<(usize, usize)>) {
    let kv = text::split_char(attr, '=');
    if kv.len() != 2 {
        st
    } else {
        let key = text::uppercase(text::trim(kv[0]));
        let val = text::trim(kv[1]);
        if key == "BANDWIDTH"@ {
            (
                match text::parse_bounded(val, usize::MAX as nat) {
                    Some(b) => Some(b as usize),
                    None => None,
                },
                st.1,
            )
        } else if key == "RESOLUTION"@ {
            let rp = text::split_char(val, 'x');
            if rp.len() == 2 {
                match (
                    text::parse_bounded(rp[0], usize::MAX as nat),
                    text::parse_bounded(rp[1], usize::MAX as nat),
                ) {
                    (Some(w), Some(h)) => (st.0, Some((w as usize, h as usize))),
                    _ => st,
                }
            } else {
                st
            }
        } else {
            st
        }
    }
}

pub open spec fn stream_inf_fold(
    attrs: Seq<Seq<char>>,
    st: (Option<usize>, Option<(usize, usize)>),
) -> (Option<usize>, Option<(usize, usize)>)
    decreases attrs.len(),
{
    if attrs.len() == 0 {
        st
    } else {
        stream_inf_fold(attrs.drop_first(), stream_inf_step(attrs[0], st))
    }
}

/// The attribute list after `#EXT-X-STREAM-INF:` (empty without it).
pub open spec fn stream_inf_attrs(line: Seq<char>) -> Seq<char> {
    if text::starts_with(line, "#EXT-X-STREAM-INF:"@) {
        line.skip("#EXT-X-STREAM-INF:"@.len() as int)
    } else {
        Seq::empty()
    }
}

pub open spec fn spec_stream_inf(line: Seq<char>) -> (Option<usize>, Option<(usize, usize)>) {
    stream_inf_fold(text::split_char(stream_inf_attrs(line), ','), (None, None))
}

fn stream_inf_step_exec(attr: &[char], st: (Option<usize>, Option<(usize, usize)>)) -> (r: (
    Option<usize>,
    Option<(usize, usize)>,
))
    ensures
        r == stream_inf_step(attr@, st),
{
    let kv = split_char_at(attr, '=');
    if kv.len() != 2 {
        return st;
    }
    let key = to_uppercase_at(trim_at(&kv[0]));
    let val = trim_at(&kv[1]);
    if eq(&key, &chars_of("BANDWIDTH")) {
        let b = match parse_unsigned(val, usize::MAX as u64) {
            Some(b) => Some(b as usize),
            None => None,
        };
        (b, st.1)
    } else if eq(&key, &chars_of("RESOLUTION")) {
        let rp = split_char_at(val, 'x');
        if rp.len() == 2 {
            match (parse_unsigned(&rp[0], usize::MAX as u64), parse_unsigned(&rp[1], usize::MAX as u64)) {
                (Some(w), Some(h)) => (st.0, Some((w as usize, h as usize))),
                _ => st,
            }
        } else {
            st
        }
    } else {
        st
    }
}

/// Reads BANDWIDTH and RESOLUTION from an `#EXT-X-STREAM-INF:` line.
pub fn parse_stream_inf(line: &str) -> (r: (Option<usize>, Option<(usize, usize)>))
    ensures
        r == spec_stream_inf(line@),
{
    let l = chars_of(line);
    let prefix = chars_of("#EXT-X-STREAM-INF:");
    let attrs: &[char] = if starts_with_at(&l, &prefix) {
        &l[prefix.len()..l.len()]
    } else {
        &l[0..0]
    };
    assert(attrs@ =~= stream_inf_attrs(line@));
    let parts = split_char_at(attrs, ',');
    let ghost all = parts@.map_values(|p: Vec<char>| p@);
    assert(all =~= text::split_char(attrs@, ','));
    let mut st: (Option<usize>, Option<(usize, usize)>) = (None, None);
    let mut i: usize = 0;
    assert(all.skip(0) =~= all);
    while i < parts.len()
        invariant
            i <= parts.len(),
            all == parts@.map_values(|p: Vec<char>| p@),
            spec_stream_inf(line@) == stream_inf_fold(all.skip(i as int), st),
        decreases parts.len() - i,
    {
        proof {
            assert(all.skip(i as int).drop_first() =~= all.skip(i + 1));
            assert(all.skip(i as int)[0] == parts@[i as int]@);
        }
        st = stream_inf_step_exec(&parts[i], st);
        i += 1;
    }
    assert(all.skip(i as int) =~= Seq::<Seq<char>>::empty());
    st
}

// ---------------------------------------------------------------------------
// Variant choice
// ---------------------------------------------------------------------------

/// The sort key of a variant: (height, bandwidth), 0 when unknown.
pub open spec fn variant_key(v: Variant) -> (nat, nat) {
    (
        match v.resolution {
            Some(r) => r.1 as nat,
            None => 0,
        },
        match v.bandwidth {
            Some(b) => b as nat,
            None => 0,
        },
    )
}

pub open spec fn key_lt(a: (nat, nat), b: (nat, nat)) -> bool {
    a.0 < b.0 || (a.0 == b.0 && a.1 < b.1)
}

/// The variant's height is at most `cap` (always, without a cap).
pub open spec fn within_cap(v: Variant, cap: Option<nat>) -> bool {
    match cap {
        Some(c) => variant_key(v).0 <= c,
        None => true,
    }
}

/// `i` is where a stable ascending sort by key puts last among the
/// variants at or below `cap` in height (all variants when `cap` is None).
pub open spec fn last_in_order(vs: Seq<Variant>, i: int, cap: Option<nat>) -> bool {
    &&& 0 <= i < vs.len()
    &&& within_cap(vs[i], cap)
    &&& forall|j: int|
        0 <= j < vs.len() && within_cap(vs[j], cap) ==> !key_lt(
            variant_key(vs[i]),
            variant_key(#[trigger] vs[j]),
        ) && (variant_key(vs[j]) == variant_key(vs[i]) ==> j <= i)
}

/// `i` is where a stable ascending sort by key puts first.
pub open spec fn first_in_order(vs: Seq<Variant>, i: int) -> bool {
    &&& 0 <= i < vs.len()
    &&& forall|j: int|
        0 <= j < vs.len() ==> !key_lt(variant_key(#[trigger] vs[j]), variant_key(vs[i])) && (
        variant_key(vs[j]) == variant_key(vs[i]) ==> i <= j)
}

/// Which variant a preference picks: `lowest`, `highest`, a height (the
/// best variant at or below it; the highest when none is), anything else the
/// highest. `pref` is compared trimmed and lower-cased.
pub open spec fn selects(vs: Seq<Variant>, pref: Seq<char>, i: int) -> bool {
    let p = text::lowercase(text::trim(pref));
    if p == "lowest"@ {
        first_in_order(vs, i)
    } else if p == "highest"@ {
        last_in_order(vs, i, None)
    } else {
        match text::parse_bounded(p, usize::MAX as nat) {
            Some(t) => if exists|j: int| 0 <= j < vs.len() && variant_key(#[trigger] vs[j]).0 <= t {
                last_in_order(vs, i, Some(t))
            } else {
                last_in_order(vs, i, None)
            },
            None => last_in_order(vs, i, None),
        }
    }
}

/// A variant's height in pixels, 0 when it names no resolution.
pub open spec fn height(v: Variant) -> nat {
    match v.resolution {
        Some(r) => r.1 as nat,
        None => 0,
    }
}

/// What the resolution preference means: `highest` takes a tallest variant,
/// `lowest` a shortest one, and a number of pixels the tallest variant not
/// above it (when some variant is not above it).
pub proof fn law_variant_preference(vs: Seq<Variant>, pref: Seq<char>, i: int)
    requires
        selects(vs, pref, i),
    ensures
        0 <= i < vs.len(),
        text::lowercase(text::trim(pref)) == "highest"@ ==> forall|j: int| 0 <= j < vs.len() ==> height(#[trigger] vs[j]) <= height(vs[i]),
        text::lowercase(text::trim(pref)) == "lowest"@ ==> forall|j: int| 0 <= j < vs.len() ==> height(vs[i]) <= height(#[trigger] vs[j]),
        forall|t: nat|
            text::parse_bounded(text::lowercase(text::trim(pref)), usize::MAX as nat) == Some(t) && (exists|j: int|
                0 <= j < vs.len() && #[trigger] height(vs[j]) <= t) ==> height(vs[i]) <= t && forall|j: int|
                0 <= j < vs.len() && height(#[trigger] vs[j]) <= t ==> height(vs[j]) <= height(vs[i]),
{
    reveal_strlit("highest");
    reveal_strlit("lowest");
    let p = text::lowercase(text::trim(pref));
    assert forall|j: int| 0 <= j < vs.len() implies #[trigger] height(vs[j]) == variant_key(vs[j]).0 by {}
    if p == "highest"@ {
        assert(!(text::parse_bounded(p, usize::MAX as nat) is Some)) by {
            assert(!text::is_ascii_digit(p[0]));
            assert(p[0] != '+');
        }
    }
    if p == "lowest"@ {
        assert(!(text::parse_bounded(p, usize::MAX as nat) is Some)) by {
            assert(!text::is_ascii_digit(p[0]));
            assert(p[0] != '+');
        }
    }
}

fn key_of(v: &Variant) -> (r: (usize, usize))
    ensures
        (r.0 as nat, r.1 as nat) == variant_key(*v),
{
    (
        match v.resolution {
            Some(r) => r.1,
            None => 0,
        },
        match v.bandwidth {
            Some(b) => b,
            None => 0,
        },
    )
}

fn copy_variant(v: &Variant) -> (r: Variant)
    ensures
        r == *v,
{
    Variant { uri: v.uri.clone(), bandwidth: v.bandwidth, resolution: v.resolution }
}

/// Index of the last variant in sorted order among those at or below `cap`.
fn last_index(vs: &[Variant], cap: Option<usize>) -> (r: Option<usize>)
    ensures
        ({
            let c = match cap {
                Some(c) => Some(c as nat),
                None => None::<nat>,
            };
            &&& r matches Some(i) ==> last_in_order(vs@, i as int, c)
            &&& r is None ==> forall|j: int| 0 <= j < vs@.len() ==> !within_cap(#[trigger] vs@[j], c)
        }),
{
    let ghost c = match cap {
        Some(c) => Some(c as nat),
        None => None::<nat>,
    };
    let mut best: Option<usize> = None;
    let mut i: usize = 0;
    while i < vs.len()
        invariant
            i <= vs.len(),
            c == (match cap {
                Some(c) => Some(c as nat),
                None => None::<nat>,
            }),
            best matches Some(b) ==> b < i && last_in_order(vs@.take(i as int), b as int, c),
            best is None ==> forall|j: int| 0 <= j < i ==> !within_cap(#[trigger] vs@[j], c),
        decreases vs.len() - i,
    {
        let k = key_of(&vs[i]);
        let ok = match cap {
            Some(cc) => k.0 <= cc,
            None => true,
        };
        let ghost prev = vs@.take(i as int);
        let ghost next = vs@.take(i + 1);
        assert(forall|j: int| 0 <= j < i ==> next[j] == prev[j]);
        assert(next[i as int] == vs@[i as int]);
        if ok {
            let take = match best {
                None => true,
                Some(b) => {
                    let kb = key_of(&vs[b]);
                    // Later equal keys come later in a stable sort.
                    !(k.0 < kb.0 || (k.0 == kb.0 && k.1 < kb.1))
                },
            };
            if take {
                best = Some(i);
                assert(last_in_order(next, i as int, c));
            } else {
                let b = best.unwrap();
                assert(prev[b as int] == vs@[b as int]);
                assert(last_in_order(next, b as int, c));
            }
        } else {
            if let Some(b) = best {
                assert(prev[b as int] == vs@[b as int]);
                assert(last_in_order(next, b as int, c));
            }
        }
        i += 1;
    }
    assert(vs@.take(i as int) =~= vs@);
    proof {
        if let Some(b) = best {
            assert(last_in_order(vs@, b as int, c));
        } else {
            assert forall|j: int| 0 <= j < vs@.len() implies !within_cap(#[trigger] vs@[j], c) by {
                assert(j < i);
            }
        }
    }
    best
}

/// Index of the first variant in sorted order.
fn first_index(vs: &[Variant]) -> (r: usize)
    requires
        vs@.len() > 0,
    ensures
        first_in_order(vs@, r as int),
{
    let mut best: usize = 0;
    let mut i: usize = 1;
    while i < vs.len()
        invariant
            1 <= i <= vs.len(),
            best < i,
            first_in_order(vs@.take(i as int), best as int),
        decreases vs.len() - i,
    {
        let k = key_of(&vs[i]);
        let kb = key_of(&vs[best]);
        let ghost prev = vs@.take(i as int);
        let ghost next = vs@.take(i + 1);
        assert(forall|j: int| 0 <= j < i ==> next[j] == prev[j]);
        assert(next[i as int] == vs@[i as int]);
        assert(prev[best as int] == vs@[best as int]);
        if k.0 < kb.0 || (k.0 == kb.0 && k.1 < kb.1) {
            best = i;
        }
        assert(first_in_order(next, best as int));
        i += 1;
    }
    assert(vs@.take(i as int) =~= vs@);
    best
}

/// Picks the variant for a resolution preference (`lowest`, `highest` or a
/// height such as `720`). None only when there are no variants.
pub fn select_variant(variants: &[Variant], pref: &str) -> (r: Option<Variant>)
    ensures
        variants@.len() == 0 <==> r is None,
        r matches Some(v) ==> exists|i: int| selects(variants@, pref@, i) && v == variants@[i],
{
    if variants.len() == 0 {
        return None;
    }
    let all = chars_of(pref);
    let p = to_lowercase_at(trim_at(&all));
    if eq(&p, &chars_of("lowest")) {
        let i = first_index(variants);
        return Some(copy_variant(&variants[i]));
    }
    let highest = match last_index(variants, None) {
        Some(i) => i,
        None => {
            assert(within_cap(variants@[0], None));
            return None;
        },
    };
    if eq(&p, &chars_of("highest")) {
        return Some(copy_variant(&variants[highest]));
    }
    proof {
        reveal_strlit("lowest");
        reveal_strlit("highest");
    }
    match parse_unsigned(&p, usize::MAX as u64) {
        Some(t) => {
            match last_index(variants, Some(t as usize)) {
                Some(i) => Some(copy_variant(&variants[i])),
                None => Some(copy_variant(&variants[highest])),
            }
        },
        None => Some(copy_variant(&variants[highest])),
    }
}


// ---------------------------------------------------------------------------
// Media playlists
// ---------------------------------------------------------------------------

/// The part of `l` after the prefix `p` (empty when `l` lacks it).
pub open spec fn after_prefix(l: Seq<char>, p: Seq<char>) -> Seq<char> {
    if text::starts_with(l, p) {
        l.skip(p.len() as int)
    } else {
        Seq::empty()
    }
}

/// The value of a quoted attribute `NAME="value"`: group 1 of
/// `NAME=\"([^\"]+)\"`. Attribute names are plain upper-case words, which
/// `regex::escape` leaves as they are.
pub open spec fn quoted_attr(attrs: Seq<char>, name: Seq<char>) -> Option<Seq<char>> {
    pattern::group1(name + "=\\\"([^\\\"]+)\\\""@, attrs)
}

/// The value of an unquoted attribute `NAME=value`: group 1 of
/// `NAME=([^,\s]+)`.
pub open spec fn unquoted_attr(attrs: Seq<char>, name: Seq<char>) -> Option<Seq<char>> {
    pattern::group1(name + "=([^,\\s]+)"@, attrs)
}

/// A playlist line with surrounding white space and a leading byte order
/// mark removed.
pub open spec fn clean_line(raw: Seq<char>) -> Seq<char> {
    text::trim_start_char(text::trim(raw), '\u{feff}')
}

/// The duration text of an `#EXTINF:` line: up to the first comma, trimmed.
pub open spec fn extinf_text(l: Seq<char>) -> Seq<char> {
    text::trim(text::split_char(after_prefix(l, "#EXTINF:"@), ',')[0])
}

/// What has been read of a media playlist so far: the result under
/// construction, the duration and byte range waiting for the next segment
/// line, and where the last byte range ended.
pub struct MediaScanState {
    pub info: M3u8InfoView,
    pub duration: Option<Seq<char>>,
    pub pending: Option<(u64, u64)>,
    pub last_end: Option<u64>,
}

pub enum MediaScan {
    Scanning(MediaScanState),
    /// A URL did not resolve; the error's text.
    Failed(Seq<char>),
    /// The playlist lies outside what the parser accepts: an `IV` whose hex
    /// digits cannot be cut into two-byte pairs without splitting a character,
    /// or a byte range whose end does not fit in 64 bits.
    OutOfDomain,
}

pub open spec fn empty_scan() -> MediaScanState {
    MediaScanState {
        info: M3u8InfoView {
            segments: seq![],
            segment_durations: seq![],
            init_segment: None,
            key_url: None,
            iv: None,
        },
        duration: None,
        pending: None,
        last_end: None,
    }
}

/// `#EXT-X-KEY`: `METHOD=NONE` anywhere clears the key; `METHOD=AES-128`
/// takes the resolved `URI` (when given) and the `IV` (when given; a
/// malformed one clears it).
pub open spec fn key_step(st: MediaScanState, attrs: Seq<char>, base: Seq<char>) -> MediaScan {
    if text::contains(attrs, "METHOD=NONE"@) {
        MediaScan::Scanning(
            MediaScanState { info: M3u8InfoView { key_url: None, iv: None, ..st.info }, ..st },
        )
    } else if unquoted_attr(attrs, "METHOD"@) == Some("AES-128"@) {
        let after_uri = match quoted_attr(attrs, "URI"@) {
            None => MediaScan::Scanning(st),
            Some(uri) => match spec_url_join(base, uri) {
                Err(e) => MediaScan::Failed(e),
                Ok(u) => MediaScan::Scanning(
                    MediaScanState { info: M3u8InfoView { key_url: Some(u), ..st.info }, ..st },
                ),
            },
        };
        match after_uri {
            MediaScan::Scanning(s2) => match unquoted_attr(attrs, "IV"@) {
                None => MediaScan::Scanning(s2),
                Some(h) => {
                    let b = vstd::utf8::encode_utf8(h);
                    if hex_pairs_on_char_boundaries(b) {
                        MediaScan::Scanning(
                            MediaScanState {
                                info: M3u8InfoView { iv: spec_parse_hex(b), ..s2.info },
                                ..s2
                            },
                        )
                    } else {
                        MediaScan::OutOfDomain
                    }
                },
            },
            other => other,
        }
    } else {
        MediaScan::Scanning(st)
    }
}

/// The byte range of a `BYTERANGE` value, given where the last one ended.
pub open spec fn range_of(value: Option<Seq<char>>, last_end: Option<u64>) -> Option<(u64, u64)> {
    match value {
        Some(v) => spec_byterange(v, last_end),
        None => None,
    }
}

/// `#EXT-X-MAP`: with a `URI`, the init segment (resolved), with its
/// `BYTERANGE` when that parses.
pub open spec fn map_step(st: MediaScanState, attrs: Seq<char>, base: Seq<char>) -> MediaScan {
    match quoted_attr(attrs, "URI"@) {
        None => MediaScan::Scanning(st),
        Some(uri) => match spec_url_join(base, uri) {
            Err(e) => MediaScan::Failed(e),
            Ok(u) => {
                let range = range_of(quoted_attr(attrs, "BYTERANGE"@), st.last_end);
                match range {
                    Some((start, len)) => if start + len > u64::MAX {
                        MediaScan::OutOfDomain
                    } else {
                        MediaScan::Scanning(
                            MediaScanState {
                                info: M3u8InfoView {
                                    init_segment: Some(SegmentView { url: u, byte_range: range }),
                                    ..st.info
                                },
                                last_end: Some((start + len) as u64),
                                ..st
                            },
                        )
                    },
                    None => MediaScan::Scanning(
                        MediaScanState {
                            info: M3u8InfoView {
                                init_segment: Some(SegmentView { url: u, byte_range: None }),
                                ..st.info
                            },
                            ..st
                        },
                    ),
                }
            },
        },
    }
}

/// `#EXT-X-BYTERANGE`: a range for the next segment line.
pub open spec fn byterange_step(st: MediaScanState, value: Seq<char>) -> MediaScan {
    match spec_byterange(value, st.last_end) {
        None => MediaScan::Scanning(st),
        Some((start, len)) => if start + len > u64::MAX {
            MediaScan::OutOfDomain
        } else {
            MediaScan::Scanning(
                MediaScanState {
                    pending: Some((start, len)),
                    last_end: Some((start + len) as u64),
                    ..st
                },
            )
        },
    }
}

/// A segment line: the resolved segment, with the pending byte range and
/// duration, which are used up.
pub open spec fn segment_step(st: MediaScanState, l: Seq<char>, base: Seq<char>) -> MediaScan {
    match spec_url_join(base, l) {
        Err(e) => MediaScan::Failed(e),
        Ok(u) => MediaScan::Scanning(
            MediaScanState {
                info: M3u8InfoView {
                    segments: st.info.segments.push(SegmentView { url: u, byte_range: st.pending }),
                    segment_durations: st.info.segment_durations.push(st.duration),
                    ..st.info
                },
                duration: None,
                pending: None,
                ..st
            },
        ),
    }
}

/// One line of a media playlist. Blank lines and unknown tags change nothing.
pub open spec fn media_step(st: MediaScanState, raw: Seq<char>, base: Seq<char>) -> MediaScan {
    let l = clean_line(raw);
    if l.len() == 0 {
        MediaScan::Scanning(st)
    } else if l[0] == '#' {
        if text::starts_with(l, "#EXTINF:"@) {
            MediaScan::Scanning(MediaScanState { duration: Some(extinf_text(l)), ..st })
        } else if text::starts_with(l, "#EXT-X-KEY"@) {
            key_step(st, after_prefix(l, "#EXT-X-KEY:"@), base)
        } else if text::starts_with(l, "#EXT-X-MAP"@) {
            map_step(st, text::trim(after_prefix(l, "#EXT-X-MAP:"@)), base)
        } else if text::starts_with(l, "#EXT-X-BYTERANGE"@) {
            byterange_step(st, after_prefix(l, "#EXT-X-BYTERANGE:"@))
        } else {
            MediaScan::Scanning(st)
        }
    } else {
        segment_step(st, l, base)
    }
}

/// The lines read in order; the first failure ends the reading.
pub open spec fn media_scan(lines: Seq<Seq<char>>, base: Seq<char>) -> MediaScan
    decreases lines.len(),
{
    if lines.len() == 0 {
        MediaScan::Scanning(empty_scan())
    } else {
        match media_scan(lines.drop_last(), base) {
            MediaScan::Scanning(st) => media_step(st, lines.last(), base),
            other => other,
        }
    }
}

/// The playlist text read line by line against the playlist's own URL.
pub open spec fn spec_media_playlist(text: Seq<char>, base: Seq<char>) -> MediaScan {
    media_scan(text::lines(text), base)
}

/// The attributes of an `#EXT-X-MAP` line.
pub open spec fn map_attrs(l: Seq<char>) -> Seq<char> {
    text::trim(after_prefix(clean_line(l), "#EXT-X-MAP:"@))
}

/// An `#EXT-X-MAP` line whose `URI` resolves sets the init segment to the
/// resolved URL. Without a `BYTERANGE` attribute it has no byte range; with
/// one, reading goes on (unless the range ends beyond 64 bits) and the init
/// segment still has that URL.
pub proof fn law_map_line_sets_init_segment(
    lines: Seq<Seq<char>>,
    l: Seq<char>,
    base: Seq<char>,
    uri: Seq<char>,
    u: Seq<char>,
)
    requires
        media_scan(lines, base) is Scanning,
        text::starts_with(clean_line(l), "#EXT-X-MAP"@),
        quoted_attr(map_attrs(l), "URI"@) == Some(uri),
        spec_url_join(base, uri) == Ok::<Seq<char>, Seq<char>>(u),
    ensures
        quoted_attr(map_attrs(l), "BYTERANGE"@) is None ==> (media_scan(lines.push(l), base) matches MediaScan::Scanning(
            st,
        ) && st.info.init_segment == Some(SegmentView { url: u, byte_range: None })),
        !(media_scan(lines.push(l), base) is OutOfDomain) ==> (media_scan(lines.push(l), base) matches MediaScan::Scanning(
            st,
        ) && st.info.init_segment matches Some(i) && i.url == u),
{
    reveal_strlit("#EXT-X-MAP");
    reveal_strlit("#EXTINF:");
    reveal_strlit("#EXT-X-KEY");
    let c = clean_line(l);
    assert(lines.push(l).drop_last() =~= lines);
    assert(c.take(10) =~= "#EXT-X-MAP"@);
    assert(c.take(10)[0] == c[0] && c.take(10)[4] == c[4] && c.take(10)[7] == c[7]);
    assert(c[0] == '#');
    assert(c[4] == '-' && c[7] == 'M');
    assert(!text::starts_with(c, "#EXTINF:"@)) by {
        if text::starts_with(c, "#EXTINF:"@) {
            assert(c.take(8)[4] == c[4]);
        }
    }
    assert(!text::starts_with(c, "#EXT-X-KEY"@)) by {
        if text::starts_with(c, "#EXT-X-KEY"@) {
            assert(c.take(10)[7] == c[7]);
        }
    }
}

/// Only an `#EXT-X-MAP` line changes the init segment, and reading a line
/// never drops or changes a segment already read: it keeps the list or adds
/// one segment at its end.
pub proof fn law_media_step_frame(st: MediaScanState, raw: Seq<char>, base: Seq<char>)
    ensures
        media_step(st, raw, base) matches MediaScan::Scanning(st2) ==> {
            &&& !text::starts_with(clean_line(raw), "#EXT-X-MAP"@) ==> st2.info.init_segment == st.info.init_segment
            &&& st2.info.segments.len() == st.info.segments.len() || st2.info.segments.len() == st.info.segments.len() + 1
            &&& forall|k: int| 0 <= k < st.info.segments.len() ==> #[trigger] st2.info.segments[k] == st.info.segments[k]
        },
{
}

/// A line that is not a tag is a segment: its URL resolved against the
/// playlist's URL is added at the end, with the byte range and the duration
/// read before it, which are then used up.
pub proof fn law_segment_line_adds_segment(st: MediaScanState, raw: Seq<char>, base: Seq<char>, u: Seq<char>)
    requires
        clean_line(raw).len() > 0,
        clean_line(raw)[0] != '#',
        spec_url_join(base, clean_line(raw)) == Ok::<Seq<char>, Seq<char>>(u),
    ensures
        media_step(st, raw, base) matches MediaScan::Scanning(st2) && st2.info.segments == st.info.segments.push(
            SegmentView { url: u, byte_range: st.pending },
        ) && st2.info.segment_durations == st.info.segment_durations.push(st.duration) && st2.pending is None
            && st2.duration is None && st2.info.init_segment == st.info.init_segment && st2.info.key_url
            == st.info.key_url && st2.info.iv == st.info.iv,
{
}

/// An `#EXT-X-KEY` line with `METHOD=NONE` turns encryption off: no key and
/// no IV afterwards.
pub proof fn law_key_method_none(st: MediaScanState, raw: Seq<char>, base: Seq<char>)
    requires
        text::starts_with(clean_line(raw), "#EXT-X-KEY"@),
        text::contains(after_prefix(clean_line(raw), "#EXT-X-KEY:"@), "METHOD=NONE"@),
    ensures
        media_step(st, raw, base) matches MediaScan::Scanning(st2) && st2.info.key_url is None && st2.info.iv is None
            && st2.info.segments == st.info.segments,
{
    reveal_strlit("#EXT-X-KEY");
    reveal_strlit("#EXTINF:");
    let c = clean_line(raw);
    assert(c.take(10)[0] == c[0] && c.take(10)[4] == c[4]);
    assert(!text::starts_with(c, "#EXTINF:"@)) by {
        if text::starts_with(c, "#EXTINF:"@) {
            assert(c.take(8)[4] == c[4]);
        }
    }
}

/// An `#EXT-X-KEY` line with `METHOD=AES-128` and a `URI` that resolves
/// names the key at the resolved URL (unless the playlist is out of the
/// parser's domain).
pub proof fn law_key_aes_uri(st: MediaScanState, raw: Seq<char>, base: Seq<char>, uri: Seq<char>, u: Seq<char>)
    requires
        text::starts_with(clean_line(raw), "#EXT-X-KEY"@),
        !text::contains(after_prefix(clean_line(raw), "#EXT-X-KEY:"@), "METHOD=NONE"@),
        unquoted_attr(after_prefix(clean_line(raw), "#EXT-X-KEY:"@), "METHOD"@) == Some("AES-128"@),
        quoted_attr(after_prefix(clean_line(raw), "#EXT-X-KEY:"@), "URI"@) == Some(uri),
        spec_url_join(base, uri) == Ok::<Seq<char>, Seq<char>>(u),
    ensures
        !(media_step(st, raw, base) is OutOfDomain) ==> (media_step(st, raw, base) matches MediaScan::Scanning(st2)
            && st2.info.key_url == Some(u) && st2.info.segments == st.info.segments),
{
    reveal_strlit("#EXT-X-KEY");
    reveal_strlit("#EXTINF:");
    let c = clean_line(raw);
    assert(c.take(10)[0] == c[0] && c.take(10)[4] == c[4]);
    assert(!text::starts_with(c, "#EXTINF:"@)) by {
        if text::starts_with(c, "#EXTINF:"@) {
            assert(c.take(8)[4] == c[4]);
        }
    }
}

/// An `#EXTINF:` line gives the next segment its duration text: the text up
/// to the first comma, trimmed; nothing else changes.
pub proof fn law_extinf_line(st: MediaScanState, raw: Seq<char>, base: Seq<char>)
    requires
        text::starts_with(clean_line(raw), "#EXTINF:"@),
    ensures
        media_step(st, raw, base) == MediaScan::Scanning(
            MediaScanState {
                duration: Some(text::trim(text::split_char(clean_line(raw).skip(8), ',')[0])),
                ..st
            },
        ),
{
    reveal_strlit("#EXTINF:");
    let c = clean_line(raw);
    assert(c.take(8)[0] == c[0]);
}

proof fn lemma_media_scan_stops(lines: Seq<Seq<char>>, base: Seq<char>, j: int, k: int)
    requires
        0 <= j <= k <= lines.len(),
        !(media_scan(lines.take(j), base) is Scanning),
    ensures
        media_scan(lines.take(k), base) == media_scan(lines.take(j), base),
    decreases k - j,
{
    if j < k {
        lemma_media_scan_stops(lines, base, j, k - 1);
        assert(lines.take(k).drop_last() =~= lines.take(k - 1));
    }
}

/// Every segment read has exactly one duration entry: the two lists of a
/// media playlist always have the same length.
pub proof fn lemma_media_scan_aligned(lines: Seq<Seq<char>>, base: Seq<char>)
    ensures
        media_scan(lines, base) matches MediaScan::Scanning(st) ==> st.info.segments.len()
            == st.info.segment_durations.len(),
    decreases lines.len(),
{
    if lines.len() > 0 {
        lemma_media_scan_aligned(lines.drop_last(), base);
    }
}

/// A byte range whose end fits in 64 bits.
pub open spec fn range_fits(r: Option<(u64, u64)>) -> bool {
    r matches Some((start, len)) ==> start + len <= u64::MAX
}

/// Every byte range read ends within 64 bits: those of the segments, of the
/// init segment, and the one waiting for the next segment.
pub open spec fn ranges_fit(st: MediaScanState) -> bool {
    &&& forall|k: int| 0 <= k < st.info.segments.len() ==> range_fits(#[trigger] st.info.segments[k].byte_range)
    &&& st.info.init_segment matches Some(i) ==> range_fits(i.byte_range)
    &&& range_fits(st.pending)
}

pub proof fn lemma_media_scan_ranges(lines: Seq<Seq<char>>, base: Seq<char>)
    ensures
        media_scan(lines, base) matches MediaScan::Scanning(st) ==> ranges_fit(st),
    decreases lines.len(),
{
    if lines.len() > 0 {
        lemma_media_scan_ranges(lines.drop_last(), base);
        if let MediaScan::Scanning(st) = media_scan(lines.drop_last(), base) {
            if let MediaScan::Scanning(st2) = media_step(st, lines.last(), base) {
                assert forall|k: int| 0 <= k < st2.info.segments.len() implies range_fits(
                    #[trigger] st2.info.segments[k].byte_range,
                ) by {
                    if k < st.info.segments.len() {
                        assert(st2.info.segments[k] == st.info.segments[k]);
                    }
                }
            }
        }
    }
}

struct MediaScanner {
    info: M3u8Info,
    duration: Option<String>,
    pending: Option<(u64, u64)>,
    last_end: Option<u64>,
}

impl View for MediaScanner {
    type V = MediaScanState;

    closed spec fn view(&self) -> MediaScanState {
        MediaScanState {
            info: self.info@,
            duration: opt_str_view(self.duration),
            pending: self.pending,
            last_end: self.last_end,
        }
    }
}

/// The scanner and the step's result agree with the outcome `o` (`Err(None)`
/// for a playlist out of the parser's domain).
spec fn step_done(o: MediaScan, r: Result<(), Option<String>>, after: MediaScanState) -> bool {
    match o {
        MediaScan::Scanning(s) => r is Ok && after == s,
        MediaScan::Failed(e) => r matches Err(Some(m)) && m@ == e,
        MediaScan::OutOfDomain => r matches Err(None),
    }
}

fn quoted_attr_exec(attrs: &[char], name: &str) -> (r: Option<Vec<char>>)
    ensures
        r matches Some(v) ==> quoted_attr(attrs@, name@) == Some(v@),
        r is None ==> quoted_attr(attrs@, name@) is None,
{
    let pat = string_of(&concat(&chars_of(name), &chars_of("=\\\"([^\\\"]+)\\\"")));
    match pattern::group1_exec(pat.as_str(), string_of(attrs).as_str()) {
        Some(v) => Some(chars_of(v.as_str())),
        None => None,
    }
}

fn unquoted_attr_exec(attrs: &[char], name: &str) -> (r: Option<Vec<char>>)
    ensures
        r matches Some(v) ==> unquoted_attr(attrs@, name@) == Some(v@),
        r is None ==> unquoted_attr(attrs@, name@) is None,
{
    let pat = string_of(&concat(&chars_of(name), &chars_of("=([^,\\s]+)")));
    match pattern::group1_exec(pat.as_str(), string_of(attrs).as_str()) {
        Some(v) => Some(chars_of(v.as_str())),
        None => None,
    }
}

/// The rest of `l` after `p`, empty without it.
fn after_prefix_exec<'a>(l: &'a [char], p: &str) -> (r: &'a [char])
    ensures
        r@ == after_prefix(l@, p@),
{
    let pc = chars_of(p);
    if starts_with_at(l, &pc) {
        &l[pc.len()..l.len()]
    } else {
        &l[0..0]
    }
}

fn key_step_exec(sc: &mut MediaScanner, attrs: &[char], base: &str) -> (r: Result<(), Option<String>>)
    ensures
        step_done(key_step(old(sc)@, attrs@, base@), r, final(sc)@),
{
    if contains_at(attrs, &chars_of("METHOD=NONE")) {
        sc.info.key_url = None;
        sc.info.iv = None;
        return Ok(());
    }
    let method = unquoted_attr_exec(attrs, "METHOD");
    let is_aes = match &method {
        Some(m) => eq(m, &chars_of("AES-128")),
        None => false,
    };
    if !is_aes {
        return Ok(());
    }
    if let Some(uri) = quoted_attr_exec(attrs, "URI") {
        let u = string_of(&uri);
        match url_join(base, u.as_str()) {
            Ok(k) => {
                sc.info.key_url = Some(k);
            },
            Err(e) => {
                return Err(Some(e));
            },
        }
    }
    if let Some(h) = unquoted_attr_exec(attrs, "IV") {
        let hs = string_of(&h);
        if !hex_pairs_sliceable(hs.as_str()) {
            return Err(None);
        }
        sc.info.iv = parse_hex(hs.as_str());
    }
    Ok(())
}

fn map_step_exec(sc: &mut MediaScanner, attrs: &[char], base: &str) -> (r: Result<(), Option<String>>)
    ensures
        step_done(map_step(old(sc)@, attrs@, base@), r, final(sc)@),
{
    let uri = match quoted_attr_exec(attrs, "URI") {
        Some(u) => u,
        None => return Ok(()),
    };
    let us = string_of(&uri);
    let u = match url_join(base, us.as_str()) {
        Ok(u) => u,
        Err(e) => return Err(Some(e)),
    };
    let range = match quoted_attr_exec(attrs, "BYTERANGE") {
        Some(v) => {
            let vs = string_of(&v);
            parse_byterange_attr(vs.as_str(), sc.last_end)
        },
        None => None,
    };
    if let Some((start, len)) = range {
        match start.checked_add(len) {
            Some(end) => {
                sc.last_end = Some(end);
            },
            None => return Err(None),
        }
    }
    sc.info.init_segment = Some(Segment { url: u, byte_range: range });
    Ok(())
}

fn byterange_step_exec(sc: &mut MediaScanner, value: &[char]) -> (r: Result<(), Option<String>>)
    ensures
        step_done(byterange_step(old(sc)@, value@), r, final(sc)@),
{
    let vs = string_of(value);
    if let Some((start, len)) = parse_byterange_attr(vs.as_str(), sc.last_end) {
        match start.checked_add(len) {
            Some(end) => {
                sc.last_end = Some(end);
            },
            None => return Err(None),
        }
        sc.pending = Some((start, len));
    }
    Ok(())
}

fn segment_step_exec(sc: &mut MediaScanner, l: &[char], base: &str) -> (r: Result<(), Option<String>>)
    ensures
        step_done(segment_step(old(sc)@, l@, base@), r, final(sc)@),
{
    let ls = string_of(l);
    let u = match url_join(base, ls.as_str()) {
        Ok(u) => u,
        Err(e) => return Err(Some(e)),
    };
    let ghost before = sc.info@;
    let pending = sc.pending;
    let duration = sc.duration.take();
    sc.info.segments.push(Segment { url: u, byte_range: pending });
    sc.info.segment_durations.push(duration);
    sc.pending = None;
    proof {
        assert(sc.info@.segments =~= before.segments.push(SegmentView { url: u@, byte_range: pending }));
        assert(sc.info@.segment_durations =~= before.segment_durations.push(old(sc)@.duration));
    }
    Ok(())
}

proof fn lemma_split_first(s: Seq<char>, c: char)
    ensures
        text::split_char(s, c).len() >= 1,
{
    lemma_split_nonempty(s, c);
}

fn media_step_exec(sc: &mut MediaScanner, raw: &[char], base: &str) -> (r: Result<(), Option<String>>)
    ensures
        step_done(media_step(old(sc)@, raw@, base@), r, final(sc)@),
{
    let l = trim_start_char_at(trim_at(raw), '\u{feff}');
    if l.len() == 0 {
        return Ok(());
    }
    if l[0] != '#' {
        return segment_step_exec(sc, l, base);
    }
    if starts_with_at(l, &chars_of("#EXTINF:")) {
        let rest = after_prefix_exec(l, "#EXTINF:");
        let parts = split_char_at(rest, ',');
        proof {
            lemma_split_first(rest@, ',');
        }
        let d = trim_at(&parts[0]);
        sc.duration = Some(string_of(d));
        return Ok(());
    }
    if starts_with_at(l, &chars_of("#EXT-X-KEY")) {
        let attrs = after_prefix_exec(l, "#EXT-X-KEY:");
        return key_step_exec(sc, attrs, base);
    }
    if starts_with_at(l, &chars_of("#EXT-X-MAP")) {
        let attrs = trim_at(after_prefix_exec(l, "#EXT-X-MAP:"));
        return map_step_exec(sc, attrs, base);
    }
    if starts_with_at(l, &chars_of("#EXT-X-BYTERANGE")) {
        let value = after_prefix_exec(l, "#EXT-X-BYTERANGE:");
        return byterange_step_exec(sc, value);
    }
    Ok(())
}

/// Reads a media playlist: its segments (resolved against `base_url`, the
/// playlist's own URL), their `#EXTINF` durations and byte ranges, the
/// `#EXT-X-MAP` init segment and the `#EXT-X-KEY` key URL and IV. The error
/// is that of the first URL that does not resolve; None for a playlist out
/// of the parser's domain (see `MediaScan::OutOfDomain`).
pub fn scan_media_playlist(text: &str, base_url: &str) -> (r: Option<Result<M3u8Info, String>>)
    ensures
        match spec_media_playlist(text@, base_url@) {
            MediaScan::Scanning(st) => r matches Some(Ok(info)) && info@ == st.info,
            MediaScan::Failed(e) => r matches Some(Err(m)) && m@ == e,
            MediaScan::OutOfDomain => r is None,
        },
        r matches Some(Ok(info)) ==> info.segments@.len() == info.segment_durations@.len(),
        r matches Some(Ok(info)) ==> (forall|k: int|
            0 <= k < info.segments@.len() ==> range_fits(#[trigger] info.segments@[k].byte_range)),
        r matches Some(Ok(info)) ==> (info.init_segment matches Some(i) ==> range_fits(i.byte_range)),
{
    proof {
        lemma_media_scan_aligned(text::lines(text@), base_url@);
        lemma_media_scan_ranges(text::lines(text@), base_url@);
    }
    let all = chars_of(text);
    let ls = lines_at(&all);
    let ghost lv = text::lines(text@);
    let mut sc = MediaScanner {
        info: M3u8Info {
            segments: Vec::new(),
            segment_durations: Vec::new(),
            init_segment: None,
            key_url: None,
            iv: None,
        },
        duration: None,
        pending: None,
        last_end: None,
    };
    assert(sc@.info.segments =~= Seq::<SegmentView>::empty());
    assert(sc@.info.segment_durations =~= Seq::<Option<Seq<char>>>::empty());
    assert(lv.take(0) =~= Seq::<Seq<char>>::empty());
    let mut i: usize = 0;
    while i < ls.len()
        invariant
            i <= ls@.len(),
            lv == text::lines(text@),
            ls@.len() == lv.len(),
            forall|k: int| 0 <= k < ls@.len() ==> #[trigger] ls@[k]@ == lv[k],
            media_scan(lv.take(i as int), base_url@) == MediaScan::Scanning(sc@),
        decreases ls.len() - i,
    {
        proof {
            assert(lv.take(i + 1).drop_last() =~= lv.take(i as int));
            assert(lv.take(i + 1).last() == ls@[i as int]@);
        }
        let step = media_step_exec(&mut sc, &ls[i], base_url);
        if step.is_err() {
            proof {
                lemma_media_scan_stops(lv, base_url@, i + 1, lv.len() as int);
                assert(lv.take(lv.len() as int) =~= lv);
            }
            return match step {
                Err(Some(e)) => Some(Err(e)),
                _ => None,
            };
        }
        i += 1;
    }
    assert(lv.take(i as int) =~= lv);
    proof {
        assert forall|k: int| 0 <= k < sc.info.segments@.len() implies range_fits(
            #[trigger] sc.info.segments@[k].byte_range,
        ) by {
            assert(media_scan(lv, base_url@) == MediaScan::Scanning(sc@));
            assert(ranges_fit(sc@));
            assert(sc@.info.segments[k] == sc.info.segments@[k]@);
            assert(range_fits(sc@.info.segments[k].byte_range));
        }
    }
    Some(Ok(sc.info))
}

/// Parses a media playlist (see `scan_media_playlist`), for a playlist
/// within the parser's domain.
pub fn parse_media_m3u8_content(text: &str, base_url: &str) -> (r: Result<M3u8Info, String>)
    requires
        !(spec_media_playlist(text@, base_url@) is OutOfDomain),
    ensures
        match spec_media_playlist(text@, base_url@) {
            MediaScan::Scanning(st) => r matches Ok(info) && info@ == st.info,
            MediaScan::Failed(e) => r matches Err(m) && m@ == e,
            MediaScan::OutOfDomain => false,
        },
{
    match scan_media_playlist(text, base_url) {
        Some(r) => r,
        None => Err(String::new()),
    }
}


// ---------------------------------------------------------------------------
// Master playlists and the kind of a playlist
// ---------------------------------------------------------------------------

pub struct VariantView {
    pub uri: Seq<char>,
    pub bandwidth: Option<usize>,
    pub resolution: Option<(usize, usize)>,
}

impl View for Variant {
    type V = VariantView;

    open spec fn view(&self) -> VariantView {
        VariantView { uri: self.uri@, bandwidth: self.bandwidth, resolution: self.resolution }
    }
}

/// The playlist's lines, each trimmed.
pub open spec fn trimmed_lines(text: Seq<char>) -> Seq<Seq<char>> {
    text::lines(text).map_values(|l: Seq<char>| text::trim(l))
}

/// A line naming a URI: not empty and not starting with `#`.
pub open spec fn is_uri_line(l: Seq<char>) -> bool {
    l.len() > 0 && l[0] != '#'
}

/// The first URI line at or after `j`.
pub open spec fn next_uri_line(ls: Seq<Seq<char>>, j: int) -> Option<int>
    decreases ls.len() - j,
{
    if j < 0 || j >= ls.len() {
        None
    } else if is_uri_line(ls[j]) {
        Some(j)
    } else {
        next_uri_line(ls, j + 1)
    }
}

pub proof fn lemma_next_uri_line(ls: Seq<Seq<char>>, j: int)
    ensures
        next_uri_line(ls, j) matches Some(k) ==> j <= k < ls.len() && is_uri_line(ls[k]),
    decreases ls.len() - j,
{
    if 0 <= j < ls.len() && !is_uri_line(ls[j]) {
        lemma_next_uri_line(ls, j + 1);
    }
}

/// The variants of a master playlist from line `i` on: each
/// `#EXT-X-STREAM-INF:` line with the first URI line after it (lines in
/// between are passed over); a URI that does not resolve gives no variant.
pub open spec fn master_variants_from(ls: Seq<Seq<char>>, i: int, base: Seq<char>) -> Seq<
    VariantView,
>
    decreases ls.len() - i,
{
    if i < 0 || i >= ls.len() {
        seq![]
    } else if text::starts_with(ls[i], "#EXT-X-STREAM-INF:"@) {
        match next_uri_line(ls, i + 1) {
            None => seq![],
            Some(j) => {
                proof {
                    lemma_next_uri_line(ls, i + 1);
                }
                let attrs = spec_stream_inf(ls[i]);
                let here = match spec_url_join(base, ls[j]) {
                    Ok(u) => seq![VariantView { uri: u, bandwidth: attrs.0, resolution: attrs.1 }],
                    Err(_) => seq![],
                };
                here + master_variants_from(ls, j + 1, base)
            },
        }
    } else {
        master_variants_from(ls, i + 1, base)
    }
}

/// The resolved URI lines whose part before any `?` mentions `.m3u8`.
pub open spec fn sub_playlist_urls(ls: Seq<Seq<char>>, base: Seq<char>) -> Seq<Seq<char>>
    decreases ls.len(),
{
    if ls.len() == 0 {
        seq![]
    } else {
        let prev = sub_playlist_urls(ls.drop_last(), base);
        let l = ls.last();
        let path = text::split_char(l, '?')[0];
        if is_uri_line(l) && (text::ends_with(path, ".m3u8"@) || text::contains(path, ".m3u8"@)) {
            match spec_url_join(base, l) {
                Ok(u) => prev.push(u),
                Err(_) => prev,
            }
        } else {
            prev
        }
    }
}

/// What to do with a fetched playlist.
pub enum PlaylistKind {
    /// A master playlist: fetch each variant and choose among them.
    Master(Vec<Variant>),
    /// A list of further playlists: fetch them and keep the longest; when
    /// none can be had, read the text as a media playlist.
    Nested(Vec<String>),
    /// Read the text as a media playlist.
    Media,
}

pub enum PlaylistKindView {
    Master(Seq<VariantView>),
    Nested(Seq<Seq<char>>),
    Media,
}

impl View for PlaylistKind {
    type V = PlaylistKindView;

    open spec fn view(&self) -> PlaylistKindView {
        match self {
            PlaylistKind::Master(vs) => PlaylistKindView::Master(vs@.map_values(|v: Variant| v@)),
            PlaylistKind::Nested(us) => PlaylistKindView::Nested(us@.map_values(|u: String| u@)),
            PlaylistKind::Media => PlaylistKindView::Media,
        }
    }
}

/// The kind of the playlist fetched from `url`: the URL must parse; a text
/// with `#EXT-X-STREAM-INF` is a master playlist (which needs a variant);
/// else one with `#EXTINF:` is a media playlist; else its lines naming
/// `.m3u8` files are further playlists, and without any it is read as a
/// media playlist.
pub open spec fn spec_playlist_kind(text: Seq<char>, url: Seq<char>) -> Result<
    PlaylistKindView,
    Seq<char>,
> {
    match spec_url_parts(url) {
        Err(e) => Err(e),
        Ok(_) => {
            let ls = trimmed_lines(text);
            if text::contains(text, "#EXT-X-STREAM-INF"@) {
                let vs = master_variants_from(ls, 0, url);
                if vs.len() == 0 {
                    Err("Master playlist contains no valid STREAM-INF variants"@)
                } else {
                    Ok(PlaylistKindView::Master(vs))
                }
            } else if text::contains(text, "#EXTINF:"@) {
                Ok(PlaylistKindView::Media)
            } else {
                let subs = sub_playlist_urls(ls, url);
                if subs.len() > 0 {
                    Ok(PlaylistKindView::Nested(subs))
                } else {
                    Ok(PlaylistKindView::Media)
                }
            }
        },
    }
}

fn trimmed_lines_exec(text: &str) -> (r: Vec<Vec<char>>)
    ensures
        r@.len() == trimmed_lines(text@).len(),
        forall|k: int| 0 <= k < r@.len() ==> #[trigger] r@[k]@ == trimmed_lines(text@)[k],
{
    let all = chars_of(text);
    let ls = lines_at(&all);
    let mut out: Vec<Vec<char>> = Vec::new();
    let mut i: usize = 0;
    while i < ls.len()
        invariant
            i <= ls@.len(),
            ls@.len() == text::lines(text@).len(),
            forall|k: int| 0 <= k < ls@.len() ==> #[trigger] ls@[k]@ == text::lines(text@)[k],
            out@.len() == i,
            forall|k: int| 0 <= k < i ==> #[trigger] out@[k]@ == trimmed_lines(text@)[k],
        decreases ls.len() - i,
    {
        out.push(crate::text::to_vec(trim_at(&ls[i])));
        i += 1;
    }
    out
}

fn next_uri_line_exec(ls: &Vec<Vec<char>>, from: usize) -> (r: Option<usize>)
    ensures
        r matches Some(k) ==> next_uri_line(ls@.map_values(|l: Vec<char>| l@), from as int) == Some(
            k as int,
        ) && k < ls@.len(),
        r is None ==> next_uri_line(ls@.map_values(|l: Vec<char>| l@), from as int) is None,
{
    let ghost lv = ls@.map_values(|l: Vec<char>| l@);
    let mut j = from;
    while j < ls.len()
        invariant
            from <= j,
            lv == ls@.map_values(|l: Vec<char>| l@),
            next_uri_line(lv, from as int) == next_uri_line(lv, j as int),
        decreases ls.len() - j,
    {
        if ls[j].len() > 0 && ls[j][0] != '#' {
            assert(lv[j as int] == ls@[j as int]@);
            return Some(j);
        }
        assert(lv[j as int] == ls@[j as int]@);
        j += 1;
    }
    None
}

fn master_variants(ls: &Vec<Vec<char>>, base: &str) -> (r: Vec<Variant>)
    ensures
        r@.map_values(|v: Variant| v@) == master_variants_from(
            ls@.map_values(|l: Vec<char>| l@),
            0,
            base@,
        ),
{
    let ghost lv = ls@.map_values(|l: Vec<char>| l@);
    let mut out: Vec<Variant> = Vec::new();
    let mut i: usize = 0;
    let prefix = chars_of("#EXT-X-STREAM-INF:");
    while i < ls.len()
        invariant
            lv == ls@.map_values(|l: Vec<char>| l@),
            prefix@ == "#EXT-X-STREAM-INF:"@,
            master_variants_from(lv, 0, base@) == out@.map_values(|v: Variant| v@)
                + master_variants_from(lv, i as int, base@),
        decreases ls.len() - i,
    {
        assert(lv[i as int] == ls@[i as int]@);
        if starts_with_at(&ls[i], &prefix) {
            match next_uri_line_exec(ls, i + 1) {
                None => {
                    assert(master_variants_from(lv, i as int, base@) =~= Seq::<VariantView>::empty());
                    assert(out@.map_values(|v: Variant| v@) + Seq::<VariantView>::empty()
                        =~= out@.map_values(|v: Variant| v@));
                    return out;
                },
                Some(j) => {
                    proof {
                        lemma_next_uri_line(lv, i + 1);
                    }
                    assert(lv[j as int] == ls@[j as int]@);
                    let line = string_of(&ls[i]);
                    let attrs = parse_stream_inf(line.as_str());
                    let uri_text = string_of(&ls[j]);
                    let ghost before = out@.map_values(|v: Variant| v@);
                    match url_join(base, uri_text.as_str()) {
                        Ok(u) => {
                            out.push(Variant { uri: u, bandwidth: attrs.0, resolution: attrs.1 });
                            assert(out@.map_values(|v: Variant| v@) =~= before + seq![
                                VariantView { uri: u@, bandwidth: attrs.0, resolution: attrs.1 },
                            ]);
                        },
                        Err(_) => {},
                    }
                    i = j + 1;
                    assert(master_variants_from(lv, 0, base@) =~= out@.map_values(|v: Variant| v@)
                        + master_variants_from(lv, i as int, base@));
                },
            }
        } else {
            i += 1;
        }
    }
    assert(master_variants_from(lv, i as int, base@) =~= Seq::<VariantView>::empty());
    assert(out@.map_values(|v: Variant| v@) + Seq::<VariantView>::empty() =~= out@.map_values(
        |v: Variant| v@,
    ));
    out
}

fn sub_playlists(ls: &Vec<Vec<char>>, base: &str) -> (r: Vec<String>)
    ensures
        r@.map_values(|u: String| u@) == sub_playlist_urls(ls@.map_values(|l: Vec<char>| l@), base@),
{
    let ghost lv = ls@.map_values(|l: Vec<char>| l@);
    let mut out: Vec<String> = Vec::new();
    let mut i: usize = 0;
    let ext = chars_of(".m3u8");
    assert(lv.take(0) =~= Seq::<Seq<char>>::empty());
    assert(out@.map_values(|u: String| u@) =~= Seq::<Seq<char>>::empty());
    while i < ls.len()
        invariant
            i <= ls@.len(),
            lv == ls@.map_values(|l: Vec<char>| l@),
            ext@ == ".m3u8"@,
            out@.map_values(|u: String| u@) == sub_playlist_urls(lv.take(i as int), base@),
        decreases ls.len() - i,
    {
        let l = &ls[i];
        proof {
            assert(lv.take(i + 1).drop_last() =~= lv.take(i as int));
            assert(lv.take(i + 1).last() == l@);
        }
        let parts = split_char_at(l, '?');
        proof {
            lemma_split_nonempty(l@, '?');
        }
        let path = &parts[0];
        let ghost before = out@.map_values(|u: String| u@);
        if l.len() > 0 && l[0] != '#' && (ends_with_at(path, &ext) || contains_at(path, &ext)) {
            let lt = string_of(l);
            match url_join(base, lt.as_str()) {
                Ok(u) => {
                    out.push(u);
                    assert(out@.map_values(|u: String| u@) =~= before.push(u@));
                },
                Err(_) => {},
            }
        }
        i += 1;
    }
    assert(lv.take(i as int) =~= lv);
    out
}

/// Decides what to do with the playlist text fetched from `url` (see
/// `spec_playlist_kind`).
pub fn playlist_kind(text: &str, url: &str) -> (r: Result<PlaylistKind, String>)
    ensures
        match spec_playlist_kind(text@, url@) {
            Ok(k) => r matches Ok(kind) && kind@ == k,
            Err(e) => r matches Err(m) && m@ == e,
        },
{
    match url_parts(url) {
        Err(e) => return Err(e),
        Ok(_) => {},
    }
    let ls = trimmed_lines_exec(text);
    assert(ls@.map_values(|l: Vec<char>| l@) =~= trimmed_lines(text@));
    let all = chars_of(text);
    if contains_at(&all, &chars_of("#EXT-X-STREAM-INF")) {
        let vs = master_variants(&ls, url);
        if vs.len() == 0 {
            return Err("Master playlist contains no valid STREAM-INF variants".to_string());
        }
        return Ok(PlaylistKind::Master(vs));
    }
    if contains_at(&all, &chars_of("#EXTINF:")) {
        return Ok(PlaylistKind::Media);
    }
    let subs = sub_playlists(&ls, url);
    if subs.len() > 0 {
        Ok(PlaylistKind::Nested(subs))
    } else {
        Ok(PlaylistKind::Media)
    }
}


// ---------------------------------------------------------------------------
// Choosing among fetched variants
// ---------------------------------------------------------------------------

/// The indices `k` with `full[k]`, in order.
pub open spec fn marked_indices(full: Seq<bool>) -> Seq<int>
    decreases full.len(),
{
    if full.len() == 0 {
        seq![]
    } else {
        let p = marked_indices(full.drop_last());
        if full.last() {
            p.push(full.len() - 1)
        } else {
            p
        }
    }
}

/// The variants to choose among: the full-length ones, or all when none is.
pub open spec fn candidate_indices(full: Seq<bool>) -> Seq<int> {
    if marked_indices(full).len() > 0 {
        marked_indices(full)
    } else {
        Seq::new(full.len(), |k: int| k)
    }
}

/// `r` is the variant the preference picks among the candidates (see
/// `selects`); when several candidates share its URI, the first of them.
pub open spec fn chooses_variant(vs: Seq<Variant>, full: Seq<bool>, pref: Seq<char>, r: int) -> bool {
    let c = candidate_indices(full);
    let cv = c.map_values(|k: int| vs[k]);
    exists|i: int, m: int|
        #![trigger selects(cv, pref, i), cv[m]]
        selects(cv, pref, i) && 0 <= m < cv.len() && cv[m].uri@ == cv[i].uri@ && (forall|m2: int|
            0 <= m2 < m ==> (#[trigger] cv[m2]).uri@ != cv[i].uri@) && r == c[m]
}

proof fn lemma_marked_indices(full: Seq<bool>)
    ensures
        forall|j: int|
            0 <= j < marked_indices(full).len() ==> 0 <= #[trigger] marked_indices(full)[j]
                < full.len(),
    decreases full.len(),
{
    if full.len() > 0 {
        lemma_marked_indices(full.drop_last());
        let p = marked_indices(full.drop_last());
        assert forall|j: int| 0 <= j < marked_indices(full).len() implies 0
            <= #[trigger] marked_indices(full)[j] < full.len() by {
            if j < p.len() {
                assert(marked_indices(full)[j] == p[j]);
            }
        }
    }
}

/// Every index that `marked_indices` lists is marked.
proof fn lemma_marked_are_full(full: Seq<bool>)
    ensures
        forall|j: int| 0 <= j < marked_indices(full).len() ==> full[#[trigger] marked_indices(full)[j]],
    decreases full.len(),
{
    if full.len() > 0 {
        lemma_marked_are_full(full.drop_last());
        lemma_marked_indices(full.drop_last());
        let p = marked_indices(full.drop_last());
        assert forall|j: int| 0 <= j < marked_indices(full).len() implies full[#[trigger] marked_indices(full)[j]] by {
            if j < p.len() {
                assert(marked_indices(full)[j] == p[j]);
                assert(full.drop_last()[p[j]] == full[p[j]]);
            }
        }
    }
}

/// Some index is listed as soon as one is marked.
proof fn lemma_marked_nonempty(full: Seq<bool>, k: int)
    requires
        0 <= k < full.len(),
        full[k],
    ensures
        marked_indices(full).len() > 0,
    decreases full.len(),
{
    if k < full.len() - 1 {
        lemma_marked_nonempty(full.drop_last(), k);
    }
}

/// Previews are skipped: when any fetched variant is a full-length video,
/// the chosen one is full length too.
pub proof fn law_full_length_preferred(vs: Seq<Variant>, full: Seq<bool>, pref: Seq<char>, r: int, k: int)
    requires
        chooses_variant(vs, full, pref, r),
        0 <= k < full.len(),
        full[k],
    ensures
        full[r],
{
    lemma_marked_nonempty(full, k);
    lemma_marked_are_full(full);
    let c = candidate_indices(full);
    let cv = c.map_values(|x: int| vs[x]);
    let (i, m) = choose|i: int, m: int|
        #![trigger selects(cv, pref, i), cv[m]]
        selects(cv, pref, i) && 0 <= m < cv.len() && cv[m].uri@ == cv[i].uri@ && (forall|m2: int|
            0 <= m2 < m ==> (#[trigger] cv[m2]).uri@ != cv[i].uri@) && r == c[m];
    assert(c == marked_indices(full));
    assert(full[marked_indices(full)[m]]);
}

/// Playlists nest at most five levels below the first one; deeper ones are
/// refused.
pub fn playlist_depth_check(depth: usize) -> (r: Result<(), String>)
    ensures
        depth <= 5 <==> r is Ok,
        r matches Err(e) ==> e@ == "M3U8 playlist recursion depth limit exceeded (> 5)"@,
{
    if depth > 5 {
        Err("M3U8 playlist recursion depth limit exceeded (> 5)".to_string())
    } else {
        Ok(())
    }
}

/// The first full-length one among evaluated sources, if any.
pub fn first_full_index(full: &Vec<bool>) -> (r: Option<usize>)
    ensures
        r matches Some(k) ==> k < full@.len() && full@[k as int] && forall|j: int| 0 <= j < k ==> !full@[j],
        r is None ==> forall|j: int| 0 <= j < full@.len() ==> !full@[j],
{
    let mut k: usize = 0;
    while k < full.len()
        invariant
            k <= full@.len(),
            forall|j: int| 0 <= j < k ==> !full@[j],
        decreases full.len() - k,
    {
        if full[k] {
            return Some(k);
        }
        k += 1;
    }
    None
}

/// Among fetched variants, of which `full[k]` tells whether variant `k` is a
/// full-length video, the index of the one to download for the resolution
/// preference `pref` (see `chooses_variant`); a full-length one whenever
/// there is one.
pub fn choose_variant_index(variants: &Vec<Variant>, full: &Vec<bool>, pref: &str) -> (r: usize)
    requires
        variants@.len() == full@.len(),
        variants@.len() > 0,
    ensures
        r < variants@.len(),
        chooses_variant(variants@, full@, pref@, r as int),
        (exists|k: int| 0 <= k < full@.len() && full@[k]) ==> full@[r as int],
{
    let n = full.len();
    let mut cidx: Vec<usize> = Vec::new();
    let mut k: usize = 0;
    assert(full@.take(0) =~= Seq::<bool>::empty());
    assert(cidx@.map_values(|x: usize| x as int) =~= Seq::<int>::empty());
    while k < n
        invariant
            k <= n,
            n == full@.len(),
            cidx@.map_values(|x: usize| x as int) == marked_indices(full@.take(k as int)),
        decreases n - k,
    {
        let ghost before = cidx@.map_values(|x: usize| x as int);
        proof {
            assert(full@.take(k + 1).drop_last() =~= full@.take(k as int));
            assert(full@.take(k + 1).last() == full@[k as int]);
        }
        if full[k] {
            cidx.push(k);
            assert(cidx@.map_values(|x: usize| x as int) =~= before.push(k as int));
        }
        k += 1;
    }
    assert(full@.take(n as int) =~= full@);
    if cidx.len() == 0 {
        let mut k: usize = 0;
        while k < n
            invariant
                k <= n,
                n == full@.len(),
                cidx@.len() == k,
                forall|j: int| 0 <= j < k ==> #[trigger] cidx@[j] == j,
            decreases n - k,
        {
            cidx.push(k);
            k += 1;
        }
    }
    let ghost c = candidate_indices(full@);
    proof {
        lemma_marked_indices(full@);
        assert(cidx@.len() == c.len());
        assert forall|j: int| 0 <= j < c.len() implies #[trigger] c[j] == cidx@[j] as int by {
            if marked_indices(full@).len() > 0 {
                assert(cidx@.map_values(|x: usize| x as int)[j] == cidx@[j] as int);
            }
        }
    }
    let mut cv: Vec<Variant> = Vec::new();
    let mut m: usize = 0;
    while m < cidx.len()
        invariant
            m <= cidx@.len(),
            cidx@.len() == c.len(),
            forall|j: int| 0 <= j < c.len() ==> #[trigger] c[j] == cidx@[j] as int,
            forall|j: int| 0 <= j < c.len() ==> 0 <= #[trigger] c[j] < variants@.len(),
            cv@.len() == m,
            forall|j: int| 0 <= j < m ==> #[trigger] cv@[j] == variants@[c[j]],
        decreases cidx.len() - m,
    {
        assert(c[m as int] == cidx@[m as int] as int);
        cv.push(copy_variant(&variants[cidx[m]]));
        m += 1;
    }
    let ghost cvs = c.map_values(|k: int| variants@[k]);
    assert(cv@ =~= cvs);
    assert(cv@.len() > 0) by {
        if marked_indices(full@).len() == 0 {
            assert(c.len() == n);
        }
    }
    let best = match select_variant(&cv, pref) {
        Some(b) => b,
        None => {
            return 0;
        },
    };
    let bu = chars_of(best.uri.as_str());
    let mut m: usize = 0;
    while m < cv.len()
        invariant
            m <= cv@.len(),
            bu@ == best.uri@,
            cv@ == cvs,
            cvs == c.map_values(|k: int| variants@[k]),
            c == candidate_indices(full@),
            cidx@.len() == c.len(),
            forall|j: int| 0 <= j < c.len() ==> #[trigger] c[j] == cidx@[j] as int,
            forall|j: int| 0 <= j < c.len() ==> 0 <= #[trigger] c[j] < variants@.len(),
            exists|i: int| selects(cvs, pref@, i) && best == cvs[i],
            forall|j: int| 0 <= j < m ==> (#[trigger] cv@[j]).uri@ != best.uri@,
        decreases cv.len() - m,
    {
        if eq(&chars_of(cv[m].uri.as_str()), &bu) {
            proof {
                let i = choose|i: int| selects(cvs, pref@, i) && best == cvs[i];
                assert(cvs[m as int] == cv@[m as int]);
                assert(forall|m2: int| 0 <= m2 < m ==> (#[trigger] cvs[m2]) == cv@[m2]);
                assert(selects(cvs, pref@, i) && 0 <= m < cvs.len() && cvs[m as int].uri@ == cvs[i].uri@
                    && (forall|m2: int| 0 <= m2 < m ==> (#[trigger] cvs[m2]).uri@ != cvs[i].uri@)
                    && cidx@[m as int] as int == c[m as int]);
                if exists|k: int| 0 <= k < full@.len() && full@[k] {
                    let k = choose|k: int| 0 <= k < full@.len() && full@[k];
                    law_full_length_preferred(variants@, full@, pref@, cidx@[m as int] as int, k);
                }
            }
            return cidx[m];
        }
        m += 1;
    }
    proof {
        let i = choose|i: int| selects(cvs, pref@, i) && best == cvs[i];
        assert(cv@[i] == cvs[i]);
    }
    0
}

} // verus!
