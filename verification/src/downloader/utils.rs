//! Small pure helpers of the downloader: file names, AES IVs, hex keys and
//! the repair of segments that hide behind a fake image header.
use vstd::prelude::*;
use crate::text;
use crate::text::{
    chars_of, concat, contains_at, split_char_at, strip_prefix_rep_at, string_of, to_lowercase_at,
    trim_at,
};
use crate::weburl::{spec_url_parts, url_parts};
use crate::scraper::{clearance_cookie, clearance_cookie_of, headers_view};

verus! {

// ---------------------------------------------------------------------------
// File names
// ---------------------------------------------------------------------------

/// Characters that cannot appear in a file name on the supported platforms.
pub open spec fn is_forbidden_in_filename(c: char) -> bool {
    c == '/' || c == '\\' || c == ':' || c == '*' || c == '?' || c == '"' || c == '<' || c == '>'
        || c == '|'
}

pub open spec fn spec_sanitize_filename(title: Seq<char>) -> Seq<char> {
    title.map_values(|c: char| if is_forbidden_in_filename(c) { '_' } else { c })
}

/// Replaces every character that a file name cannot hold by `_`.
pub fn sanitize_filename(title: &str) -> (r: String)
    ensures
        r@ == spec_sanitize_filename(title@),
        r@.len() == title@.len(),
        forall|i: int| 0 <= i < r@.len() ==> !is_forbidden_in_filename(#[trigger] r@[i]),
{
    let t = chars_of(title);
    let mut out: Vec<char> = Vec::new();
    let mut i: usize = 0;
    while i < t.len()
        invariant
            i <= t.len(),
            out@.len() == i,
            forall|j: int|
                0 <= j < i ==> #[trigger] out@[j] == (if is_forbidden_in_filename(t@[j]) {
                    '_'
                } else {
                    t@[j]
                }),
        decreases t.len() - i,
    {
        let c = t[i];
        if c == '/' || c == '\\' || c == ':' || c == '*' || c == '?' || c == '"' || c == '<' || c
            == '>' || c == '|' {
            out.push('_');
        } else {
            out.push(c);
        }
        i += 1;
    }
    assert(out@ =~= spec_sanitize_filename(title@));
    string_of(&out)
}

// ---------------------------------------------------------------------------
// Hex keys
// ---------------------------------------------------------------------------

pub open spec fn hex_digit_value(b: u8) -> Option<nat> {
    if 0x30 <= b && b <= 0x39 {
        Some((b - 0x30) as nat)
    } else if 0x61 <= b && b <= 0x66 {
        Some((b - 0x61 + 10) as nat)
    } else if 0x41 <= b && b <= 0x46 {
        Some((b - 0x41 + 10) as nat)
    } else {
        None
    }
}

/// `u8::from_str_radix(pair, 16)` for a two-byte string: an optional `'+'`
/// followed by hex digits.
pub open spec fn hex_pair_value(b0: u8, b1: u8) -> Option<u8> {
    if b0 == 0x2B {
        match hex_digit_value(b1) {
            Some(v) => Some(v as u8),
            None => None,
        }
    } else {
        match (hex_digit_value(b0), hex_digit_value(b1)) {
            (Some(h), Some(l)) => Some((h * 16 + l) as u8),
            _ => None,
        }
    }
}

/// The bytes after an optional `0x` prefix.
pub open spec fn strip_0x(b: Seq<u8>) -> Seq<u8> {
    if b.len() >= 2 && b[0] == 0x30 && b[1] == 0x78 {
        b.skip(2)
    } else {
        b
    }
}

/// Decoding of consecutive byte pairs.
pub open spec fn hex_pairs(b: Seq<u8>) -> Option<Seq<u8>>
    decreases b.len(),
{
    if b.len() == 0 {
        Some(seq![])
    } else if b.len() < 2 {
        None
    } else {
        match (hex_pair_value(b[0], b[1]), hex_pairs(b.skip(2))) {
            (Some(v), Some(rest)) => Some(seq![v] + rest),
            _ => None,
        }
    }
}

/// The hex string (UTF-8 bytes `b`, optional `0x` prefix) as bytes: None
/// when its length is odd or a pair is not a number.
pub open spec fn spec_parse_hex(b: Seq<u8>) -> Option<Seq<u8>> {
    let h = strip_0x(b);
    if h.len() % 2 != 0 {
        None
    } else {
        hex_pairs(h)
    }
}

pub open spec fn is_continuation(b: u8) -> bool {
    0x80 <= b && b < 0xC0
}

/// Reading the pairs in order, each pair is cut out of the string before it
/// is decoded, and the reading stops at the first pair that is not a number:
/// no cut made on the way falls inside a multi-byte character (such a cut
/// would panic).
pub open spec fn pairs_sliceable(h: Seq<u8>) -> bool
    decreases h.len(),
{
    if h.len() < 2 {
        true
    } else if is_continuation(h[0]) || (h.len() > 2 && is_continuation(h[2])) {
        false
    } else if hex_pair_value(h[0], h[1]) is None {
        true
    } else {
        pairs_sliceable(h.skip(2))
    }
}

/// `pairs_sliceable` of the digits after the optional `0x`, when their count
/// is even (an odd count is rejected before any cut).
pub open spec fn hex_pairs_on_char_boundaries(b: Seq<u8>) -> bool {
    let h = strip_0x(b);
    h.len() % 2 != 0 || pairs_sliceable(h)
}

/// The ASCII hex digit of a value below 16, lower or upper case.
pub open spec fn hex_digit_byte(v: nat, upper: bool) -> u8 {
    if v < 10 {
        (0x30 + v) as u8
    } else if upper {
        (0x41 + v - 10) as u8
    } else {
        (0x61 + v - 10) as u8
    }
}

/// The bytes written as hex, two digits each (`format!("{:02x}")`, or
/// `{:02X}` in upper case), as UTF-8 bytes.
pub open spec fn hex_text(b: Seq<u8>, upper: bool) -> Seq<u8>
    decreases b.len(),
{
    if b.len() == 0 {
        seq![]
    } else {
        seq![hex_digit_byte(b[0] as nat / 16, upper), hex_digit_byte(b[0] as nat % 16, upper)] + hex_text(
            b.drop_first(),
            upper,
        )
    }
}

proof fn lemma_hex_pairs_of_text(b: Seq<u8>, upper: bool)
    ensures
        hex_pairs(hex_text(b, upper)) == Some(b),
        pairs_sliceable(hex_text(b, upper)),
        hex_text(b, upper).len() == 2 * b.len(),
        b.len() > 0 ==> hex_text(b, upper)[1] != 0x78,
    decreases b.len(),
{
    if b.len() > 0 {
        lemma_hex_pairs_of_text(b.drop_first(), upper);
        let t = hex_text(b, upper);
        let hi = b[0] as nat / 16;
        let lo = b[0] as nat % 16;
        assert(t.skip(2) =~= hex_text(b.drop_first(), upper));
        assert(t[0] == hex_digit_byte(hi, upper));
        assert(t[1] == hex_digit_byte(lo, upper));
        assert(hex_digit_value(t[0]) == Some(hi));
        assert(hex_digit_value(t[1]) == Some(lo));
        assert(hi * 16 + lo == b[0] as nat);
        assert(seq![b[0]] + b.drop_first() =~= b);
        if t.len() > 2 {
            assert(t[2] == hex_text(b.drop_first(), upper)[0]);
        }
    }
}

/// Writing bytes as hex and parsing the text gives the bytes back, with
/// or without a `0x` prefix and in either case; no pair is cut inside a
/// character on the way.
pub proof fn law_parse_hex_round_trip(b: Seq<u8>, upper: bool)
    ensures
        spec_parse_hex(hex_text(b, upper)) == Some(b),
        spec_parse_hex(seq![0x30u8, 0x78u8] + hex_text(b, upper)) == Some(b),
        hex_pairs_on_char_boundaries(hex_text(b, upper)),
        hex_pairs_on_char_boundaries(seq![0x30u8, 0x78u8] + hex_text(b, upper)),
{
    lemma_hex_pairs_of_text(b, upper);
    let t = hex_text(b, upper);
    assert(strip_0x(t) == t);
    assert((seq![0x30u8, 0x78u8] + t).skip(2) =~= t);
}

fn hex_digit(b: u8) -> (r: Option<u8>)
    ensures
        r matches Some(v) ==> hex_digit_value(b) == Some(v as nat),
        r is None ==> hex_digit_value(b) is None,
{
    if 0x30 <= b && b <= 0x39 {
        Some(b - 0x30)
    } else if 0x61 <= b && b <= 0x66 {
        Some(b - 0x61 + 10)
    } else if 0x41 <= b && b <= 0x46 {
        Some(b - 0x41 + 10)
    } else {
        None
    }
}

fn hex_pair(b0: u8, b1: u8) -> (r: Option<u8>)
    ensures
        r == hex_pair_value(b0, b1),
{
    if b0 == 0x2B {
        match hex_digit(b1) {
            Some(v) => Some(v),
            None => None,
        }
    } else {
        match (hex_digit(b0), hex_digit(b1)) {
            (Some(h), Some(l)) => Some(h * 16 + l),
            _ => None,
        }
    }
}

/// Whether `hex_pairs_on_char_boundaries` holds of the string.
pub fn hex_pairs_sliceable(s: &str) -> (r: bool)
    ensures
        r == hex_pairs_on_char_boundaries(vstd::utf8::encode_utf8(s@)),
{
    let all = s.as_bytes();
    let h: &[u8] = if all.len() >= 2 && all[0] == 0x30 && all[1] == 0x78 {
        &all[2..all.len()]
    } else {
        all
    };
    assert(h@ =~= strip_0x(vstd::utf8::encode_utf8(s@)));
    if h.len() % 2 != 0 {
        return true;
    }
    let mut i: usize = 0;
    assert(h@.skip(0) =~= h@);
    while i < h.len()
        invariant
            i <= h.len(),
            i % 2 == 0,
            h.len() % 2 == 0,
            h@ == strip_0x(vstd::utf8::encode_utf8(s@)),
            pairs_sliceable(h@) == pairs_sliceable(h@.skip(i as int)),
        decreases h.len() - i,
    {
        let ghost t = h@.skip(i as int);
        assert(t[0] == h@[i as int] && t[1] == h@[i + 1]);
        assert(t.skip(2) =~= h@.skip(i + 2));
        if 0x80 <= h[i] && h[i] < 0xC0 {
            return false;
        }
        if i + 2 < h.len() {
            assert(t[2] == h@[i + 2]);
            if 0x80 <= h[i + 2] && h[i + 2] < 0xC0 {
                return false;
            }
        }
        if hex_pair(h[i], h[i + 1]).is_none() {
            return true;
        }
        i += 2;
    }
    true
}

/// Parses a hex string (optional `0x` prefix) into bytes.
pub fn parse_hex(s: &str) -> (r: Option<Vec<u8>>)
    requires
        hex_pairs_on_char_boundaries(vstd::utf8::encode_utf8(s@)),
    ensures
        r matches Some(v) ==> spec_parse_hex(vstd::utf8::encode_utf8(s@)) == Some(v@),
        r is None ==> spec_parse_hex(vstd::utf8::encode_utf8(s@)) is None,
{
    let all = s.as_bytes();
    let h: &[u8] = if all.len() >= 2 && all[0] == 0x30 && all[1] == 0x78 {
        &all[2..all.len()]
    } else {
        all
    };
    assert(h@ =~= strip_0x(vstd::utf8::encode_utf8(s@)));
    if h.len() % 2 != 0 {
        return None;
    }
    let mut bytes: Vec<u8> = Vec::new();
    let mut i: usize = 0;
    assert(h@.skip(0) =~= h@);
    while i < h.len()
        invariant
            i <= h.len(),
            i % 2 == 0,
            h.len() % 2 == 0,
            h@ == strip_0x(vstd::utf8::encode_utf8(s@)),
            hex_pairs(h@) matches Some(all_v) ==> (hex_pairs(h@.skip(i as int)) matches Some(rest)
                && all_v == bytes@ + rest),
            hex_pairs(h@) is None ==> hex_pairs(h@.skip(i as int)) is None,
        decreases h.len() - i,
    {
        let v = hex_pair(h[i], h[i + 1]);
        proof {
            let t = h@.skip(i as int);
            assert(t[0] == h@[i as int] && t[1] == h@[i + 1]);
            assert(t.skip(2) =~= h@.skip(i + 2));
        }
        match v {
            Some(b) => {
                bytes.push(b);
                proof {
                    if let Some(all_v) = hex_pairs(h@) {
                        let t = h@.skip(i as int);
                        let rest = hex_pairs(h@.skip(i + 2)).unwrap();
                        assert(hex_pairs(t) == Some(seq![b] + rest));
                        assert(all_v =~= bytes@ + rest);
                    }
                }
            },
            None => {
                proof {
                    let t = h@.skip(i as int);
                    assert(t.len() >= 2);
                    assert(hex_pairs(t) is None);
                }
                return None;
            },
        }
        i += 2;
    }
    proof {
        assert(h@.skip(i as int) =~= Seq::<u8>::empty());
        if let Some(all_v) = hex_pairs(h@) {
            assert(all_v =~= bytes@);
        }
    }
    Some(bytes)
}

// ---------------------------------------------------------------------------
// AES-128 IVs
// ---------------------------------------------------------------------------

pub open spec fn view_opt_bytes(o: Option<Vec<u8>>) -> Option<Seq<u8>> {
    match o {
        Some(v) => Some(v@),
        None => None,
    }
}

/// Byte `k` of the IV: the playlist's IV right-aligned in 16 bytes (its
/// first 16 bytes when longer), or else the segment index as a 128-bit
/// big-endian number.
pub open spec fn spec_iv_byte(index: usize, custom: Option<Seq<u8>>, k: int) -> u8 {
    match custom {
        Some(iv) => {
            let len = if iv.len() < 16 { iv.len() as int } else { 16 };
            if k >= 16 - len {
                iv[k - (16 - len)]
            } else {
                0
            }
        },
        None => if k < 8 {
            0
        } else {
            ((index as u64 >> ((8 * (15 - k)) as u64)) & 0xff) as u8
        },
    }
}

fn iv_byte(index: usize, custom_iv: &Option<Vec<u8>>, k: usize) -> (b: u8)
    requires
        k < 16,
    ensures
        b == spec_iv_byte(index, view_opt_bytes(*custom_iv), k as int),
{
    match custom_iv {
        Some(iv) => {
            let len = if iv.len() < 16 {
                iv.len()
            } else {
                16
            };
            if k >= 16 - len {
                iv[k - (16 - len)]
            } else {
                0
            }
        },
        None => {
            if k < 8 {
                0
            } else {
                ((index as u64 >> ((8 * (15 - k)) as u64)) & 0xff) as u8
            }
        },
    }
}

/// The 16-byte IV for segment `index`.
pub fn get_iv_for_segment(index: usize, custom_iv: &Option<Vec<u8>>) -> (r: [u8; 16])
    ensures
        forall|k: int| 0 <= k < 16 ==> #[trigger] r@[k] == spec_iv_byte(index, view_opt_bytes(*custom_iv), k),
{
    let r = [
        iv_byte(index, custom_iv, 0),
        iv_byte(index, custom_iv, 1),
        iv_byte(index, custom_iv, 2),
        iv_byte(index, custom_iv, 3),
        iv_byte(index, custom_iv, 4),
        iv_byte(index, custom_iv, 5),
        iv_byte(index, custom_iv, 6),
        iv_byte(index, custom_iv, 7),
        iv_byte(index, custom_iv, 8),
        iv_byte(index, custom_iv, 9),
        iv_byte(index, custom_iv, 10),
        iv_byte(index, custom_iv, 11),
        iv_byte(index, custom_iv, 12),
        iv_byte(index, custom_iv, 13),
        iv_byte(index, custom_iv, 14),
        iv_byte(index, custom_iv, 15),
    ];
    r
}

// ---------------------------------------------------------------------------
// Fake image headers in front of MPEG-TS data
// ---------------------------------------------------------------------------

/// Five MPEG-TS sync bytes (0x47) 188 bytes apart start at `j`.
pub open spec fn ts_sync_at(d: Seq<u8>, j: int) -> bool {
    &&& 0 <= j
    &&& j + 188 * 4 < d.len()
    &&& d[j] == 0x47
    &&& d[j + 188] == 0x47
    &&& d[j + 188 * 2] == 0x47
    &&& d[j + 188 * 3] == 0x47
    &&& d[j + 188 * 4] == 0x47
}

/// The first `j` in `[i, limit]` where a TS packet run starts.
pub open spec fn first_sync(d: Seq<u8>, i: int, limit: int) -> Option<int>
    decreases limit + 1 - i,
{
    if i > limit || i < 0 {
        None
    } else if ts_sync_at(d, i) {
        Some(i)
    } else {
        first_sync(d, i + 1, limit)
    }
}

/// Data that already starts with a sync byte (or is empty) is kept; otherwise
/// the data from the first run of five TS packets found in the first 8001
/// candidate positions; nothing when there is none or the data is shorter
/// than four packets and one byte.
pub open spec fn spec_strip_fake_header(d: Seq<u8>) -> Seq<u8> {
    if d.len() == 0 || d[0] == 0x47 {
        d
    } else if d.len() < 188 * 4 + 1 {
        seq![]
    } else {
        let limit = if d.len() - 188 * 4 - 1 < 8000 {
            d.len() - 188 * 4 - 1
        } else {
            8000
        };
        match first_sync(d, 0, limit) {
            Some(j) => d.skip(j),
            None => seq![],
        }
    }
}

proof fn lemma_first_sync(d: Seq<u8>, i: int, limit: int, k: int)
    requires
        0 <= i <= k,
        k <= limit + 1,
        forall|j: int| i <= j < k ==> !ts_sync_at(d, j),
    ensures
        k <= limit && ts_sync_at(d, k) ==> first_sync(d, i, limit) == Some(k),
        k == limit + 1 ==> first_sync(d, i, limit) is None,
    decreases k - i,
{
    if i < k {
        lemma_first_sync(d, i + 1, limit, k);
    }
}

proof fn lemma_first_sync_props(d: Seq<u8>, i: int, limit: int)
    requires
        0 <= i,
    ensures
        first_sync(d, i, limit) matches Some(j) ==> i <= j <= limit && ts_sync_at(d, j) && forall|k: int|
            i <= k < j ==> !ts_sync_at(d, k),
        first_sync(d, i, limit) is None ==> forall|k: int| i <= k <= limit ==> !ts_sync_at(d, k),
    decreases limit + 1 - i,
{
    if i <= limit && !ts_sync_at(d, i) {
        lemma_first_sync_props(d, i + 1, limit);
    }
}

/// A fake header is cut at the first run of five TS packets: data that
/// starts with the sync byte is kept whole; otherwise what is kept starts
/// where five packets of 188 bytes each begin with the sync byte, and at no
/// earlier position; when nothing is kept, no such run starts in the first
/// 8001 positions.
pub proof fn law_strip_at_first_packet_run(d: Seq<u8>)
    ensures
        d.len() > 0 && d[0] == 0x47 ==> spec_strip_fake_header(d) == d,
        d.len() > 0 && d[0] != 0x47 && spec_strip_fake_header(d).len() > 0 ==> {
            let j = d.len() - spec_strip_fake_header(d).len();
            &&& spec_strip_fake_header(d) == d.skip(j)
            &&& ts_sync_at(d, j)
            &&& forall|k: int| 0 <= k < j ==> !ts_sync_at(d, k)
        },
        d.len() > 0 && d[0] != 0x47 && spec_strip_fake_header(d).len() == 0 ==> forall|k: int|
            0 <= k <= 8000 ==> !ts_sync_at(d, k),
{
    if d.len() > 0 && d[0] != 0x47 && d.len() >= 188 * 4 + 1 {
        let limit = if d.len() - 188 * 4 - 1 < 8000 {
            d.len() - 188 * 4 - 1
        } else {
            8000
        };
        lemma_first_sync_props(d, 0, limit);
    }
}

fn sync_at(d: &[u8], j: usize) -> (r: bool)
    ensures
        r == ts_sync_at(d@, j as int),
{
    if j >= d.len() || d.len() - j <= 188 * 4 {
        return false;
    }
    d[j] == 0x47 && d[j + 188] == 0x47 && d[j + 376] == 0x47 && d[j + 564] == 0x47 && d[j + 752]
        == 0x47
}

/// Removes a fake header (e.g. a PNG image) placed in front of MPEG-TS data.
pub fn strip_fake_header(data: &[u8]) -> (r: &[u8])
    ensures
        r@ == spec_strip_fake_header(data@),
        r@.len() <= data@.len(),
        r@ == data@.skip(data@.len() - r@.len()),
        r@.len() > 0 ==> r@[0] == 0x47 || r@ == data@,
{
    if data.len() == 0 || data[0] == 0x47 {
        assert(data@.skip(0) =~= data@);
        return data;
    }
    if data.len() < 188 * 4 + 1 {
        assert(data@.subrange(0, 0) =~= Seq::<u8>::empty());
        return &data[0..0];
    }
    let limit: usize = if data.len() - 188 * 4 - 1 < 8000 {
        data.len() - 188 * 4 - 1
    } else {
        8000
    };
    let mut i: usize = 0;
    let ghost expected = match first_sync(data@, 0, limit as int) {
        Some(j) => data@.skip(j),
        None => Seq::<u8>::empty(),
    };
    assert(spec_strip_fake_header(data@) == expected);
    while i <= limit
        invariant
            spec_strip_fake_header(data@) == expected,
            expected == (match first_sync(data@, 0, limit as int) {
                Some(j) => data@.skip(j),
                None => Seq::<u8>::empty(),
            }),
            limit + 188 * 4 + 1 <= data.len(),
            limit <= 8000,
            i <= limit + 1,
            forall|j: int| 0 <= j < i ==> !ts_sync_at(data@, j),
        decreases limit + 1 - i,
    {
        if sync_at(data, i) {
            proof {
                lemma_first_sync(data@, 0, limit as int, i as int);
                assert(data@.subrange(i as int, data@.len() as int) =~= data@.skip(i as int));
                assert(first_sync(data@, 0, limit as int) == Some(i as int));
                assert(spec_strip_fake_header(data@) == data@.skip(i as int));
            }
            return &data[i..data.len()];
        }
        i += 1;
    }
    proof {
        lemma_first_sync(data@, 0, limit as int, i as int);
        assert(data@.subrange(0, 0) =~= Seq::<u8>::empty());
    }
    &data[0..0]
}


// ---------------------------------------------------------------------------
// Request headers of a download
// ---------------------------------------------------------------------------

/// The referer of requests made for a page: `<scheme>://<host>/` of the
/// page URL, when it parses and has a host.
pub open spec fn spec_referer(page_url: Seq<char>) -> Option<Seq<char>> {
    match spec_url_parts(page_url) {
        Ok(p) => match p.host {
            Some(h) => Some(p.scheme + "://"@ + h + "/"@),
            None => None,
        },
        Err(_) => None,
    }
}

/// The referer for requests made on behalf of `page_url`.
pub fn referer_for(page_url: &str) -> (r: Option<String>)
    ensures
        match r {
            Some(x) => spec_referer(page_url@) == Some(x@),
            None => spec_referer(page_url@) is None,
        },
{
    match url_parts(page_url) {
        Ok(p) => match p.host {
            Some(h) => {
                let v = concat(
                    &concat(&concat(&chars_of(p.scheme.as_str()), &chars_of("://")), &chars_of(h.as_str())),
                    &chars_of("/"),
                );
                Some(string_of(&v))
            },
            None => None,
        },
        Err(_) => None,
    }
}

/// A host without leading `www.` labels, lower-cased.
pub open spec fn host_key(h: Seq<char>) -> Seq<char> {
    text::lowercase(text::strip_prefix_rep(h, "www."@))
}

/// Two hosts belong to the same site when one contains the other, or the
/// first label of one is non-empty and contained in the first label of the
/// other.
pub open spec fn hosts_related(h1: Seq<char>, h2: Seq<char>) -> bool {
    let c1 = host_key(h1);
    let c2 = host_key(h2);
    let b1 = text::split_char(c1, '.')[0];
    let b2 = text::split_char(c2, '.')[0];
    text::contains(c1, c2) || text::contains(c2, c1) || (b1.len() > 0 && text::contains(b2, b1)) || (
    b2.len() > 0 && text::contains(b1, b2))
}

/// Relatedness of hosts is reflexive and symmetric, and ignores a leading
/// `www.`: a page's own host, with or without `www.`, is on its site.
pub proof fn law_hosts_related(h1: Seq<char>, h2: Seq<char>)
    ensures
        hosts_related(h1, h1),
        hosts_related(h1, h2) == hosts_related(h2, h1),
        hosts_related("www."@ + h1, h1),
{
    let c = host_key(h1);
    assert(c.subrange(0, c.len() as int) =~= c);
    text::lemma_find_from_some(c, c, 0, 0);
    reveal_strlit("www.");
    let w = "www."@ + h1;
    assert(w.take(4) =~= "www."@);
    assert(w.skip(4) =~= h1);
    assert(text::strip_prefix_rep(w, "www."@) == text::strip_prefix_rep(h1, "www."@));
}

/// Requests for a page's own URL are on its site (when it has a host).
pub proof fn law_same_site_reflexive(u: Seq<char>)
    ensures
        spec_url_parts(u) matches Ok(p) && p.host is Some ==> same_site(u, u),
{
    if let Ok(p) = spec_url_parts(u) {
        if let Some(h) = p.host {
            law_hosts_related(h, h);
        }
    }
}

/// Both URLs parse, have hosts, and the hosts are related.
pub open spec fn same_site(target: Seq<char>, page: Seq<char>) -> bool {
    match (spec_url_parts(target), spec_url_parts(page)) {
        (Ok(p1), Ok(p2)) => match (p1.host, p2.host) {
            (Some(h1), Some(h2)) => hosts_related(h1, h2),
            _ => false,
        },
        _ => false,
    }
}

/// The clearance headers of a request for `target` made for `page`: the
/// user agent always, the clearance cookie only for the page's own site
/// (never handed to a CDN of another site).
pub open spec fn spec_cf_headers_safe(target: Seq<char>, page: Seq<char>, cf: Seq<char>, ua: Seq<char>) -> Seq<
    (Seq<char>, Seq<char>),
> {
    (if text::trim(ua).len() > 0 {
        seq![("user-agent"@, text::trim(ua))]
    } else {
        seq![]
    }) + (if same_site(target, page) && text::trim(cf).len() > 0 {
        seq![("cookie"@, clearance_cookie(cf))]
    } else {
        seq![]
    })
}

fn first_label(s: &[char]) -> (r: Vec<char>)
    ensures
        r@ == text::split_char(s@, '.')[0],
{
    let parts = split_char_at(s, '.');
    proof {
        reveal_with_fuel(text::split_char, 1);
    }
    crate::text::to_vec(&parts[0])
}

fn host_key_exec(h: &str) -> (r: Vec<char>)
    ensures
        r@ == host_key(h@),
{
    let v = chars_of(h);
    to_lowercase_at(strip_prefix_rep_at(&v, &chars_of("www.")))
}

/// Whether `target` and `page` are URLs of the same site (see `same_site`).
pub fn is_same_site(target: &str, page: &str) -> (r: bool)
    ensures
        r == same_site(target@, page@),
{
    let (p1, p2) = match (url_parts(target), url_parts(page)) {
        (Ok(p1), Ok(p2)) => (p1, p2),
        _ => return false,
    };
    let (h1, h2) = match (p1.host, p2.host) {
        (Some(h1), Some(h2)) => (h1, h2),
        _ => return false,
    };
    let c1 = host_key_exec(h1.as_str());
    let c2 = host_key_exec(h2.as_str());
    let b1 = first_label(&c1);
    let b2 = first_label(&c2);
    contains_at(&c1, &c2) || contains_at(&c2, &c1) || (b1.len() > 0 && contains_at(&b2, &b1)) || (
    b2.len() > 0 && contains_at(&b1, &b2))
}

/// The clearance headers of a download request (see `spec_cf_headers_safe`).
pub fn cf_headers_safe(target_url: &str, page_url: &str, cf_clearance: &str, user_agent: &str) -> (r: Vec<
    (String, String),
>)
    ensures
        headers_view(r@) == spec_cf_headers_safe(target_url@, page_url@, cf_clearance@, user_agent@),
{
    let mut out: Vec<(String, String)> = Vec::new();
    let uav = chars_of(user_agent);
    let ua = trim_at(&uav);
    if ua.len() > 0 {
        out.push(("user-agent".to_string(), string_of(ua)));
    }
    let ghost first = headers_view(out@);
    let cfv = chars_of(cf_clearance);
    let cf = trim_at(&cfv);
    if is_same_site(target_url, page_url) && cf.len() > 0 {
        out.push(("cookie".to_string(), clearance_cookie_of(cf_clearance)));
        assert(headers_view(out@) =~= first + seq![("cookie"@, clearance_cookie(cf_clearance@))]);
    }
    assert(headers_view(out@) =~= spec_cf_headers_safe(target_url@, page_url@, cf_clearance@, user_agent@));
    out
}

/// All headers of a request for `target` made on behalf of the page: its
/// referer, then the clearance headers.
pub open spec fn spec_download_headers(target: Seq<char>, page: Seq<char>, cf: Seq<char>, ua: Seq<char>) -> Seq<
    (Seq<char>, Seq<char>),
> {
    (match spec_referer(page) {
        Some(r) => seq![("referer"@, r)],
        None => seq![],
    }) + spec_cf_headers_safe(target, page, cf, ua)
}

/// The headers of a request for a playlist, key or segment of the page's
/// video (see `spec_download_headers`).
pub fn download_headers(target_url: &str, page_url: &str, cf_clearance: &str, user_agent: &str) -> (r: Vec<
    (String, String),
>)
    ensures
        headers_view(r@) == spec_download_headers(target_url@, page_url@, cf_clearance@, user_agent@),
{
    let mut out: Vec<(String, String)> = Vec::new();
    match referer_for(page_url) {
        Some(r) => {
            out.push(("referer".to_string(), r));
        },
        None => {},
    }
    let ghost first = headers_view(out@);
    let rest = cf_headers_safe(target_url, page_url, cf_clearance, user_agent);
    let mut i: usize = 0;
    while i < rest.len()
        invariant
            i <= rest@.len(),
            headers_view(out@) == first + headers_view(rest@).take(i as int),
        decreases rest.len() - i,
    {
        let k = rest[i].0.clone();
        let v = rest[i].1.clone();
        assert(headers_view(rest@)[i as int] == (k@, v@));
        let ghost before = headers_view(out@);
        out.push((k, v));
        assert(headers_view(out@) =~= before.push((k@, v@)));
        assert(headers_view(rest@).take(i + 1) =~= headers_view(rest@).take(i as int).push((k@, v@)));
        i += 1;
        assert(headers_view(out@) =~= first + headers_view(rest@).take(i as int));
    }
    assert(headers_view(rest@).take(i as int) =~= headers_view(rest@));
    assert(headers_view(out@) =~= spec_download_headers(target_url@, page_url@, cf_clearance@, user_agent@));
    out
}

/// The headers of a request for a directly downloaded file: Streamtape
/// links get Streamtape's referer and the user agent only; others those of
/// any download request.
pub open spec fn spec_direct_headers(stream: Seq<char>, page: Seq<char>, cf: Seq<char>, ua: Seq<char>) -> Seq<
    (Seq<char>, Seq<char>),
> {
    if text::contains(stream, "streamtape"@) {
        seq![("referer"@, "https://streamtape.com/"@)] + (if text::trim(ua).len() > 0 {
            seq![("user-agent"@, text::trim(ua))]
        } else {
            seq![]
        })
    } else {
        spec_download_headers(stream, page, cf, ua)
    }
}

/// The headers of the request for a direct MP4 stream.
pub fn direct_stream_headers(stream_url: &str, page_url: &str, cf_clearance: &str, user_agent: &str) -> (r: Vec<
    (String, String),
>)
    ensures
        headers_view(r@) == spec_direct_headers(stream_url@, page_url@, cf_clearance@, user_agent@),
{
    if contains_at(&chars_of(stream_url), &chars_of("streamtape")) {
        let mut out: Vec<(String, String)> = Vec::new();
        out.push(("referer".to_string(), "https://streamtape.com/".to_string()));
        let ghost first = headers_view(out@);
        let uav = chars_of(user_agent);
        let ua = trim_at(&uav);
        if ua.len() > 0 {
            out.push(("user-agent".to_string(), string_of(ua)));
            assert(headers_view(out@) =~= first + seq![("user-agent"@, text::trim(user_agent@))]);
        }
        assert(headers_view(out@) =~= spec_direct_headers(stream_url@, page_url@, cf_clearance@, user_agent@));
        out
    } else {
        download_headers(stream_url, page_url, cf_clearance, user_agent)
    }
}

} // verus!
