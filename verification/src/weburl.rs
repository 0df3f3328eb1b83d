//! URLs: what the library needs of the `url` crate, and the
//! `application/x-www-form-urlencoded` byte serialization.
use vstd::prelude::*;
use crate::text::{chars_of, string_of};

verus! {

/// Model of the components of a parsed URL that the library reads.
pub struct UrlPartsView {
    pub scheme: Seq<char>,
    pub host: Option<Seq<char>>,
    pub path: Seq<char>,
}

/// Components of a parsed URL.
pub struct UrlParts {
    pub scheme: String,
    pub host: Option<String>,
    pub path: String,
}

impl View for UrlParts {
    type V = UrlPartsView;

    open spec fn view(&self) -> UrlPartsView {
        UrlPartsView {
            scheme: self.scheme@,
            host: match self.host {
                Some(h) => Some(h@),
                None => None,
            },
            path: self.path@,
        }
    }
}

/// What `url::Url::parse(input)` yields, read through `scheme()`,
/// `host_str()` and `path()`, or the text of the parse error.
pub uninterp spec fn spec_url_parts(input: Seq<char>) -> Result<UrlPartsView, Seq<char>>;

/// What `url::Url::parse(base)` followed by `join(input)` yields, as text
/// (`Url::to_string`), or the text of the error.
pub uninterp spec fn spec_url_join(base: Seq<char>, input: Seq<char>) -> Result<Seq<char>, Seq<char>>;

/// What `url::Url::parse(base)` yields after appending the pairs through
/// `query_pairs_mut().append_pair(key, value)`, as text; or the text of the
/// parse error.
pub uninterp spec fn spec_url_with_pairs(base: Seq<char>, pairs: Seq<(Seq<char>, Seq<char>)>) -> Result<
    Seq<char>,
    Seq<char>,
>;

pub open spec fn parts_result_view(r: Result<UrlParts, String>) -> Result<UrlPartsView, Seq<char>> {
    match r {
        Ok(p) => Ok(p@),
        Err(e) => Err(e@),
    }
}

/// Parses `input` with `url::Url::parse` and reads its scheme, host and
/// path (`Url::scheme`, `Url::host_str`, `Url::path`); the error's text
/// (`ParseError`'s `Display`) when it does not parse. The result is only
/// named: URL parsing is the WHATWG algorithm that the crate implements.
#[verifier::external_body]
pub(crate) fn url_parts(input: &str) -> (r: Result<UrlParts, String>)
    ensures
        parts_result_view(r) == spec_url_parts(input@),
{
    match url::Url::parse(input) {
        Ok(u) => Ok(
            UrlParts {
                scheme: u.scheme().to_string(),
                host: u.host_str().map(|h| h.to_string()),
                path: u.path().to_string(),
            },
        ),
        Err(e) => Err(e.to_string()),
    }
}

pub open spec fn result_view(r: Result<String, String>) -> Result<Seq<char>, Seq<char>> {
    match r {
        Ok(u) => Ok(u@),
        Err(e) => Err(e@),
    }
}

/// Resolves `input` against `base` with `url::Url::parse(base)` and
/// `Url::join`; the error's text when either fails. The result is only named.
#[verifier::external_body]
pub(crate) fn url_join(base: &str, input: &str) -> (r: Result<String, String>)
    ensures
        result_view(r) == spec_url_join(base@, input@),
{
    match url::Url::parse(base).and_then(|b| b.join(input)) {
        Ok(u) => Ok(u.to_string()),
        Err(e) => Err(e.to_string()),
    }
}

pub open spec fn pairs_view(pairs: Seq<(String, String)>) -> Seq<(Seq<char>, Seq<char>)> {
    pairs.map_values(|p: (String, String)| (p.0@, p.1@))
}

/// Parses `base` with `url::Url::parse` and appends each pair with
/// `query_pairs_mut().append_pair`, as text (`Url::to_string`); the parse
/// error's text when `base` does not parse. The result is only named.
#[verifier::external_body]
pub(crate) fn url_with_pairs(base: &str, pairs: &Vec<(String, String)>) -> (r: Result<String, String>)
    ensures
        result_view(r) == spec_url_with_pairs(base@, pairs_view(pairs@)),
{
    match url::Url::parse(base) {
        Ok(mut u) => {
            u.query_pairs_mut().extend_pairs(pairs.iter().map(|(k, v)| (k.as_str(), v.as_str())));
            Ok(u.to_string())
        },
        Err(e) => Err(e.to_string()),
    }
}

// ---------------------------------------------------------------------------
// application/x-www-form-urlencoded
// ---------------------------------------------------------------------------

/// Bytes that the form serializer keeps as they are.
pub open spec fn byte_unchanged(b: u8) -> bool {
    b == 0x2A || b == 0x2D || b == 0x2E || (0x30 <= b && b <= 0x39) || (0x41 <= b && b <= 0x5A)
        || b == 0x5F || (0x61 <= b && b <= 0x7A)
}

/// Upper-case hex digit of `d < 16`.
pub open spec fn hex_upper(d: u8) -> char {
    if d < 10 {
        (d + 48) as char
    } else {
        (d + 55) as char
    }
}

pub open spec fn encode_form_byte(b: u8) -> Seq<char> {
    if byte_unchanged(b) {
        seq![b as char]
    } else if b == 0x20 {
        seq!['+']
    } else {
        seq!['%', hex_upper(b / 16), hex_upper(b % 16)]
    }
}

/// `form_urlencoded::byte_serialize` of the bytes.
pub open spec fn form_urlencoded(bytes: Seq<u8>) -> Seq<char>
    decreases bytes.len(),
{
    if bytes.len() == 0 {
        seq![]
    } else {
        form_urlencoded(bytes.drop_last()) + encode_form_byte(bytes.last())
    }
}

fn hex_upper_exec(d: u8) -> (c: char)
    requires
        d < 16,
    ensures
        c == hex_upper(d),
{
    if d < 10 {
        (d + 48) as char
    } else {
        (d + 55) as char
    }
}

/// The UTF-8 bytes of `s`, form-urlencoded (spaces become `+`, bytes other
/// than `*-._`, digits and ASCII letters become `%XX`).
pub fn form_urlencode(s: &str) -> (r: String)
    ensures
        r@ == form_urlencoded(vstd::utf8::encode_utf8(s@)),
{
    let bytes = s.as_bytes();
    let mut out: Vec<char> = Vec::new();
    let mut i: usize = 0;
    while i < bytes.len()
        invariant
            i <= bytes.len(),
            out@ == form_urlencoded(bytes@.take(i as int)),
        decreases bytes.len() - i,
    {
        let b = bytes[i];
        proof {
            assert(bytes@.take(i + 1).drop_last() =~= bytes@.take(i as int));
            assert(bytes@.take(i + 1).last() == b);
        }
        if b == 0x2A || b == 0x2D || b == 0x2E || (0x30 <= b && b <= 0x39) || (0x41 <= b && b <= 0x5A)
            || b == 0x5F || (0x61 <= b && b <= 0x7A) {
            out.push(b as char);
        } else if b == 0x20 {
            out.push('+');
        } else {
            out.push('%');
            out.push(hex_upper_exec(b / 16));
            out.push(hex_upper_exec(b % 16));
        }
        i += 1;
        assert(out@ =~= form_urlencoded(bytes@.take(i as int)));
    }
    assert(bytes@.take(bytes@.len() as int) =~= bytes@);
    string_of(&out)
}

} // verus!
