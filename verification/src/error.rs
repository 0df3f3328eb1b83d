//! Errors reported to the frontend: a code and parameters, sent as JSON.
use vstd::prelude::*;
use crate::text;
use crate::text::{chars_of, concat, contains_at, string_of, to_lowercase_at};
use crate::weburl::{spec_url_parts, url_parts};

verus! {

/// A lower-case hex digit.
pub open spec fn hex_lower(v: nat) -> char {
    if v < 10 {
        ((v + 0x30) as u32) as char
    } else {
        ((v - 10 + 0x61) as u32) as char
    }
}

/// How serde_json writes one character inside a string (its `ESCAPE`
/// table): `"` and `\` behind a backslash, the control characters with a
/// short form as `\b \t \n \f \r`, the other control characters below
/// 0x20 as `\u00XX` in lower-case hex, everything else as it is.
pub open spec fn json_escape_char(c: char) -> Seq<char> {
    let n = c as u32;
    if c == '"' {
        seq!['\\', '"']
    } else if c == '\\' {
        seq!['\\', '\\']
    } else if n == 0x08 {
        seq!['\\', 'b']
    } else if n == 0x09 {
        seq!['\\', 't']
    } else if n == 0x0A {
        seq!['\\', 'n']
    } else if n == 0x0C {
        seq!['\\', 'f']
    } else if n == 0x0D {
        seq!['\\', 'r']
    } else if n < 0x20 {
        seq!['\\', 'u', '0', '0', hex_lower(n as nat / 16), hex_lower(n as nat % 16)]
    } else {
        seq![c]
    }
}

/// The escaped characters of a string.
pub open spec fn json_escaped(s: Seq<char>) -> Seq<char>
    decreases s.len(),
{
    if s.len() == 0 {
        seq![]
    } else {
        json_escaped(s.drop_last()) + json_escape_char(s.last())
    }
}

/// A JSON string literal of `s`, quotes and escapes included.
pub open spec fn json_string_literal(s: Seq<char>) -> Seq<char> {
    seq!['"'] + json_escaped(s) + seq!['"']
}

/// `serde_json::to_string(s)`, which cannot fail for a string: the
/// characters between quotes, escaped as its `ESCAPE` table says.
#[verifier::external_body]
fn json_string(s: &str) -> (r: String)
    ensures
        r@ == json_string_literal(s@),
{
    serde_json::to_string(s).unwrap_or_default()
}

/// An error for the frontend: a code and, optionally, string parameters
/// (an object of the pairs, in the order given).
#[derive(Debug, Clone)]
pub struct AppError {
    pub code: String,
    pub params: Option<Vec<(String, String)>>,
}

pub open spec fn params_json(p: Seq<(Seq<char>, Seq<char>)>) -> Seq<char>
    decreases p.len(),
{
    if p.len() == 0 {
        seq![]
    } else {
        params_json(p.drop_last()) + (if p.len() > 1 {
            ","@
        } else {
            seq![]
        }) + json_string_literal(p.last().0) + ":"@ + json_string_literal(p.last().1)
    }
}

/// The JSON text of an error: `{"code":<code>,"params":<object or null>}`.
pub open spec fn spec_error_json(code: Seq<char>, params: Option<Seq<(Seq<char>, Seq<char>)>>) -> Seq<char> {
    "{\"code\":"@ + json_string_literal(code) + ",\"params\":"@ + match params {
        None => "null"@,
        Some(p) => "{"@ + params_json(p) + "}"@,
    } + "}"@
}

pub open spec fn pairs_of(v: Seq<(String, String)>) -> Seq<(Seq<char>, Seq<char>)> {
    v.map_values(|p: (String, String)| (p.0@, p.1@))
}

pub open spec fn params_view(p: Option<Vec<(String, String)>>) -> Option<Seq<(Seq<char>, Seq<char>)>> {
    match p {
        Some(v) => Some(pairs_of(v@)),
        None => None,
    }
}

impl AppError {
    pub fn new(code: &str, params: Option<Vec<(String, String)>>) -> (r: Self)
        ensures
            r.code@ == code@,
            r.params == params,
    {
        AppError { code: code.to_string(), params }
    }

    /// An error without parameters.
    pub fn simple(code: &str) -> (r: Self)
        ensures
            r.code@ == code@,
            r.params is None,
    {
        Self::new(code, None)
    }

    /// An error with one parameter.
    pub fn with_param(code: &str, key: &str, val: &str) -> (r: Self)
        ensures
            r.code@ == code@,
            params_view(r.params) == Some(seq![(key@, val@)]),
    {
        let mut v: Vec<(String, String)> = Vec::new();
        v.push((key.to_string(), val.to_string()));
        assert(pairs_of(v@) =~= seq![(key@, val@)]);
        Self::new(code, Some(v))
    }

    /// The error as the JSON text the frontend reads.
    pub fn to_json(&self) -> (r: String)
        ensures
            r@ == spec_error_json(self.code@, params_view(self.params)),
    {
        let mut out = concat(&chars_of("{\"code\":"), &chars_of(json_string(self.code.as_str()).as_str()));
        out = concat(&out, &chars_of(",\"params\":"));
        match &self.params {
            None => {
                out = concat(&out, &chars_of("null"));
            },
            Some(p) => {
                let ghost pv = pairs_of(p@);
                let mut body: Vec<char> = Vec::new();
                let mut i: usize = 0;
                assert(pv.take(0) =~= Seq::<(Seq<char>, Seq<char>)>::empty());
                while i < p.len()
                    invariant
                        i <= p@.len(),
                        pv == pairs_of(p@),
                        body@ == params_json(pv.take(i as int)),
                    decreases p.len() - i,
                {
                    proof {
                        assert(pv.take(i + 1).drop_last() =~= pv.take(i as int));
                        assert(pv.take(i + 1).last() == pv[i as int]);
                    }
                    if i > 0 {
                        body = concat(&body, &chars_of(","));
                    }
                    body = concat(&body, &chars_of(json_string(p[i].0.as_str()).as_str()));
                    body = concat(&body, &chars_of(":"));
                    body = concat(&body, &chars_of(json_string(p[i].1.as_str()).as_str()));
                    i += 1;
                }
                assert(pv.take(i as int) =~= pv);
                out = concat(&out, &chars_of("{"));
                out = concat(&out, &body);
                out = concat(&out, &chars_of("}"));
            },
        }
        out = concat(&out, &chars_of("}"));
        string_of(&out)
    }
}

/// The host of `url`, or `url` itself when it does not parse or has none.
pub open spec fn host_or_url(url: Seq<char>) -> Seq<char> {
    match spec_url_parts(url) {
        Ok(p) => match p.host {
            Some(h) => h,
            None => url,
        },
        Err(_) => url,
    }
}

/// A listing failure as the frontend's error: a refusal (`403`,
/// "forbidden" or "cloudflare" in the message, in any case) asks for a
/// Cloudflare verification of the URL's host; anything else is a network
/// failure on the URL.
pub open spec fn spec_map_scraper_error(err: Seq<char>, url: Seq<char>) -> Seq<char> {
    let low = text::lowercase(err);
    if text::contains(err, "403"@) || text::contains(low, "forbidden"@) || text::contains(low, "cloudflare"@) {
        spec_error_json("CF_VERIFICATION_REQUIRED"@, Some(seq![("domain"@, host_or_url(url))]))
    } else {
        spec_error_json("NETWORK_CONNECT_FAILED"@, Some(seq![("url"@, url)]))
    }
}

pub fn map_scraper_error(err_str: &str, url: &str) -> (r: String)
    ensures
        r@ == spec_map_scraper_error(err_str@, url@),
{
    let e = chars_of(err_str);
    let low = to_lowercase_at(&e);
    if contains_at(&e, &chars_of("403")) || contains_at(&low, &chars_of("forbidden")) || contains_at(
        &low,
        &chars_of("cloudflare"),
    ) {
        let domain = match url_parts(url) {
            Ok(p) => match p.host {
                Some(h) => h,
                None => url.to_string(),
            },
            Err(_) => url.to_string(),
        };
        AppError::with_param("CF_VERIFICATION_REQUIRED", "domain", domain.as_str()).to_json()
    } else {
        AppError::with_param("NETWORK_CONNECT_FAILED", "url", url).to_json()
    }
}

} // verus!
