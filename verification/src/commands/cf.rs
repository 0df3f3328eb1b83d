//! The Cloudflare verifier: a window where the user passes the challenge,
//! polled until a clearance cookie settles and a probe request confirms it.
//! The window, the cookies and the probe are the caller's; this module
//! decides.
use vstd::prelude::*;
use crate::text;
use crate::text::{chars_of, concat, contains_at, eq, replace_char_at, string_of, trim_at};
use crate::weburl::{spec_url_parts, url_parts};
use crate::scraper::{cf_headers, get_accept_language_header, headers_view, spec_cf_headers, accept_language_for};

verus! {

/// The window for verifying the site of `url`: the site's host and the
/// window's label, `cf_verifier_<host with dots as underscores>`; the
/// URL's parse error, or a message when it has no host.
pub open spec fn spec_verifier_target(url: Seq<char>) -> Result<(Seq<char>, Seq<char>), Seq<char>> {
    match spec_url_parts(url) {
        Err(e) => Err(e),
        Ok(p) => match p.host {
            None => Err("Invalid host in URL"@),
            Some(h) => Ok((h, "cf_verifier_"@ + text::replace_char(h, '.', '_'))),
        },
    }
}

/// The host and window label for verifying `url` (see
/// `spec_verifier_target`).
pub fn verifier_target(url: &str) -> (r: Result<(String, String), String>)
    ensures
        match spec_verifier_target(url@) {
            Ok((h, l)) => r matches Ok((rh, rl)) && rh@ == h && rl@ == l,
            Err(e) => r matches Err(m) && m@ == e,
        },
{
    let p = match url_parts(url) {
        Ok(p) => p,
        Err(e) => return Err(e),
    };
    let h = match p.host {
        Some(h) => h,
        None => return Err("Invalid host in URL".to_string()),
    };
    let label = concat(&chars_of("cf_verifier_"), &replace_char_at(&chars_of(h.as_str()), '.', '_'));
    Ok((h, string_of(&label)))
}

/// The verifier window's title.
pub fn verifier_window_title(domain: &str) -> (r: String)
    ensures
        r@ == "防爬驗證 - "@ + domain@,
{
    string_of(&concat(&chars_of("防爬驗證 - "), &chars_of(domain)))
}

/// The page still shows the challenge: a title of the challenge page, or a
/// challenge URL.
pub open spec fn is_challenge(title: Seq<char>, url: Seq<char>) -> bool {
    text::contains(title, "Just a moment"@) || text::contains(title, "Attention Required"@)
        || text::contains(title, "Checking your browser"@) || text::contains(title, "Please wait"@)
        || text::contains(title, "请稍候"@) || text::contains(title, "验证中"@) || text::contains(
        url,
        "cf_challenge"@,
    )
}

pub fn challenge_pending(title: &str, url: &str) -> (r: bool)
    ensures
        r == is_challenge(title@, url@),
{
    let t = chars_of(title);
    contains_at(&t, &chars_of("Just a moment")) || contains_at(&t, &chars_of("Attention Required"))
        || contains_at(&t, &chars_of("Checking your browser")) || contains_at(&t, &chars_of("Please wait"))
        || contains_at(&t, &chars_of("请稍候")) || contains_at(&t, &chars_of("验证中")) || contains_at(
        &chars_of(url),
        &chars_of("cf_challenge"),
    )
}

/// A probe answered with this HTTP status confirms the clearance: a success
/// (2xx) or a redirection (3xx).
pub open spec fn probe_authorizes(status: u16) -> bool {
    200 <= status <= 399
}

pub fn probe_authorized(status: u16) -> (r: bool)
    ensures
        r == probe_authorizes(status),
{
    200 <= status && status <= 399
}

/// The headers of the probe request for a candidate clearance.
pub open spec fn spec_probe_headers(cookie: Seq<char>, ua: Seq<char>) -> Seq<(Seq<char>, Seq<char>)> {
    seq![
        ("accept"@, "text/html,application/xhtml+xml,application/xml;q=0.9,*/*;q=0.8"@),
        ("accept-language"@, accept_language_for(text::lowercase(text::trim(""@)))),
    ] + spec_cf_headers(cookie, ua)
}

pub fn probe_headers(cookie: &str, user_agent: &str) -> (r: Vec<(String, String)>)
    ensures
        headers_view(r@) == spec_probe_headers(cookie@, user_agent@),
{
    let mut out: Vec<(String, String)> = Vec::new();
    out.push(
        (
            "accept".to_string(),
            "text/html,application/xhtml+xml,application/xml;q=0.9,*/*;q=0.8".to_string(),
        ),
    );
    out.push(("accept-language".to_string(), get_accept_language_header("").to_string()));
    let rest = cf_headers(cookie, user_agent);
    let mut i: usize = 0;
    while i < rest.len()
        invariant
            i <= rest@.len(),
            out@.len() == 2 + i,
            headers_view(out@) == seq![
                ("accept"@, "text/html,application/xhtml+xml,application/xml;q=0.9,*/*;q=0.8"@),
                ("accept-language"@, accept_language_for(text::lowercase(text::trim(""@)))),
            ] + headers_view(rest@).take(i as int),
        decreases rest.len() - i,
    {
        let k = rest[i].0.clone();
        let v = rest[i].1.clone();
        assert(headers_view(rest@)[i as int] == (k@, v@));
        let ghost before = headers_view(out@);
        out.push((k, v));
        assert(headers_view(out@) =~= before.push((k@, v@)));
        assert(headers_view(rest@).take(i + 1) =~= headers_view(rest@).take(i as int).push((k@, v@)));
        i += 1;
    }
    assert(headers_view(rest@).take(i as int) =~= headers_view(rest@));
    out
}

/// What the verifier remembers between polls.
pub struct VerifierState {
    /// The clearance saved before the verification began (ignored when seen).
    pub previous: String,
    /// The last new clearance seen, kept if the user closes the window.
    pub latest_seen: Option<String>,
    /// The clearance that must stay the same to be probed.
    pub candidate: Option<String>,
    /// For how many polls in a row `candidate` was seen.
    pub stable_count: usize,
}

/// What to do after a poll.
pub enum PollAction {
    /// Poll again.
    Wait,
    /// Send a probe request with this clearance.
    Probe(String),
}

/// A clearance that is present and not blank.
pub open spec fn nonblank(o: Option<Seq<char>>) -> bool {
    o matches Some(c) && text::trim(c).len() > 0
}

pub open spec fn opt_view(o: Option<String>) -> Option<Seq<char>> {
    match o {
        Some(s) => Some(s@),
        None => None,
    }
}

impl VerifierState {
    /// The state before the first poll, given the clearance saved before.
    pub fn new(previous: &str) -> (r: Self)
        ensures
            r.previous@ == previous@,
            r.latest_seen is None,
            r.candidate is None,
            r.stable_count == 0,
    {
        VerifierState { previous: previous.to_string(), latest_seen: None, candidate: None, stable_count: 0 }
    }

    /// One poll of the window, with its title and URL and the first
    /// clearance cookie it holds. A missing or blank cookie, or the one
    /// saved before, changes nothing. A new cookie is remembered and counted
    /// (the count restarts at 1 when it differs from the candidate); it is
    /// probed once the challenge is gone and it was seen three polls in a
    /// row.
    pub fn on_poll(&mut self, title: &str, url: &str, cookie: Option<&str>) -> (r: PollAction)
        requires
            old(self).stable_count < usize::MAX,
        ensures
            r matches PollAction::Probe(p) ==> text::trim(p@).len() > 0 && p@ != old(self).previous@,
            match cookie {
                None => r is Wait && *final(self) == *old(self),
                Some(c) => if text::trim(c@).len() == 0 || c@ == old(self).previous@ {
                    r is Wait && *final(self) == *old(self)
                } else {
                    let count = if opt_view(old(self).candidate) == Some(c@) {
                        old(self).stable_count + 1
                    } else {
                        1
                    };
                    &&& final(self).previous == old(self).previous
                    &&& opt_view(final(self).latest_seen) == Some(c@)
                    &&& opt_view(final(self).candidate) == Some(c@)
                    &&& final(self).stable_count == count
                    &&& if !is_challenge(title@, url@) && count >= 3 {
                        r matches PollAction::Probe(p) && p@ == c@
                    } else {
                        r is Wait
                    }
                },
            },
    {
        let c = match cookie {
            None => return PollAction::Wait,
            Some(c) => c,
        };
        let cv = chars_of(c);
        if trim_at(&cv).len() == 0 {
            return PollAction::Wait;
        }
        if eq(&chars_of(c), &chars_of(self.previous.as_str())) {
            return PollAction::Wait;
        }
        self.latest_seen = Some(c.to_string());
        let same = match &self.candidate {
            Some(k) => eq(&chars_of(k.as_str()), &chars_of(c)),
            None => false,
        };
        if same {
            self.stable_count = self.stable_count + 1;
        } else {
            self.candidate = Some(c.to_string());
            self.stable_count = 1;
        }
        if !challenge_pending(title, url) && self.stable_count >= 3 {
            PollAction::Probe(c.to_string())
        } else {
            PollAction::Wait
        }
    }

    /// The probe's answer: true when the clearance is confirmed (save it,
    /// announce it, close the window, stop polling); otherwise the count
    /// starts over, waiting for the clearance Cloudflare issues next.
    pub fn on_probe(&mut self, status: Option<u16>) -> (done: bool)
        ensures
            done == (status matches Some(s) && probe_authorizes(s)),
            final(self).previous == old(self).previous,
            final(self).latest_seen == old(self).latest_seen,
            final(self).candidate == old(self).candidate,
            final(self).stable_count == (if done {
                old(self).stable_count
            } else {
                0
            }),
    {
        let ok = match status {
            Some(s) => probe_authorized(s),
            None => false,
        };
        if !ok {
            self.stable_count = 0;
        }
        ok
    }

    /// When polling ends without a confirmed clearance: the last new one
    /// seen, to be saved unless the domain already has a clearance; never a
    /// blank one, nor the one saved before.
    pub fn fallback(&self, already_saved: bool) -> (r: Option<String>)
        ensures
            opt_view(r) == (if already_saved || !nonblank(opt_view(self.latest_seen)) || opt_view(
                self.latest_seen,
            ) == Some(self.previous@) {
                None
            } else {
                opt_view(self.latest_seen)
            }),
            r matches Some(s) ==> text::trim(s@).len() > 0 && s@ != self.previous@,
    {
        if already_saved {
            None
        } else {
            match &self.latest_seen {
                Some(s) => {
                    let sv = chars_of(s.as_str());
                    if trim_at(&sv).len() == 0 || eq(&sv, &chars_of(self.previous.as_str())) {
                        None
                    } else {
                        Some(s.clone())
                    }
                },
                None => None,
            }
        }
    }
}

} // verus!
