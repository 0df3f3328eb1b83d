//! Listing pages of the supported sites: shared types, mirrors, request
//! headers and Cloudflare clearance lookup.
use vstd::prelude::*;
use crate::text;
use crate::text::{chars_of, concat, contains_at, eq, starts_with_at, string_of, to_lowercase_at, trim_at, trim_char_at};
use crate::commands::CfConfig;
use crate::pattern;
use crate::weburl::{spec_url_parts, url_parts};

pub mod supjav;
pub mod missav;
pub mod jable;
pub mod listing;

verus! {

/// The supported sites.
#[derive(Debug, Clone, Copy, PartialEq, Eq, Structural)]
pub enum Site {
    Jable,
    Missav,
    Supjav,
}

/// The site's name as the frontend and the configuration keys spell it.
pub open spec fn site_name(site: Site) -> Seq<char> {
    match site {
        Site::Jable => "jable"@,
        Site::Missav => "missav"@,
        Site::Supjav => "supjav"@,
    }
}

impl Site {
    /// `"jable"`, `"missav"` or `"supjav"` (the `Display` text).
    pub fn name(&self) -> (r: &'static str)
        ensures
            r@ == site_name(*self),
    {
        match self {
            Site::Jable => "jable",
            Site::Missav => "missav",
            Site::Supjav => "supjav",
        }
    }

    /// The `Display` text as a `String`.
    pub fn to_string(&self) -> (r: String)
        ensures
            r@ == site_name(*self),
    {
        self.name().to_string()
    }
}

pub open spec fn mirror_domains(site: Site) -> Seq<Seq<char>> {
    match site {
        Site::Missav => seq![
            "https://missav.ws"@,
            "https://missav.ai"@,
            "https://missav123.com"@,
            "https://missav.live"@,
        ],
        Site::Jable => seq!["https://jable.tv"@, "https://fs1.app"@],
        Site::Supjav => seq!["https://supjav.com"@],
    }
}

/// The known mirrors of a site, the preferred one first.
pub fn get_mirror_domains(site: Site) -> (r: Vec<&'static str>)
    ensures
        r@.map_values(|d: &str| d@) == mirror_domains(site),
{
    let mut v: Vec<&'static str> = Vec::new();
    match site {
        Site::Missav => {
            v.push("https://missav.ws");
            v.push("https://missav.ai");
            v.push("https://missav123.com");
            v.push("https://missav.live");
        },
        Site::Jable => {
            v.push("https://jable.tv");
            v.push("https://fs1.app");
        },
        Site::Supjav => {
            v.push("https://supjav.com");
        },
    }
    assert(v@.map_values(|d: &str| d@) =~= mirror_domains(site));
    v
}

/// One video card of a listing page.
#[derive(Debug, Clone)]
pub struct VideoInfo {
    pub title: String,
    pub url: String,
    pub image_url: String,
    pub duration: Option<String>,
    pub preview_url: Option<String>,
}

pub struct VideoInfoView {
    pub title: Seq<char>,
    pub url: Seq<char>,
    pub image_url: Seq<char>,
    pub duration: Option<Seq<char>>,
    pub preview_url: Option<Seq<char>>,
}

impl View for VideoInfo {
    type V = VideoInfoView;

    open spec fn view(&self) -> VideoInfoView {
        VideoInfoView {
            title: self.title@,
            url: self.url@,
            image_url: self.image_url@,
            duration: match self.duration {
                Some(d) => Some(d@),
                None => None,
            },
            preview_url: match self.preview_url {
                Some(p) => Some(p@),
                None => None,
            },
        }
    }
}

/// A category link.
#[derive(Debug, Clone)]
pub struct Category {
    pub name: String,
    pub url: String,
}

/// One page of a listing.
#[derive(Debug, Clone)]
pub struct VideoListResponse {
    pub videos: Vec<VideoInfo>,
    pub total_pages: usize,
}

/// A tag of the sidebar.
#[derive(Debug, Clone)]
pub struct TagItem {
    pub name: String,
    pub slug: String,
    pub url: String,
}


pub open spec fn accept_language_for(l: Seq<char>) -> Seq<char> {
    if l == "en"@ || l == "en-us"@ {
        "en-US,en;q=0.9"@
    } else if l == "ja"@ || l == "jp"@ || l == "ja-jp"@ {
        "ja-JP,ja;q=0.9,en;q=0.8"@
    } else if l == "cn"@ || l == "zh-cn"@ {
        "zh-CN,zh;q=0.9,en;q=0.8"@
    } else {
        "zh-TW,zh;q=0.9,en-US;q=0.8,en;q=0.7"@
    }
}

/// The `accept-language` header for the UI language (trimmed and
/// lower-cased); Traditional Chinese for anything unknown.
pub fn get_accept_language_header(lang: &str) -> (r: &'static str)
    ensures
        r@ == accept_language_for(text::lowercase(text::trim(lang@))),
{
    let all = chars_of(lang);
    let l = to_lowercase_at(trim_at(&all));
    if eq(&l, &chars_of("en")) || eq(&l, &chars_of("en-us")) {
        "en-US,en;q=0.9"
    } else if eq(&l, &chars_of("ja")) || eq(&l, &chars_of("jp")) || eq(&l, &chars_of("ja-jp")) {
        "ja-JP,ja;q=0.9,en;q=0.8"
    } else if eq(&l, &chars_of("cn")) || eq(&l, &chars_of("zh-cn")) {
        "zh-CN,zh;q=0.9,en;q=0.8"
    } else {
        "zh-TW,zh;q=0.9,en-US;q=0.8,en;q=0.7"
    }
}

pub open spec fn entries_view(entries: Seq<(String, CfConfig)>) -> Seq<(Seq<char>, Seq<char>, Seq<char>)> {
    entries.map_values(|e: (String, CfConfig)| (e.0@, e.1.cf_clearance@, e.1.user_agent@))
}

/// The clearance of the first entry whose domain (lower-cased) contains the
/// site's name.
pub open spec fn cf_for_site(entries: Seq<(Seq<char>, Seq<char>, Seq<char>)>, site: Seq<char>) -> (
    Seq<char>,
    Seq<char>,
)
    decreases entries.len(),
{
    if entries.len() == 0 {
        (Seq::empty(), Seq::empty())
    } else if text::contains(text::lowercase(entries[0].0), site) {
        (entries[0].1, entries[0].2)
    } else {
        cf_for_site(entries.drop_first(), site)
    }
}

/// The saved clearance `(cf_clearance, user_agent)` for a site: the first
/// configuration, in the order given, whose domain names the site; empty
/// strings when there is none. The caller passes the configurations in the
/// order its map yields them.
pub fn get_cf_headers_for_site(configs: &Vec<(String, CfConfig)>, site: Site) -> (r: (String, String))
    ensures
        (r.0@, r.1@) == cf_for_site(entries_view(configs@), site_name(site)),
{
    let ghost ev = entries_view(configs@);
    let site_str = chars_of(site.name());
    let mut i: usize = 0;
    assert(ev.skip(0) =~= ev);
    while i < configs.len()
        invariant
            i <= configs.len(),
            ev == entries_view(configs@),
            site_str@ == site_name(site),
            cf_for_site(ev, site_name(site)) == cf_for_site(ev.skip(i as int), site_name(site)),
        decreases configs.len() - i,
    {
        proof {
            assert(ev.skip(i as int).drop_first() =~= ev.skip(i + 1));
            assert(ev.skip(i as int)[0] == ev[i as int]);
        }
        let (domain, cfg) = &configs[i];
        if contains_at(&to_lowercase_at(&chars_of(domain.as_str())), &site_str) {
            return (cfg.cf_clearance.clone(), cfg.user_agent.clone());
        }
        i += 1;
    }
    assert(ev.skip(i as int) =~= Seq::<(Seq<char>, Seq<char>, Seq<char>)>::empty());
    (String::new(), String::new())
}


// ---------------------------------------------------------------------------
// Cloudflare clearance headers
// ---------------------------------------------------------------------------

/// The cookie that carries a clearance: group 1 of
/// `cf_clearance=([^;,\s]+)` when the saved text is a whole cookie string,
/// else the text itself;
/// trimmed of white space and quotes.
pub open spec fn clearance_cookie(cf: Seq<char>) -> Seq<char> {
    let t = text::trim(cf);
    let token = if text::contains(t, "cf_clearance="@) {
        match pattern::group1("cf_clearance=([^;,\\s]+)"@, t) {
            Some(v) => v,
            None => t,
        }
    } else {
        t
    };
    "cf_clearance="@ + text::trim_char(text::trim(token), '"')
}

/// The headers that present a clearance: the user agent (trimmed), when
/// there is one, then the clearance cookie, when there is one.
pub open spec fn spec_cf_headers(cf: Seq<char>, ua: Seq<char>) -> Seq<(Seq<char>, Seq<char>)> {
    (if text::trim(ua).len() > 0 {
        seq![("user-agent"@, text::trim(ua))]
    } else {
        seq![]
    }) + (if text::trim(cf).len() > 0 {
        seq![("cookie"@, clearance_cookie(cf))]
    } else {
        seq![]
    })
}

pub open spec fn headers_view(h: Seq<(String, String)>) -> Seq<(Seq<char>, Seq<char>)> {
    h.map_values(|p: (String, String)| (p.0@, p.1@))
}

/// The clearance cookie for a saved clearance (see `clearance_cookie`).
pub fn clearance_cookie_of(cf: &str) -> (r: String)
    ensures
        r@ == clearance_cookie(cf@),
{
    let all = chars_of(cf);
    let t = trim_at(&all);
    let token: Vec<char> = if contains_at(t, &chars_of("cf_clearance=")) {
        match pattern::group1_exec("cf_clearance=([^;,\\s]+)", string_of(t).as_str()) {
            Some(v) => chars_of(v.as_str()),
            None => crate::text::to_vec(t),
        }
    } else {
        crate::text::to_vec(t)
    };
    let clean = trim_char_at(trim_at(&token), '"');
    string_of(&concat(&chars_of("cf_clearance="), clean))
}

/// The headers a listing request carries for a saved clearance and user
/// agent (see `spec_cf_headers`).
pub fn cf_headers(cf_clearance: &str, user_agent: &str) -> (r: Vec<(String, String)>)
    ensures
        headers_view(r@) == spec_cf_headers(cf_clearance@, user_agent@),
{
    let mut out: Vec<(String, String)> = Vec::new();
    let uav = chars_of(user_agent);
    let ua = trim_at(&uav);
    if ua.len() > 0 {
        out.push(("user-agent".to_string(), string_of(ua)));
    }
    let cfv = chars_of(cf_clearance);
    let cf = trim_at(&cfv);
    let ghost first = headers_view(out@);
    if cf.len() > 0 {
        out.push(("cookie".to_string(), clearance_cookie_of(cf_clearance)));
        assert(headers_view(out@) =~= first + seq![("cookie"@, clearance_cookie(cf_clearance@))]);
    }
    assert(headers_view(out@) =~= spec_cf_headers(cf_clearance@, user_agent@));
    out
}

/// The clearance of the first entry whose domain the URL's host contains.
pub open spec fn cf_for_host(entries: Seq<(Seq<char>, Seq<char>, Seq<char>)>, host: Seq<char>) -> (
    Seq<char>,
    Seq<char>,
)
    decreases entries.len(),
{
    if entries.len() == 0 {
        (Seq::empty(), Seq::empty())
    } else if text::contains(host, entries[0].0) {
        (entries[0].1, entries[0].2)
    } else {
        cf_for_host(entries.drop_first(), host)
    }
}

pub open spec fn spec_cf_for_url(entries: Seq<(Seq<char>, Seq<char>, Seq<char>)>, url: Seq<char>) -> (
    Seq<char>,
    Seq<char>,
) {
    match spec_url_parts(url) {
        Ok(p) => match p.host {
            Some(h) => cf_for_host(entries, h),
            None => (Seq::empty(), Seq::empty()),
        },
        Err(_) => (Seq::empty(), Seq::empty()),
    }
}

/// The saved clearance `(cf_clearance, user_agent)` for a URL: the first
/// configuration, in the order given, whose domain the URL's host contains;
/// empty strings when there is none or the URL has no host.
pub fn get_cf_headers_for_url(configs: &Vec<(String, CfConfig)>, target_url: &str) -> (r: (String, String))
    ensures
        (r.0@, r.1@) == spec_cf_for_url(entries_view(configs@), target_url@),
{
    let host = match url_parts(target_url) {
        Ok(p) => match p.host {
            Some(h) => h,
            None => return (String::new(), String::new()),
        },
        Err(_) => return (String::new(), String::new()),
    };
    let hv = chars_of(host.as_str());
    let ghost ev = entries_view(configs@);
    let mut i: usize = 0;
    assert(ev.skip(0) =~= ev);
    while i < configs.len()
        invariant
            i <= configs.len(),
            ev == entries_view(configs@),
            hv@ == host@,
            spec_cf_for_url(ev, target_url@) == cf_for_host(ev, host@),
            cf_for_host(ev, host@) == cf_for_host(ev.skip(i as int), host@),
        decreases configs.len() - i,
    {
        proof {
            assert(ev.skip(i as int).drop_first() =~= ev.skip(i + 1));
            assert(ev.skip(i as int)[0] == ev[i as int]);
        }
        let (domain, cfg) = &configs[i];
        if contains_at(&hv, &chars_of(domain.as_str())) {
            return (cfg.cf_clearance.clone(), cfg.user_agent.clone());
        }
        i += 1;
    }
    assert(ev.skip(i as int) =~= Seq::<(Seq<char>, Seq<char>, Seq<char>)>::empty());
    (String::new(), String::new())
}


// ---------------------------------------------------------------------------
// Mirror discovery and preview requests
// ---------------------------------------------------------------------------

/// A mirror as an address: `https://` is put in front of a bare domain.
pub open spec fn spec_domain_url(d: Seq<char>) -> Seq<char> {
    if !text::starts_with(d, "http://"@) && !text::starts_with(d, "https://"@) {
        "https://"@ + d
    } else {
        d
    }
}

pub fn domain_url(domain: &str) -> (r: String)
    ensures
        r@ == spec_domain_url(domain@),
{
    let d = chars_of(domain);
    if !starts_with_at(&d, &chars_of("http://")) && !starts_with_at(&d, &chars_of("https://")) {
        string_of(&concat(&chars_of("https://"), &d))
    } else {
        domain.to_string()
    }
}

/// A mirror that answers with a success or with 403 (a Cloudflare
/// challenge) is up.
pub open spec fn spec_mirror_up(status: u16) -> bool {
    (200 <= status <= 299) || status == 403
}

pub fn mirror_up(status: u16) -> (r: bool)
    ensures
        r == spec_mirror_up(status),
{
    (200 <= status && status <= 299) || status == 403
}

/// The mirror to use when none answers: the first one (as an address), or
/// nothing without mirrors.
pub fn fallback_domain(candidates: &Vec<&str>) -> (r: String)
    ensures
        r@ == (if candidates@.len() == 0 {
            seq![]
        } else {
            spec_domain_url(candidates@[0]@)
        }),
{
    if candidates.len() == 0 {
        String::new()
    } else {
        domain_url(candidates[0])
    }
}

/// The headers of a request for a card's preview clip on `site` (MissAV's
/// referer being its active domain).
pub open spec fn spec_preview_headers(site: Site, missav_domain: Seq<char>) -> Seq<(Seq<char>, Seq<char>)> {
    seq![
        ("User-Agent"@, "Mozilla/5.0 (Macintosh; Intel Mac OS X 10_15_7) AppleWebKit/537.36 (KHTML, like Gecko) Chrome/120.0.0.0 Safari/537.36"@),
        ("Accept"@, "*/*"@),
        ("Referer"@, match site {
            Site::Jable => "https://jable.tv/"@,
            Site::Missav => missav_domain + "/"@,
            Site::Supjav => "https://supjav.com/"@,
        }),
    ]
}

pub fn preview_headers(site: Site, missav_domain: &str) -> (r: Vec<(String, String)>)
    ensures
        headers_view(r@) == spec_preview_headers(site, missav_domain@),
{
    let mut v: Vec<(String, String)> = Vec::new();
    v.push(
        (
            "User-Agent".to_string(),
            "Mozilla/5.0 (Macintosh; Intel Mac OS X 10_15_7) AppleWebKit/537.36 (KHTML, like Gecko) Chrome/120.0.0.0 Safari/537.36".to_string(),
        ),
    );
    v.push(("Accept".to_string(), "*/*".to_string()));
    let referer = match site {
        Site::Jable => "https://jable.tv/".to_string(),
        Site::Missav => string_of(&concat(&chars_of(missav_domain), &chars_of("/"))),
        Site::Supjav => "https://supjav.com/".to_string(),
    };
    v.push(("Referer".to_string(), referer));
    assert(headers_view(v@) =~= spec_preview_headers(site, missav_domain@));
    v
}

} // verus!
