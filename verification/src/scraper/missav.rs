//! MissAV: the active mirror domain, the category links and the listing
//! and search addresses.
use vstd::prelude::*;
use crate::text;
use crate::text::{
    chars_of, concat, contains_at, ends_with_at, eq, format_decimal, starts_with_at, string_of,
    trim_at, trim_char_at, trim_end_char_at,
};
use crate::pattern::{regex_replace, regex_replaced};
use crate::weburl::{form_urlencode, form_urlencoded, pairs_view, spec_url_parts, url_parts};
use crate::html::{dom_nodes_attr, nodes_attr, opt_strings_view};
use crate::scraper::Category;
use crate::scraper::listing::{append_query_params, ov, spec_append_query_params};

verus! {

/// The MissAV mirror that requests currently go to.
pub struct ActiveDomain {
    domain: String,
}

impl View for ActiveDomain {
    type V = Seq<char>;

    closed spec fn view(&self) -> Seq<char> {
        self.domain@
    }
}

impl ActiveDomain {
    /// Starts at `https://missav.ws`.
    pub fn new() -> (a: ActiveDomain)
        ensures
            a@ == "https://missav.ws"@,
    {
        ActiveDomain { domain: "https://missav.ws".to_string() }
    }
}

/// The active domain.
pub fn get_active_domain(slot: &ActiveDomain) -> (r: String)
    ensures
        r@ == slot@,
{
    slot.domain.clone()
}

/// Makes `domain` the active domain.
pub fn set_active_domain(slot: &mut ActiveDomain, domain: &str)
    ensures
        final(slot)@ == domain@,
{
    slot.domain = domain.to_string();
}


/// The fixed categories: display name and path on the domain.
pub open spec fn missav_fallback_categories() -> Seq<(Seq<char>, Seq<char>)> {
    seq![
        ("今日熱門"@, "dm296/today-hot"@),
        ("本週熱門"@, "dm170/weekly-hot"@),
        ("本月熱門"@, "dm266/monthly-hot"@),
        ("中文字幕"@, "dm278/chinese-subtitle"@),
        ("最近更新"@, "dm539/new"@),
        ("新作上市"@, "dm632/release"@),
        ("無碼流出"@, "dm816/uncensored-leak"@),
        ("SIRO"@, "dm36/siro"@),
        ("FC2"@, "dm473/fc2"@),
        ("麻豆傳媒"@, "dm63/madou"@),
        ("東京熱"@, "dm42/tokyohot"@),
        ("一本道"@, "dm4286298/1pondo"@),
    ]
}

/// A language as it goes into a path: trimmed, without surrounding slashes.
pub open spec fn clean_lang(lang: Seq<char>) -> Seq<char> {
    text::trim_char(text::trim(lang), '/')
}

/// A fixed category's path in a language: the language inserted after the
/// leading `dm<number>/` (through the regex crate's replacement, where `$`
/// in the language is expanded).
pub open spec fn lang_path(path: Seq<char>, lang: Seq<char>) -> Seq<char> {
    let c = clean_lang(lang);
    if c.len() == 0 {
        path
    } else {
        match regex_replaced("^(dm\\d+/)"@, path, "${1}"@ + c + "/"@) {
            Some(p) => p,
            None => path,
        }
    }
}

pub open spec fn categories_view(v: Seq<Category>) -> Seq<(Seq<char>, Seq<char>)> {
    v.map_values(|c: Category| (c.name@, c.url@))
}

fn fallback_table() -> (r: Vec<(&'static str, &'static str)>)
    ensures
        r@.map_values(|p: (&'static str, &'static str)| (p.0@, p.1@)) == missav_fallback_categories(),
{
    let mut v: Vec<(&'static str, &'static str)> = Vec::new();
    v.push(("今日熱門", "dm296/today-hot"));
    v.push(("本週熱門", "dm170/weekly-hot"));
    v.push(("本月熱門", "dm266/monthly-hot"));
    v.push(("中文字幕", "dm278/chinese-subtitle"));
    v.push(("最近更新", "dm539/new"));
    v.push(("新作上市", "dm632/release"));
    v.push(("無碼流出", "dm816/uncensored-leak"));
    v.push(("SIRO", "dm36/siro"));
    v.push(("FC2", "dm473/fc2"));
    v.push(("麻豆傳媒", "dm63/madou"));
    v.push(("東京熱", "dm42/tokyohot"));
    v.push(("一本道", "dm4286298/1pondo"));
    assert(v@.map_values(|p: (&'static str, &'static str)| (p.0@, p.1@)) =~= missav_fallback_categories());
    v
}

/// The fixed categories on `domain` in `lang`: `<domain>/<path>`.
pub fn get_fallback_categories(working_domain: &str, lang: &str) -> (r: Vec<Category>)
    ensures
        r@.len() == missav_fallback_categories().len(),
        forall|k: int|
            0 <= k < r@.len() ==> (#[trigger] r@[k]).name@ == missav_fallback_categories()[k].0
                && r@[k].url@ == working_domain@ + "/"@ + lang_path(missav_fallback_categories()[k].1, lang@),
{
    let table = fallback_table();
    let lv = chars_of(lang);
    let clean = trim_char_at(trim_at(&lv), '/');
    let cs = string_of(clean);
    let rep = string_of(&concat(&concat(&chars_of("${1}"), clean), &chars_of("/")));
    let mut out: Vec<Category> = Vec::new();
    let mut k: usize = 0;
    while k < table.len()
        invariant
            k <= table@.len(),
            table@.map_values(|p: (&'static str, &'static str)| (p.0@, p.1@)) == missav_fallback_categories(),
            cs@ == clean_lang(lang@),
            rep@ == "${1}"@ + clean_lang(lang@) + "/"@,
            out@.len() == k,
            forall|j: int|
                0 <= j < k ==> (#[trigger] out@[j]).name@ == missav_fallback_categories()[j].0
                    && out@[j].url@ == working_domain@ + "/"@ + lang_path(missav_fallback_categories()[j].1, lang@),
        decreases table.len() - k,
    {
        let (name, path) = table[k];
        assert((name@, path@) == missav_fallback_categories()[k as int]);
        let p: String = if cs.as_str().is_empty() {
            path.to_string()
        } else {
            match regex_replace("^(dm\\d+/)", path, rep.as_str()) {
                Some(x) => x,
                None => path.to_string(),
            }
        };
        let url = string_of(&concat(&concat(&chars_of(working_domain), &chars_of("/")), &chars_of(p.as_str())));
        out.push(Category { name: name.to_string(), url });
        k += 1;
    }
    out
}

/// The category rules: the link text to look for in an address, and the
/// category's name.
pub open spec fn missav_category_rules() -> Seq<(Seq<char>, Seq<char>)> {
    seq![
        ("today-hot"@, "今日熱門"@),
        ("weekly-hot"@, "本週熱門"@),
        ("monthly-hot"@, "本月熱門"@),
        ("chinese-subtitle"@, "中文字幕"@),
        ("new"@, "最近更新"@),
        ("release"@, "新作上市"@),
        ("uncensored-leak"@, "無碼流出"@),
        ("siro"@, "SIRO"@),
        ("fc2"@, "FC2"@),
        ("madou"@, "麻豆傳媒"@),
        ("tokyohot"@, "東京熱"@),
        ("1pondo"@, "一本道"@),
    ]
}

/// A link belongs to a category: `new` and `release` must be the last
/// segment (possibly before a query); the others appear anywhere.
pub open spec fn link_matches(href: Seq<char>, suffix: Seq<char>) -> bool {
    if suffix == "new"@ {
        text::ends_with(href, "/new"@) || text::contains(href, "/new?"@)
    } else if suffix == "release"@ {
        text::ends_with(href, "/release"@) || text::contains(href, "/release?"@)
    } else {
        text::contains(href, suffix)
    }
}

/// A category link made an address on the active domain: an absolute link
/// keeps only its path (unless it does not parse); a relative one is put
/// below the domain.
pub open spec fn normalize_link(href: Seq<char>, domain: Seq<char>) -> Seq<char> {
    if text::starts_with(href, "http"@) {
        match spec_url_parts(href) {
            Ok(p) => domain + p.path,
            Err(_) => href,
        }
    } else {
        domain + (if text::starts_with(href, "/"@) {
            seq![]
        } else {
            "/"@
        }) + href
    }
}

/// The first link (in page order) that belongs to the category.
pub open spec fn first_link(hrefs: Seq<Option<Seq<char>>>, suffix: Seq<char>) -> Option<Seq<char>>
    decreases hrefs.len(),
{
    if hrefs.len() == 0 {
        None
    } else {
        match hrefs[0] {
            Some(h) => if link_matches(h, suffix) {
                Some(h)
            } else {
                first_link(hrefs.drop_first(), suffix)
            },
            None => first_link(hrefs.drop_first(), suffix),
        }
    }
}

/// The categories found among the page's links: for each rule in order,
/// its first link, normalized.
pub open spec fn found_categories(rules: Seq<(Seq<char>, Seq<char>)>, hrefs: Seq<Option<Seq<char>>>, domain: Seq<char>) -> Seq<
    (Seq<char>, Seq<char>),
>
    decreases rules.len(),
{
    if rules.len() == 0 {
        seq![]
    } else {
        let prev = found_categories(rules.drop_last(), hrefs, domain);
        match first_link(hrefs, rules.last().0) {
            Some(h) => prev.push((rules.last().1, normalize_link(h, domain))),
            None => prev,
        }
    }
}

fn link_matches_exec(href: &str, suffix: &str) -> (r: bool)
    ensures
        r == link_matches(href@, suffix@),
{
    let h = chars_of(href);
    let s = chars_of(suffix);
    if eq(&s, &chars_of("new")) {
        ends_with_at(&h, &chars_of("/new")) || contains_at(&h, &chars_of("/new?"))
    } else if eq(&s, &chars_of("release")) {
        ends_with_at(&h, &chars_of("/release")) || contains_at(&h, &chars_of("/release?"))
    } else {
        contains_at(&h, &s)
    }
}

fn normalize_link_exec(href: &str, domain: &str) -> (r: String)
    ensures
        r@ == normalize_link(href@, domain@),
{
    let h = chars_of(href);
    if starts_with_at(&h, &chars_of("http")) {
        match url_parts(href) {
            Ok(p) => string_of(&concat(&chars_of(domain), &chars_of(p.path.as_str()))),
            Err(_) => href.to_string(),
        }
    } else {
        let sep: &str = if starts_with_at(&h, &chars_of("/")) {
            ""
        } else {
            "/"
        };
        proof {
            reveal_strlit("");
        }
        string_of(&concat(&concat(&chars_of(domain), &chars_of(sep)), &h))
    }
}

fn first_link_exec(hrefs: &Vec<Option<String>>, suffix: &str) -> (r: Option<String>)
    ensures
        ov(r) == first_link(opt_strings_view(hrefs@), suffix@),
{
    let ghost hv = opt_strings_view(hrefs@);
    let mut i: usize = 0;
    assert(hv.skip(0) =~= hv);
    while i < hrefs.len()
        invariant
            i <= hrefs@.len(),
            hv == opt_strings_view(hrefs@),
            first_link(hv, suffix@) == first_link(hv.skip(i as int), suffix@),
        decreases hrefs.len() - i,
    {
        proof {
            assert(hv.skip(i as int).drop_first() =~= hv.skip(i + 1));
            assert(hv.skip(i as int)[0] == ov(hrefs@[i as int]));
        }
        match &hrefs[i] {
            Some(h) => {
                if link_matches_exec(h.as_str(), suffix) {
                    return Some(h.clone());
                }
            },
            None => {},
        }
        i += 1;
    }
    assert(hv.skip(i as int) =~= Seq::<Option<Seq<char>>>::empty());
    None
}

fn rules_table() -> (r: Vec<(&'static str, &'static str)>)
    ensures
        r@.map_values(|p: (&'static str, &'static str)| (p.0@, p.1@)) == missav_category_rules(),
{
    let mut v: Vec<(&'static str, &'static str)> = Vec::new();
    v.push(("today-hot", "今日熱門"));
    v.push(("weekly-hot", "本週熱門"));
    v.push(("monthly-hot", "本月熱門"));
    v.push(("chinese-subtitle", "中文字幕"));
    v.push(("new", "最近更新"));
    v.push(("release", "新作上市"));
    v.push(("uncensored-leak", "無碼流出"));
    v.push(("siro", "SIRO"));
    v.push(("fc2", "FC2"));
    v.push(("madou", "麻豆傳媒"));
    v.push(("tokyohot", "東京熱"));
    v.push(("1pondo", "一本道"));
    assert(v@.map_values(|p: (&'static str, &'static str)| (p.0@, p.1@)) =~= missav_category_rules());
    v
}

/// The categories of the MissAV home page `html` served from `domain`: the
/// links found for the rules, or the fixed categories when none is found.
pub fn categories_from_home(html: &str, working_domain: &str, lang: &str) -> (r: Vec<Category>)
    ensures
        ({
            let found = found_categories(
                missav_category_rules(),
                dom_nodes_attr(html@, "a"@, "href"@),
                working_domain@,
            );
            found.len() > 0 ==> categories_view(r@) == found
        }),
        found_categories(missav_category_rules(), dom_nodes_attr(html@, "a"@, "href"@), working_domain@).len() == 0
            ==> r@.len() == missav_fallback_categories().len(),
{
    let hrefs = nodes_attr(html, "a", "href");
    let rules = rules_table();
    let ghost rv = missav_category_rules();
    let ghost hv = dom_nodes_attr(html@, "a"@, "href"@);
    let mut out: Vec<Category> = Vec::new();
    let mut k: usize = 0;
    assert(rv.take(0) =~= Seq::<(Seq<char>, Seq<char>)>::empty());
    assert(categories_view(out@) =~= Seq::<(Seq<char>, Seq<char>)>::empty());
    while k < rules.len()
        invariant
            k <= rules@.len(),
            rules@.map_values(|p: (&'static str, &'static str)| (p.0@, p.1@)) == rv,
            rv == missav_category_rules(),
            opt_strings_view(hrefs@) == hv,
            categories_view(out@) == found_categories(rv.take(k as int), hv, working_domain@),
        decreases rules.len() - k,
    {
        let (suffix, title) = rules[k];
        proof {
            assert(rv.take(k + 1).drop_last() =~= rv.take(k as int));
            assert(rv.take(k + 1).last() == (suffix@, title@));
        }
        match first_link_exec(&hrefs, suffix) {
            Some(h) => {
                let url = normalize_link_exec(h.as_str(), working_domain);
                let ghost before = categories_view(out@);
                out.push(Category { name: title.to_string(), url });
                assert(categories_view(out@) =~= before.push((title@, normalize_link(h@, working_domain@))));
            },
            None => {},
        }
        k += 1;
    }
    assert(rv.take(k as int) =~= rv);
    if out.len() == 0 {
        return get_fallback_categories(working_domain, lang);
    }
    out
}

/// The MissAV home page in a language: `<domain>/<lang>/`, or the domain.
pub fn home_url(working_domain: &str, lang: &str) -> (r: String)
    ensures
        r@ == (if clean_lang(lang@).len() == 0 {
            working_domain@
        } else {
            working_domain@ + "/"@ + clean_lang(lang@) + "/"@
        }),
{
    let lv = chars_of(lang);
    let clean = trim_char_at(trim_at(&lv), '/');
    if clean.len() == 0 {
        working_domain.to_string()
    } else {
        string_of(&concat(&concat(&concat(&chars_of(working_domain), &chars_of("/")), clean), &chars_of("/")))
    }
}

/// The referer of MissAV listing requests: the domain with one final `/`.
pub fn listing_referer(working_domain: &str) -> (r: String)
    ensures
        r@ == text::trim_end_char(working_domain@, '/') + "/"@,
{
    let d = chars_of(working_domain);
    string_of(&concat(trim_end_char_at(&d, '/'), &chars_of("/")))
}

/// The address of page `page` of a MissAV listing: `page=<page>`, then
/// `lang=<lang>` when a language is given.
pub fn list_url(target: &str, page: usize, lang: &str) -> (r: String)
    ensures
        r@ == spec_append_query_params(
            target@,
            seq![("page"@, text::decimal(page as nat))] + if lang@.len() > 0 {
                seq![("lang"@, lang@)]
            } else {
                seq![]
            },
        ),
{
    let mut params: Vec<(String, String)> = Vec::new();
    params.push(("page".to_string(), string_of(&format_decimal(page as u64))));
    let ghost first = pairs_view(params@);
    if !lang.is_empty() {
        params.push(("lang".to_string(), lang.to_string()));
        assert(pairs_view(params@) =~= first + seq![("lang"@, lang@)]);
    }
    assert(pairs_view(params@) =~= seq![("page"@, text::decimal(page as nat))] + if lang@.len() > 0 {
        seq![("lang"@, lang@)]
    } else {
        seq![]
    });
    append_query_params(target, &params)
}

/// The search page of a keyword on MissAV: `<domain>[/<lang>]/search/<keyword, form-encoded>`.
pub fn search_url(working_domain: &str, keyword: &str, lang: &str) -> (r: String)
    ensures
        r@ == working_domain@ + (if clean_lang(lang@).len() == 0 {
            seq![]
        } else {
            "/"@ + clean_lang(lang@)
        }) + "/search/"@ + form_urlencoded(vstd::utf8::encode_utf8(keyword@)),
{
    let enc = form_urlencode(keyword);
    let lv = chars_of(lang);
    let clean = trim_char_at(trim_at(&lv), '/');
    let mut v = chars_of(working_domain);
    if clean.len() > 0 {
        v = concat(&concat(&v, &chars_of("/")), clean);
    }
    v = concat(&concat(&v, &chars_of("/search/")), &chars_of(enc.as_str()));
    string_of(&v)
}

} // verus!
