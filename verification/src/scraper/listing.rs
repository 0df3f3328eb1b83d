//! Listing pages: what the three sites' listing pages are read into, once
//! the HTML has been queried (see `crate::html`): the video cards and the
//! number of pages.
use vstd::prelude::*;
use crate::text;
use crate::text::{chars_of, concat, contains_at, rfind_char_at, split_char_at, starts_with_at, string_of, trim_at, trim_end_char_at};
use crate::pattern;
use crate::weburl::{spec_url_join, url_join};
use crate::html::{
    card_attr, card_attr2, card_count, card_text, card_text2, dom_card_attr, dom_card_attr2,
    dom_card_count, dom_card_text, dom_card_text2, dom_count, dom_nodes_attr, dom_nodes_text,
    dom_sub_text, nodes_attr, nodes_text, opt_strings_view, select_count, select_sub_text,
    strings_view,
};
use crate::weburl::{spec_url_with_pairs, url_with_pairs, pairs_view};
use crate::scraper::{VideoInfo, VideoInfoView, VideoListResponse};

verus! {

// ---------------------------------------------------------------------------
// Shared pieces
// ---------------------------------------------------------------------------

/// The page is Cloudflare's challenge rather than the listing.
pub open spec fn spec_is_challenge_page(html: Seq<char>) -> bool {
    text::contains(html, "Just a moment..."@) || text::contains(html, "cf-challenge"@) || (
    text::contains(html, "cloudflare"@) && text::contains(html, "checking your browser"@))
}

pub fn is_challenge_page(html: &str) -> (r: bool)
    ensures
        r == spec_is_challenge_page(html@),
{
    let h = chars_of(html);
    contains_at(&h, &chars_of("Just a moment...")) || contains_at(&h, &chars_of("cf-challenge")) || (
    contains_at(&h, &chars_of("cloudflare")) && contains_at(&h, &chars_of("checking your browser")))
}

/// The page number a pagination link names after `lit` (such as
/// `page=`), when it is a number.
pub open spec fn page_in_href(href: Option<Seq<char>>, lit: Seq<char>) -> Option<nat> {
    match href {
        Some(h) => match pattern::group1(lit + "(\\d+)"@, h) {
            Some(d) => text::parse_bounded(d, usize::MAX as nat),
            None => None,
        },
        None => None,
    }
}

/// The largest page number so far after one pagination link: the number in
/// its address, then the number that is its text.
pub open spec fn page_step(m: nat, href: Option<Seq<char>>, txt: Seq<char>, lit: Seq<char>) -> nat {
    let m1 = match page_in_href(href, lit) {
        Some(p) => if p > m {
            p
        } else {
            m
        },
        None => m,
    };
    match text::parse_bounded(text::trim(txt), usize::MAX as nat) {
        Some(p) => if p > m1 {
            p
        } else {
            m1
        },
        None => m1,
    }
}

/// The largest page number that the pagination links name, at least `m`.
pub open spec fn max_page(m: nat, hrefs: Seq<Option<Seq<char>>>, texts: Seq<Seq<char>>, lit: Seq<char>) -> nat
    decreases hrefs.len(),
{
    if hrefs.len() == 0 {
        m
    } else {
        page_step(
            max_page(m, hrefs.drop_last(), texts.drop_last(), lit),
            hrefs.last(),
            texts[hrefs.len() - 1],
            lit,
        )
    }
}

proof fn lemma_max_page_bounded(m: nat, hrefs: Seq<Option<Seq<char>>>, texts: Seq<Seq<char>>, lit: Seq<char>)
    requires
        m <= usize::MAX,
    ensures
        m <= max_page(m, hrefs, texts, lit) <= usize::MAX,
    decreases hrefs.len(),
{
    if hrefs.len() > 0 {
        lemma_max_page_bounded(m, hrefs.drop_last(), texts.drop_last(), lit);
    }
}

/// The page count read from pagination links is the largest page number
/// they name, in an address (after `lit`) or as their text, and at least
/// the starting value; it is one of those numbers.
pub proof fn law_max_page_is_largest(m: nat, hrefs: Seq<Option<Seq<char>>>, texts: Seq<Seq<char>>, lit: Seq<char>)
    requires
        hrefs.len() == texts.len(),
    ensures
        max_page(m, hrefs, texts, lit) >= m,
        forall|k: int| 0 <= k < hrefs.len() ==> (page_in_href(#[trigger] hrefs[k], lit) matches Some(p) ==> max_page(m, hrefs, texts, lit) >= p),
        forall|k: int| 0 <= k < texts.len() ==> (text::parse_bounded(text::trim(#[trigger] texts[k]), usize::MAX as nat) matches Some(p)
            ==> max_page(m, hrefs, texts, lit) >= p),
        max_page(m, hrefs, texts, lit) == m || exists|k: int| 0 <= k < hrefs.len() && (page_in_href(#[trigger] hrefs[k], lit) == Some(
            max_page(m, hrefs, texts, lit),
        ) || text::parse_bounded(text::trim(texts[k]), usize::MAX as nat) == Some(max_page(m, hrefs, texts, lit))),
    decreases hrefs.len(),
{
    if hrefs.len() > 0 {
        let h = hrefs.drop_last();
        let t = texts.drop_last();
        law_max_page_is_largest(m, h, t, lit);
        let r = max_page(m, hrefs, texts, lit);
        let n = hrefs.len() - 1;
        assert forall|k: int| 0 <= k < hrefs.len() implies (page_in_href(#[trigger] hrefs[k], lit) matches Some(p) ==> r >= p) by {
            if k < n {
                assert(hrefs[k] == h[k]);
            }
        }
        assert forall|k: int| 0 <= k < texts.len() implies (text::parse_bounded(text::trim(#[trigger] texts[k]), usize::MAX as nat) matches Some(p)
            ==> r >= p) by {
            if k < n {
                assert(texts[k] == t[k]);
            }
        }
        let r0 = max_page(m, h, t, lit);
        if r != r0 {
            assert(page_in_href(hrefs[n], lit) == Some(r) || text::parse_bounded(text::trim(texts[n]), usize::MAX as nat) == Some(r));
        } else if r0 != m {
            let k = choose|k: int| 0 <= k < h.len() && (page_in_href(#[trigger] h[k], lit) == Some(r0) || text::parse_bounded(text::trim(t[k]), usize::MAX as nat) == Some(r0));
            assert(hrefs[k] == h[k] && texts[k] == t[k]);
        }
    }
}

/// A listing of `n` videos, 24 to a page, takes the fewest pages that hold
/// them all.
pub proof fn law_pages_for(n: nat)
    ensures
        n <= 24 * pages_for(n),
        24 * pages_for(n) < n + 24,
{
    assert(n == 24 * (n / 24) + n % 24 && n % 24 < 24) by (nonlinear_arith);
}

/// A Jable listing counts at least as many pages as the page it shows.
pub proof fn law_jable_pages_cover_page(html: Seq<char>, page: usize, lang: Seq<char>)
    ensures
        spec_jable_listing(html, page, lang).1 >= page,
{
}

/// The largest page number named by the links (their `href` and text),
/// at least `start`.
pub fn max_page_number(start: usize, hrefs: &Vec<Option<String>>, texts: &Vec<String>, lit: &str) -> (r: usize)
    requires
        hrefs@.len() == texts@.len(),
    ensures
        r == max_page(start as nat, opt_strings_view(hrefs@), strings_view(texts@), lit@),
{
    let ghost hv = opt_strings_view(hrefs@);
    let ghost tv = strings_view(texts@);
    let pat = string_of(&concat(&chars_of(lit), &chars_of("(\\d+)")));
    let mut m = start;
    let mut i: usize = 0;
    assert(hv.take(0) =~= Seq::<Option<Seq<char>>>::empty());
    while i < hrefs.len()
        invariant
            i <= hrefs@.len(),
            hrefs@.len() == texts@.len(),
            hv == opt_strings_view(hrefs@),
            tv == strings_view(texts@),
            pat@ == lit@ + "(\\d+)"@,
            m as nat == max_page(start as nat, hv.take(i as int), tv.take(i as int), lit@),
        decreases hrefs.len() - i,
    {
        proof {
            assert(hv.take(i + 1).drop_last() =~= hv.take(i as int));
            assert(tv.take(i + 1).drop_last() =~= tv.take(i as int));
            lemma_max_page_bounded(start as nat, hv.take(i as int), tv.take(i as int), lit@);
        }
        match &hrefs[i] {
            Some(h) => {
                match pattern::group1_exec(pat.as_str(), h.as_str()) {
                    Some(d) => {
                        match crate::text::parse_unsigned(&chars_of(d.as_str()), usize::MAX as u64) {
                            Some(p) => {
                                if p as usize > m {
                                    m = p as usize;
                                }
                            },
                            None => {},
                        }
                    },
                    None => {},
                }
            },
            None => {},
        }
        let tc = chars_of(texts[i].as_str());
        match crate::text::parse_unsigned(trim_at(&tc), usize::MAX as u64) {
            Some(p) => {
                if p as usize > m {
                    m = p as usize;
                }
            },
            None => {},
        }
        i += 1;
    }
    assert(hv.take(i as int) =~= hv);
    assert(tv.take(i as int) =~= tv);
    m
}

pub open spec fn or_default(o: Option<Seq<char>>) -> Seq<char> {
    match o {
        Some(s) => s,
        None => seq![],
    }
}

pub open spec fn first_some(a: Option<Seq<char>>, b: Option<Seq<char>>) -> Option<Seq<char>> {
    match a {
        Some(x) => Some(x),
        None => b,
    }
}

/// Some video already listed has this URL.
pub open spec fn listed(videos: Seq<VideoInfoView>, url: Seq<char>) -> bool {
    exists|j: int| 0 <= j < videos.len() && (#[trigger] videos[j]).url == url
}

fn is_listed(videos: &Vec<VideoInfo>, url: &str) -> (r: bool)
    ensures
        r == listed(videos@.map_values(|v: VideoInfo| v@), url@),
{
    let ghost vv = videos@.map_values(|v: VideoInfo| v@);
    let u = chars_of(url);
    let mut j: usize = 0;
    while j < videos.len()
        invariant
            j <= videos@.len(),
            vv == videos@.map_values(|v: VideoInfo| v@),
            u@ == url@,
            forall|k: int| 0 <= k < j ==> (#[trigger] vv[k]).url != url@,
        decreases videos.len() - j,
    {
        assert(vv[j as int] == videos@[j as int]@);
        if text::eq(&chars_of(videos[j].url.as_str()), &u) {
            return true;
        }
        j += 1;
    }
    false
}

fn opt_to_string(o: &Option<String>) -> (r: String)
    ensures
        r@ == or_default(match o {
            Some(s) => Some(s@),
            None => None,
        }),
{
    match o {
        Some(s) => s.clone(),
        None => String::new(),
    }
}

fn has_prefix(s: &str, p: &str) -> (r: bool)
    ensures
        r == text::starts_with(s@, p@),
{
    starts_with_at(&chars_of(s), &chars_of(p))
}

fn join_str(a: &str, b: &str) -> (r: String)
    ensures
        r@ == a@ + b@,
{
    string_of(&concat(&chars_of(a), &chars_of(b)))
}

// ---------------------------------------------------------------------------
// SupJav
// ---------------------------------------------------------------------------

/// What a SupJav card (`div.post`) shows, as read from the page.
pub struct SupjavCardView {
    /// How many `.html` links it holds.
    pub links: usize,
    pub href: Option<Seq<char>>,
    pub title_attr: Option<Seq<char>>,
    pub link_text: Seq<char>,
    pub img_original: Option<Seq<char>>,
    pub img_data_src: Option<Seq<char>>,
    pub img_src: Option<Seq<char>>,
}

/// The card's image: the first of its lazy-load and plain sources, dropped
/// when inline (`data:`), made absolute on supjav.com.
pub open spec fn supjav_image(c: SupjavCardView) -> Seq<char> {
    let raw = or_default(first_some(c.img_original, first_some(c.img_data_src, c.img_src)));
    let img = if text::starts_with(raw, "data:"@) {
        seq![]
    } else {
        raw
    };
    if img.len() > 0 && !text::starts_with(img, "http"@) {
        "https://supjav.com"@ + img
    } else {
        img
    }
}

/// The videos after one more SupJav card: a card without a `.html` link,
/// one already listed or one without a title is passed over; a link that
/// does not resolve fails the page.
pub open spec fn supjav_step(acc: Result<Seq<VideoInfoView>, Seq<char>>, c: SupjavCardView) -> Result<
    Seq<VideoInfoView>,
    Seq<char>,
> {
    match acc {
        Err(e) => Err(e),
        Ok(videos) => {
            let href = or_default(c.href);
            if c.links == 0 || href.len() == 0 {
                Ok(videos)
            } else {
                let url = if text::starts_with(href, "http"@) {
                    Ok(href)
                } else {
                    spec_url_join("https://supjav.com/"@, href)
                };
                match url {
                    Err(e) => Err(e),
                    Ok(u) => {
                        let t0 = or_default(c.title_attr);
                        let title = if t0.len() == 0 {
                            text::trim(c.link_text)
                        } else {
                            t0
                        };
                        if listed(videos, u) || title.len() == 0 {
                            Ok(videos)
                        } else {
                            Ok(
                                videos.push(
                                    VideoInfoView {
                                        title,
                                        url: u,
                                        image_url: supjav_image(c),
                                        duration: None,
                                        preview_url: None,
                                    },
                                ),
                            )
                        }
                    },
                }
            }
        },
    }
}

pub open spec fn supjav_videos(cards: Seq<SupjavCardView>) -> Result<Seq<VideoInfoView>, Seq<char>>
    decreases cards.len(),
{
    if cards.len() == 0 {
        Ok(seq![])
    } else {
        supjav_step(supjav_videos(cards.drop_last()), cards.last())
    }
}

/// The cards of a SupJav listing page, as `dom_query` reads them.
pub open spec fn supjav_cards_of(html: Seq<char>) -> Seq<SupjavCardView> {
    let links = dom_card_count(html, "div.post"@, "a[href*=\".html\"]"@);
    let hrefs = dom_card_attr(html, "div.post"@, "a[href*=\".html\"]"@, "href"@);
    let titles = dom_card_attr(html, "div.post"@, "a[href*=\".html\"]"@, "title"@);
    let texts = dom_card_text(html, "div.post"@, "a[href*=\".html\"]"@);
    let orig = dom_card_attr(html, "div.post"@, "img"@, "data-original"@);
    let dsrc = dom_card_attr(html, "div.post"@, "img"@, "data-src"@);
    let src = dom_card_attr(html, "div.post"@, "img"@, "src"@);
    Seq::new(
        dom_count(html, "div.post"@),
        |i: int|
            SupjavCardView {
                links: links[i],
                href: hrefs[i],
                title_attr: titles[i],
                link_text: texts[i],
                img_original: orig[i],
                img_data_src: dsrc[i],
                img_src: src[i],
            },
    )
}

/// The listing of a SupJav page: the videos of its cards, and the number of
/// pages its pagination names (at least the page asked for).
pub open spec fn spec_supjav_listing(html: Seq<char>, page: usize) -> Result<(Seq<VideoInfoView>, nat), Seq<char>> {
    match supjav_videos(supjav_cards_of(html)) {
        Err(e) => Err(e),
        Ok(videos) => {
            let m = max_page(
                1,
                dom_nodes_attr(html, "a[href*=\"/page/\"], a.page-numbers"@, "href"@),
                dom_nodes_text(html, "a[href*=\"/page/\"], a.page-numbers"@),
                "/page/"@,
            );
            Ok((videos, if m < page { page as nat } else { m }))
        },
    }
}

fn first_some_exec(a: &Option<String>, b: &Option<String>) -> (r: Option<String>)
    ensures
        (match r {
            Some(s) => Some(s@),
            None => None::<Seq<char>>,
        }) == first_some(
            match a {
                Some(s) => Some(s@),
                None => None,
            },
            match b {
                Some(s) => Some(s@),
                None => None,
            },
        ),
{
    match a {
        Some(x) => Some(x.clone()),
        None => match b {
            Some(y) => Some(y.clone()),
            None => None,
        },
    }
}

pub open spec fn ov(o: Option<String>) -> Option<Seq<char>> {
    match o {
        Some(s) => Some(s@),
        None => None,
    }
}

proof fn lemma_supjav_videos_distinct(cards: Seq<SupjavCardView>)
    ensures
        supjav_videos(cards) matches Ok(v) ==> forall|j: int, k: int|
            0 <= j < k < v.len() ==> (#[trigger] v[j]).url != (#[trigger] v[k]).url,
    decreases cards.len(),
{
    if cards.len() > 0 {
        lemma_supjav_videos_distinct(cards.drop_last());
        if let Ok(prev) = supjav_videos(cards.drop_last()) {
            if let Ok(v) = supjav_videos(cards) {
                if v.len() > prev.len() {
                    assert(!listed(prev, v.last().url));
                    assert forall|j: int, k: int| 0 <= j < k < v.len() implies (#[trigger] v[j]).url != (#[trigger] v[k]).url by {
                        assert(v[j] == prev[j]);
                        if k < v.len() - 1 {
                            assert(v[k] == prev[k]);
                        }
                    }
                } else {
                    assert(v == prev);
                }
            }
        }
    }
}

/// A SupJav listing lists each video once: pairwise distinct URLs.
pub proof fn law_supjav_listing_distinct(html: Seq<char>, page: usize)
    ensures
        spec_supjav_listing(html, page) matches Ok((videos, _)) ==> forall|j: int, k: int|
            0 <= j < k < videos.len() ==> (#[trigger] videos[j]).url != (#[trigger] videos[k]).url,
{
    lemma_supjav_videos_distinct(supjav_cards_of(html));
}

/// Reads a SupJav listing page (see `spec_supjav_listing`).
pub fn parse_supjav_listing(html: &str, page: usize) -> (r: Result<VideoListResponse, String>)
    ensures
        match spec_supjav_listing(html@, page) {
            Ok((videos, total)) => r matches Ok(resp) && resp.videos@.map_values(|v: VideoInfo| v@)
                == videos && resp.total_pages == total,
            Err(e) => r matches Err(m) && m@ == e,
        },
{
    let links = card_count(html, "div.post", "a[href*=\".html\"]");
    let hrefs = card_attr(html, "div.post", "a[href*=\".html\"]", "href");
    let titles = card_attr(html, "div.post", "a[href*=\".html\"]", "title");
    let texts = card_text(html, "div.post", "a[href*=\".html\"]");
    let orig = card_attr(html, "div.post", "img", "data-original");
    let dsrc = card_attr(html, "div.post", "img", "data-src");
    let src = card_attr(html, "div.post", "img", "src");
    let ghost cards = supjav_cards_of(html@);
    let n = links.len();
    let mut videos: Vec<VideoInfo> = Vec::new();
    let mut i: usize = 0;
    assert(cards.take(0) =~= Seq::<SupjavCardView>::empty());
    assert(videos@.map_values(|v: VideoInfo| v@) =~= Seq::<VideoInfoView>::empty());
    while i < n
        invariant
            i <= n,
            n == cards.len(),
            cards == supjav_cards_of(html@),
            links@ == dom_card_count(html@, "div.post"@, "a[href*=\".html\"]"@),
            opt_strings_view(hrefs@) == dom_card_attr(html@, "div.post"@, "a[href*=\".html\"]"@, "href"@),
            opt_strings_view(titles@) == dom_card_attr(html@, "div.post"@, "a[href*=\".html\"]"@, "title"@),
            strings_view(texts@) == dom_card_text(html@, "div.post"@, "a[href*=\".html\"]"@),
            opt_strings_view(orig@) == dom_card_attr(html@, "div.post"@, "img"@, "data-original"@),
            opt_strings_view(dsrc@) == dom_card_attr(html@, "div.post"@, "img"@, "data-src"@),
            opt_strings_view(src@) == dom_card_attr(html@, "div.post"@, "img"@, "src"@),
            n == links@.len(),
            n == hrefs@.len(),
            n == titles@.len(),
            n == texts@.len(),
            n == orig@.len(),
            n == dsrc@.len(),
            n == src@.len(),
            supjav_videos(cards.take(i as int)) == Ok::<Seq<VideoInfoView>, Seq<char>>(
                videos@.map_values(|v: VideoInfo| v@),
            ),
        decreases n - i,
    {
        let ghost c = cards[i as int];
        proof {
            assert(cards.take(i + 1).drop_last() =~= cards.take(i as int));
            assert(cards.take(i + 1).last() == c);
            assert(c.links == links@[i as int]);
            assert(c.href == ov(hrefs@[i as int]));
            assert(c.title_attr == ov(titles@[i as int]));
            assert(c.link_text == texts@[i as int]@);
            assert(c.img_original == ov(orig@[i as int]));
            assert(c.img_data_src == ov(dsrc@[i as int]));
            assert(c.img_src == ov(src@[i as int]));
        }
        let href = opt_to_string(&hrefs[i]);
        if links[i] == 0 || href.as_str().is_empty() {
            i += 1;
            continue;
        }
        let url = if has_prefix(href.as_str(), "http") {
            href
        } else {
            match url_join("https://supjav.com/", href.as_str()) {
                Ok(u) => u,
                Err(e) => {
                    proof {
                        lemma_supjav_err_stays(cards, i as int + 1);
                        assert(cards.take(n as int) =~= cards);
                    }
                    return Err(e);
                },
            }
        };
        let t0 = opt_to_string(&titles[i]);
        let title = if t0.as_str().is_empty() {
            let tv = chars_of(texts[i].as_str());
            string_of(trim_at(&tv))
        } else {
            t0
        };
        if is_listed(&videos, url.as_str()) || title.as_str().is_empty() {
            i += 1;
            continue;
        }
        let raw = opt_to_string(&first_some_exec(&orig[i], &first_some_exec(&dsrc[i], &src[i])));
        let img = if has_prefix(raw.as_str(), "data:") {
            String::new()
        } else {
            raw
        };
        let image_url = if !img.as_str().is_empty() && !has_prefix(img.as_str(), "http") {
            join_str("https://supjav.com", img.as_str())
        } else {
            img
        };
        let ghost before = videos@.map_values(|v: VideoInfo| v@);
        videos.push(VideoInfo { title, url, image_url, duration: None, preview_url: None });
        assert(videos@.map_values(|v: VideoInfo| v@) =~= before.push(videos@[videos@.len() - 1]@));
        i += 1;
    }
    assert(cards.take(n as int) =~= cards);
    let phrefs = nodes_attr(html, "a[href*=\"/page/\"], a.page-numbers", "href");
    let ptexts = nodes_text(html, "a[href*=\"/page/\"], a.page-numbers");
    let m = max_page_number(1, &phrefs, &ptexts, "/page/");
    let total = if m < page {
        page
    } else {
        m
    };
    Ok(VideoListResponse { videos, total_pages: total })
}

proof fn lemma_supjav_err_stays(cards: Seq<SupjavCardView>, k: int)
    requires
        0 <= k <= cards.len(),
        supjav_videos(cards.take(k)) is Err,
    ensures
        supjav_videos(cards) == supjav_videos(cards.take(k)),
    decreases cards.len() - k,
{
    if k < cards.len() {
        assert(cards.take(k + 1).drop_last() =~= cards.take(k));
        lemma_supjav_err_stays(cards, k + 1);
    } else {
        assert(cards.take(k) =~= cards);
    }
}


// ---------------------------------------------------------------------------
// Query parameters
// ---------------------------------------------------------------------------

/// A listing URL in a language: unchanged without a language or when it
/// already names one (or does not parse); else with `lang=<lang>` appended.
pub open spec fn spec_with_lang(url: Seq<char>, lang: Seq<char>) -> Seq<char> {
    if lang.len() == 0 || text::contains(url, "lang="@) {
        url
    } else {
        match spec_url_with_pairs(url, seq![("lang"@, lang)]) {
            Ok(u) => u,
            Err(_) => url,
        }
    }
}

/// The URL in the given language (see `spec_with_lang`).
pub fn with_lang(url: &str, lang: &str) -> (r: String)
    ensures
        r@ == spec_with_lang(url@, lang@),
{
    if lang.is_empty() || contains_at(&chars_of(url), &chars_of("lang=")) {
        return url.to_string();
    }
    let mut pairs: Vec<(String, String)> = Vec::new();
    pairs.push(("lang".to_string(), lang.to_string()));
    assert(pairs_view(pairs@) =~= seq![("lang"@, lang@)]);
    match url_with_pairs(url, &pairs) {
        Ok(u) => u,
        Err(_) => url.to_string(),
    }
}

pub open spec fn nonempty_pairs(params: Seq<(Seq<char>, Seq<char>)>) -> Seq<(Seq<char>, Seq<char>)>
    decreases params.len(),
{
    if params.len() == 0 {
        seq![]
    } else {
        let p = nonempty_pairs(params.drop_last());
        if params.last().1.len() > 0 {
            p.push(params.last())
        } else {
            p
        }
    }
}

/// A URL with query parameters appended, skipping those with empty values;
/// unchanged without parameters or when it does not parse.
pub open spec fn spec_append_query_params(base: Seq<char>, params: Seq<(Seq<char>, Seq<char>)>) -> Seq<char> {
    if params.len() == 0 {
        base
    } else {
        match spec_url_with_pairs(base, nonempty_pairs(params)) {
            Ok(u) => u,
            Err(_) => base,
        }
    }
}

pub fn append_query_params(base_url: &str, params: &Vec<(String, String)>) -> (r: String)
    ensures
        r@ == spec_append_query_params(base_url@, pairs_view(params@)),
{
    if params.len() == 0 {
        return base_url.to_string();
    }
    let ghost pv = pairs_view(params@);
    let mut kept: Vec<(String, String)> = Vec::new();
    let mut i: usize = 0;
    assert(pv.take(0) =~= Seq::<(Seq<char>, Seq<char>)>::empty());
    assert(pairs_view(kept@) =~= Seq::<(Seq<char>, Seq<char>)>::empty());
    while i < params.len()
        invariant
            i <= params@.len(),
            pv == pairs_view(params@),
            pairs_view(kept@) == nonempty_pairs(pv.take(i as int)),
        decreases params.len() - i,
    {
        proof {
            assert(pv.take(i + 1).drop_last() =~= pv.take(i as int));
            assert(pv.take(i + 1).last() == pv[i as int]);
        }
        let k = params[i].0.clone();
        let v = params[i].1.clone();
        assert(pv[i as int] == (k@, v@));
        if !v.as_str().is_empty() {
            let ghost before = pairs_view(kept@);
            kept.push((k, v));
            assert(pairs_view(kept@) =~= before.push(pv[i as int]));
        }
        i += 1;
    }
    assert(pv.take(i as int) =~= pv);
    match url_with_pairs(base_url, &kept) {
        Ok(u) => u,
        Err(_) => base_url.to_string(),
    }
}

// ---------------------------------------------------------------------------
// MissAV
// ---------------------------------------------------------------------------

/// What a MissAV card shows, as read from the page.
pub struct MissavCardView {
    /// How many links it holds.
    pub links: usize,
    pub href: Option<Seq<char>>,
    pub img_data_src: Option<Seq<char>>,
    pub img_src: Option<Seq<char>>,
    pub img_alt: Option<Seq<char>>,
    /// How many title links it holds, and their text.
    pub title_links: usize,
    pub title_text: Seq<char>,
    pub video_data_src: Option<Seq<char>>,
    pub video_src: Option<Seq<char>>,
    pub video_bound_src: Option<Seq<char>>,
    pub duration_text: Seq<char>,
}

/// The last path segment of a video URL, without its query.
pub open spec fn last_segment(u: Seq<char>) -> Seq<char> {
    let t = text::trim_end_char(u, '/');
    let tail = match text::rfind_char(t, '/') {
        Some(k) => t.skip(k + 1),
        None => t,
    };
    text::split_char(tail, '?')[0]
}

/// The text holds a digit (`\d` matches somewhere).
pub open spec fn has_digit(s: Seq<char>) -> bool {
    pattern::regex_found("\\d"@, s) is Some
}

/// A site-relative or protocol-relative link made absolute on `domain`.
pub open spec fn absolute_on(p: Seq<char>, domain: Seq<char>) -> Seq<char> {
    if text::starts_with(p, "//"@) {
        "https:"@ + p
    } else if text::starts_with(p, "/"@) {
        domain + p
    } else {
        p
    }
}

/// The card's preview clip: the video's source when it is a real one, made
/// absolute; else `preview.mp4` next to an absolute thumbnail.
pub open spec fn missav_preview(c: MissavCardView, img: Seq<char>, domain: Seq<char>) -> Option<Seq<char>> {
    let p1 = match first_some(c.video_data_src, first_some(c.video_src, c.video_bound_src)) {
        Some(p) => if p.len() > 0 && !text::contains(p, "javascript:;"@) {
            Some(absolute_on(p, domain))
        } else {
            None
        },
        None => None,
    };
    if p1 is None && img.len() > 0 && text::starts_with(img, "http"@) {
        match text::rfind_char(img, '/') {
            Some(k) => Some(img.take(k) + "/preview.mp4"@),
            None => None,
        }
    } else {
        p1
    }
}

pub open spec fn opt_nonempty(s: Seq<char>) -> Option<Seq<char>> {
    if s.len() == 0 {
        None
    } else {
        Some(s)
    }
}

/// The videos after one more MissAV card: cards without a video link (one
/// whose last segment has no digit), search links, repeats and cards
/// without a title are passed over; a link that does not resolve against
/// the domain fails the page.
pub open spec fn missav_step(
    acc: Result<Seq<VideoInfoView>, Seq<char>>,
    c: MissavCardView,
    domain: Seq<char>,
) -> Result<Seq<VideoInfoView>, Seq<char>> {
    match acc {
        Err(e) => Err(e),
        Ok(videos) => {
            let href = or_default(c.href);
            if c.links == 0 || href.len() == 0 || text::contains(href, "/search/"@) {
                Ok(videos)
            } else {
                let url = if text::starts_with(href, "http"@) {
                    Ok(href)
                } else {
                    spec_url_join(domain, href)
                };
                match url {
                    Err(e) => Err(e),
                    Ok(u) => {
                        let img0 = or_default(first_some(c.img_data_src, c.img_src));
                        let img = if img0.len() > 0 && !text::starts_with(img0, "http"@) {
                            domain + img0
                        } else {
                            img0
                        };
                        let title = if c.title_links > 0 && text::trim(c.title_text).len() > 0 {
                            text::trim(c.title_text)
                        } else {
                            or_default(c.img_alt)
                        };
                        if !has_digit(last_segment(u)) || listed(videos, u) || title.len() == 0 {
                            Ok(videos)
                        } else {
                            Ok(
                                videos.push(
                                    VideoInfoView {
                                        title,
                                        url: u,
                                        image_url: img,
                                        duration: opt_nonempty(text::trim(c.duration_text)),
                                        preview_url: missav_preview(c, img, domain),
                                    },
                                ),
                            )
                        }
                    },
                }
            }
        },
    }
}

pub open spec fn missav_videos(cards: Seq<MissavCardView>, domain: Seq<char>) -> Result<Seq<VideoInfoView>, Seq<char>>
    decreases cards.len(),
{
    if cards.len() == 0 {
        Ok(seq![])
    } else {
        missav_step(missav_videos(cards.drop_last(), domain), cards.last(), domain)
    }
}

pub open spec fn missav_card_sel() -> Seq<char> {
    "div.thumbnail, div.relative.aspect-w-16, div.space-y-2"@
}

pub open spec fn missav_video_sel() -> Seq<char> {
    "video.preview, video[data-src], video[src], video"@
}

/// The cards of a MissAV listing page, as `dom_query` reads them.
pub open spec fn missav_cards_of(html: Seq<char>) -> Seq<MissavCardView> {
    let cs = missav_card_sel();
    let links = dom_card_count(html, cs, "a[href]"@);
    let hrefs = dom_card_attr(html, cs, "a[href]"@, "href"@);
    let dsrc = dom_card_attr(html, cs, "img"@, "data-src"@);
    let src = dom_card_attr(html, cs, "img"@, "src"@);
    let alt = dom_card_attr(html, cs, "img"@, "alt"@);
    let tl = dom_card_count(html, cs, "div.my-2 a, div.truncate a"@);
    let tt = dom_card_text(html, cs, "div.my-2 a, div.truncate a"@);
    let vd = dom_card_attr(html, cs, missav_video_sel(), "data-src"@);
    let vs = dom_card_attr(html, cs, missav_video_sel(), "src"@);
    let vb = dom_card_attr(html, cs, missav_video_sel(), ":data-src"@);
    let du = dom_card_text(html, cs, "span.absolute.bottom-1.right-1"@);
    Seq::new(
        dom_count(html, cs),
        |i: int|
            MissavCardView {
                links: links[i],
                href: hrefs[i],
                img_data_src: dsrc[i],
                img_src: src[i],
                img_alt: alt[i],
                title_links: tl[i],
                title_text: tt[i],
                video_data_src: vd[i],
                video_src: vs[i],
                video_bound_src: vb[i],
                duration_text: du[i],
            },
    )
}

/// The listing of a MissAV page on `domain`: the videos of its cards, and
/// the number of pages its `page=` links name.
pub open spec fn spec_missav_listing(html: Seq<char>, domain: Seq<char>) -> Result<(Seq<VideoInfoView>, nat), Seq<char>> {
    match missav_videos(missav_cards_of(html), domain) {
        Err(e) => Err(e),
        Ok(videos) => Ok(
            (
                videos,
                max_page(
                    1,
                    dom_nodes_attr(html, "a[href*=\"page=\"]"@, "href"@),
                    dom_nodes_text(html, "a[href*=\"page=\"]"@),
                    "page="@,
                ),
            ),
        ),
    }
}

fn has_digit_exec(s: &[char]) -> (r: bool)
    ensures
        r == has_digit(s@),
{
    pattern::regex_find("\\d", string_of(s).as_str()).is_some()
}

fn last_segment_exec(u: &str) -> (r: Vec<char>)
    ensures
        r@ == last_segment(u@),
{
    let all = chars_of(u);
    let t = trim_end_char_at(&all, '/');
    let tl = t.len();
    let tail: &[char] = match rfind_char_at(t, '/') {
        Some(k) => {
            assert(k < tl);
            &t[k + 1..tl]
        },
        None => t,
    };
    let parts = split_char_at(tail, '?');
    proof {
        reveal_with_fuel(text::split_char, 1);
    }
    crate::text::to_vec(&parts[0])
}

fn absolute_on_exec(p: &str, domain: &str) -> (r: String)
    ensures
        r@ == absolute_on(p@, domain@),
{
    if has_prefix(p, "//") {
        join_str("https:", p)
    } else if has_prefix(p, "/") {
        join_str(domain, p)
    } else {
        p.to_string()
    }
}

fn missav_preview_exec(
    vd: &Option<String>,
    vs: &Option<String>,
    vb: &Option<String>,
    img: &str,
    domain: &str,
) -> (r: Option<String>)
    ensures
        ov(r) == ({
            let c = MissavCardView {
                links: 0,
                href: None,
                img_data_src: None,
                img_src: None,
                img_alt: None,
                title_links: 0,
                title_text: seq![],
                video_data_src: ov(*vd),
                video_src: ov(*vs),
                video_bound_src: ov(*vb),
                duration_text: seq![],
            };
            missav_preview(c, img@, domain@)
        }),
{
    let p0 = first_some_exec(vd, &first_some_exec(vs, vb));
    let p1 = match p0 {
        Some(p) => if !p.as_str().is_empty() && !contains_at(&chars_of(p.as_str()), &chars_of("javascript:;")) {
            Some(absolute_on_exec(p.as_str(), domain))
        } else {
            None
        },
        None => None,
    };
    if p1.is_none() && !img.is_empty() && has_prefix(img, "http") {
        let iv = chars_of(img);
        match rfind_char_at(&iv, '/') {
            Some(k) => Some(string_of(&concat(&iv[0..k], &chars_of("/preview.mp4")))),
            None => None,
        }
    } else {
        p1
    }
}

fn nonempty_trimmed(s: &str) -> (r: Option<String>)
    ensures
        ov(r) == opt_nonempty(text::trim(s@)),
{
    let v = chars_of(s);
    let t = trim_at(&v);
    if t.len() == 0 {
        None
    } else {
        Some(string_of(t))
    }
}

/// No two videos share a URL.
pub open spec fn distinct_urls(videos: Seq<VideoInfoView>) -> bool {
    forall|j: int, k: int| 0 <= j < k < videos.len() ==> (#[trigger] videos[j]).url != (#[trigger] videos[k]).url
}

proof fn lemma_missav_videos_distinct(cards: Seq<MissavCardView>, domain: Seq<char>)
    ensures
        missav_videos(cards, domain) matches Ok(v) ==> distinct_urls(v) && forall|k: int|
            0 <= k < v.len() ==> (#[trigger] v[k]).title.len() > 0 && has_digit(last_segment(v[k].url)),
    decreases cards.len(),
{
    if cards.len() > 0 {
        lemma_missav_videos_distinct(cards.drop_last(), domain);
        if let Ok(prev) = missav_videos(cards.drop_last(), domain) {
            if let Ok(v) = missav_videos(cards, domain) {
                if v.len() > prev.len() {
                    let u = v.last().url;
                    assert(!listed(prev, u));
                    assert forall|j: int, k: int| 0 <= j < k < v.len() implies (#[trigger] v[j]).url != (#[trigger] v[k]).url by {
                        if k == v.len() - 1 {
                            assert(v[j] == prev[j]);
                        } else {
                            assert(v[j] == prev[j] && v[k] == prev[k]);
                        }
                    }
                    assert forall|k: int| 0 <= k < v.len() implies (#[trigger] v[k]).title.len() > 0 && has_digit(last_segment(v[k].url)) by {
                        if k < prev.len() {
                            assert(v[k] == prev[k]);
                        }
                    }
                } else {
                    assert(v == prev);
                }
            }
        }
    }
}

/// A MissAV listing lists each video once: the videos have pairwise
/// distinct URLs (a card seen twice, such as a thumbnail nested in its own
/// card, gives one video), each with a title and a video code-like last
/// path segment holding a digit.
pub proof fn law_missav_listing_distinct(html: Seq<char>, domain: Seq<char>)
    ensures
        spec_missav_listing(html, domain) matches Ok((videos, _)) ==> distinct_urls(videos) && forall|k: int|
            0 <= k < videos.len() ==> (#[trigger] videos[k]).title.len() > 0 && has_digit(last_segment(videos[k].url)),
{
    lemma_missav_videos_distinct(missav_cards_of(html), domain);
}

/// Reads a MissAV listing page served from `domain` (see
/// `spec_missav_listing`).
pub fn parse_missav_listing(html: &str, domain: &str) -> (r: Result<VideoListResponse, String>)
    ensures
        match spec_missav_listing(html@, domain@) {
            Ok((videos, total)) => r matches Ok(resp) && resp.videos@.map_values(|v: VideoInfo| v@)
                == videos && resp.total_pages == total,
            Err(e) => r matches Err(m) && m@ == e,
        },
{
    let cs = "div.thumbnail, div.relative.aspect-w-16, div.space-y-2";
    let vsel = "video.preview, video[data-src], video[src], video";
    let links = card_count(html, cs, "a[href]");
    let hrefs = card_attr(html, cs, "a[href]", "href");
    let dsrc = card_attr(html, cs, "img", "data-src");
    let src = card_attr(html, cs, "img", "src");
    let alt = card_attr(html, cs, "img", "alt");
    let tl = card_count(html, cs, "div.my-2 a, div.truncate a");
    let tt = card_text(html, cs, "div.my-2 a, div.truncate a");
    let vd = card_attr(html, cs, vsel, "data-src");
    let vs = card_attr(html, cs, vsel, "src");
    let vb = card_attr(html, cs, vsel, ":data-src");
    let du = card_text(html, cs, "span.absolute.bottom-1.right-1");
    let ghost cards = missav_cards_of(html@);
    let n = links.len();
    let mut videos: Vec<VideoInfo> = Vec::new();
    let mut i: usize = 0;
    assert(cards.take(0) =~= Seq::<MissavCardView>::empty());
    assert(videos@.map_values(|v: VideoInfo| v@) =~= Seq::<VideoInfoView>::empty());
    while i < n
        invariant
            i <= n,
            n == cards.len(),
            cs@ == missav_card_sel(),
            vsel@ == missav_video_sel(),
            cards == missav_cards_of(html@),
            links@ == dom_card_count(html@, cs@, "a[href]"@),
            opt_strings_view(hrefs@) == dom_card_attr(html@, cs@, "a[href]"@, "href"@),
            opt_strings_view(dsrc@) == dom_card_attr(html@, cs@, "img"@, "data-src"@),
            opt_strings_view(src@) == dom_card_attr(html@, cs@, "img"@, "src"@),
            opt_strings_view(alt@) == dom_card_attr(html@, cs@, "img"@, "alt"@),
            tl@ == dom_card_count(html@, cs@, "div.my-2 a, div.truncate a"@),
            strings_view(tt@) == dom_card_text(html@, cs@, "div.my-2 a, div.truncate a"@),
            opt_strings_view(vd@) == dom_card_attr(html@, cs@, vsel@, "data-src"@),
            opt_strings_view(vs@) == dom_card_attr(html@, cs@, vsel@, "src"@),
            opt_strings_view(vb@) == dom_card_attr(html@, cs@, vsel@, ":data-src"@),
            strings_view(du@) == dom_card_text(html@, cs@, "span.absolute.bottom-1.right-1"@),
            n == links@.len() && n == hrefs@.len() && n == dsrc@.len() && n == src@.len() && n
                == alt@.len() && n == tl@.len() && n == tt@.len() && n == vd@.len() && n
                == vs@.len() && n == vb@.len() && n == du@.len(),
            missav_videos(cards.take(i as int), domain@) == Ok::<Seq<VideoInfoView>, Seq<char>>(
                videos@.map_values(|v: VideoInfo| v@),
            ),
        decreases n - i,
    {
        let ghost c = cards[i as int];
        proof {
            assert(cards.take(i + 1).drop_last() =~= cards.take(i as int));
            assert(cards.take(i + 1).last() == c);
            assert(c.links == links@[i as int]);
            assert(c.href == ov(hrefs@[i as int]));
            assert(c.img_data_src == ov(dsrc@[i as int]));
            assert(c.img_src == ov(src@[i as int]));
            assert(c.img_alt == ov(alt@[i as int]));
            assert(c.title_links == tl@[i as int]);
            assert(c.title_text == tt@[i as int]@);
            assert(c.video_data_src == ov(vd@[i as int]));
            assert(c.video_src == ov(vs@[i as int]));
            assert(c.video_bound_src == ov(vb@[i as int]));
            assert(c.duration_text == du@[i as int]@);
        }
        let href = opt_to_string(&hrefs[i]);
        if links[i] == 0 || href.as_str().is_empty() || contains_at(&chars_of(href.as_str()), &chars_of("/search/")) {
            i += 1;
            continue;
        }
        let url = if has_prefix(href.as_str(), "http") {
            href
        } else {
            match url_join(domain, href.as_str()) {
                Ok(u) => u,
                Err(e) => {
                    proof {
                        lemma_missav_err_stays(cards, domain@, i as int + 1);
                    }
                    return Err(e);
                },
            }
        };
        let img0 = opt_to_string(&first_some_exec(&dsrc[i], &src[i]));
        let img = if !img0.as_str().is_empty() && !has_prefix(img0.as_str(), "http") {
            join_str(domain, img0.as_str())
        } else {
            img0
        };
        let ttv = chars_of(tt[i].as_str());
        let tt_trim = trim_at(&ttv);
        let title = if tl[i] > 0 && tt_trim.len() > 0 {
            string_of(tt_trim)
        } else {
            opt_to_string(&alt[i])
        };
        if !has_digit_exec(&last_segment_exec(url.as_str())) || is_listed(&videos, url.as_str())
            || title.as_str().is_empty() {
            i += 1;
            continue;
        }
        let preview_url = missav_preview_exec(&vd[i], &vs[i], &vb[i], img.as_str(), domain);
        let duration = nonempty_trimmed(du[i].as_str());
        let ghost before = videos@.map_values(|v: VideoInfo| v@);
        videos.push(VideoInfo { title, url, image_url: img, duration, preview_url });
        assert(videos@.map_values(|v: VideoInfo| v@) =~= before.push(videos@[videos@.len() - 1]@));
        i += 1;
    }
    assert(cards.take(n as int) =~= cards);
    let phrefs = nodes_attr(html, "a[href*=\"page=\"]", "href");
    let ptexts = nodes_text(html, "a[href*=\"page=\"]");
    let total = max_page_number(1, &phrefs, &ptexts, "page=");
    Ok(VideoListResponse { videos, total_pages: total })
}

proof fn lemma_missav_err_stays(cards: Seq<MissavCardView>, domain: Seq<char>, k: int)
    requires
        0 <= k <= cards.len(),
        missav_videos(cards.take(k), domain) is Err,
    ensures
        missav_videos(cards, domain) == missav_videos(cards.take(k), domain),
    decreases cards.len() - k,
{
    if k < cards.len() {
        assert(cards.take(k + 1).drop_last() =~= cards.take(k));
        lemma_missav_err_stays(cards, domain, k + 1);
    } else {
        assert(cards.take(k) =~= cards);
    }
}


// ---------------------------------------------------------------------------
// Jable
// ---------------------------------------------------------------------------

/// What a Jable card (`div.video-img-box`) shows, as read from the page.
pub struct JableCardView {
    pub href: Option<Seq<char>>,
    pub title_text: Seq<char>,
    pub img_data_src: Option<Seq<char>>,
    pub img_src: Option<Seq<char>>,
    pub img_preview: Option<Seq<char>>,
    pub duration_text: Seq<char>,
}

/// The video of a Jable card, if it has a link and a title; its URL in the
/// listing's language.
pub open spec fn jable_video(c: JableCardView, lang: Seq<char>) -> Option<VideoInfoView> {
    let url = or_default(c.href);
    let title = text::trim(c.title_text);
    if url.len() == 0 || title.len() == 0 {
        None
    } else {
        let img0 = or_default(first_some(c.img_data_src, c.img_src));
        let img = if img0.len() > 0 && !text::starts_with(img0, "http"@) {
            "https://jable.tv"@ + img0
        } else {
            img0
        };
        let preview = match c.img_preview {
            Some(p) => if p.len() > 0 {
                Some(absolute_on(p, "https://jable.tv"@))
            } else {
                None
            },
            None => None,
        };
        Some(
            VideoInfoView {
                title,
                url: spec_with_lang(url, lang),
                image_url: img,
                duration: opt_nonempty(text::trim(c.duration_text)),
                preview_url: preview,
            },
        )
    }
}

pub open spec fn jable_videos(cards: Seq<JableCardView>, lang: Seq<char>) -> Seq<VideoInfoView>
    decreases cards.len(),
{
    if cards.len() == 0 {
        seq![]
    } else {
        let prev = jable_videos(cards.drop_last(), lang);
        match jable_video(cards.last(), lang) {
            Some(v) => prev.push(v),
            None => prev,
        }
    }
}

/// The cards of a Jable listing page, as `dom_query` reads them.
pub open spec fn jable_cards_of(html: Seq<char>) -> Seq<JableCardView> {
    let cs = "div.video-img-box"@;
    let hrefs = dom_card_attr2(html, cs, "div.detail"@, "h6 a"@, "href"@);
    let titles = dom_card_text2(html, cs, "div.detail"@, "h6 a"@);
    let dsrc = dom_card_attr(html, cs, "img"@, "data-src"@);
    let src = dom_card_attr(html, cs, "img"@, "src"@);
    let prev = dom_card_attr(html, cs, "img"@, "data-preview"@);
    let du = dom_card_text(html, cs, "span.label"@);
    Seq::new(
        dom_count(html, cs),
        |i: int|
            JableCardView {
                href: hrefs[i],
                title_text: titles[i],
                img_data_src: dsrc[i],
                img_src: src[i],
                img_preview: prev[i],
                duration_text: du[i],
            },
    )
}

/// The number that a count text such as `1,234 部影片` starts with: the
/// first run of digits and commas, without the commas.
pub open spec fn count_in(t: Seq<char>) -> Option<nat> {
    match pattern::group1("([\\d,]+)"@, t) {
        Some(d) => text::parse_bounded(d.filter(|c: char| c != ','), usize::MAX as nat),
        None => None,
    }
}

/// Pages of 24 videos for `n` videos.
pub open spec fn pages_for(n: nat) -> nat {
    n / 24 + if n % 24 > 0 {
        1nat
    } else {
        0nat
    }
}

/// The number of pages of a Jable listing: from the video count of its
/// title box (24 to a page) when there is one, else the largest `from=`
/// page of its pagination; at least the page asked for.
pub open spec fn jable_total_pages(html: Seq<char>, page: usize) -> nat {
    let t = if dom_count(html, "div.title-box"@) > 0 {
        match count_in(dom_sub_text(html, "div.title-box"@, "span"@)) {
            Some(n) => pages_for(n),
            None => 1,
        }
    } else {
        max_page(
            1,
            dom_nodes_attr(html, "ul.pagination a.page-link"@, "href"@),
            dom_nodes_text(html, "ul.pagination a.page-link"@),
            "from="@,
        )
    };
    if t < page {
        page as nat
    } else {
        t
    }
}

fn remove_commas(s: &[char]) -> (r: Vec<char>)
    ensures
        r@ == s@.filter(|c: char| c != ','),
{
    let mut out: Vec<char> = Vec::new();
    let mut i: usize = 0;
    proof {
        reveal(Seq::filter);
    }
    assert(s@.take(0).filter(|c: char| c != ',') =~= Seq::<char>::empty());
    while i < s.len()
        invariant
            i <= s.len(),
            out@ == s@.take(i as int).filter(|c: char| c != ','),
        decreases s.len() - i,
    {
        proof {
            reveal(Seq::filter);
            assert(s@.take(i + 1).drop_last() =~= s@.take(i as int));
            assert(s@.take(i + 1).last() == s@[i as int]);
        }
        if s[i] != ',' {
            out.push(s[i]);
        }
        i += 1;
    }
    assert(s@.take(i as int) =~= s@);
    out
}

fn jable_total_pages_exec(html: &str, page: usize) -> (r: usize)
    ensures
        r == jable_total_pages(html@, page),
{
    let t: usize = if select_count(html, "div.title-box") > 0 {
        let span = chars_of(select_sub_text(html, "div.title-box", "span").as_str());
        match pattern::group1_exec("([\\d,]+)", string_of(&span).as_str()) {
            Some(d) => {
                let digits = remove_commas(&chars_of(d.as_str()));
                match crate::text::parse_unsigned(&digits, usize::MAX as u64) {
                    Some(n) => {
                        let n = n as usize;
                        n / 24 + if n % 24 > 0 {
                            1
                        } else {
                            0
                        }
                    },
                    None => 1,
                }
            },
            None => 1,
        }
    } else {
        let hrefs = nodes_attr(html, "ul.pagination a.page-link", "href");
        let texts = nodes_text(html, "ul.pagination a.page-link");
        max_page_number(1, &hrefs, &texts, "from=")
    };
    if t < page {
        page
    } else {
        t
    }
}

/// The listing of a Jable page in `lang`, asked for as page `page`: the
/// videos of its cards and the number of pages.
pub open spec fn spec_jable_listing(html: Seq<char>, page: usize, lang: Seq<char>) -> (Seq<VideoInfoView>, nat) {
    (jable_videos(jable_cards_of(html), lang), jable_total_pages(html, page))
}

/// Reads a Jable listing page (see `spec_jable_listing`).
pub fn parse_jable_listing(html: &str, page: usize, lang: &str) -> (r: VideoListResponse)
    ensures
        (r.videos@.map_values(|v: VideoInfo| v@), r.total_pages as nat) == spec_jable_listing(
            html@,
            page,
            lang@,
        ),
{
    let cs = "div.video-img-box";
    let hrefs = card_attr2(html, cs, "div.detail", "h6 a", "href");
    let titles = card_text2(html, cs, "div.detail", "h6 a");
    let dsrc = card_attr(html, cs, "img", "data-src");
    let src = card_attr(html, cs, "img", "src");
    let prev = card_attr(html, cs, "img", "data-preview");
    let du = card_text(html, cs, "span.label");
    let ghost cards = jable_cards_of(html@);
    let n = hrefs.len();
    let mut videos: Vec<VideoInfo> = Vec::new();
    let mut i: usize = 0;
    assert(cards.take(0) =~= Seq::<JableCardView>::empty());
    assert(videos@.map_values(|v: VideoInfo| v@) =~= Seq::<VideoInfoView>::empty());
    while i < n
        invariant
            i <= n,
            n == cards.len(),
            cs@ == "div.video-img-box"@,
            cards == jable_cards_of(html@),
            opt_strings_view(hrefs@) == dom_card_attr2(html@, cs@, "div.detail"@, "h6 a"@, "href"@),
            strings_view(titles@) == dom_card_text2(html@, cs@, "div.detail"@, "h6 a"@),
            opt_strings_view(dsrc@) == dom_card_attr(html@, cs@, "img"@, "data-src"@),
            opt_strings_view(src@) == dom_card_attr(html@, cs@, "img"@, "src"@),
            opt_strings_view(prev@) == dom_card_attr(html@, cs@, "img"@, "data-preview"@),
            strings_view(du@) == dom_card_text(html@, cs@, "span.label"@),
            n == hrefs@.len() && n == titles@.len() && n == dsrc@.len() && n == src@.len() && n
                == prev@.len() && n == du@.len(),
            jable_videos(cards.take(i as int), lang@) == videos@.map_values(|v: VideoInfo| v@),
        decreases n - i,
    {
        let ghost c = cards[i as int];
        proof {
            assert(cards.take(i + 1).drop_last() =~= cards.take(i as int));
            assert(cards.take(i + 1).last() == c);
            assert(c.href == ov(hrefs@[i as int]));
            assert(c.title_text == titles@[i as int]@);
            assert(c.img_data_src == ov(dsrc@[i as int]));
            assert(c.img_src == ov(src@[i as int]));
            assert(c.img_preview == ov(prev@[i as int]));
            assert(c.duration_text == du@[i as int]@);
        }
        let url0 = opt_to_string(&hrefs[i]);
        let tv = chars_of(titles[i].as_str());
        let tt = trim_at(&tv);
        if url0.as_str().is_empty() || tt.len() == 0 {
            i += 1;
            continue;
        }
        let title = string_of(tt);
        let img0 = opt_to_string(&first_some_exec(&dsrc[i], &src[i]));
        let img = if !img0.as_str().is_empty() && !has_prefix(img0.as_str(), "http") {
            join_str("https://jable.tv", img0.as_str())
        } else {
            img0
        };
        let preview_url = match &prev[i] {
            Some(p) => if !p.as_str().is_empty() {
                Some(absolute_on_exec(p.as_str(), "https://jable.tv"))
            } else {
                None
            },
            None => None,
        };
        let duration = nonempty_trimmed(du[i].as_str());
        let url = with_lang(url0.as_str(), lang);
        let ghost before = videos@.map_values(|v: VideoInfo| v@);
        videos.push(VideoInfo { title, url, image_url: img, duration, preview_url });
        assert(videos@.map_values(|v: VideoInfo| v@) =~= before.push(videos@[videos@.len() - 1]@));
        i += 1;
    }
    assert(cards.take(n as int) =~= cards);
    let total = jable_total_pages_exec(html, page);
    VideoListResponse { videos, total_pages: total }
}

/// The address of page `page` of a Jable listing: `from=<page>`, then
/// `sort_by=<sort>` when a sort is given, appended to the listing's URL; the
/// parse error when it does not parse.
pub open spec fn spec_jable_list_url(base: Seq<char>, page: usize, sort: Option<Seq<char>>) -> Result<Seq<char>, Seq<char>> {
    spec_url_with_pairs(
        base,
        seq![("from"@, text::decimal(page as nat))] + match sort {
            Some(s) => if s.len() > 0 {
                seq![("sort_by"@, s)]
            } else {
                seq![]
            },
            None => seq![],
        },
    )
}

pub fn jable_list_url(base_url: &str, page: usize, sort_by: &Option<String>) -> (r: Result<String, String>)
    ensures
        crate::weburl::result_view(r) == spec_jable_list_url(base_url@, page, ov(*sort_by)),
{
    let mut pairs: Vec<(String, String)> = Vec::new();
    pairs.push(("from".to_string(), string_of(&crate::text::format_decimal(page as u64))));
    let ghost first = pairs_view(pairs@);
    match sort_by {
        Some(s) => {
            if !s.as_str().is_empty() {
                pairs.push(("sort_by".to_string(), s.clone()));
                assert(pairs_view(pairs@) =~= first + seq![("sort_by"@, s@)]);
            }
        },
        None => {},
    }
    assert(pairs_view(pairs@) =~= seq![("from"@, text::decimal(page as nat))] + match ov(*sort_by) {
        Some(s) => if s.len() > 0 {
            seq![("sort_by"@, s)]
        } else {
            seq![]
        },
        None => seq![],
    });
    url_with_pairs(base_url, &pairs)
}

} // verus!
