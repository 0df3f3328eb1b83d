use avdl::scraper::listing::{
    append_query_params, is_challenge_page, jable_list_url, max_page_number, parse_jable_listing,
    parse_missav_listing, parse_supjav_listing, with_lang,
};
use avdl::scraper::{
    cf_headers, clearance_cookie_of, domain_url, fallback_domain, get_accept_language_header,
    get_cf_headers_for_site, get_cf_headers_for_url, get_mirror_domains, mirror_up,
    preview_headers, Site,
};
use avdl::commands::CfConfig;
use avdl::scraper::{jable, missav, supjav};

#[test]
fn supjav_listing_page() {
    let html = r#"<html><body>
<div class="post"><a href="/v/abc-123.html" title="T1"><img data-original="/img/1.jpg"></a></div>
<div class="post"><a href="https://supjav.com/v/abc-123.html">dup</a></div>
<div class="post"><a href="/x.html"></a><img src="data:xyz"></div>
<div class="post"><span>no link</span></div>
<a class="page-numbers" href="/page/7/">7</a>
</body></html>"#;
    let r = parse_supjav_listing(html, 2).unwrap();
    assert_eq!(r.videos.len(), 1);
    assert_eq!(r.videos[0].url, "https://supjav.com/v/abc-123.html");
    assert_eq!(r.videos[0].title, "T1");
    assert_eq!(r.videos[0].image_url, "https://supjav.com/img/1.jpg");
    assert_eq!(r.total_pages, 7);
    let r2 = parse_supjav_listing("<html></html>", 3).unwrap();
    assert_eq!(r2.videos.len(), 0);
    assert_eq!(r2.total_pages, 3);
}

#[test]
fn missav_listing_page() {
    let html = r#"<html><body>
<div class="thumbnail"><a href="/dm1/en/abc-123"><img data-src="https://cdn.example.com/abc-123/cover.jpg" alt="Alt"></a>
<div class="my-2"><a href="/dm1/en/abc-123"> Title A </a></div>
<span class="absolute bottom-1 right-1"> 1:02:03 </span></div>
<div class="thumbnail"><a href="/search/foo"><img alt="S"></a></div>
<div class="thumbnail"><a href="/en/genres"><img alt="G"></a></div>
<div class="thumbnail"><a href="/dm2/xyz-999"><img src="/img/x.jpg" alt="B"></a><video class="preview" data-src="//v.example.com/p.mp4"></video></div>
<a href="?page=12">12</a><a href="?page=2">next</a>
</body></html>"#;
    let r = parse_missav_listing(html, "https://missav.ws").unwrap();
    assert_eq!(r.videos.len(), 2);
    assert_eq!(r.videos[0].url, "https://missav.ws/dm1/en/abc-123");
    assert_eq!(r.videos[0].title, "Title A");
    assert_eq!(r.videos[0].duration, Some("1:02:03".to_string()));
    assert_eq!(r.videos[0].preview_url, Some("https://cdn.example.com/abc-123/preview.mp4".to_string()));
    assert_eq!(r.videos[1].title, "B");
    assert_eq!(r.videos[1].image_url, "https://missav.ws/img/x.jpg");
    assert_eq!(r.videos[1].preview_url, Some("https://v.example.com/p.mp4".to_string()));
    assert_eq!(r.total_pages, 12);
}

#[test]
fn jable_listing_page() {
    let html = r#"<html><body>
<div class="title-box"><span>1,234 部影片</span></div>
<div class="video-img-box"><img data-src="/c.jpg" data-preview="//p.example.com/x.mp4">
<div class="detail"><h6 class="title"><a href="https://jable.tv/videos/abc-123/">Name</a></h6></div>
<span class="label">10:00</span></div>
<div class="video-img-box"><div class="detail"><h6><a href="">Empty</a></h6></div></div>
</body></html>"#;
    let r = parse_jable_listing(html, 1, "zh");
    assert_eq!(r.total_pages, 52);
    assert_eq!(r.videos.len(), 1);
    assert_eq!(r.videos[0].url, "https://jable.tv/videos/abc-123/?lang=zh");
    assert_eq!(r.videos[0].image_url, "https://jable.tv/c.jpg");
    assert_eq!(r.videos[0].preview_url, Some("https://p.example.com/x.mp4".to_string()));
    assert_eq!(r.videos[0].duration, Some("10:00".to_string()));
    let pages = r#"<ul class="pagination"><li><a class="page-link" href="/x/?from=9">9</a></li></ul>"#;
    assert_eq!(parse_jable_listing(pages, 12, "").total_pages, 12);
    assert_eq!(parse_jable_listing(pages, 1, "").total_pages, 9);
}

#[test]
fn page_numbers_from_links() {
    let hrefs = vec![Some("/page/3/".to_string()), None, Some("/page/x".to_string())];
    let texts = vec!["".to_string(), " 8 ".to_string(), "next".to_string()];
    assert_eq!(max_page_number(1, &hrefs, &texts, "/page/"), 8);
    assert_eq!(max_page_number(10, &hrefs, &texts, "/page/"), 10);
}

#[test]
fn challenge_pages() {
    assert!(is_challenge_page("<title>Just a moment...</title>"));
    assert!(is_challenge_page("cloudflare: checking your browser"));
    assert!(!is_challenge_page("cloudflare"));
}

#[test]
fn query_parameters() {
    assert_eq!(with_lang("https://jable.tv/hot/", "en"), "https://jable.tv/hot/?lang=en");
    assert_eq!(with_lang("https://jable.tv/hot/?lang=ja", "en"), "https://jable.tv/hot/?lang=ja");
    assert_eq!(with_lang("https://jable.tv/hot/", ""), "https://jable.tv/hot/");
    assert_eq!(with_lang("not a url", "en"), "not a url");
    let p = vec![("page".to_string(), "2".to_string()), ("lang".to_string(), String::new())];
    assert_eq!(append_query_params("https://missav.ws/new", &p), "https://missav.ws/new?page=2");
    assert_eq!(append_query_params("x", &p), "x");
    assert_eq!(append_query_params("https://a.b/", &vec![]), "https://a.b/");
    assert_eq!(
        jable_list_url("https://jable.tv/hot/", 3, &Some("video_viewed".to_string())).unwrap(),
        "https://jable.tv/hot/?from=3&sort_by=video_viewed"
    );
    assert_eq!(jable_list_url("https://jable.tv/hot/", 1, &None).unwrap(), "https://jable.tv/hot/?from=1");
    assert!(jable_list_url("relative", 1, &None).is_err());
}

#[test]
fn clearance_headers() {
    assert_eq!(clearance_cookie_of(" abc "), "cf_clearance=abc");
    assert_eq!(clearance_cookie_of("x=1; cf_clearance=tok,y"), "cf_clearance=tok");
    assert_eq!(clearance_cookie_of("\"q\""), "cf_clearance=q");
    assert_eq!(
        cf_headers("tok", " agent "),
        vec![
            ("user-agent".to_string(), "agent".to_string()),
            ("cookie".to_string(), "cf_clearance=tok".to_string())
        ]
    );
    assert!(cf_headers("  ", "").is_empty());
}

#[test]
fn saved_clearances() {
    let configs = vec![
        ("missav.ws".to_string(), CfConfig { cf_clearance: "m".to_string(), user_agent: "um".to_string() }),
        ("Jable.tv".to_string(), CfConfig { cf_clearance: "j".to_string(), user_agent: "uj".to_string() }),
    ];
    assert_eq!(get_cf_headers_for_site(&configs, Site::Jable), ("j".to_string(), "uj".to_string()));
    assert_eq!(get_cf_headers_for_site(&configs, Site::Supjav), (String::new(), String::new()));
    assert_eq!(get_cf_headers_for_url(&configs, "https://www.missav.ws/x"), ("m".to_string(), "um".to_string()));
    assert_eq!(get_cf_headers_for_url(&configs, "https://jable.tv/"), (String::new(), String::new()));
    assert_eq!(get_cf_headers_for_url(&configs, "bad"), (String::new(), String::new()));
}

#[test]
fn mirrors_and_previews() {
    assert_eq!(get_mirror_domains(Site::Jable), vec!["https://jable.tv", "https://fs1.app"]);
    assert_eq!(domain_url("missav.ai"), "https://missav.ai");
    assert_eq!(domain_url("http://x"), "http://x");
    assert!(mirror_up(200) && mirror_up(403) && !mirror_up(404) && !mirror_up(301));
    assert_eq!(fallback_domain(&vec!["a.com", "b.com"]), "https://a.com");
    assert_eq!(fallback_domain(&vec![]), "");
    let h = preview_headers(Site::Missav, "https://missav.ws");
    assert_eq!(h[2], ("Referer".to_string(), "https://missav.ws/".to_string()));
    assert_eq!(get_accept_language_header(" EN "), "en-US,en;q=0.9");
    assert_eq!(get_accept_language_header("xx"), "zh-TW,zh;q=0.9,en-US;q=0.8,en;q=0.7");
}

#[test]
fn site_categories_and_searches() {
    let f = missav::get_fallback_categories("https://missav.ws", "en");
    assert_eq!(f.len(), 12);
    assert_eq!(f[0].name, "今日熱門");
    assert_eq!(f[0].url, "https://missav.ws/dm296/en/today-hot");
    let plain = missav::get_fallback_categories("https://missav.ws", "");
    assert_eq!(plain[11].url, "https://missav.ws/dm4286298/1pondo");
    let home = r#"<a href="https://missav.ws/dm1/en/today-hot?x=1">a</a><a href="dm2/new">b</a><a href="/en/newest">c</a>"#;
    let cats = missav::categories_from_home(home, "https://missav.ai", "en");
    assert_eq!(cats.len(), 2);
    assert_eq!(cats[0].url, "https://missav.ai/dm1/en/today-hot");
    assert_eq!(cats[1].name, "最近更新");
    assert_eq!(cats[1].url, "https://missav.ai/dm2/new");
    assert_eq!(missav::categories_from_home("<p></p>", "https://m", "").len(), 12);
    assert_eq!(missav::home_url("https://missav.ws", "/en/"), "https://missav.ws/en/");
    assert_eq!(missav::listing_referer("https://missav.ws//"), "https://missav.ws/");
    assert_eq!(missav::list_url("https://missav.ws/new", 2, "en"), "https://missav.ws/new?page=2&lang=en");
    assert_eq!(missav::search_url("https://missav.ws", "a b", ""), "https://missav.ws/search/a+b");
    assert_eq!(supjav::search_url("x&y", "ja"), "https://supjav.com/ja/?s=x%26y");
    assert_eq!(jable::search_url("abc", ""), "https://jable.tv/search/?q=abc");
    let page = r#"<a href="https://jable.tv/categories/">all</a><a href="https://jable.tv/categories/uniform/"> 制服 1,234 部影片 </a>"#;
    let jc = jable::categories_from_page(page, "");
    assert_eq!(jc.len(), 4);
    assert_eq!(jc[3].name, "制服");
    assert_eq!(jc[3].url, "https://jable.tv/categories/uniform/");
    assert_eq!(supjav::get_categories("")[1].url, "https://supjav.com/popular?sort=week");
    assert_eq!(supjav::build_supjav_page_url("https://supjav.com/?s=abc", 2), "https://supjav.com/page/2/?s=abc");
}

#[test]
fn active_missav_domain() {
    let mut slot = missav::ActiveDomain::new();
    assert_eq!(missav::get_active_domain(&slot), "https://missav.ws");
    missav::set_active_domain(&mut slot, "https://missav.ai");
    assert_eq!(missav::get_active_domain(&slot), "https://missav.ai");
}

#[test]
fn sidebar_slugs_are_pairwise_distinct() {
    let mut seen = std::collections::HashSet::new();
    let mut n = 0;
    for (_, tags) in jable::get_sidebar_tags() {
        for t in tags {
            assert!(seen.insert(t.slug.clone()), "duplicate slug {}", t.slug);
            n += 1;
        }
    }
    assert_eq!(n, 111);
}
