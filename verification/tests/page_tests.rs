use avdl::downloader::parsers::{
    decode_streamtape_url, missav_page_referer, page_title, parse_jable_page, parse_missav_page,
    server_m3u8, servers_failed_message, streamtape_is_full, supjav_servers, supremejav_url,
    try_decode_streamtape_url, try_unpack_js_eval, unpack_js_eval,
};

#[test]
fn packed_scripts_are_unpacked() {
    let script = "eval(function(p,a,c,k,e,d){e=function(c){return c};return p}('0 1=\"2://3.4/5.6\"',10,7,'var|source|https|cdn|example|x|m3u8'.split('|'),0,{}))";
    assert_eq!(
        unpack_js_eval(script),
        Some("var source=\"https://cdn.example/x.m3u8\"".to_string())
    );
    assert_eq!(unpack_js_eval("no packer here"), None);
    let base1 = "eval(function(p,a,c,k,e,d){}('0',1,5,'x'.split('|')";
    assert_eq!(unpack_js_eval(base1), None);
    let wide = "eval(function(p,a,c,k,e,d){}('0',40,40,'x'.split('|')";
    assert!(try_unpack_js_eval(wide).is_none());
}

#[test]
fn missav_pages() {
    let page = "<meta property=\"og:title\" content=\"My Video\"><script>var a=1;</script>\
<script>eval(function(p,a,c,k,e,d){e=function(c){return c};return p}('0 1=\"2://3.4/5.6\"',10,7,'var|source|https|cdn|example|x|m3u8'.split('|'),0,{}))</script>";
    let info = parse_missav_page(page).unwrap();
    assert_eq!(info.title, "My Video");
    assert_eq!(info.m3u8_url, "https://cdn.example/x.m3u8");
    assert_eq!(
        parse_missav_page("<script>nothing</script>").err(),
        Some("Could not find M3U8 stream URL in MissAV page. Possibly Cloudflare challenged or script changed.".to_string())
    );
    assert_eq!(missav_page_referer("https://missav.ws/en/abc"), "https://missav.ws/");
    assert_eq!(missav_page_referer("nope"), "https://missav.ai/");
}

#[test]
fn jable_pages() {
    let html = "<html><head><title> T </title></head><body><h1>  Heading </h1>\
<script>var x = 1;</script><script>var hlsUrl = 'https://cdn.example.com/v/index.m3u8?x=1';</script></body></html>";
    let info = parse_jable_page(html).unwrap();
    assert_eq!(info.title, "Heading");
    assert_eq!(info.m3u8_url, "https://cdn.example.com/v/index.m3u8");
    assert_eq!(page_title("<html><head><title> T </title></head><body></body></html>"), "T");
    assert_eq!(
        parse_jable_page("<script>hls</script>").err(),
        Some("Could not find JableTV M3U8 link in scripts".to_string())
    );
}

#[test]
fn supjav_servers_and_players() {
    let html = r#"<a class="btn-server" data-link="cba"> st </a><a class="btn-server">none</a><a class="btn-server" data-link="zyx">tv</a>"#;
    assert_eq!(
        supjav_servers(html),
        vec![("ST".to_string(), "cba".to_string()), ("TV".to_string(), "zyx".to_string())]
    );
    assert_eq!(supremejav_url("cba"), "https://lk1.supremejav.com/supjav.php?c=abc");
    assert_eq!(
        server_m3u8(r#"var urlPlay = 'https:\/\/cdn.example.com\/a\/index.m3u8?t=1';"#),
        Some("https://cdn.example.com/a/index.m3u8?t=1".to_string())
    );
    assert_eq!(
        server_m3u8("src: \"http://x.example/y.m3u8\""),
        Some("http://x.example/y.m3u8".to_string())
    );
    assert_eq!(server_m3u8("nothing"), None);
    assert!(streamtape_is_full(0));
    assert!(streamtape_is_full(150_000_000));
    assert!(!streamtape_is_full(1_000));
    assert_eq!(servers_failed_message(None), "All SupJav servers failed. Last error: unknown error");
}

#[test]
fn streamtape_links() {
    let html = r#"document.getElementById('robotlink').innerHTML = '//streamtape.com/get_video?id=1&expires=2&ip=x' + ('xcdtoken=abc').substring(1).substring(2);"#;
    assert_eq!(
        decode_streamtape_url(html),
        Some("https://streamtape.com/get_video?id=1&expires=2&ip=xtoken=abc".to_string())
    );
    assert_eq!(decode_streamtape_url("no link"), None);
    let other = r#"document.getElementById('robotlink').innerHTML = '//streamtape.com/e/' + ('abc').substring(1);"#;
    assert_eq!(decode_streamtape_url(other), None);
    let split = "document.getElementById('robotlink').innerHTML = '//get_video' + ('\u{e9}abc').substring(1);";
    assert!(try_decode_streamtape_url(split).is_none());
}
