use avdl::downloader::m3u8::{
    choose_variant_index, first_full_index, parse_byterange_attr, playlist_depth_check, parse_media_m3u8_content, parse_stream_inf,
    playlist_kind, scan_media_playlist, select_variant, M3u8Info, PlaylistKind, Variant,
};

const BASE: &str = "https://cdn.example.com/video/index.m3u8";

/// Seconds of playlist, from the `#EXTINF` durations (6 s a segment when
/// none is given), as the downloader reports them.
fn total_duration(info: &M3u8Info) -> f64 {
    let mut total = 0.0;
    for d in &info.segment_durations {
        if let Some(t) = d {
            if let Ok(v) = t.parse::<f64>() {
                if v > 0.0 {
                    total += v;
                }
            }
        }
    }
    if total == 0.0 && !info.segments.is_empty() {
        total = info.segments.len() as f64 * 6.0;
    }
    total
}

#[test]
fn parses_plain_ts_playlist() {
    let text = "#EXTM3U\n#EXT-X-VERSION:3\n#EXT-X-TARGETDURATION:10\n\
#EXTINF:10.0,\nseg0.ts\n#EXTINF:9.5,\nsub/seg1.ts\n";
    let info = parse_media_m3u8_content(text, BASE).unwrap();
    assert_eq!(info.segments.len(), 2);
    assert_eq!(info.segments[0].url, "https://cdn.example.com/video/seg0.ts");
    assert_eq!(info.segments[1].url, "https://cdn.example.com/video/sub/seg1.ts");
    assert_eq!(info.segments[0].byte_range, None);
    assert!(info.init_segment.is_none());
    assert!(info.key_url.is_none());
    assert_eq!(total_duration(&info), 19.5);
}

#[test]
fn parses_aes_key_and_iv() {
    let text = "#EXTM3U\n#EXT-X-KEY:METHOD=AES-128,URI=\"key.bin\",IV=0x0000000000000000000000000000002a\n\
#EXTINF:10.0,\ns0.ts\n";
    let info = parse_media_m3u8_content(text, BASE).unwrap();
    assert_eq!(
        info.key_url.as_deref(),
        Some("https://cdn.example.com/video/key.bin")
    );
    let mut expected_iv = [0u8; 16];
    expected_iv[15] = 0x2a;
    assert_eq!(info.iv.as_deref(), Some(&expected_iv[..]));
}

#[test]
fn parses_fmp4_with_map_and_byterange() {
    let text = "#EXTM3U\n#EXT-X-VERSION:7\n#EXT-X-TARGETDURATION:6\n\
#EXT-X-MAP:URI=\"init.mp4\",BYTERANGE=\"720@0\"\n\
#EXTINF:6.0,\nseg1.m4s\n\
#EXT-X-BYTERANGE:82112@752\n#EXTINF:6.0,\nseg2.m4s\n\
#EXTINF:6.0,\n/other/seg3.m4s\n\
#EXTINF:6.0,\n//other.example.com/x/seg4.m4s\n";
    let info = parse_media_m3u8_content(text, BASE).unwrap();
    let init = info.init_segment.expect("init segment parsed");
    assert_eq!(init.url, "https://cdn.example.com/video/init.mp4");
    assert_eq!(init.byte_range, Some((0, 720)));

    assert_eq!(info.segments.len(), 4);
    assert_eq!(info.segments[0].url, "https://cdn.example.com/video/seg1.m4s");
    assert_eq!(info.segments[0].byte_range, None);
    assert_eq!(info.segments[1].url, "https://cdn.example.com/video/seg2.m4s");
    assert_eq!(info.segments[1].byte_range, Some((752, 82112)));
    assert_eq!(info.segments[2].url, "https://cdn.example.com/other/seg3.m4s");
    assert_eq!(info.segments[3].url, "https://other.example.com/x/seg4.m4s");
}

#[test]
fn byterange_without_offset_continues_from_previous() {
    let text = "#EXTM3U\n#EXT-X-MAP:URI=\"init.mp4\",BYTERANGE=\"720@0\"\n\
#EXTINF:6.0,\nseg1.m4s\n\
#EXT-X-BYTERANGE:82112\n#EXTINF:6.0,\nseg2.m4s\n";
    let info = parse_media_m3u8_content(text, BASE).unwrap();
    assert_eq!(info.init_segment.unwrap().byte_range, Some((0, 720)));
    assert_eq!(info.segments[1].byte_range, Some((720, 82112)));
}

#[test]
fn key_method_none_disables_encryption() {
    let text = "#EXTM3U\n#EXT-X-KEY:METHOD=AES-128,URI=\"key.bin\"\n\
#EXTINF:10.0,\ns0.ts\n\
#EXT-X-KEY:METHOD=NONE\n\
#EXTINF:10.0,\ns1.ts\n";
    let info = parse_media_m3u8_content(text, BASE).unwrap();
    assert!(info.key_url.is_none(), "later METHOD=NONE must clear the key");
    assert_eq!(info.segments.len(), 2);
}

#[test]
fn segments_with_query_strings_and_no_extension() {
    let text = "#EXTM3U\n#EXTINF:6.0,\nseg1?token=abc&exp=1\n#EXTINF:6.0,\nclip\n";
    let info = parse_media_m3u8_content(text, BASE).unwrap();
    assert_eq!(info.segments.len(), 2);
    assert_eq!(
        info.segments[0].url,
        "https://cdn.example.com/video/seg1?token=abc&exp=1"
    );
    assert_eq!(info.segments[1].url, "https://cdn.example.com/video/clip");
}

#[test]
fn key_attributes_in_any_order_and_bom() {
    let text = "\u{feff}#EXTM3U\n#EXT-X-KEY:URI=\"key.bin\",METHOD=AES-128,KEYFORMAT=\"identity\"\n\
#EXTINF:10.0,\ns0.ts\n";
    let info = parse_media_m3u8_content(text, BASE).unwrap();
    assert_eq!(
        info.key_url.as_deref(),
        Some("https://cdn.example.com/video/key.bin")
    );
    assert_eq!(info.segments.len(), 1, "BOM line must not become a segment");
}

#[test]
fn durations_stay_with_their_segments() {
    let text = "#EXTM3U\n#EXTINF:4.5,title\na.ts\nb.ts\n#EXTINF: 3 ,\nc.ts\n";
    let info = parse_media_m3u8_content(text, BASE).unwrap();
    assert_eq!(info.segments.len(), 3);
    assert_eq!(
        info.segment_durations,
        vec![Some("4.5".to_string()), None, Some("3".to_string())]
    );
    assert_eq!(total_duration(&info), 7.5);
}

#[test]
fn playlist_without_durations_counts_six_seconds_a_segment() {
    let text = "#EXTM3U\na.ts\nb.ts\n";
    let info = parse_media_m3u8_content(text, BASE).unwrap();
    assert_eq!(total_duration(&info), 12.0);
}

#[test]
fn malformed_iv_clears_the_iv() {
    let text = "#EXT-X-KEY:METHOD=AES-128,URI=\"k\",IV=0xzz\n#EXTINF:1,\na.ts\n";
    let info = parse_media_m3u8_content(text, BASE).unwrap();
    assert_eq!(info.key_url.as_deref(), Some("https://cdn.example.com/video/k"));
    assert_eq!(info.iv, None);
}

#[test]
fn iv_cut_inside_a_character_is_out_of_domain() {
    let text = "#EXT-X-KEY:METHOD=AES-128,IV=0\u{e9}a\n";
    assert!(scan_media_playlist(text, BASE).is_none());
}

#[test]
fn byte_range_past_u64_is_out_of_domain() {
    let text = "#EXT-X-BYTERANGE:10@18446744073709551610\na.ts\n";
    assert!(scan_media_playlist(text, BASE).is_none());
}

#[test]
fn unresolvable_segment_fails_the_playlist() {
    let text = "#EXTINF:1,\nhttp://[bad\n";
    assert!(parse_media_m3u8_content(text, BASE).is_err());
}

#[test]
fn byterange_values() {
    assert_eq!(parse_byterange_attr("\"82112@752\"", None), Some((752, 82112)));
    assert_eq!(parse_byterange_attr("100", Some(5)), Some((5, 100)));
    assert_eq!(parse_byterange_attr("100", None), Some((0, 100)));
    assert_eq!(parse_byterange_attr("100@", Some(9)), Some((9, 100)));
    assert_eq!(parse_byterange_attr("x@1", None), None);
    assert_eq!(parse_byterange_attr("1@x", None), None);
}

#[test]
fn stream_inf_attributes() {
    assert_eq!(
        parse_stream_inf("#EXT-X-STREAM-INF:BANDWIDTH=1280000,RESOLUTION=1280x720"),
        (Some(1280000), Some((1280, 720)))
    );
    assert_eq!(
        parse_stream_inf("#EXT-X-STREAM-INF:resolution=640x360,bandwidth=abc"),
        (None, Some((640, 360)))
    );
    assert_eq!(parse_stream_inf("#EXTINF:10,"), (None, None));
}

fn variant(uri: &str, bw: Option<usize>, h: Option<usize>) -> Variant {
    Variant {
        uri: uri.to_string(),
        bandwidth: bw,
        resolution: h.map(|h| (h * 16 / 9, h)),
    }
}

#[test]
fn variant_selection() {
    let vs = vec![
        variant("a", Some(3000), Some(720)),
        variant("b", Some(1000), Some(360)),
        variant("c", Some(5000), Some(1080)),
        variant("d", Some(4000), Some(720)),
    ];
    assert_eq!(select_variant(&vs, "highest").unwrap().uri, "c");
    assert_eq!(select_variant(&vs, " Lowest ").unwrap().uri, "b");
    assert_eq!(select_variant(&vs, "720").unwrap().uri, "d");
    assert_eq!(select_variant(&vs, "500").unwrap().uri, "b");
    assert_eq!(select_variant(&vs, "100").unwrap().uri, "c");
    assert_eq!(select_variant(&vs, "whatever").unwrap().uri, "c");
    assert!(select_variant(&[], "highest").is_none());
}

#[test]
fn equal_variants_keep_their_order() {
    let vs = vec![variant("x", None, None), variant("y", None, None)];
    assert_eq!(select_variant(&vs, "highest").unwrap().uri, "y");
    assert_eq!(select_variant(&vs, "lowest").unwrap().uri, "x");
}

#[test]
fn full_length_variants_are_preferred() {
    let vs = vec![
        variant("short-hd", Some(5000), Some(1080)),
        variant("full-sd", Some(1000), Some(480)),
        variant("full-hd", Some(4000), Some(720)),
    ];
    assert_eq!(choose_variant_index(&vs, &vec![false, true, true], "highest"), 2);
    assert_eq!(choose_variant_index(&vs, &vec![false, true, true], "lowest"), 1);
    assert_eq!(choose_variant_index(&vs, &vec![false, false, false], "highest"), 0);
}

#[test]
fn playlist_kinds() {
    let master = "#EXTM3U\n#EXT-X-STREAM-INF:BANDWIDTH=800000,RESOLUTION=640x360\n\
# comment\n\nlow/index.m3u8\n#EXT-X-STREAM-INF:BANDWIDTH=2000000\nhigh/index.m3u8\n";
    match playlist_kind(master, BASE).unwrap() {
        PlaylistKind::Master(vs) => {
            assert_eq!(vs.len(), 2);
            assert_eq!(vs[0].uri, "https://cdn.example.com/video/low/index.m3u8");
            assert_eq!(vs[0].bandwidth, Some(800000));
            assert_eq!(vs[0].resolution, Some((640, 360)));
            assert_eq!(vs[1].uri, "https://cdn.example.com/video/high/index.m3u8");
        }
        _ => panic!("expected a master playlist"),
    }
    assert!(matches!(
        playlist_kind("#EXTM3U\n#EXTINF:1,\na.ts\n", BASE).unwrap(),
        PlaylistKind::Media
    ));
    match playlist_kind("#EXTM3U\nsub/a.m3u8?x=1\nb.ts\n", BASE).unwrap() {
        PlaylistKind::Nested(urls) => {
            assert_eq!(urls, vec!["https://cdn.example.com/video/sub/a.m3u8?x=1".to_string()]);
        }
        _ => panic!("expected nested playlists"),
    }
    assert!(matches!(
        playlist_kind("#EXTM3U\nb.ts\n", BASE).unwrap(),
        PlaylistKind::Media
    ));
    assert_eq!(
        playlist_kind("#EXT-X-STREAM-INF:BANDWIDTH=1\n", BASE).err(),
        Some("Master playlist contains no valid STREAM-INF variants".to_string())
    );
    assert!(playlist_kind("#EXTINF:1,\na.ts\n", "not a url").is_err());
}

#[test]
fn playlists_nest_at_most_five_levels() {
    assert!(playlist_depth_check(0).is_ok());
    assert!(playlist_depth_check(5).is_ok());
    assert_eq!(
        playlist_depth_check(6),
        Err("M3U8 playlist recursion depth limit exceeded (> 5)".to_string())
    );
}

#[test]
fn the_first_full_length_source_is_taken() {
    assert_eq!(first_full_index(&vec![false, true, true]), Some(1));
    assert_eq!(first_full_index(&vec![false, false]), None);
    assert_eq!(first_full_index(&vec![]), None);
}
