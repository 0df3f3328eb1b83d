use avdl::commands::downloader::{resume_settings, unfinished_from_folder, SavedTaskMeta};
use avdl::downloader::engine::{
    after_merge, byte_range_header, concat_list, concurrency_limit, decode_segment,
    decrypt_init_segment, failed_segments_message, is_direct_mp4, next_retry_attempt,
    output_file_names, segment_file_name, settle_segments, temp_dir_name, temp_folder_for,
    AfterMerge, KeyPlan, SegmentsOutcome, key_plan,
};
use avdl::downloader::m3u8::M3u8Info;
use avdl::downloader::task::{TaskControlState, TaskRegistry};
use avdl::downloader::utils::{
    cf_headers_safe, direct_stream_headers, download_headers, get_iv_for_segment,
    hex_pairs_sliceable, is_same_site, parse_hex, referer_for, sanitize_filename,
    strip_fake_header,
};
use avdl::pattern::extract_video_code;
use avdl::scraper::Site;

#[test]
fn registry_rejects_a_second_start_while_running() {
    let mut reg = TaskRegistry::new();
    let g1 = reg.start("u", "dir", 3, "highest").unwrap();
    assert_eq!(g1, 1);
    assert_eq!(reg.state("u"), Some(TaskControlState::Running));
    assert_eq!(
        reg.start("u", "dir", 3, "highest").err(),
        Some("该影片已在下载中，请勿重复添加: u".to_string())
    );
    assert_eq!(reg.generation("u"), Some(1));
}

#[test]
fn pause_then_resume_supersedes_the_old_instance() {
    let mut reg = TaskRegistry::new();
    let g1 = reg.start("u", "dir", 4, "720").unwrap();
    reg.update_details("u", "Title", "dir2", 5, "1080");
    reg.pause("u");
    assert_eq!(reg.state("u"), Some(TaskControlState::Paused));
    assert!(reg.stop_requested("u"));
    let s = reg.resume("u").unwrap().unwrap();
    assert_eq!(s.save_dir, "dir2");
    assert_eq!(s.max_concurrent, 5);
    assert_eq!(s.resolution, "1080");
    assert_eq!(reg.state("u"), Some(TaskControlState::Running));
    assert!(!reg.is_current("u", g1));
    assert!(reg.is_current("u", reg.generation("u").unwrap()));
    assert_eq!(reg.get("u").unwrap().title, "Title");
    assert_eq!(
        reg.resume("u").err(),
        Some("该影片已在下载中，请勿重复启动: u".to_string())
    );
}

#[test]
fn resume_of_an_unknown_task_asks_for_recovery() {
    let mut reg = TaskRegistry::new();
    assert!(reg.resume("x").unwrap().is_none());
    let g = reg.register("x", "download", 3, "highest");
    assert_eq!(reg.generation("x"), Some(g));
}

#[test]
fn cancel_keeps_the_task_until_the_engine_removes_it() {
    let mut reg = TaskRegistry::new();
    reg.start("u", "d", 1, "highest").unwrap();
    let info = reg.cancel("u").unwrap();
    assert_eq!(info.state, TaskControlState::Cancelled);
    assert_eq!(info.save_dir, "d");
    assert!(reg.stop_requested("u"));
    reg.remove("u");
    assert_eq!(reg.state("u"), None);
    assert!(reg.cancel("u").is_none());
}

#[test]
fn segment_phase_outcomes() {
    let mut reg = TaskRegistry::new();
    let g = reg.start("u", "d", 1, "h").unwrap();
    assert!(matches!(settle_segments(&reg, "u", g, vec![]), SegmentsOutcome::Completed));
    match settle_segments(&reg, "u", g, vec![3, 7]) {
        SegmentsOutcome::Failed(v) => assert_eq!(v, vec![3, 7]),
        _ => panic!("expected a failure"),
    }
    reg.pause("u");
    assert!(matches!(settle_segments(&reg, "u", g, vec![1]), SegmentsOutcome::Paused));
    reg.cancel("u");
    assert!(matches!(settle_segments(&reg, "u", g, vec![]), SegmentsOutcome::Cancelled));
    assert!(matches!(settle_segments(&reg, "u", g + 1, vec![]), SegmentsOutcome::Superseded));
    assert!(matches!(settle_segments(&reg, "gone", 9, vec![]), SegmentsOutcome::Completed));
}

#[test]
fn after_merge_decisions() {
    let mut reg = TaskRegistry::new();
    let g = reg.start("u", "d", 1, "h").unwrap();
    assert_eq!(after_merge(&reg, "u", g), AfterMerge::Complete);
    reg.pause("u");
    assert_eq!(after_merge(&reg, "u", g), AfterMerge::Complete);
    reg.cancel("u");
    assert_eq!(after_merge(&reg, "u", g), AfterMerge::Discard);
    assert_eq!(after_merge(&reg, "u", g + 1), AfterMerge::Abandon);
}

#[test]
fn retries_and_limits() {
    assert_eq!(next_retry_attempt(2, 0), Some(1));
    assert_eq!(next_retry_attempt(2, 2), Some(3));
    assert_eq!(next_retry_attempt(2, 3), None);
    assert_eq!(next_retry_attempt(0, 0), None);
    assert_eq!(concurrency_limit(0), 1);
    assert_eq!(concurrency_limit(8), 8);
    assert_eq!(concurrency_limit(64), 16);
    assert_eq!(
        failed_segments_message(4),
        "4 个分片下载失败（已重试 3 次），可点击「继续」断点续传"
    );
}

#[test]
fn names_and_headers_of_a_download() {
    assert_eq!(byte_range_header(752, 82112), "bytes=752-82863");
    assert_eq!(byte_range_header(5, 0), "bytes=5-5");
    assert_eq!(segment_file_name(12), "12.ts");
    assert_eq!(concat_list(2), "file '0.ts'\nfile '1.ts'\n");
    assert_eq!(concat_list(0), "");
    assert_eq!(
        output_file_names("a_b"),
        ("a_b.mp4".to_string(), "a_b.ts".to_string())
    );
    assert_eq!(temp_dir_name("t"), "temp_t");
    assert!(is_direct_mp4("https://x/y.mp4?a=1"));
    assert!(is_direct_mp4("https://x/get_video?id=1"));
    assert!(!is_direct_mp4("https://x/y.m3u8"));
}

#[test]
fn video_codes() {
    assert_eq!(extract_video_code("https://jable.tv/videos/SSIS-001/"), Some("ssis-001".to_string()));
    assert_eq!(extract_video_code("temp_ABP-1234567 title"), Some("abp-123456".to_string()));
    assert_eq!(extract_video_code("abcdefghijkl-123"), Some("cdefghijkl-123".to_string()));
    assert_eq!(extract_video_code("x-12"), None);
    assert_eq!(extract_video_code("no code here"), None);
}

#[test]
fn temporary_folder_found_by_code() {
    let names = vec![
        "other".to_string(),
        "temp_Old Title ABC-123".to_string(),
        "temp_abc-123 again".to_string(),
    ];
    assert_eq!(temp_folder_for("https://jable.tv/videos/abc-123/", &names), Some(1));
    assert_eq!(temp_folder_for("https://jable.tv/videos/xyz-999/", &names), None);
    assert_eq!(temp_folder_for("https://jable.tv/", &names), None);
}

#[test]
fn segments_are_decoded() {
    let data = vec![1u8, 2, 3];
    assert_eq!(decode_segment(Site::Jable, None, 0, &None, data.clone()).unwrap(), data);
    assert_eq!(
        decode_segment(Site::Jable, Some(&[0u8; 15][..]), 0, &None, vec![0u8; 16]).err(),
        Some("Invalid Length".to_string())
    );
    assert_eq!(
        decode_segment(Site::Jable, Some(&[0u8; 16][..]), 0, &None, vec![0u8; 15]).err(),
        Some("decryption error: Unpad Error".to_string())
    );
    let plain = decode_segment(Site::Jable, Some(&[7u8; 16][..]), 3, &None, vec![9u8; 32]).unwrap();
    assert_eq!(plain.len(), 32);
    assert_ne!(plain, vec![9u8; 32]);
    let mut ts = vec![0x89u8, 0x50];
    ts.extend(std::iter::repeat(0u8).take(10));
    let start = ts.len();
    ts.extend(std::iter::repeat(0u8).take(188 * 5));
    for n in 0..5 {
        ts[start + 188 * n] = 0x47;
    }
    let stripped = decode_segment(Site::Supjav, None, 0, &None, ts.clone()).unwrap();
    assert_eq!(stripped, ts[start..].to_vec());
    assert_eq!(decrypt_init_segment(&[1u8; 3], &None, vec![5u8; 16]), vec![5u8; 16]);
}

#[test]
fn ivs_and_hex() {
    assert_eq!(parse_hex("0x0a0B"), Some(vec![10, 11]));
    assert_eq!(parse_hex("abc"), None);
    assert_eq!(parse_hex("zz"), None);
    assert_eq!(parse_hex("+f"), Some(vec![15]));
    assert!(hex_pairs_sliceable("0x00ff"));
    assert!(!hex_pairs_sliceable("0\u{e9}a"));
    assert!(hex_pairs_sliceable("zz0\u{e9}a"));
    let iv = get_iv_for_segment(258, &None);
    assert_eq!(iv[14..], [1, 2]);
    assert_eq!(iv[..14], [0u8; 14]);
    let custom = get_iv_for_segment(0, &Some(vec![1, 2, 3]));
    assert_eq!(custom[13..], [1, 2, 3]);
}

#[test]
fn fake_headers_and_file_names() {
    assert_eq!(sanitize_filename("a/b:c*d?\"e<f>g|h\\i"), "a_b_c_d__e_f_g_h_i");
    let data = vec![0x47u8, 1, 2];
    assert_eq!(strip_fake_header(&data), &data[..]);
    assert_eq!(strip_fake_header(&[1u8, 2, 3]), &[] as &[u8]);
}

#[test]
fn download_request_headers() {
    assert_eq!(referer_for("https://jable.tv/videos/x/"), Some("https://jable.tv/".to_string()));
    assert_eq!(referer_for("nope"), None);
    assert!(is_same_site("https://www.jable.tv/a", "https://jable.tv/b"));
    assert!(is_same_site("https://cdn.missav.ws/x", "https://missav.ws/y"));
    assert!(!is_same_site("https://cdn.example.com/x", "https://jable.tv/y"));
    let h = cf_headers_safe("https://cdn.example.com/x", "https://jable.tv/y", "abc", " UA ");
    assert_eq!(h, vec![("user-agent".to_string(), "UA".to_string())]);
    let h = download_headers("https://jable.tv/x.m3u8", "https://jable.tv/v/", "a=1; cf_clearance=\"tok\"; b", "");
    assert_eq!(
        h,
        vec![
            ("referer".to_string(), "https://jable.tv/".to_string()),
            ("cookie".to_string(), "cf_clearance=tok".to_string()),
        ]
    );
    let d = direct_stream_headers("https://streamtape.com/get_video?id=1", "https://supjav.com/x", "c", "ua");
    assert_eq!(
        d,
        vec![
            ("referer".to_string(), "https://streamtape.com/".to_string()),
            ("user-agent".to_string(), "ua".to_string()),
        ]
    );
}

#[test]
fn resume_and_recovery_settings() {
    let (site, dir, max, res) = resume_settings(None, None, None, None, None);
    assert_eq!(site, Site::Jable);
    assert_eq!(dir, "download");
    assert_eq!(max, 3);
    assert_eq!(res, "highest");
    let meta = SavedTaskMeta {
        site: Some(Site::Missav),
        save_dir: "/d".to_string(),
        title: "t".to_string(),
        max_concurrent: 6,
        resolution: "720".to_string(),
    };
    let (site, dir, max, res) = resume_settings(Some(Site::Supjav), None, Some(1), None, Some(meta.clone()));
    assert_eq!((site, dir.as_str(), max, res.as_str()), (Site::Supjav, "/d", 6, "720"));
    let (site, _, _, _) = resume_settings(None, None, None, None, Some(meta));
    assert_eq!(site, Site::Missav);
}

#[test]
fn unfinished_download_from_its_folder() {
    let t = unfinished_from_folder("temp_SSIS-001 Title", "download", 5);
    assert_eq!(t.url, "https://jable.tv/videos/ssis-001/");
    assert_eq!(t.title, "SSIS-001 Title");
    assert_eq!(t.total_segments, 15);
    assert_eq!(t.completed_segments, 5);
    let u = unfinished_from_folder("temp_plain", "d", 0);
    assert_eq!(u.url, "https://jable.tv/search/plain/");
    assert_eq!(u.total_segments, 100);
    assert_eq!(u.max_concurrent, 3);
    assert_eq!(u.resolution, "highest");
}

#[test]
fn a_fresh_registry_has_generations_left() {
    let mut reg = TaskRegistry::new();
    assert!(reg.has_generation_left());
    reg.start("u", "dir", 3, "highest").unwrap();
    assert!(reg.has_generation_left());
}

#[test]
fn hex_text_parses_back_to_its_bytes() {
    let bytes: Vec<u8> = vec![0x00, 0x2a, 0xff, 0x10];
    let hx: String = bytes.iter().map(|b| format!("{:02x}", b)).collect();
    assert_eq!(parse_hex(&hx), Some(bytes.clone()));
    assert_eq!(parse_hex(&format!("0x{}", hx)), Some(bytes.clone()));
    assert_eq!(parse_hex(&hx.to_uppercase()), Some(bytes));
    let mut expected = vec![0u8; 15];
    expected.push(0x2a);
    assert_eq!(parse_hex("0x0000000000000000000000000000002a"), Some(expected));
}

#[test]
fn streams_without_a_key_are_read_in_the_clear() {
    let mut info = M3u8Info {
        segments: vec![],
        segment_durations: vec![],
        init_segment: None,
        key_url: None,
        iv: None,
    };
    assert!(matches!(key_plan(&info), KeyPlan::Clear));
    info.key_url = Some("https://cdn.example.com/key.bin".to_string());
    match key_plan(&info) {
        KeyPlan::Fetch(u) => assert_eq!(u, "https://cdn.example.com/key.bin"),
        KeyPlan::Clear => panic!("expected a key fetch"),
    }
}
