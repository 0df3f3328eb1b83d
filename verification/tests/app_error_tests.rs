use avdl::commands::cf::{
    challenge_pending, probe_authorized, probe_headers, verifier_target, verifier_window_title,
    PollAction, VerifierState,
};
use avdl::error::{map_scraper_error, AppError};

#[test]
fn errors_as_json() {
    assert_eq!(AppError::simple("X").to_json(), r#"{"code":"X","params":null}"#);
    assert_eq!(
        AppError::with_param("E", "url", "a\"b").to_json(),
        r#"{"code":"E","params":{"url":"a\"b"}}"#
    );
    assert_eq!(
        map_scraper_error("HTTP Error: 403 Forbidden", "https://missav.ws/new"),
        r#"{"code":"CF_VERIFICATION_REQUIRED","params":{"domain":"missav.ws"}}"#
    );
    assert_eq!(
        map_scraper_error("blocked by Cloudflare", "weird"),
        r#"{"code":"CF_VERIFICATION_REQUIRED","params":{"domain":"weird"}}"#
    );
    assert_eq!(
        map_scraper_error("timeout", "https://jable.tv/"),
        r#"{"code":"NETWORK_CONNECT_FAILED","params":{"url":"https://jable.tv/"}}"#
    );
}

#[test]
fn verifier_window() {
    assert_eq!(
        verifier_target("https://www.missav.ws/x").unwrap(),
        ("www.missav.ws".to_string(), "cf_verifier_www_missav_ws".to_string())
    );
    assert!(verifier_target("bad url").is_err());
    assert_eq!(verifier_target("data:text/plain,x").err(), Some("Invalid host in URL".to_string()));
    assert_eq!(verifier_window_title("a.b"), "防爬驗證 - a.b");
    assert!(challenge_pending("Just a moment...", "https://x"));
    assert!(challenge_pending("ok", "https://x/?__cf_challenge=1"));
    assert!(!challenge_pending("Home", "https://x/"));
    assert!(probe_authorized(200) && probe_authorized(302) && !probe_authorized(403));
    let h = probe_headers("tok", "ua");
    assert_eq!(h.len(), 4);
    assert_eq!(h[3], ("cookie".to_string(), "cf_clearance=tok".to_string()));
}

#[test]
fn clearance_settles_before_it_is_probed() {
    let mut st = VerifierState::new("old");
    assert!(matches!(st.on_poll("Home", "u", None), PollAction::Wait));
    assert!(matches!(st.on_poll("Home", "u", Some("old")), PollAction::Wait));
    assert!(st.latest_seen.is_none());
    assert!(matches!(st.on_poll("Just a moment...", "u", Some("a")), PollAction::Wait));
    assert!(matches!(st.on_poll("Home", "u", Some("b")), PollAction::Wait));
    assert_eq!(st.stable_count, 1);
    assert!(matches!(st.on_poll("Home", "u", Some("b")), PollAction::Wait));
    match st.on_poll("Home", "u", Some("b")) {
        PollAction::Probe(c) => assert_eq!(c, "b"),
        PollAction::Wait => panic!("expected a probe"),
    }
    assert!(!st.on_probe(Some(403)));
    assert_eq!(st.stable_count, 0);
    assert!(matches!(st.on_poll("Home", "u", Some("b")), PollAction::Wait));
    assert!(st.on_probe(Some(200)));
    assert_eq!(st.fallback(false), Some("b".to_string()));
    assert_eq!(st.fallback(true), None);
}

#[test]
fn blank_clearance_is_never_probed_or_saved() {
    let mut st = VerifierState::new("");
    for _ in 0..5 {
        assert!(matches!(st.on_poll("Home", "u", Some("")), PollAction::Wait));
        assert!(matches!(st.on_poll("Home", "u", Some("   ")), PollAction::Wait));
    }
    assert_eq!(st.stable_count, 0);
    assert!(st.latest_seen.is_none());
    assert_eq!(st.fallback(false), None);
}

#[test]
fn parameters_are_escaped_as_json_strings() {
    assert_eq!(
        AppError::with_param("E", "k", "a\nb\u{1}\\").to_json(),
        "{\"code\":\"E\",\"params\":{\"k\":\"a\\nb\\u0001\\\\\"}}"
    );
}

#[test]
fn the_clearance_saved_before_is_never_saved_again() {
    let mut st = VerifierState::new("x");
    st.latest_seen = Some("x".to_string());
    assert_eq!(st.fallback(false), None);
    st.latest_seen = Some("y".to_string());
    assert_eq!(st.fallback(false), Some("y".to_string()));
}
