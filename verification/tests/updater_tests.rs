use avdl::commands::updater::{is_newer, needs_release_list, pick_release_fields, release_fields, update_info, ReleaseJson};

#[test]
fn semver_comparison() {
    assert!(is_newer("0.1.6", "0.1.5"));
    assert!(is_newer("v0.1.6", "0.1.5"));
    assert!(is_newer("1.0.0", "0.9.9"));
    assert!(is_newer("0.2.0", "0.1.99"));
    assert!(!is_newer("0.1.5", "0.1.5"));
    assert!(!is_newer("0.1.4", "0.1.5"));
    assert!(!is_newer("0.1.5-beta.1", "0.1.5"));
    assert!(is_newer("0.1.6", "0.1.5-beta.1"));
}

fn release(tag: &str, prerelease: bool, draft: bool) -> ReleaseJson {
    ReleaseJson {
        is_object: true,
        tag_name: Some(tag.to_string()),
        body: Some(format!("changelog for {}", tag)),
        html_url: Some(format!("https://example.com/releases/{}", tag)),
        published_at: Some("2026-08-01T00:00:00Z".to_string()),
        prerelease: Some(prerelease),
        draft: Some(draft),
    }
}

#[test]
fn picks_latest_stable_release() {
    let latest = release("v0.1.6", false, false);
    let (tag, body, url, _) = pick_release_fields(&latest, None).unwrap();
    assert_eq!(tag, "v0.1.6");
    assert!(body.contains("v0.1.6"));
    assert!(url.contains("v0.1.6"));
}

#[test]
fn falls_back_to_stable_when_latest_is_prerelease() {
    let latest = release("v0.2.0-beta.1", true, false);
    let list = vec![release("v0.1.6", false, false), latest.clone()];
    let (tag, _, _, _) = pick_release_fields(&latest, Some(&list)).unwrap();
    assert_eq!(tag, "v0.1.6");
}

#[test]
fn errors_when_no_stable_release_exists() {
    let latest = release("v0.2.0-beta.1", true, false);
    let list = vec![release("v0.2.0-beta.2", true, false)];
    assert!(pick_release_fields(&latest, Some(&list)).is_err());
}

#[test]
fn release_errors_name_the_cause() {
    let latest = release("v0.2.0-beta.1", true, false);
    assert_eq!(pick_release_fields(&latest, None).err(), Some("GitHub 返回数据异常".to_string()));
    let list = vec![release("v0.2.0-beta.2", false, true)];
    assert_eq!(pick_release_fields(&latest, Some(&list)).err(), Some("没有可用的正式版本".to_string()));
    let mut bad = release("", false, false);
    bad.tag_name = None;
    assert_eq!(pick_release_fields(&bad, None).err(), Some("GitHub 返回数据异常".to_string()));
}

#[test]
fn release_fields_need_an_object_with_tag_and_page() {
    let mut r = release("v1.0.0", false, false);
    assert_eq!(
        release_fields(&r),
        Some((
            "v1.0.0".to_string(),
            "changelog for v1.0.0".to_string(),
            "https://example.com/releases/v1.0.0".to_string(),
            Some("2026-08-01T00:00:00Z".to_string())
        ))
    );
    r.html_url = Some(String::new());
    assert_eq!(release_fields(&r), None);
    let mut o = release("v1.0.0", false, false);
    o.is_object = false;
    assert_eq!(release_fields(&o), None);
}

#[test]
fn update_info_compares_with_the_running_version() {
    let info = update_info(
        "0.1.5",
        ("v0.1.6".to_string(), "fix".to_string(), "u".to_string(), None),
    );
    assert!(info.update_available);
    assert_eq!(info.current_version, "0.1.5");
    let same = update_info("0.1.6", ("v0.1.6".to_string(), String::new(), String::new(), None));
    assert!(!same.update_available);
}

#[test]
fn release_list_is_needed_for_prereleases_and_drafts() {
    assert!(!needs_release_list(&release("v0.1.6", false, false)));
    assert!(needs_release_list(&release("v0.2.0-beta.1", true, false)));
    assert!(needs_release_list(&release("v0.2.0", false, true)));
}
