use caffeine::infrastructure::update_checker::{newer_release, newer_tag, semver_gt};

#[test]
fn semver_comparison() {
    assert!(semver_gt("0.3.6", "0.3.5"));
    assert!(semver_gt("0.4.0", "0.3.9"));
    assert!(semver_gt("1.0.0", "0.99.99"));
    assert!(!semver_gt("0.3.5", "0.3.5"));
    assert!(!semver_gt("0.3.4", "0.3.5"));
    // Missing or unreadable parts count as 0.
    assert!(!semver_gt("1", "1.0.0"));
    assert!(semver_gt("1.1", "1.0.9"));
    assert!(!semver_gt("1.x.0", "1.0.0"));
    assert!(semver_gt("1.x.5", "1.0.4"));
    assert!(semver_gt("2.0.0-beta", "1.9.9"));
    assert!(!semver_gt("", "0.0.0"));
    assert!(semver_gt("0.0.1.9", "0.0.0.9"));
    assert!(semver_gt("+1.0.0", "0.9.0"));
}

#[test]
fn newer_tag_ignores_leading_v() {
    assert_eq!(newer_tag("v0.4.0", "0.3.5"), Some("v0.4.0".to_string()));
    assert_eq!(newer_tag("vv1.0.0", "0.3.5"), Some("vv1.0.0".to_string()));
    assert_eq!(newer_tag("v0.3.5", "0.3.5"), None);
    assert_eq!(newer_tag("0.3.6", "0.3.5"), Some("0.3.6".to_string()));
}

#[test]
fn newer_release_reads_the_json_body() {
    let body = r#"{"tag_name": "v9.9.9", "name": "release"}"#;
    assert_eq!(newer_release(body, "0.3.5"), Some("v9.9.9".to_string()));
    assert_eq!(newer_release(r#"{"tag_name":"v0.1.0"}"#, "0.3.5"), None);
    assert_eq!(newer_release(r#"{"name":"v9.9.9"}"#, "0.3.5"), None);
    assert_eq!(newer_release(r#"{"tag_name": 7}"#, "0.3.5"), None);
    assert_eq!(newer_release("not json", "0.3.5"), None);
    assert_eq!(newer_release(r#"{"tag_name":"v1.2.3"} trailing"#, "0.3.5"), None);
}
