use std::cmp::Ordering;

use tmux_agent_sidebar::version::compare_versions;
use tmux_agent_sidebar::version::fetch_latest_release_version;
use tmux_agent_sidebar::version::fetch_update_notice;
use tmux_agent_sidebar::version::normalize_version;
use tmux_agent_sidebar::version::parse_version_parts;
use tmux_agent_sidebar::version::update_notice;
use tmux_agent_sidebar::version::UpdateNotice;

#[test]
fn update_notice_formats_with_release_prefix() {
    let notice = UpdateNotice {
        local_version: "0.2.6".into(),
        latest_version: "0.2.7".into(),
    };
    let label = format!("new release v{}!", notice.latest_version);
    assert_eq!(label, "new release v0.2.7!");
}

#[test]
fn compare_versions_orders_newer_release_higher() {
    assert_eq!(compare_versions("0.2.7", "0.2.6"), Ordering::Greater);
    assert_eq!(compare_versions("0.2.6", "0.2.7"), Ordering::Less);
}

#[test]
fn compare_versions_handles_prefix_and_missing_segments() {
    assert_eq!(compare_versions("v0.2.7", "0.2.7"), Ordering::Equal);
    assert_eq!(compare_versions("0.3", "0.2.9"), Ordering::Greater);
}

#[test]
fn normalize_version_strips_tag_prefix() {
    assert_eq!(normalize_version("v1.2.3"), Some("1.2.3".into()));
}

#[test]
fn version_parts_are_leading_numbers() {
    assert_eq!(parse_version_parts("v1.2-rc.x.9"), vec![1, 2, 0, 9]);
    assert_eq!(parse_version_parts(""), vec![0]);
    assert_eq!(parse_version_parts("99999999999999999999.1"), vec![0, 1]);
    assert_eq!(normalize_version(" vv2 "), Some("2".to_string()));
    assert_eq!(normalize_version(" v "), None);
    assert_eq!(compare_versions("1", "1.0.0"), Ordering::Equal);
}

#[test]
fn a_release_document_names_its_version() {
    let version = |text: &str| fetch_latest_release_version(text.as_bytes());
    assert_eq!(version("{\"tag_name\": \"v1.2.3\"}"), Some("1.2.3".to_string()));
    assert_eq!(
        version("{\"tag_name\": \"v1.2.3\", \"name\": \"4\"}"),
        Some("1.2.3".to_string())
    );
    assert_eq!(version("{\"tag_name\": 5, \"name\": \"v4\"}"), Some("4".to_string()));
    assert_eq!(version("{\"tag_name\": \"v\", \"name\": \"v4\"}"), None);
    assert_eq!(version("{\"other\": \"v4\"}"), None);
    assert_eq!(version("[\"tag_name\"]"), None);
    assert_eq!(version("{"), None);
}

#[test]
fn only_newer_releases_are_announced() {
    let notice = update_notice(Some("0.2.7".to_string()), "0.2.6").unwrap();
    assert_eq!(notice.local_version, "0.2.6");
    assert_eq!(notice.latest_version, "0.2.7");
    assert!(update_notice(Some("0.2.6".to_string()), "0.2.6").is_none());
    assert!(update_notice(Some("0.2.5".to_string()), "0.2.6").is_none());
    assert!(update_notice(None, "0.2.6").is_none());
    let newer = "{\"tag_name\": \"v999.0.0\"}".as_bytes();
    assert_eq!(fetch_update_notice(Some(newer)).unwrap().latest_version, "999.0.0");
    assert!(fetch_update_notice(None).is_none());
}
