//! Tests of the session-listing view filter.

use roadmap_manager::sessions::{get_sessions, SessionRecord};

fn record(directory: &str, parent_id: Option<&str>, title: &str) -> SessionRecord {
    SessionRecord {
        directory: directory.as_bytes().to_vec(),
        parent_id: parent_id.map(|p| p.as_bytes().to_vec()),
        title: title.as_bytes().to_vec(),
    }
}

#[test]
fn filter_keeps_only_parentless_sessions_of_the_project_dir() {
    let sessions = vec![
        record("/x", None, "t1"),
        record("/x", Some("p"), "t2"),
        record("/y", None, "t3"),
        record("/x", None, "modal-prompt:abc"),
    ];
    let out = get_sessions(&sessions, &b"/x".to_vec());
    assert_eq!(out.len(), 1);
    assert_eq!(out[0].title, b"t1".to_vec());
    assert_eq!(out[0].directory, b"/x".to_vec());
    assert!(out[0].parent_id.is_none());
}

#[test]
fn filter_drops_subagent_marker_titles() {
    let sessions = vec![
        record("/x", None, "planning with @subagent help"),
        record("/x", None, "plain title"),
    ];
    let out = get_sessions(&sessions, &b"/x".to_vec());
    assert_eq!(out.len(), 1);
    assert_eq!(out[0].title, b"plain title".to_vec());
}

#[test]
fn filter_keeps_order_and_duplicates() {
    let sessions = vec![
        record("/x", None, "one"),
        record("/x", None, "two"),
        record("/x", None, "one"),
    ];
    let out = get_sessions(&sessions, &b"/x".to_vec());
    let titles: Vec<Vec<u8>> = out.into_iter().map(|s| s.title).collect();
    assert_eq!(titles, vec![b"one".to_vec(), b"two".to_vec(), b"one".to_vec()]);
}

#[test]
fn modal_marker_must_be_a_prefix_to_drop() {
    let sessions = vec![record("/x", None, "about modal-prompt: usage")];
    let out = get_sessions(&sessions, &b"/x".to_vec());
    assert_eq!(out.len(), 1);
}

#[test]
fn empty_listing_filters_to_empty() {
    let out = get_sessions(&Vec::new(), &b"/x".to_vec());
    assert!(out.is_empty());
}
