//! Tests of line scanning, deduplication and the byte utilities.

use roadmap_manager::ascii::{contains_bytes, has_prefix, trim, u64_to_dec};
use roadmap_manager::dedup::Dedup;
use roadmap_manager::sse::LineScanner;

#[test]
fn lines_split_only_at_line_feeds() {
    let mut sc = LineScanner::new();
    let lines = sc.push_chunk(&b"one\ntwo\nthr".to_vec());
    assert_eq!(lines, vec![b"one".to_vec(), b"two".to_vec()]);
    let lines = sc.push_chunk(&b"ee\n".to_vec());
    assert_eq!(lines, vec![b"three".to_vec()]);
}

#[test]
fn a_line_split_across_many_chunks_is_reassembled() {
    let mut sc = LineScanner::new();
    assert!(sc.push_chunk(&b"da".to_vec()).is_empty());
    assert!(sc.push_chunk(&b"ta: ".to_vec()).is_empty());
    assert!(sc.push_chunk(&b"x".to_vec()).is_empty());
    let lines = sc.push_chunk(&b"\n".to_vec());
    assert_eq!(lines, vec![b"data: x".to_vec()]);
}

#[test]
fn empty_chunks_change_nothing() {
    let mut sc = LineScanner::new();
    assert!(sc.push_chunk(&Vec::new()).is_empty());
    let lines = sc.push_chunk(&b"a\n".to_vec());
    assert_eq!(lines, vec![b"a".to_vec()]);
}

#[test]
fn dedup_accepts_an_identity_exactly_once() {
    let mut d = Dedup::new();
    assert!(d.observe(&b"id-1".to_vec()));
    assert!(!d.observe(&b"id-1".to_vec()));
    assert!(d.observe(&b"id-2".to_vec()));
    assert!(!d.observe(&b"id-1".to_vec()));
    assert!(!d.observe(&b"id-2".to_vec()));
}

#[test]
fn decimal_rendering_is_exact() {
    assert_eq!(u64_to_dec(0), b"0".to_vec());
    assert_eq!(u64_to_dec(7), b"7".to_vec());
    assert_eq!(u64_to_dec(51466), b"51466".to_vec());
    assert_eq!(u64_to_dec(u64::MAX), b"18446744073709551615".to_vec());
}

#[test]
fn trim_strips_ascii_whitespace_on_both_ends() {
    assert_eq!(trim(&b"  data: x\r\n".to_vec()), b"data: x".to_vec());
    assert_eq!(trim(&b"\t\t".to_vec()), Vec::<u8>::new());
    assert_eq!(trim(&b"plain".to_vec()), b"plain".to_vec());
}

#[test]
fn prefix_and_containment_checks() {
    assert!(has_prefix(&b"data: x".to_vec(), &b"data: ".to_vec()));
    assert!(!has_prefix(&b"dat".to_vec(), &b"data: ".to_vec()));
    assert!(contains_bytes(&b"with @subagent inside".to_vec(), &b"@subagent".to_vec()));
    assert!(!contains_bytes(&b"with @subagen inside".to_vec(), &b"@subagent".to_vec()));
}
