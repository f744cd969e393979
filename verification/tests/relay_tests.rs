//! End-to-end tests of the dispatcher and the streaming relay.

use roadmap_manager::dispatch::{dispatch_response, Operation};
use roadmap_manager::event::identity_for;
use roadmap_manager::relay::RelaySession;

fn names(emissions: &[roadmap_manager::dispatch::Emission]) -> Vec<String> {
    emissions.iter().map(|e| String::from_utf8(e.name.clone()).unwrap()).collect()
}

fn payloads(emissions: &[roadmap_manager::dispatch::Emission]) -> Vec<String> {
    emissions.iter().map(|e| String::from_utf8(e.payload.clone()).unwrap()).collect()
}

#[test]
fn duplicate_explicit_id_delivered_once_then_done() {
    let body = b"data: {\"type\":\"a\",\"id\":\"1\"}\n\ndata: {\"type\":\"a\",\"id\":\"1\"}\n\ndata: {\"type\":\"b\"}\n\n";
    let chunks = vec![body.to_vec()];
    let (emissions, result) = dispatch_response(Operation::Navigate, &None, 200, &chunks);
    assert!(result.is_ok());
    assert_eq!(emissions.len(), 3);
    assert_eq!(
        names(&emissions),
        vec![
            "execute-navigate-event".to_string(),
            "execute-navigate-event".to_string(),
            "execute-navigate-done".to_string()
        ]
    );
    assert_eq!(payloads(&emissions)[0], "{\"type\":\"a\",\"id\":\"1\"}");
    assert_eq!(payloads(&emissions)[1], "{\"type\":\"b\"}");
    assert_eq!(payloads(&emissions)[2], "{}");
}

#[test]
fn synthesized_identity_uses_ordinal_of_parsed_events() {
    // the third parsed event (two before it, one a duplicate) gets
    // ordinal 2: identity "b--2"
    let id = identity_for(&Vec::new(), &Vec::new(), &b"b".to_vec(), &None, 2);
    assert_eq!(id, b"b--2".to_vec());
}

#[test]
fn error_status_fails_with_body_and_emits_only_done() {
    let chunks = vec![b"boom".to_vec()];
    let (emissions, result) = dispatch_response(Operation::Navigate, &None, 500, &chunks);
    let err = String::from_utf8(result.unwrap_err()).unwrap();
    assert_eq!(err, "Execute failed: boom");
    assert_eq!(emissions.len(), 1);
    assert_eq!(names(&emissions), vec!["execute-navigate-done".to_string()]);
}

#[test]
fn error_status_never_parses_the_body_as_a_stream() {
    // the body even looks like a valid event stream; with status 500 no
    // event emission may appear
    let chunks = vec![b"data: {\"type\":\"a\",\"id\":\"1\"}\n\n".to_vec()];
    let (emissions, result) = dispatch_response(Operation::ModalPrompt, &None, 500, &chunks);
    assert!(result.is_err());
    assert_eq!(emissions.len(), 1);
    assert_eq!(names(&emissions), vec!["execute-modal-prompt-done".to_string()]);
}

#[test]
fn rechunking_the_same_bytes_yields_the_same_events() {
    let body: &[u8] = b"data: {\"type\":\"a\",\"id\":\"1\"}\n\ndata: {\"type\":\"b\",\"id\":\"2\"}\n\n";
    let whole = vec![body.to_vec()];
    // cut in the middle of a line, in the middle of the prefix, byte by byte
    let mut cuts: Vec<Vec<Vec<u8>>> = vec![
        vec![body[..7].to_vec(), body[7..].to_vec()],
        vec![body[..2].to_vec(), body[2..30].to_vec(), body[30..].to_vec()],
        body.iter().map(|b| vec![*b]).collect(),
    ];
    let (reference, _) = dispatch_response(Operation::Navigate, &None, 200, &whole);
    for chunks in cuts.drain(..) {
        let (emissions, result) = dispatch_response(Operation::Navigate, &None, 200, &chunks);
        assert!(result.is_ok());
        assert_eq!(payloads(&emissions), payloads(&reference));
        assert_eq!(names(&emissions), names(&reference));
    }
}

#[test]
fn unterminated_trailing_line_is_not_delivered() {
    let chunks = vec![b"data: {\"type\":\"a\",\"id\":\"1\"}".to_vec()];
    let (emissions, result) = dispatch_response(Operation::Navigate, &None, 200, &chunks);
    assert!(result.is_ok());
    // no terminator ever arrived: only done
    assert_eq!(emissions.len(), 1);
    assert_eq!(names(&emissions), vec!["execute-navigate-done".to_string()]);
}

#[test]
fn invalid_json_lines_are_dropped_as_noise() {
    let body = b"data: not json at all\n\nevent: something\n\ndata: {\"type\":\"ok\",\"id\":\"x\"}\n\n";
    let chunks = vec![body.to_vec()];
    let (emissions, result) = dispatch_response(Operation::Navigate, &None, 200, &chunks);
    assert!(result.is_ok());
    assert_eq!(emissions.len(), 2);
    assert_eq!(payloads(&emissions)[0], "{\"type\":\"ok\",\"id\":\"x\"}");
}

#[test]
fn modal_prompt_synthesized_ids_do_not_collide_with_navigate() {
    let modal_id = identity_for(&b"modal-".to_vec(), &b"s1".to_vec(), &b"a".to_vec(), &None, 0);
    let nav_id = identity_for(&Vec::new(), &b"s1".to_vec(), &b"a".to_vec(), &None, 0);
    assert_eq!(modal_id, b"modal-a-s1-0".to_vec());
    assert_eq!(nav_id, b"a-s1-0".to_vec());
}

#[test]
fn session_streams_incrementally_across_push_calls() {
    let mut session = RelaySession::new(Vec::new(), b"sid".to_vec());
    let first = session.push_chunk(&b"data: {\"type\":\"a\",\"id\":\"7\"}\n\nda".to_vec());
    assert_eq!(first, vec![b"{\"type\":\"a\",\"id\":\"7\"}".to_vec()]);
    // the retransmission of id 7 is dropped, the fresh event survives
    let second = session.push_chunk(
        &b"ta: {\"type\":\"a\",\"id\":\"7\"}\n\ndata: {\"type\":\"c\"}\n\n".to_vec(),
    );
    assert_eq!(second, vec![b"{\"type\":\"c\"}".to_vec()]);
}

#[test]
fn crlf_line_endings_are_tolerated() {
    let body = b"data: {\"type\":\"a\",\"id\":\"1\"}\r\n\r\ndata: {\"type\":\"a\",\"id\":\"1\"}\r\n\r\n";
    let (emissions, result) = dispatch_response(Operation::Navigate, &None, 200, &vec![body.to_vec()]);
    assert!(result.is_ok());
    // the duplicate is dropped; the carriage return never reaches the payload
    assert_eq!(emissions.len(), 2);
    assert_eq!(payloads(&emissions)[0], "{\"type\":\"a\",\"id\":\"1\"}");
}

#[test]
fn session_id_feeds_the_synthesized_identity() {
    let body = b"data: {\"type\":\"a\"}\n\n";
    let sid = Some(b"conv9".to_vec());
    let (emissions, result) = dispatch_response(Operation::Navigate, &sid, 200, &vec![body.to_vec()]);
    assert!(result.is_ok());
    assert_eq!(emissions.len(), 2);
    // the identity the relay would assign is kind-session-ordinal
    let id = identity_for(&Vec::new(), &b"conv9".to_vec(), &b"a".to_vec(), &None, 0);
    assert_eq!(id, b"a-conv9-0".to_vec());
}

#[test]
fn explicit_id_present_but_not_a_string_falls_back_to_ordinal() {
    let body = b"data: {\"type\":\"n\",\"id\":5}\n\ndata: {\"type\":\"n\",\"id\":5}\n\n";
    let chunks = vec![body.to_vec()];
    let (emissions, result) = dispatch_response(Operation::Navigate, &None, 200, &chunks);
    assert!(result.is_ok());
    // both events synthesize distinct ordinal identities: both delivered
    assert_eq!(emissions.len(), 3);
}
