//! Tests of request framing, URLs and the document-store helpers.

use roadmap_manager::config::{get_roadmap_path, roadmap_or_default};
use roadmap_manager::dispatch::{operation_url, transport_error, Operation};
use roadmap_manager::request::{build_request_body, ModelInfo, RequestDescriptor};

#[test]
fn body_with_prompt_only() {
    let r = RequestDescriptor {
        prompt: b"add a milestone".to_vec(),
        session_id: None,
        model: None,
    };
    let body = String::from_utf8(build_request_body(&r)).unwrap();
    assert_eq!(body, "{\"prompt\":\"add a milestone\"}");
}

#[test]
fn body_with_session_and_model() {
    let r = RequestDescriptor {
        prompt: b"go".to_vec(),
        session_id: Some(b"s-17".to_vec()),
        model: Some(ModelInfo { provider_id: b"prov".to_vec(), model_id: b"mod".to_vec() }),
    };
    let body = String::from_utf8(build_request_body(&r)).unwrap();
    assert_eq!(
        body,
        "{\"prompt\":\"go\",\"sessionId\":\"s-17\",\"model\":{\"providerID\":\"prov\",\"modelID\":\"mod\"}}"
    );
}

#[test]
fn body_escapes_quotes_backslashes_and_controls() {
    let r = RequestDescriptor {
        prompt: b"say \"hi\" \\ now\nplease".to_vec(),
        session_id: None,
        model: None,
    };
    let body = String::from_utf8(build_request_body(&r)).unwrap();
    assert_eq!(body, "{\"prompt\":\"say \\\"hi\\\" \\\\ now\\u000aplease\"}");
    // the framed body is valid JSON and round-trips the prompt
    let v: serde_json::Value = serde_json::from_str(&body).unwrap();
    assert_eq!(v["prompt"].as_str().unwrap(), "say \"hi\" \\ now\nplease");
}

#[test]
fn operation_urls_hit_the_known_port() {
    assert_eq!(
        String::from_utf8(operation_url(Operation::Navigate)).unwrap(),
        "http://127.0.0.1:51466/api/execute-navigate"
    );
    assert_eq!(
        String::from_utf8(operation_url(Operation::ModalPrompt)).unwrap(),
        "http://127.0.0.1:51466/api/execute-modal-prompt"
    );
}

#[test]
fn transport_errors_name_the_operation() {
    let msg = transport_error(Operation::Navigate, &b"connection refused".to_vec());
    assert_eq!(
        String::from_utf8(msg).unwrap(),
        "Failed to execute navigate: connection refused"
    );
    let msg = transport_error(Operation::ModalPrompt, &b"timed out".to_vec());
    assert_eq!(
        String::from_utf8(msg).unwrap(),
        "Failed to execute modal prompt: timed out"
    );
}

#[test]
fn roadmap_path_is_under_the_state_directory() {
    assert_eq!(
        String::from_utf8(get_roadmap_path()).unwrap(),
        "/Users/SparkingAries/Library/Application Support/roadmap-manager/roadmap.md"
    );
}

#[test]
fn missing_roadmap_reads_as_the_default_skeleton() {
    assert_eq!(roadmap_or_default(None), b"# Roadmap\n\n".to_vec());
    assert_eq!(
        roadmap_or_default(Some(b"# Mine\n".to_vec())),
        b"# Mine\n".to_vec()
    );
}
