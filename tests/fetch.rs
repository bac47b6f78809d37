use rust_downloader::fetch::{
    finish_response, finish_write, network_failed, prepare_request, should_persist, FetchError,
    Outcome,
};

fn pairs(items: &[(&str, &str)]) -> Vec<(String, String)> {
    items
        .iter()
        .map(|(k, v)| (k.to_string(), v.to_string()))
        .collect()
}

#[test]
fn hello_body_is_returned_and_written() {
    let (outcome, write) = finish_response(Some("out.bin".to_string()), true, 200, b"hello".to_vec());
    assert_eq!(outcome.status, 200);
    assert_eq!(outcome.size, 5);
    assert_eq!(outcome.payload, Some(b"hello".to_vec()));
    let write = write.unwrap();
    assert_eq!(write.path, "out.bin");
    assert_eq!(write.contents, b"hello".to_vec());
}

#[test]
fn error_status_writes_nothing() {
    let (outcome, write) = finish_response(Some("out.bin".to_string()), false, 404, b"not found".to_vec());
    assert_eq!(outcome.status, 404);
    assert_eq!(outcome.size, 9);
    assert!(outcome.payload.is_none());
    assert!(write.is_none());
    let (outcome, write) = finish_response(Some("out.bin".to_string()), true, 500, b"oops".to_vec());
    assert_eq!(outcome.status, 500);
    assert_eq!(outcome.payload, Some(b"oops".to_vec()));
    assert!(write.is_none());
}

#[test]
fn status_399_still_writes() {
    let (_, write) = finish_response(Some("f".to_string()), false, 399, vec![1]);
    assert!(write.is_some());
}

#[test]
fn empty_body_writes_nothing() {
    let (outcome, write) = finish_response(Some("out.bin".to_string()), true, 200, Vec::new());
    assert_eq!(outcome.size, 0);
    assert_eq!(outcome.payload, Some(Vec::new()));
    assert!(write.is_none());
}

#[test]
fn no_path_writes_nothing() {
    let (outcome, write) = finish_response(None, true, 200, b"data".to_vec());
    assert_eq!(outcome.size, 4);
    assert!(write.is_none());
}

#[test]
fn payload_absent_without_return_value() {
    let (outcome, write) = finish_response(Some("out.bin".to_string()), false, 200, b"hello".to_vec());
    assert!(outcome.payload.is_none());
    assert_eq!(outcome.size, 5);
    assert_eq!(write.unwrap().contents, b"hello".to_vec());
}

#[test]
fn repeated_response_plans_identical_write() {
    let first = finish_response(Some("out.bin".to_string()), false, 200, b"same".to_vec()).1.unwrap();
    let second = finish_response(Some("out.bin".to_string()), false, 200, b"same".to_vec()).1.unwrap();
    assert_eq!(first.path, second.path);
    assert_eq!(first.contents, second.contents);
}

#[test]
fn persistence_decision() {
    let path = Some("p".to_string());
    assert!(should_persist(&path, 200, 1));
    assert!(!should_persist(&path, 400, 1));
    assert!(!should_persist(&path, 200, 0));
    assert!(!should_persist(&None, 200, 1));
}

#[test]
fn prepare_request_keeps_inputs() {
    let req = prepare_request(
        "http://example.com/a".to_string(),
        &pairs(&[("User-Agent", "t")]),
        Some("a.bin".to_string()),
        true,
    )
    .ok()
    .unwrap();
    assert_eq!(req.url, "http://example.com/a");
    assert_eq!(req.file_path, Some("a.bin".to_string()));
    assert!(req.return_value);
    assert_eq!(req.headers.get("user-agent").unwrap().as_bytes(), b"t");
}

#[test]
fn prepare_request_rejects_bad_name() {
    let r = prepare_request("http://x".to_string(), &pairs(&[("a\u{1}b", "v")]), None, false);
    match r {
        Err(FetchError::InvalidHeaderName { key, .. }) => assert_eq!(key, "a\u{1}b"),
        _ => panic!("expected an invalid name"),
    }
}

#[test]
fn prepare_request_rejects_bad_value() {
    let r = prepare_request("http://x".to_string(), &pairs(&[("X", "\0")]), None, false);
    assert!(matches!(r, Err(FetchError::InvalidHeaderValue { .. })));
}

#[test]
fn network_failure_carries_message() {
    match network_failed("connection refused".to_string()) {
        FetchError::NetworkError { message } => assert_eq!(message, "connection refused"),
        _ => panic!("expected a network error"),
    }
}

#[test]
fn write_outcome_is_kept_or_replaced() {
    let outcome = Outcome { status: 200, size: 2, payload: None };
    let kept = finish_write(outcome, "p".to_string(), Ok(())).ok().unwrap();
    assert_eq!(kept.status, 200);
    assert_eq!(kept.size, 2);
    let outcome = Outcome { status: 200, size: 2, payload: Some(vec![1, 2]) };
    match finish_write(outcome, "p".to_string(), Err("permission denied".to_string())) {
        Err(FetchError::PersistenceError { path, message }) => {
            assert_eq!(path, "p");
            assert_eq!(message, "permission denied");
        }
        _ => panic!("expected a persistence error"),
    }
}
