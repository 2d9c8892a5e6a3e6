use deadmock::codec::{DecodeOutcome, Http};
use deadmock::mapping::Header;
use deadmock::message::HttpResponse;

#[test]
fn decode_splits_path_and_query() {
    let bytes = b"GET /a?x=1 HTTP/1.1\r\n\r\n".to_vec();
    match Http.decode(&bytes) {
        DecodeOutcome::Complete { consumed, request } => {
            assert_eq!(consumed, bytes.len());
            assert_eq!(request.method, "GET");
            assert_eq!(request.path, "/a");
            assert_eq!(request.query.as_deref(), Some("x=1"));
            assert!(request.headers.is_empty());
        },
        other => panic!("expected a complete frame, got {:?}", other),
    }
}

#[test]
fn decode_collects_headers_and_trims_values() {
    let bytes = b"POST /submit HTTP/1.1\r\nHost:  example.com  \r\nX-Trace:\tyes\r\n\r\nrest".to_vec();
    match Http.decode(&bytes) {
        DecodeOutcome::Complete { consumed, request } => {
            assert_eq!(consumed, bytes.len() - 4);
            assert_eq!(request.method, "POST");
            assert_eq!(request.path, "/submit");
            assert_eq!(request.query, None);
            assert_eq!(request.headers.len(), 2);
            assert_eq!(request.headers[0].key, "Host");
            assert_eq!(request.headers[0].value, "example.com");
            assert_eq!(request.headers[1].key, "X-Trace");
            assert_eq!(request.headers[1].value, "yes");
        },
        other => panic!("expected a complete frame, got {:?}", other),
    }
}

#[test]
fn decode_waits_for_whole_frame() {
    assert!(matches!(
        Http.decode(&b"GET /a HTTP/1.1\r\nHost: h".to_vec()),
        DecodeOutcome::Incomplete
    ));
    assert!(matches!(Http.decode(&b"GET /a HT".to_vec()), DecodeOutcome::Incomplete));
    assert!(matches!(Http.decode(&Vec::new()), DecodeOutcome::Incomplete));
}

#[test]
fn decode_rejects_other_versions() {
    assert!(matches!(
        Http.decode(&b"GET /a HTTP/1.0\r\n\r\n".to_vec()),
        DecodeOutcome::Invalid
    ));
    assert!(matches!(
        Http.decode(&b"GET /a HTTP/2\r\n\r\n".to_vec()),
        DecodeOutcome::Invalid
    ));
}

#[test]
fn decode_rejects_malformed_lines() {
    assert!(matches!(Http.decode(&b"GET\r\n\r\n".to_vec()), DecodeOutcome::Invalid));
    assert!(matches!(
        Http.decode(&b"GET /a HTTP/1.1\r\nNoColonHere\r\n\r\n".to_vec()),
        DecodeOutcome::Invalid
    ));
    assert!(matches!(
        Http.decode(&b"GET /a HTTP/1.1\rX\r\n\r\n".to_vec()),
        DecodeOutcome::Invalid
    ));
}

#[test]
fn encode_writes_status_line_headers_and_length() {
    let r = HttpResponse {
        status: 503,
        headers: vec![Header { key: "X-A".to_string(), value: "1".to_string() }],
        body: "oops".to_string(),
    };
    let text = String::from_utf8(Http.encode(&r)).expect("ascii frame");
    assert_eq!(
        text,
        "HTTP/1.1 503 Service Unavailable\r\nX-A: 1\r\nContent-Length: 4\r\n\r\noops"
    );
}

#[test]
fn encode_keeps_declared_content_length() {
    let r = HttpResponse {
        status: 200,
        headers: vec![Header { key: "content-length".to_string(), value: "4".to_string() }],
        body: "body".to_string(),
    };
    let text = String::from_utf8(Http.encode(&r)).expect("ascii frame");
    assert_eq!(text, "HTTP/1.1 200 OK\r\ncontent-length: 4\r\n\r\nbody");
}

#[test]
fn encode_drops_unrepresentable_headers() {
    let r = HttpResponse {
        status: 200,
        headers: vec![
            Header { key: "bad name".to_string(), value: "x".to_string() },
            Header { key: "Good".to_string(), value: "ok".to_string() },
        ],
        body: String::new(),
    };
    let text = String::from_utf8(Http.encode(&r)).expect("ascii frame");
    assert_eq!(text, "HTTP/1.1 200 OK\r\nGood: ok\r\nContent-Length: 0\r\n\r\n");
}

#[test]
fn decode_then_encode_round_trip_scenario() {
    let bytes = b"GET /hello HTTP/1.1\r\nAccept: text/plain\r\n\r\n".to_vec();
    let request = match Http.decode(&bytes) {
        DecodeOutcome::Complete { request, .. } => request,
        other => panic!("expected a complete frame, got {:?}", other),
    };
    assert_eq!(request.path, "/hello");
    let response = HttpResponse {
        status: 200,
        headers: Vec::new(),
        body: "hi".to_string(),
    };
    let text = String::from_utf8(Http.encode(&response)).expect("ascii frame");
    assert!(text.starts_with("HTTP/1.1 200 OK\r\n"));
    assert!(text.ends_with("\r\n\r\nhi"));
}

#[test]
fn encode_unknown_status_gets_placeholder_reason() {
    let r = HttpResponse { status: 418, headers: Vec::new(), body: String::new() };
    let text = String::from_utf8(Http.encode(&r)).expect("ascii frame");
    assert!(text.starts_with("HTTP/1.1 418 Unknown\r\n"));
}
