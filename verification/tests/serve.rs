use deadmock::cache::BodyFileCache;
use deadmock::codec::{DecodeOutcome, Http};
use deadmock::config::ProxyConfig;
use deadmock::mapping::{Header, Mapping, Mappings, Request, Response};
use deadmock::matcher::Enabled;
use deadmock::pipeline::Handler;
use deadmock::producer::{
    produce_with_file, upstream_response, ClientKind, UpstreamOutcome,
};
use deadmock::message::HttpRequest;

fn decode_request(bytes: &[u8]) -> HttpRequest {
    match Http.decode(&bytes.to_vec()) {
        DecodeOutcome::Complete { consumed, request } => {
            assert_eq!(consumed, bytes.len());
            request
        },
        other => panic!("expected a complete frame, got {:?}", other),
    }
}

fn handler_with(mappings: Mappings) -> Handler {
    Handler::new(Enabled::all(), mappings, ProxyConfig::direct(), ".".to_string())
}

fn empty_response() -> Response {
    Response {
        status: None,
        headers: None,
        body_file_name: None,
        proxy_base_url: None,
        additional_proxy_request_headers: None,
    }
}

#[test]
fn exact_path_match_canned_body() {
    let mut store = Mappings::new();
    let mut request = Request::empty();
    request.method = Some("GET".to_string());
    request.url = Some("/hello".to_string());
    let mut response = empty_response();
    response.status = Some(200);
    response.headers = Some(vec![Header {
        key: "Content-Type".to_string(),
        value: "text/plain".to_string(),
    }]);
    response.body_file_name = Some("hello.txt".to_string());
    store.insert(1, Mapping { priority: 1, request, response });

    let handler = handler_with(store);
    let req = decode_request(b"GET /hello HTTP/1.1\r\n\r\n");
    let mut cache = BodyFileCache::new();
    match handler.respond(&req, &cache) {
        deadmock::pipeline::ServeStep::NeedFile { response, name } => {
            assert_eq!(name, "hello.txt");
            let r = produce_with_file(
                &response,
                &mut cache,
                &name,
                Some("Hello, World!".to_string()),
            );
            assert_eq!(r.status, 200);
            assert_eq!(r.headers.len(), 1);
            assert_eq!(r.headers[0].key, "Content-Type");
            assert_eq!(r.headers[0].value, "text/plain");
            assert_eq!(r.body, "Hello, World!");
            let bytes = Http.encode(&r);
            let text = String::from_utf8(bytes).expect("ascii frame");
            assert_eq!(
                text,
                "HTTP/1.1 200 OK\r\nContent-Type: text/plain\r\nContent-Length: 13\r\n\r\nHello, World!"
            );
        },
        _ => panic!("expected a body-file request"),
    }
}

#[test]
fn no_match_yields_404_envelope() {
    let handler = handler_with(Mappings::new());
    let req = decode_request(b"GET /anything HTTP/1.1\r\n\r\n");
    let cache = BodyFileCache::new();
    match handler.respond(&req, &cache) {
        deadmock::pipeline::ServeStep::Done(r) => {
            assert_eq!(r.status, 404);
            assert_eq!(r.body, "{\"error\":\"Mapping not found\"}");
        },
        _ => panic!("expected a finished response"),
    }
}

#[test]
fn priority_tie_break_serves_higher() {
    let mut store = Mappings::new();
    for (id, priority, file) in [(1u128, 3u8, "a.txt"), (2u128, 7u8, "b.txt")] {
        let mut request = Request::empty();
        request.url = Some("/x".to_string());
        let mut response = empty_response();
        response.status = Some(200);
        response.body_file_name = Some(file.to_string());
        store.insert(id, Mapping { priority, request, response });
    }
    let handler = handler_with(store);
    let mut cache = BodyFileCache::new();
    cache.settle("a.txt", Some("a".to_string())).expect("stored");
    cache.settle("b.txt", Some("b".to_string())).expect("stored");
    let req = decode_request(b"GET /x HTTP/1.1\r\n\r\n");
    match handler.respond(&req, &cache) {
        deadmock::pipeline::ServeStep::Done(r) => assert_eq!(r.body, "b"),
        _ => panic!("expected a finished response"),
    }
}

#[test]
fn proxy_rule_plans_upstream_get() {
    let mut store = Mappings::new();
    let mut request = Request::empty();
    request.url = Some("/fwd".to_string());
    let mut response = empty_response();
    response.proxy_base_url = Some("http://origin.example".to_string());
    response.additional_proxy_request_headers = Some(vec![Header {
        key: "X-Forwarded-For".to_string(),
        value: "mock".to_string(),
    }]);
    store.insert(1, Mapping { priority: 1, request, response });

    let handler = handler_with(store);
    let req = decode_request(b"GET /fwd?q=1 HTTP/1.1\r\n\r\n");
    let cache = BodyFileCache::new();
    match handler.respond(&req, &cache) {
        deadmock::pipeline::ServeStep::Upstream(plan) => {
            assert_eq!(plan.url, "http://origin.example/fwd?q=1");
            assert_eq!(plan.headers.len(), 1);
            assert_eq!(plan.headers[0].key, "X-Forwarded-For");
            assert!(matches!(plan.client, ClientKind::Http));
        },
        _ => panic!("expected an upstream plan"),
    }
}

#[test]
fn https_base_selects_tls_client() {
    let mut store = Mappings::new();
    let mut request = Request::empty();
    request.url = Some("/fwd".to_string());
    let mut response = empty_response();
    response.proxy_base_url = Some("https://origin.example".to_string());
    store.insert(1, Mapping { priority: 1, request, response });
    let handler = handler_with(store);
    let req = decode_request(b"GET /fwd HTTP/1.1\r\n\r\n");
    let cache = BodyFileCache::new();
    match handler.respond(&req, &cache) {
        deadmock::pipeline::ServeStep::Upstream(plan) => {
            assert_eq!(plan.url, "https://origin.example/fwd");
            assert!(matches!(plan.client, ClientKind::Https));
        },
        _ => panic!("expected an upstream plan"),
    }
}

#[test]
fn completed_upstream_propagates_body_bytes() {
    let r = upstream_response(UpstreamOutcome::Completed {
        status: 200,
        headers: Vec::new(),
        body: b"upstream-ok".to_vec(),
    });
    assert_eq!(r.status, 200);
    assert_eq!(r.body, "upstream-ok");
}

#[test]
fn non_utf8_upstream_body_decodes_lossily() {
    let r = upstream_response(UpstreamOutcome::Completed {
        status: 502,
        headers: Vec::new(),
        body: vec![0xff, b'('],
    });
    assert_eq!(r.status, 502);
    assert_eq!(r.body, "\u{fffd}(");
}

#[test]
fn timed_out_upstream_yields_error_body() {
    assert_eq!(deadmock::UPSTREAM_TIMEOUT_SECS, 10);
    let r = upstream_response(UpstreamOutcome::TimedOut);
    assert_eq!(r.status, 200);
    assert!(r.body.contains("timed out"));
}

#[test]
fn failed_upstream_carries_description() {
    let r = upstream_response(UpstreamOutcome::Failed("connection refused".to_string()));
    assert_eq!(r.body, "Unable to process upstream response! connection refused");
}

#[test]
fn missing_body_file_is_reported_in_body() {
    let mut response = empty_response();
    response.status = Some(200);
    let mut cache = BodyFileCache::new();
    let r = produce_with_file(&response, &mut cache, "gone.txt", None);
    assert_eq!(r.status, 200);
    assert_eq!(r.body, "Body file not found!");
}

#[test]
fn no_declared_body_file_uses_placeholder() {
    let mut store = Mappings::new();
    let mut request = Request::empty();
    request.url = Some("/nobody".to_string());
    let mut response = empty_response();
    response.status = Some(200);
    store.insert(1, Mapping { priority: 1, request, response });
    let handler = handler_with(store);
    let req = decode_request(b"GET /nobody HTTP/1.1\r\n\r\n");
    let cache = BodyFileCache::new();
    match handler.respond(&req, &cache) {
        deadmock::pipeline::ServeStep::Done(r) => {
            assert_eq!(r.status, 200);
            assert_eq!(r.body, "Unable to process body");
        },
        _ => panic!("expected a finished response"),
    }
}
