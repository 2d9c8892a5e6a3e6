use deadmock::cache::BodyFileCache;
use deadmock::config::{Env, ProxyConfig};
use deadmock::error::Error;
use deadmock::mapping::{Request, Response};
use deadmock::message::HttpRequest;
use deadmock::pipeline::{conn_step, ConnEvent, ConnState};
use deadmock::producer::{
    basic_credentials, canned_response, plan_upstream, ClientKind,
};
use deadmock::util::{default_port, write_opt};

#[test]
fn write_some() {
    let mut out = String::new();
    write_opt(&mut out, "foo", &Some("bar".to_string()));
    assert_eq!("foo: bar", out);
}

#[test]
fn write_none_appends_nothing() {
    let mut out = "seed".to_string();
    write_opt(&mut out, "foo", &None);
    assert_eq!("seed", out);
}

#[test]
fn default_ports_by_protocol() {
    assert_eq!(default_port("https", Some(8443)), 8443);
    assert_eq!(default_port("http", None), 80);
    assert_eq!(default_port("https", None), 443);
    assert_eq!(default_port("gopher", None), 0);
}

#[test]
fn listen_addr_fills_defaults() {
    let env = Env::new(None, None, None);
    assert_eq!(env.listen_addr(), "127.0.0.1:32276");
    let env2 = Env::new(Some("0.0.0.0".to_string()), Some(8080), None);
    assert_eq!(env2.listen_addr(), "0.0.0.0:8080");
}

#[test]
fn env_display_names_fields() {
    let env = Env::new(Some("10.0.0.1".to_string()), None, Some("/etc/mock".to_string()));
    assert_eq!(env.display(), "Env { ip: 10.0.0.1path: /etc/mock }");
    let with_port = Env::new(Some("10.0.0.1".to_string()), Some(8080), None);
    assert_eq!(with_port.display(), "Env { ip: 10.0.0.1port: 8080 }");
}

#[test]
fn out_of_range_statuses_become_500() {
    for bad in [0u16, 99, 600, 999] {
        let resp = Response {
            status: Some(bad),
            headers: None,
            body_file_name: None,
            proxy_base_url: None,
            additional_proxy_request_headers: None,
        };
        let r = canned_response(&resp, "ignored".to_string());
        assert_eq!(r.status, 500);
        assert_eq!(r.body, "internal server error");
    }
    let resp = Response {
        status: Some(100),
        headers: None,
        body_file_name: None,
        proxy_base_url: None,
        additional_proxy_request_headers: None,
    };
    assert_eq!(canned_response(&resp, "kept".to_string()).status, 100);
}

#[test]
fn basic_credentials_encode_base64() {
    assert_eq!(basic_credentials("u", "p"), "Basic dTpw");
    assert_eq!(basic_credentials("user", "passwd"), "Basic dXNlcjpwYXNzd2Q=");
    assert_eq!(basic_credentials("a", ""), "Basic YTo=");
}

#[test]
fn proxied_client_carries_credentials() {
    let cfg = ProxyConfig::new(
        Some("http://proxy.internal:3128".to_string()),
        true,
        Some("u".to_string()),
        Some("p".to_string()),
    );
    let resp = Response {
        status: None,
        headers: None,
        body_file_name: None,
        proxy_base_url: Some("http://origin".to_string()),
        additional_proxy_request_headers: None,
    };
    let req = HttpRequest {
        method: "GET".to_string(),
        path: "/r".to_string(),
        query: None,
        headers: Vec::new(),
    };
    let plan = plan_upstream(&resp, &req, &cfg);
    assert_eq!(plan.url, "http://origin/r");
    match plan.client {
        ClientKind::Proxied { proxy_url, basic_auth } => {
            assert_eq!(proxy_url, "http://proxy.internal:3128");
            assert_eq!(basic_auth.as_deref(), Some("Basic dTpw"));
        },
        _ => panic!("expected the proxied client"),
    }
}

#[test]
fn proxied_client_without_full_credentials_sends_none() {
    let cfg = ProxyConfig::new(
        Some("http://proxy.internal:3128".to_string()),
        true,
        Some("u".to_string()),
        None,
    );
    let resp = Response {
        status: None,
        headers: None,
        body_file_name: None,
        proxy_base_url: Some("http://origin".to_string()),
        additional_proxy_request_headers: None,
    };
    let req = HttpRequest {
        method: "GET".to_string(),
        path: "/r".to_string(),
        query: None,
        headers: Vec::new(),
    };
    match plan_upstream(&resp, &req, &cfg).client {
        ClientKind::Proxied { basic_auth, .. } => assert!(basic_auth.is_none()),
        _ => panic!("expected the proxied client"),
    }
}

#[test]
fn cache_settles_once_per_name() {
    let mut cache = BodyFileCache::new();
    assert!(cache.get("f.txt").is_none());
    let first = cache.settle("f.txt", Some("one".to_string())).expect("stored");
    assert_eq!(first, "one");
    // A later read result cannot displace the settled value.
    let second = cache.settle("f.txt", Some("two".to_string())).expect("cached");
    assert_eq!(second, "one");
    assert_eq!(cache.get("f.txt").map(String::as_str), Some("one"));
    match cache.settle("missing.txt", None) {
        Err(Error::BodyFileMissing) => {},
        _ => panic!("expected the missing-file error"),
    }
}

#[test]
fn error_messages_are_fixed() {
    assert_eq!(Error::NoMatch.message(), "No mapping found");
    assert_eq!(Error::BodyFileMissing.message(), "Body file not found!");
    assert_eq!(Error::UpstreamError("boom".to_string()).message(), "boom");
    assert_eq!(Error::CodecError("bad frame".to_string()).message(), "bad frame");
}

#[test]
fn request_empty_has_no_constraints() {
    let r = Request::empty();
    assert!(r.method.is_none());
    assert!(r.method_pattern.is_none());
    assert!(r.url.is_none());
    assert!(r.url_pattern.is_none());
    assert!(r.headers.is_none());
    assert!(r.headers_pattern.is_none());
}

#[test]
fn connection_cycle_and_failure() {
    let mut s = ConnState::Idle;
    for e in [
        ConnEvent::ReadStarted,
        ConnEvent::RequestMatched,
        ConnEvent::ProducerStarted,
        ConnEvent::ResponseReady,
        ConnEvent::ResponseWritten,
    ] {
        s = conn_step(s, e);
    }
    assert_eq!(s, ConnState::Idle);
    assert_eq!(conn_step(ConnState::Reading, ConnEvent::RequestUnmatched), ConnState::Unmatched);
    assert_eq!(conn_step(ConnState::Writing, ConnEvent::IoError), ConnState::Closed);
    assert_eq!(conn_step(ConnState::Idle, ConnEvent::ResponseReady), ConnState::Closed);
    assert_eq!(conn_step(ConnState::Closed, ConnEvent::ReadStarted), ConnState::Closed);
}
