use deadmock::mapping::{Header, Mapping, Mappings, Request, Response};
use deadmock::matcher::{enable_matchers, Enabled, Matcher};
use deadmock::message::HttpRequest;

fn plain_request(method: &str, path: &str) -> HttpRequest {
    HttpRequest {
        method: method.to_string(),
        path: path.to_string(),
        query: None,
        headers: Vec::new(),
    }
}

fn canned(priority: u8, request: Request) -> Mapping {
    Mapping {
        priority,
        request,
        response: Response {
            status: Some(200),
            headers: None,
            body_file_name: None,
            proxy_base_url: None,
            additional_proxy_request_headers: None,
        },
    }
}

#[test]
fn pattern_matchers() {
    let enabled = enable_matchers(false, false, true);
    assert!(!enabled.is_empty());
    assert_eq!(enable_matchers(false, false, true), Enabled::pattern());
}

#[test]
fn exact_matchers() {
    let enabled = enable_matchers(false, true, false);
    assert!(!enabled.is_empty());
    assert_eq!(enable_matchers(false, true, false), Enabled::exact());
}

#[test]
fn all_matchers() {
    let enabled = enable_matchers(true, false, false);
    assert!(!enabled.is_empty());
    assert_eq!(enable_matchers(true, false, false), Enabled::all());
}

#[test]
fn default_matchers() {
    let enabled = enable_matchers(false, false, false);
    assert!(!enabled.is_empty());
    assert_eq!(enable_matchers(false, false, false), Enabled::all());
}

#[test]
fn empty_pattern_matches_any_request() {
    let matcher = Matcher::new(Enabled::all());
    let mapping = canned(1, Request::empty());
    assert!(matcher.is_match(&plain_request("GET", "/whatever"), &mapping));
    assert!(matcher.is_match(&plain_request("DELETE", "/other"), &mapping));
}

#[test]
fn exact_url_is_path_only() {
    let matcher = Matcher::new(Enabled::all());
    let mut pattern = Request::empty();
    pattern.url = Some("/a".to_string());
    let mapping = canned(1, pattern);
    let mut req = plain_request("GET", "/a");
    req.query = Some("x=1".to_string());
    assert!(matcher.is_match(&req, &mapping));
    assert!(!matcher.is_match(&plain_request("GET", "/ab"), &mapping));
}

#[test]
fn url_pattern_uses_regex() {
    let matcher = Matcher::new(Enabled::all());
    let mut pattern = Request::empty();
    pattern.url_pattern = Some("^/upstream/.*".to_string());
    let mapping = canned(1, pattern);
    assert!(matcher.is_match(&plain_request("GET", "/upstream/foo"), &mapping));
    assert!(!matcher.is_match(&plain_request("GET", "/other"), &mapping));
}

#[test]
fn invalid_url_pattern_matches_nothing() {
    let matcher = Matcher::new(Enabled::all());
    let mut pattern = Request::empty();
    pattern.url_pattern = Some("(".to_string());
    let mapping = canned(1, pattern);
    assert!(!matcher.is_match(&plain_request("GET", "/anything"), &mapping));
}

#[test]
fn method_and_method_pattern() {
    let matcher = Matcher::new(Enabled::all());
    let mut pattern = Request::empty();
    pattern.method = Some("GET".to_string());
    let mapping = canned(1, pattern);
    assert!(matcher.is_match(&plain_request("GET", "/x"), &mapping));
    assert!(!matcher.is_match(&plain_request("POST", "/x"), &mapping));

    let mut pattern2 = Request::empty();
    pattern2.method_pattern = Some("^(GET|HEAD)$".to_string());
    let mapping2 = canned(1, pattern2);
    assert!(matcher.is_match(&plain_request("HEAD", "/x"), &mapping2));
    assert!(!matcher.is_match(&plain_request("POST", "/x"), &mapping2));
}

#[test]
fn header_names_case_insensitive_values_case_sensitive() {
    let matcher = Matcher::new(Enabled::all());
    let mut pattern = Request::empty();
    pattern.headers = Some(vec![Header { key: "X-Trace".to_string(), value: "yes".to_string() }]);
    let mapping = canned(1, pattern);

    let mut req = plain_request("GET", "/x");
    req.headers.push(Header { key: "x-trace".to_string(), value: "yes".to_string() });
    assert!(matcher.is_match(&req, &mapping));

    let mut req_value_case = plain_request("GET", "/x");
    req_value_case.headers.push(Header { key: "x-trace".to_string(), value: "YES".to_string() });
    assert!(!matcher.is_match(&req_value_case, &mapping));
}

#[test]
fn all_headers_must_be_present() {
    let matcher = Matcher::new(Enabled::all());
    let mut pattern = Request::empty();
    pattern.headers = Some(vec![
        Header { key: "A".to_string(), value: "1".to_string() },
        Header { key: "B".to_string(), value: "2".to_string() },
    ]);
    let mapping = canned(1, pattern);

    let mut both = plain_request("GET", "/x");
    both.headers.push(Header { key: "a".to_string(), value: "1".to_string() });
    both.headers.push(Header { key: "b".to_string(), value: "2".to_string() });
    assert!(matcher.is_match(&both, &mapping));

    let mut only_one = plain_request("GET", "/x");
    only_one.headers.push(Header { key: "a".to_string(), value: "1".to_string() });
    assert!(!matcher.is_match(&only_one, &mapping));
}

#[test]
fn header_pattern_matches_values_by_regex() {
    let matcher = Matcher::new(Enabled::all());
    let mut pattern = Request::empty();
    pattern.headers_pattern = Some(vec![Header {
        key: "X-Id".to_string(),
        value: "^[0-9]+$".to_string(),
    }]);
    let mapping = canned(1, pattern);

    let mut numeric = plain_request("GET", "/x");
    numeric.headers.push(Header { key: "x-id".to_string(), value: "12345".to_string() });
    assert!(matcher.is_match(&numeric, &mapping));

    let mut alpha = plain_request("GET", "/x");
    alpha.headers.push(Header { key: "x-id".to_string(), value: "abc".to_string() });
    assert!(!matcher.is_match(&alpha, &mapping));
}

#[test]
fn empty_header_list_constrains_nothing() {
    let matcher = Matcher::new(Enabled::all());
    let mut pattern = Request::empty();
    pattern.headers = Some(Vec::new());
    let mapping = canned(1, pattern);
    assert!(matcher.is_match(&plain_request("GET", "/x"), &mapping));
}

#[test]
fn unrepresentable_header_disqualifies_only_itself() {
    let matcher = Matcher::new(Enabled::all());
    let mut pattern = Request::empty();
    pattern.headers = Some(vec![
        Header { key: "bad name".to_string(), value: "x".to_string() },
        Header { key: "Good".to_string(), value: "ok".to_string() },
    ]);
    let mapping = canned(1, pattern);

    // The representable entry still constrains; the unrepresentable one is
    // skipped rather than failing the whole rule.
    let mut with_good = plain_request("GET", "/x");
    with_good.headers.push(Header { key: "good".to_string(), value: "ok".to_string() });
    assert!(matcher.is_match(&with_good, &mapping));
    assert!(!matcher.is_match(&plain_request("GET", "/x"), &mapping));

    // A rule whose header list holds nothing representable matches freely.
    let mut only_bad = Request::empty();
    only_bad.headers = Some(vec![Header { key: "bad name".to_string(), value: "x".to_string() }]);
    let mapping_bad = canned(1, only_bad);
    assert!(matcher.is_match(&plain_request("GET", "/x"), &mapping_bad));
}

#[test]
fn highest_priority_wins() {
    let matcher = Matcher::new(Enabled::all());
    let mut store = Mappings::new();
    let mut low = Request::empty();
    low.url = Some("/x".to_string());
    let mut high = Request::empty();
    high.url = Some("/x".to_string());
    store.insert(1, canned(3, low));
    store.insert(2, canned(7, high));
    let winner = matcher.get_match(&plain_request("GET", "/x"), &store).expect("a match");
    assert_eq!(winner.priority, 7);
}

#[test]
fn no_match_reports_error() {
    let matcher = Matcher::new(Enabled::all());
    let store = Mappings::new();
    let r = matcher.get_match(&plain_request("GET", "/x"), &store);
    assert!(r.is_err());
    assert_eq!(r.unwrap_err().message(), "No mapping found");
}

#[test]
fn disabled_classes_ignore_constraints() {
    // With only the pattern classes on, an exact-url constraint is ignored.
    let matcher = Matcher::new(Enabled::pattern());
    let mut pattern = Request::empty();
    pattern.url = Some("/only".to_string());
    let mapping = canned(1, pattern);
    assert!(matcher.is_match(&plain_request("GET", "/elsewhere"), &mapping));
}

#[test]
fn insert_replaces_same_id() {
    let mut store = Mappings::new();
    store.insert(9, canned(1, Request::empty()));
    store.insert(9, canned(5, Request::empty()));
    assert_eq!(store.len(), 1);
    assert_eq!(store.get(0).priority, 5);
}

#[test]
fn empty_class_set_is_empty() {
    assert!(Enabled::empty().is_empty());
    assert!(!Enabled::exact().is_empty());
    assert_eq!(Enabled::exact().union(Enabled::pattern()), Enabled::all());
}
