//! The response producer: canned responses from a matched mapping, and the
//! plan plus outcome handling for upstream-forwarded responses.
//!
//! The upstream round trip itself is network work and happens outside the
//! library: the producer hands out an [`UpstreamPlan`] saying exactly what to
//! request and through which client, and turns whatever [`UpstreamOutcome`]
//! came back into the response to serve.

use crate::cache::BodyFileCache;
use crate::config::ProxyConfig;
use crate::error::Error;
use crate::mapping::{Header, Response};
use crate::message::{
    copy_headers, copy_opt_string, headers_view, uri_of, HttpRequest, HttpResponse,
};
use crate::util::{ascii_to_string, b64_encode, spec_b64};
use vstd::prelude::*;

verus! {

/// The status a canned response carries: the declared one when it is a real
/// HTTP status, 200 when none is declared, and 500 otherwise.
pub open spec fn spec_status_of(s: Option<u16>) -> u16 {
    match s {
        None => 200u16,
        Some(v) => if 100 <= v <= 599 {
            v
        } else {
            500u16
        },
    }
}

/// The declared status, if any, is a real HTTP status.
pub open spec fn status_in_range(s: Option<u16>) -> bool {
    s matches Some(v) ==> 100 <= v <= 599
}

/// The URL names the TLS scheme.
pub open spec fn spec_is_https(u: Seq<char>) -> bool {
    u.len() >= 5 && u[0] == 'h' && u[1] == 't' && u[2] == 't' && u[3] == 'p' && u[4] == 's'
}

/// The `Proxy-Authorization` value for HTTP Basic credentials.
pub open spec fn spec_basic_credentials(user: Seq<char>, pass: Seq<char>) -> Seq<char> {
    "Basic "@ + spec_b64(vstd::utf8::encode_utf8(user + ":"@ + pass)).map_values(
        |x: u8| x as char,
    )
}

/// Which outbound client the upstream request goes through.
#[derive(Clone, Debug)]
pub enum ClientKind {
    /// Plain TCP, no TLS.
    Http,
    /// TLS to the origin.
    Https,
    /// Through the configured outbound proxy, every request intercepted,
    /// with the ready `Proxy-Authorization` value when credentials exist.
    Proxied { proxy_url: String, basic_auth: Option<String> },
}

/// Everything the network layer needs for one upstream round trip.
#[derive(Clone, Debug)]
pub struct UpstreamPlan {
    /// The full upstream URL: the mapping's base followed by the original
    /// request-target.
    pub url: String,
    /// Headers to inject on the upstream request.
    pub headers: Vec<Header>,
    /// The client variant to build.
    pub client: ClientKind,
}

/// How one upstream round trip ended.
#[derive(Clone, Debug)]
pub enum UpstreamOutcome {
    /// The upstream answered within the deadline.
    Completed { status: u16, headers: Vec<Header>, body: Vec<u8> },
    /// The deadline passed with no complete response.
    TimedOut,
    /// Connection, TLS or protocol failure, with a description.
    Failed(String),
}

/// What `String::from_utf8_lossy` returns: a decoding that depends on the
/// bytes alone.
pub uninterp spec fn utf8_lossy(bytes: Seq<u8>) -> Seq<char>;

/// Relies on `String::from_utf8_lossy`: the result is a function of the
/// bytes, and valid UTF-8 — in particular ASCII — decodes to itself.
#[verifier::external_body]
fn bytes_to_string_lossy(b: &Vec<u8>) -> (r: String)
    ensures
        r@ == utf8_lossy(b@),
        (forall|i: int| 0 <= i < b@.len() ==> #[trigger] b@[i] < 0x80) ==> r@ == b@.map_values(
            |x: u8| x as char,
        ),
{
    String::from_utf8_lossy(b.as_slice()).into_owned()
}

/// A fresh copy of an optional header list.
pub fn copy_opt_headers(o: &Option<Vec<Header>>) -> (r: Option<Vec<Header>>)
    ensures
        r is Some <==> o is Some,
        r matches Some(v) ==> o matches Some(w) && headers_view(v@) == headers_view(w@),
{
    match o {
        Some(hs) => Some(copy_headers(hs)),
        None => None,
    }
}

/// A fresh copy of a response pattern, field for field.
pub fn copy_response(resp: &Response) -> (r: Response)
    ensures
        r.status == resp.status,
        r.headers is Some <==> resp.headers is Some,
        r.headers matches Some(v) ==> resp.headers matches Some(w) && headers_view(v@)
            == headers_view(w@),
        r.body_file_name is Some <==> resp.body_file_name is Some,
        r.body_file_name matches Some(v) ==> resp.body_file_name matches Some(w) && v@ == w@,
        r.proxy_base_url is Some <==> resp.proxy_base_url is Some,
        r.proxy_base_url matches Some(v) ==> resp.proxy_base_url matches Some(w) && v@ == w@,
        r.additional_proxy_request_headers is Some <==> resp.additional_proxy_request_headers
            is Some,
        r.additional_proxy_request_headers matches Some(v)
            ==> resp.additional_proxy_request_headers matches Some(w) && headers_view(v@)
            == headers_view(w@),
    {
    Response {
        status: match resp.status {
            Some(s) => Some(s),
            None => None,
        },
        headers: copy_opt_headers(&resp.headers),
        body_file_name: copy_opt_string(&resp.body_file_name),
        proxy_base_url: copy_opt_string(&resp.proxy_base_url),
        additional_proxy_request_headers: copy_opt_headers(
            &resp.additional_proxy_request_headers,
        ),
    }
}

/// Build the canned response for a mapping: the declared status when it is
/// one, the declared headers in order, and `body` — except that a status
/// outside the valid range turns the whole response into a 500 error.
pub fn canned_response(resp: &Response, body: String) -> (r: HttpResponse)
    ensures
        r.status == spec_status_of(resp.status),
        status_in_range(resp.status) ==> r.body@ == body@,
        !status_in_range(resp.status) ==> r.body@ == "internal server error"@,
        headers_view(r.headers@) == match resp.headers {
            Some(hs) => headers_view(hs@),
            None => Seq::<(Seq<char>, Seq<char>)>::empty(),
        },
{
    let headers = match &resp.headers {
        Some(hs) => copy_headers(hs),
        None => Vec::new(),
    };
    proof {
        if resp.headers is None {
            assert(headers_view(headers@) =~= Seq::<(Seq<char>, Seq<char>)>::empty());
        }
    }
    match resp.status {
        None => HttpResponse { status: 200, headers, body },
        Some(s) => {
            if 100 <= s && s <= 599 {
                HttpResponse { status: s, headers, body }
            } else {
                HttpResponse { status: 500, headers, body: "internal server error".to_owned() }
            }
        },
    }
}

/// Whether the URL starts with `https`.
fn is_https(u: &str) -> (r: bool)
    ensures
        r == spec_is_https(u@),
{
    if u.unicode_len() < 5 {
        return false;
    }
    u.get_char(0) == 'h' && u.get_char(1) == 't' && u.get_char(2) == 't' && u.get_char(3) == 'p'
        && u.get_char(4) == 's'
}

/// The `Proxy-Authorization` value carrying HTTP Basic credentials for
/// `user` and `pass`.
pub fn basic_credentials(user: &str, pass: &str) -> (r: String)
    ensures
        r@ == spec_basic_credentials(user@, pass@),
{
    let mut creds = user.to_owned();
    creds.append(":");
    creds.append(pass);
    let bytes = creds.as_str().as_bytes_vec();
    let encoded = b64_encode(&bytes);
    let rendered = ascii_to_string(&encoded);
    let mut r = "Basic ".to_owned();
    r.append(rendered.as_str());
    r
}

/// Decide the upstream round trip for a proxy rule: the full URL is the
/// rule's base followed by the original request-target; the headers are the
/// rule's additional proxy request headers; and the client is the outbound
/// proxy when one is configured — with Basic credentials exactly when both
/// halves are set — else TLS for an `https` URL, else plain HTTP.
pub fn plan_upstream(resp: &Response, req: &HttpRequest, cfg: &ProxyConfig) -> (p: UpstreamPlan)
    requires
        resp.proxy_base_url is Some,
        cfg.wf(),
    ensures
        resp.proxy_base_url matches Some(b) ==> p.url@ == b@ + uri_of(*req),
        headers_view(p.headers@) == match resp.additional_proxy_request_headers {
            Some(hs) => headers_view(hs@),
            None => Seq::<(Seq<char>, Seq<char>)>::empty(),
        },
        cfg.use_proxy ==> (p.client matches ClientKind::Proxied { proxy_url, basic_auth } && {
            &&& cfg.proxy_url matches Some(u) && proxy_url@ == u@
            &&& (basic_auth is Some <==> cfg.has_credentials())
            &&& (cfg.proxy_username matches Some(un) ==> (cfg.proxy_password matches Some(pw)
                ==> (basic_auth matches Some(a) && a@ == spec_basic_credentials(un@, pw@))))
        }),
        !cfg.use_proxy && spec_is_https(resp.proxy_base_url->0@ + uri_of(*req)) ==> p.client
            is Https,
        !cfg.use_proxy && !spec_is_https(resp.proxy_base_url->0@ + uri_of(*req)) ==> p.client
            is Http,
{
    let mut url = match &resp.proxy_base_url {
        Some(b) => b.as_str().to_owned(),
        None => String::new(),
    };
    url.append(req.path.as_str());
    match &req.query {
        Some(q) => {
            url.append("?");
            url.append(q.as_str());
            proof {
                reveal_strlit("?");
                assert("?"@ =~= seq!['?']);
            }
        },
        None => {},
    }
    let headers = match &resp.additional_proxy_request_headers {
        Some(hs) => copy_headers(hs),
        None => Vec::new(),
    };
    proof {
        if resp.additional_proxy_request_headers is None {
            assert(headers_view(headers@) =~= Seq::<(Seq<char>, Seq<char>)>::empty());
        }
    }
    let client = if cfg.use_proxy {
        let proxy_url = match &cfg.proxy_url {
            Some(u) => u.as_str().to_owned(),
            None => String::new(),
        };
        let basic_auth = match (&cfg.proxy_username, &cfg.proxy_password) {
            (Some(un), Some(pw)) => Some(basic_credentials(un.as_str(), pw.as_str())),
            _ => None,
        };
        ClientKind::Proxied { proxy_url, basic_auth }
    } else if is_https(url.as_str()) {
        ClientKind::Https
    } else {
        ClientKind::Http
    };
    UpstreamPlan { url, headers, client }
}

/// Turn what came back from the upstream round trip into the response to
/// serve. A completed exchange propagates the upstream status and headers
/// and carries the body decoded as UTF-8, lossily, byte for byte; a timeout
/// or failure is served as a plain response describing it. Every outcome
/// yields a response: none is left pending.
pub fn upstream_response(outcome: UpstreamOutcome) -> (r: HttpResponse)
    ensures
        outcome matches UpstreamOutcome::Completed { status, headers, body } ==> {
            &&& r.status == status
            &&& headers_view(r.headers@) == headers_view(headers@)
            &&& r.body@ == utf8_lossy(body@)
            &&& (forall|i: int| 0 <= i < body@.len() ==> #[trigger] body@[i] < 0x80)
                ==> r.body@ == body@.map_values(|x: u8| x as char)
        },
        outcome is TimedOut ==> r.status == 200 && r.headers@.len() == 0 && r.body@
            == "Unable to process upstream response! upstream request timed out"@,
        outcome matches UpstreamOutcome::Failed(msg) ==> r.status == 200 && r.headers@.len()
            == 0 && r.body@ == "Unable to process upstream response! "@ + msg@,
{
    match outcome {
        UpstreamOutcome::Completed { status, headers, body } => {
            let rendered = bytes_to_string_lossy(&body);
            HttpResponse { status, headers, body: rendered }
        },
        UpstreamOutcome::TimedOut => HttpResponse {
            status: 200,
            headers: Vec::new(),
            body: "Unable to process upstream response! upstream request timed out".to_owned(),
        },
        UpstreamOutcome::Failed(msg) => {
            let mut body = "Unable to process upstream response! ".to_owned();
            body.append(msg.as_str());
            HttpResponse { status: 200, headers: Vec::new(), body }
        },
    }
}

/// A synthetic error response: the given status, a JSON error envelope for
/// `msg`, and a JSON content type.
pub fn error_response(status: u16, msg: &str) -> (r: HttpResponse)
    ensures
        r.status == status,
        r.body@ == "{\"error\":\""@ + msg@ + "\"}"@,
        headers_view(r.headers@) =~= seq![("Content-Type"@, "application/json"@)],
{
    let mut headers: Vec<Header> = Vec::new();
    headers.push(
        Header { key: "Content-Type".to_owned(), value: "application/json".to_owned() },
    );
    let mut body = "{\"error\":\"".to_owned();
    body.append(msg);
    body.append("\"}");
    HttpResponse { status, headers, body }
}

/// What the producer asks of its caller next.
pub enum ProducerStep {
    /// The response is ready to serve.
    Done(HttpResponse),
    /// A body file must be read under the files root; resume with
    /// [`produce_with_file`].
    NeedFile { response: Response, name: String },
    /// An upstream round trip must be made; resume with
    /// [`upstream_response`].
    Upstream(UpstreamPlan),
}

/// The body a canned response serves when the mapping declares no body file.
pub open spec fn no_body_text() -> Seq<char> {
    "Unable to process body"@
}

/// Start producing the response for a matched mapping. A proxy rule yields
/// its upstream plan; a canned rule yields the finished response when the
/// body needs no disk read, and asks for the body file otherwise.
pub fn produce(resp: &Response, req: &HttpRequest, cfg: &ProxyConfig, cache: &BodyFileCache)
    -> (step: ProducerStep)
    requires
        cfg.wf(),
    ensures
        resp.proxy_base_url is Some ==> (step matches ProducerStep::Upstream(p) && {
            &&& resp.proxy_base_url matches Some(b) && p.url@ == b@ + uri_of(*req)
            &&& headers_view(p.headers@) == match resp.additional_proxy_request_headers {
                Some(hs) => headers_view(hs@),
                None => Seq::<(Seq<char>, Seq<char>)>::empty(),
            }
            &&& cfg.use_proxy ==> (p.client matches ClientKind::Proxied {
                proxy_url,
                basic_auth,
            } && {
                &&& cfg.proxy_url matches Some(u) && proxy_url@ == u@
                &&& (basic_auth is Some <==> cfg.has_credentials())
                &&& (cfg.proxy_username matches Some(un) ==> (cfg.proxy_password
                    matches Some(pw) ==> (basic_auth matches Some(a) && a@
                    == spec_basic_credentials(un@, pw@))))
            })
            &&& !cfg.use_proxy && spec_is_https(resp.proxy_base_url->0@ + uri_of(*req))
                ==> p.client is Https
            &&& !cfg.use_proxy && !spec_is_https(resp.proxy_base_url->0@ + uri_of(*req))
                ==> p.client is Http
        }),
        resp.proxy_base_url is None && resp.body_file_name is None ==> (step
            matches ProducerStep::Done(r) && {
            &&& r.status == spec_status_of(resp.status)
            &&& status_in_range(resp.status) ==> r.body@ == no_body_text()
            &&& !status_in_range(resp.status) ==> r.body@ == "internal server error"@
            &&& headers_view(r.headers@) == match resp.headers {
                Some(hs) => headers_view(hs@),
                None => Seq::<(Seq<char>, Seq<char>)>::empty(),
            }
        }),
        resp.proxy_base_url is None && resp.body_file_name is Some && cache.lookup(
            resp.body_file_name->0@,
        ) is Some ==> (step matches ProducerStep::Done(r) && {
            &&& r.status == spec_status_of(resp.status)
            &&& status_in_range(resp.status) ==> r.body@ == cache.lookup(
                resp.body_file_name->0@,
            )->0
            &&& !status_in_range(resp.status) ==> r.body@ == "internal server error"@
            &&& headers_view(r.headers@) == match resp.headers {
                Some(hs) => headers_view(hs@),
                None => Seq::<(Seq<char>, Seq<char>)>::empty(),
            }
        }),
        resp.proxy_base_url is None && resp.body_file_name is Some && cache.lookup(
            resp.body_file_name->0@,
        ) is None ==> (step matches ProducerStep::NeedFile {
            response,
            name: n,
        } && {
            &&& n@ == resp.body_file_name->0@
            &&& response.status == resp.status
            &&& response.proxy_base_url is None
            &&& response.body_file_name matches Some(m) && m@ == resp.body_file_name->0@
            &&& (response.headers matches Some(v) ==> resp.headers matches Some(w)
                && headers_view(v@) == headers_view(w@))
            &&& (response.headers is Some <==> resp.headers is Some)
        }),
{
    if resp.proxy_base_url.is_some() {
        let plan = plan_upstream(resp, req, cfg);
        return ProducerStep::Upstream(plan);
    }
    match &resp.body_file_name {
        None => ProducerStep::Done(canned_response(resp, "Unable to process body".to_owned())),
        Some(name) => {
            match cache.get(name.as_str()) {
                Some(contents) => {
                    let body = contents.clone();
                    ProducerStep::Done(canned_response(resp, body))
                },
                None => ProducerStep::NeedFile {
                    response: copy_response(resp),
                    name: name.clone(),
                },
            }
        },
    }
}

/// Finish a canned response whose body file was not cached: settle the cache
/// with what the disk read produced, and serve the contents — or the
/// missing-file text when there was nothing to read.
pub fn produce_with_file(
    resp: &Response,
    cache: &mut BodyFileCache,
    name: &str,
    fetched: Option<String>,
) -> (r: HttpResponse)
    ensures
        r.status == spec_status_of(resp.status),
        !status_in_range(resp.status) ==> r.body@ == "internal server error"@,
        headers_view(r.headers@) == match resp.headers {
            Some(hs) => headers_view(hs@),
            None => Seq::<(Seq<char>, Seq<char>)>::empty(),
        },
        status_in_range(resp.status) ==> match old(cache).lookup(name@) {
            Some(v) => r.body@ == v,
            None => match fetched {
                Some(f) => r.body@ == f@,
                None => r.body@ == "Body file not found!"@,
            },
        },
        old(cache).lookup(name@) is Some ==> final(cache)@ == old(cache)@,
        old(cache).lookup(name@) is None && fetched is Some ==> (final(cache).lookup(name@)
            matches Some(v) && fetched matches Some(f) && v == f@),
        (old(cache).lookup(name@) is None && fetched is None) ==> final(cache)@ == old(cache)@,
{
    let body = match cache.settle(name, fetched) {
        Ok(contents) => contents,
        Err(e) => e.message(),
    };
    canned_response(resp, body)
}

} // verus!

