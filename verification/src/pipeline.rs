//! The per-connection pipeline: match each framed request against the store
//! and hand back either the finished response or the work that remains.
//!
//! The surrounding server owns the sockets and tasks; one `Handler` value is
//! shared read-only by every connection, so no request on one connection can
//! disturb another.

use crate::cache::BodyFileCache;
use crate::config::ProxyConfig;
use crate::mapping::{Mapping, Mappings, Response};
use crate::matcher::{winner, Enabled, Matcher};
use crate::message::{headers_view, HttpRequest, HttpResponse};
use crate::producer::{
    error_response, produce, spec_is_https, spec_status_of, status_in_range, ProducerStep,
    UpstreamPlan,
};
use vstd::prelude::*;

verus! {

/// What serving one request asks of the caller next.
pub enum ServeStep {
    /// The response is ready to write back.
    Done(HttpResponse),
    /// A body file must be read under the files root; resume with
    /// [`crate::producer::produce_with_file`].
    NeedFile { response: Response, name: String },
    /// An upstream round trip must be made; resume with
    /// [`crate::producer::upstream_response`].
    Upstream(UpstreamPlan),
}

/// The response pattern of the mapping that wins for `req`, if any does.
pub open spec fn winning_response(
    e: Enabled,
    s: Seq<(u128, Mapping)>,
    req: HttpRequest,
) -> Option<Response> {
    match winner(e, s, req) {
        None => None,
        Some(i) => Some(s[i].1.response),
    }
}

/// Everything one connection needs to serve requests: the enabled matcher
/// classes, the static mapping store, the outbound proxy settings and the
/// files root.
#[derive(Clone, Debug)]
pub struct Handler {
    pub enabled: Enabled,
    pub static_mappings: Mappings,
    pub proxy_config: ProxyConfig,
    pub files_path: String,
}

impl Handler {
    /// Assemble a handler. The proxy configuration must be usable.
    pub fn new(
        enabled: Enabled,
        static_mappings: Mappings,
        proxy_config: ProxyConfig,
        files_path: String,
    ) -> (r: Handler)
        requires
            proxy_config.wf(),
        ensures
            r.enabled == enabled,
            r.static_mappings == static_mappings,
            r.proxy_config == proxy_config,
            r.files_path == files_path,
    {
        Handler { enabled, static_mappings, proxy_config, files_path }
    }

    /// Serve one request: find the winning mapping and start producing its
    /// response. No winner yields the 404 error envelope; a canned winner
    /// yields the finished response or asks for its body file; a proxy
    /// winner yields the upstream plan.
    pub fn respond(&self, request: &HttpRequest, cache: &BodyFileCache) -> (step: ServeStep)
        requires
            self.proxy_config.wf(),
        ensures
            winning_response(self.enabled, self.static_mappings@, *request) is None ==> (step
                matches ServeStep::Done(r) && {
                &&& r.status == 404
                &&& r.body@ == "{\"error\":\"Mapping not found\"}"@
                &&& headers_view(r.headers@) =~= seq![("Content-Type"@, "application/json"@)]
            }),
            winning_response(self.enabled, self.static_mappings@, *request) matches Some(resp)
                ==> {
                &&& resp.proxy_base_url is Some ==> (step matches ServeStep::Upstream(p) && {
                    &&& resp.proxy_base_url matches Some(b) && p.url@ == b@
                        + crate::message::uri_of(*request)
                    &&& headers_view(p.headers@) == match resp.additional_proxy_request_headers {
                        Some(hs) => headers_view(hs@),
                        None => Seq::<(Seq<char>, Seq<char>)>::empty(),
                    }
                    &&& self.proxy_config.use_proxy ==> (p.client
                        matches crate::producer::ClientKind::Proxied { proxy_url, basic_auth }
                        && {
                        &&& self.proxy_config.proxy_url matches Some(u) && proxy_url@ == u@
                        &&& (basic_auth is Some <==> self.proxy_config.has_credentials())
                        &&& (self.proxy_config.proxy_username matches Some(un)
                            ==> (self.proxy_config.proxy_password matches Some(pw)
                            ==> (basic_auth matches Some(a) && a@
                            == crate::producer::spec_basic_credentials(un@, pw@))))
                    })
                    &&& !self.proxy_config.use_proxy && spec_is_https(
                        resp.proxy_base_url->0@ + crate::message::uri_of(*request),
                    ) ==> p.client is Https
                    &&& !self.proxy_config.use_proxy && !spec_is_https(
                        resp.proxy_base_url->0@ + crate::message::uri_of(*request),
                    ) ==> p.client is Http
                })
                &&& resp.proxy_base_url is None && resp.body_file_name is None ==> (step
                    matches ServeStep::Done(r) && {
                    &&& r.status == spec_status_of(resp.status)
                    &&& status_in_range(resp.status) ==> r.body@
                        == crate::producer::no_body_text()
                    &&& headers_view(r.headers@) == match resp.headers {
                        Some(hs) => headers_view(hs@),
                        None => Seq::<(Seq<char>, Seq<char>)>::empty(),
                    }
                })
                &&& resp.proxy_base_url is None && resp.body_file_name is Some && cache.lookup(
                    resp.body_file_name->0@,
                ) is Some ==> (step matches ServeStep::Done(r) && {
                    &&& r.status == spec_status_of(resp.status)
                    &&& status_in_range(resp.status) ==> r.body@ == cache.lookup(
                        resp.body_file_name->0@,
                    )->0
                    &&& headers_view(r.headers@) == match resp.headers {
                        Some(hs) => headers_view(hs@),
                        None => Seq::<(Seq<char>, Seq<char>)>::empty(),
                    }
                })
                &&& resp.proxy_base_url is None && resp.body_file_name is Some && cache.lookup(
                    resp.body_file_name->0@,
                ) is None ==> (step matches ServeStep::NeedFile { response, name } && {
                    &&& name@ == resp.body_file_name->0@
                    &&& response.status == resp.status
                    &&& response.proxy_base_url is None
                    &&& response.body_file_name matches Some(m) && m@
                        == resp.body_file_name->0@
                    &&& (response.headers is Some <==> resp.headers is Some)
                    &&& (response.headers matches Some(v) ==> resp.headers matches Some(w)
                        && headers_view(v@) == headers_view(w@))
                })
            },
    {
        let matcher = Matcher::new(self.enabled);
        match matcher.get_match(request, &self.static_mappings) {
            Err(_) => {
                let r = error_response(404, "Mapping not found");
                proof {
                    reveal_strlit("{\"error\":\"");
                    reveal_strlit("Mapping not found");
                    reveal_strlit("\"}");
                    reveal_strlit("{\"error\":\"Mapping not found\"}");
                    assert(("{\"error\":\""@ + "Mapping not found"@ + "\"}"@)
                        =~= "{\"error\":\"Mapping not found\"}"@);
                }
                ServeStep::Done(r)
            },
            Ok(mapping) => {
                match produce(&mapping.response, request, &self.proxy_config, cache) {
                    ProducerStep::Done(r) => ServeStep::Done(r),
                    ProducerStep::NeedFile { response, name } => ServeStep::NeedFile {
                        response,
                        name,
                    },
                    ProducerStep::Upstream(plan) => ServeStep::Upstream(plan),
                }
            },
        }
    }
}

/// The states one connection moves through.
#[derive(Clone, Copy, Debug, PartialEq, Eq, Structural)]
pub enum ConnState {
    /// Between exchanges, ready for the next request.
    Idle,
    /// Reading bytes until a whole request frame has arrived.
    Reading,
    /// A mapping won the match.
    Matched,
    /// No mapping matched; the error response will be produced.
    Unmatched,
    /// The producer is building or fetching the response.
    Producing,
    /// The response is being written back.
    Writing,
    /// The connection is finished; nothing more happens on it.
    Closed,
}

/// What the connection observed.
#[derive(Clone, Copy, Debug, PartialEq, Eq, Structural)]
pub enum ConnEvent {
    /// Bytes started arriving for the next request.
    ReadStarted,
    /// A whole frame arrived and a mapping matched it.
    RequestMatched,
    /// A whole frame arrived and no mapping matched it.
    RequestUnmatched,
    /// The producer took over the exchange.
    ProducerStarted,
    /// The response is ready to write.
    ResponseReady,
    /// The response has been written in full.
    ResponseWritten,
    /// A read, write, codec or connection failure.
    IoError,
}

/// The connection's transition relation: the ordinary cycle runs Idle,
/// Reading, Matched or Unmatched, Producing, Writing and back to Idle; any
/// failure, and any out-of-turn event, closes the connection.
pub open spec fn spec_conn_step(s: ConnState, e: ConnEvent) -> ConnState {
    match (s, e) {
        (ConnState::Idle, ConnEvent::ReadStarted) => ConnState::Reading,
        (ConnState::Reading, ConnEvent::RequestMatched) => ConnState::Matched,
        (ConnState::Reading, ConnEvent::RequestUnmatched) => ConnState::Unmatched,
        (ConnState::Matched, ConnEvent::ProducerStarted) => ConnState::Producing,
        (ConnState::Unmatched, ConnEvent::ProducerStarted) => ConnState::Producing,
        (ConnState::Producing, ConnEvent::ResponseReady) => ConnState::Writing,
        (ConnState::Writing, ConnEvent::ResponseWritten) => ConnState::Idle,
        _ => ConnState::Closed,
    }
}

/// Advance the connection state machine by one observed event.
pub fn conn_step(s: ConnState, e: ConnEvent) -> (r: ConnState)
    ensures
        r == spec_conn_step(s, e),
{
    match (s, e) {
        (ConnState::Idle, ConnEvent::ReadStarted) => ConnState::Reading,
        (ConnState::Reading, ConnEvent::RequestMatched) => ConnState::Matched,
        (ConnState::Reading, ConnEvent::RequestUnmatched) => ConnState::Unmatched,
        (ConnState::Matched, ConnEvent::ProducerStarted) => ConnState::Producing,
        (ConnState::Unmatched, ConnEvent::ProducerStarted) => ConnState::Producing,
        (ConnState::Producing, ConnEvent::ResponseReady) => ConnState::Writing,
        (ConnState::Writing, ConnEvent::ResponseWritten) => ConnState::Idle,
        _ => ConnState::Closed,
    }
}

} // verus!
