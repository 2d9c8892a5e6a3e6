//! The request matcher: decides which mapping, if any, serves a request.
//!
//! Matching is multi-dimensional: exact and pattern constraints over the
//! method, the path, and the headers. The operator enables matcher classes
//! individually; a disabled class's constraints are ignored. Among the
//! mappings that match, the one with the highest priority byte wins, and a
//! tie goes to the mapping inserted first, which keeps the choice stable for
//! a process run.

use crate::error::Error;
use crate::mapping::{Header, Mapping, Mappings, Request};
use crate::message::{
    check_header_name, check_header_value, header_name_matches, name_eq, str_eq, valid_header,
    valid_header_name, HttpRequest,
};
use vstd::prelude::*;

verus! {

/// The set of matcher classes currently enabled.
#[derive(Clone, Copy, Debug, PartialEq, Eq, Structural)]
pub struct Enabled {
    pub exact_url: bool,
    pub pattern_url: bool,
    pub exact_method: bool,
    pub pattern_method: bool,
    pub exact_header: bool,
    pub pattern_header: bool,
    pub exact_headers: bool,
}

impl Enabled {
    /// No class enabled.
    pub open spec fn spec_empty() -> Enabled {
        Enabled {
            exact_url: false,
            pattern_url: false,
            exact_method: false,
            pattern_method: false,
            exact_header: false,
            pattern_header: false,
            exact_headers: false,
        }
    }

    /// Every class enabled.
    pub open spec fn spec_all() -> Enabled {
        Enabled {
            exact_url: true,
            pattern_url: true,
            exact_method: true,
            pattern_method: true,
            exact_header: true,
            pattern_header: true,
            exact_headers: true,
        }
    }

    /// The exact classes alone.
    pub open spec fn spec_exact() -> Enabled {
        Enabled {
            exact_url: true,
            pattern_url: false,
            exact_method: true,
            pattern_method: false,
            exact_header: true,
            pattern_header: false,
            exact_headers: true,
        }
    }

    /// The pattern classes alone.
    pub open spec fn spec_pattern() -> Enabled {
        Enabled {
            exact_url: false,
            pattern_url: true,
            exact_method: false,
            pattern_method: true,
            exact_header: false,
            pattern_header: true,
            exact_headers: false,
        }
    }

    /// No class enabled.
    pub fn empty() -> (r: Enabled)
        ensures
            r == Enabled::spec_empty(),
    {
        Enabled {
            exact_url: false,
            pattern_url: false,
            exact_method: false,
            pattern_method: false,
            exact_header: false,
            pattern_header: false,
            exact_headers: false,
        }
    }

    /// Every class enabled.
    pub fn all() -> (r: Enabled)
        ensures
            r == Enabled::spec_all(),
    {
        Enabled {
            exact_url: true,
            pattern_url: true,
            exact_method: true,
            pattern_method: true,
            exact_header: true,
            pattern_header: true,
            exact_headers: true,
        }
    }

    /// The exact classes alone.
    pub fn exact() -> (r: Enabled)
        ensures
            r == Enabled::spec_exact(),
    {
        Enabled {
            exact_url: true,
            pattern_url: false,
            exact_method: true,
            pattern_method: false,
            exact_header: true,
            pattern_header: false,
            exact_headers: true,
        }
    }

    /// The pattern classes alone.
    pub fn pattern() -> (r: Enabled)
        ensures
            r == Enabled::spec_pattern(),
    {
        Enabled {
            exact_url: false,
            pattern_url: true,
            exact_method: false,
            pattern_method: true,
            exact_header: false,
            pattern_header: true,
            exact_headers: false,
        }
    }

    /// True when no class is enabled.
    pub fn is_empty(&self) -> (r: bool)
        ensures
            r == (*self == Enabled::spec_empty()),
    {
        !self.exact_url && !self.pattern_url && !self.exact_method && !self.pattern_method
            && !self.exact_header && !self.pattern_header && !self.exact_headers
    }

    /// The union of two class sets.
    pub fn union(self, other: Enabled) -> (r: Enabled)
        ensures
            r.exact_url == (self.exact_url || other.exact_url),
            r.pattern_url == (self.pattern_url || other.pattern_url),
            r.exact_method == (self.exact_method || other.exact_method),
            r.pattern_method == (self.pattern_method || other.pattern_method),
            r.exact_header == (self.exact_header || other.exact_header),
            r.pattern_header == (self.pattern_header || other.pattern_header),
            r.exact_headers == (self.exact_headers || other.exact_headers),
    {
        Enabled {
            exact_url: self.exact_url || other.exact_url,
            pattern_url: self.pattern_url || other.pattern_url,
            exact_method: self.exact_method || other.exact_method,
            pattern_method: self.pattern_method || other.pattern_method,
            exact_header: self.exact_header || other.exact_header,
            pattern_header: self.pattern_header || other.pattern_header,
            exact_headers: self.exact_headers || other.exact_headers,
        }
    }
}

/// The class set that a run starts with, from the operator's flags: `all`
/// wins outright; otherwise the named groups are combined; and when nothing
/// was asked for, everything is enabled.
pub open spec fn spec_enable_matchers(all: bool, exact: bool, pattern: bool) -> Enabled {
    if all {
        Enabled::spec_all()
    } else if exact && pattern {
        Enabled::spec_all()
    } else if exact {
        Enabled::spec_exact()
    } else if pattern {
        Enabled::spec_pattern()
    } else {
        Enabled::spec_all()
    }
}

/// Turn the operator's matcher flags into the enabled class set.
pub fn enable_matchers(all: bool, exact: bool, pattern: bool) -> (r: Enabled)
    ensures
        r == spec_enable_matchers(all, exact, pattern),
{
    if all {
        Enabled::all()
    } else {
        let mut sub = Enabled::empty();
        if exact {
            sub = sub.union(Enabled::exact());
        }
        if pattern {
            sub = sub.union(Enabled::pattern());
        }
        if sub.is_empty() {
            sub = sub.union(Enabled::all());
        }
        sub
    }
}

/// What `regex::Regex::new` decides: whether `pattern` is a valid regular
/// expression. The outcome depends on the pattern alone.
pub uninterp spec fn regex_valid(pattern: Seq<char>) -> bool;

/// What `regex::Regex::is_match` decides for a valid `pattern`: whether some
/// part of `text` matches it. The outcome depends on pattern and text alone.
pub uninterp spec fn regex_accepts(pattern: Seq<char>, text: Seq<char>) -> bool;

/// Relies on `regex::Regex::new`: compilation of a pattern succeeds or fails
/// as a function of the pattern alone.
#[verifier::external_body]
fn regex_compiles(pattern: &str) -> (r: bool)
    ensures
        r == regex_valid(pattern@),
{
    regex::Regex::new(pattern).is_ok()
}

/// Relies on `regex::Regex::new` and `regex::Regex::is_match`: a compiled
/// pattern matches a text as a function of pattern and text alone; a pattern
/// that does not compile matches nothing.
#[verifier::external_body]
fn regex_is_match(pattern: &str, text: &str) -> (r: bool)
    ensures
        r == (regex_valid(pattern@) && regex_accepts(pattern@, text@)),
{
    match regex::Regex::new(pattern) {
        Ok(re) => re.is_match(text),
        Err(_) => false,
    }
}

/// The request holds a header whose name equals `h.key` case-insensitively
/// and whose value equals `h.value` exactly.
pub open spec fn req_has_header(req: HttpRequest, h: Header) -> bool {
    exists|j: int|
        0 <= j < req.headers@.len() && name_eq(#[trigger] req.headers@[j].key@, h.key@)
            && req.headers@[j].value@ == h.value@
}

/// The request holds a header whose name equals `h.key` case-insensitively
/// and whose value matches the regular expression in `h.value`.
pub open spec fn req_has_header_pattern(req: HttpRequest, h: Header) -> bool {
    exists|j: int|
        0 <= j < req.headers@.len() && name_eq(#[trigger] req.headers@[j].key@, h.key@)
            && regex_accepts(h.value@, req.headers@[j].value@)
}

/// The exact-method constraint, when defined, passes.
pub open spec fn exact_method_ok(pat: Request, req: HttpRequest) -> bool {
    pat.method matches Some(m) ==> req.method@ == m@
}

/// The method-pattern constraint, when defined, passes: the pattern is a
/// valid regular expression and the method matches it.
pub open spec fn pattern_method_ok(pat: Request, req: HttpRequest) -> bool {
    pat.method_pattern matches Some(p) ==> regex_valid(p@) && regex_accepts(p@, req.method@)
}

/// The exact-url constraint, when defined, passes. Only the request path is
/// compared; the query never takes part.
pub open spec fn exact_url_ok(pat: Request, req: HttpRequest) -> bool {
    pat.url matches Some(u) ==> req.path@ == u@
}

/// The url-pattern constraint, when defined, passes against the path alone.
pub open spec fn pattern_url_ok(pat: Request, req: HttpRequest) -> bool {
    pat.url_pattern matches Some(p) ==> regex_valid(p@) && regex_accepts(p@, req.path@)
}

/// The header constraint, shared by the exact-header and all-headers
/// classes: every representable constraint header must be present in the
/// request (universal, not existential). A header that is not representable
/// disqualifies only itself, so a list that is empty, or holds nothing
/// representable, constrains nothing.
pub open spec fn exact_headers_ok(pat: Request, req: HttpRequest) -> bool {
    pat.headers matches Some(hs) ==> forall|i: int|
        0 <= i < hs@.len() && valid_header(#[trigger] hs@[i]) ==> req_has_header(req, hs@[i])
}

/// The header-pattern constraint: every constraint entry with a well-formed
/// name and a valid regular expression must be matched by some request
/// header of that name; other entries disqualify only themselves.
pub open spec fn pattern_header_ok(pat: Request, req: HttpRequest) -> bool {
    pat.headers_pattern matches Some(hs) ==> forall|i: int|
        0 <= i < hs@.len() && valid_header_name((#[trigger] hs@[i]).key@) && regex_valid(
            hs@[i].value@,
        ) ==> req_has_header_pattern(req, hs@[i])
}

/// The match predicate: every constraint that is defined and whose class is
/// enabled passes. A pattern with nothing defined matches any request.
pub open spec fn request_matches(e: Enabled, pat: Request, req: HttpRequest) -> bool {
    &&& e.exact_method ==> exact_method_ok(pat, req)
    &&& e.pattern_method ==> pattern_method_ok(pat, req)
    &&& e.exact_url ==> exact_url_ok(pat, req)
    &&& e.pattern_url ==> pattern_url_ok(pat, req)
    &&& (e.exact_header || e.exact_headers) ==> exact_headers_ok(pat, req)
    &&& e.pattern_header ==> pattern_header_ok(pat, req)
}

/// The index of the winning mapping in `s`, if any mapping matches: the
/// first, in insertion order, of those with the highest priority.
pub open spec fn winner(e: Enabled, s: Seq<(u128, Mapping)>, req: HttpRequest) -> Option<int>
    decreases s.len(),
{
    if s.len() == 0 {
        None
    } else {
        let prev = winner(e, s.drop_last(), req);
        let last = s.len() - 1;
        if request_matches(e, s[last].1.request, req) {
            match prev {
                None => Some(last),
                Some(i) => if s[last].1.priority > s[i].1.priority {
                    Some(last)
                } else {
                    Some(i)
                },
            }
        } else {
            prev
        }
    }
}

/// What the winner is: a matching mapping of maximal priority, the earliest
/// inserted among those of that priority; and nothing wins only when nothing
/// matches.
pub proof fn lemma_winner_props(e: Enabled, s: Seq<(u128, Mapping)>, req: HttpRequest)
    ensures
        winner(e, s, req) matches Some(i) ==> {
            &&& 0 <= i < s.len()
            &&& request_matches(e, s[i].1.request, req)
            &&& forall|j: int|
                0 <= j < s.len() && request_matches(e, (#[trigger] s[j]).1.request, req)
                    ==> s[j].1.priority <= s[i].1.priority && (s[j].1.priority == s[i].1.priority
                    ==> i <= j)
        },
        winner(e, s, req) is None ==> forall|j: int|
            0 <= j < s.len() ==> !request_matches(e, (#[trigger] s[j]).1.request, req),
    decreases s.len(),
{
    if s.len() > 0 {
        let sub = s.drop_last();
        lemma_winner_props(e, sub, req);
        assert(forall|j: int| 0 <= j < sub.len() ==> s[j] == #[trigger] sub[j]);
        let last = s.len() - 1;
        if request_matches(e, s[last].1.request, req) {
            match winner(e, sub, req) {
                Some(i) => {
                    if s[last].1.priority > s[i].1.priority {
                        assert(winner(e, s, req) == Some(last));
                        assert forall|j: int|
                            0 <= j < s.len() && request_matches(
                                e,
                                (#[trigger] s[j]).1.request,
                                req,
                            ) implies s[j].1.priority <= s[last].1.priority && (s[j].1.priority
                            == s[last].1.priority ==> last <= j) by {
                            if j < last {
                                assert(request_matches(e, sub[j].1.request, req));
                                assert(sub[j].1.priority <= sub[i].1.priority);
                            }
                        }
                    } else {
                        assert(winner(e, s, req) == Some(i));
                        assert forall|j: int|
                            0 <= j < s.len() && request_matches(
                                e,
                                (#[trigger] s[j]).1.request,
                                req,
                            ) implies s[j].1.priority <= s[i].1.priority && (s[j].1.priority
                            == s[i].1.priority ==> i <= j) by {
                            if j < last {
                                assert(request_matches(e, sub[j].1.request, req));
                                assert(sub[j].1.priority <= sub[i].1.priority);
                            }
                        }
                    }
                },
                None => {
                    assert(winner(e, s, req) == Some(last));
                    assert forall|j: int|
                        0 <= j < s.len() && request_matches(
                            e,
                            (#[trigger] s[j]).1.request,
                            req,
                        ) implies j == last by {
                        if j < last {
                            assert(request_matches(e, sub[j].1.request, req));
                        }
                    }
                },
            }
        } else {
            assert(winner(e, s, req) == winner(e, sub, req));
            if winner(e, sub, req) is Some {
                let i = winner(e, sub, req)->0;
                assert forall|j: int|
                    0 <= j < s.len() && request_matches(
                        e,
                        (#[trigger] s[j]).1.request,
                        req,
                    ) implies s[j].1.priority <= s[i].1.priority && (s[j].1.priority
                    == s[i].1.priority ==> i <= j) by {
                    if j < last {
                        assert(request_matches(e, sub[j].1.request, req));
                        assert(sub[j].1.priority <= sub[i].1.priority);
                    }
                }
            } else {
                assert forall|j: int| 0 <= j < s.len() implies !request_matches(
                    e,
                    (#[trigger] s[j]).1.request,
                    req,
                ) by {
                    if j < last {
                        assert(s[j] == sub[j]);
                    }
                }
            }
        }
    }
}

/// Law: over a store holding one mapping, that mapping wins exactly when
/// every defined constraint of its request pattern passes against the
/// request.
pub proof fn lemma_matcher_singleton(e: Enabled, id: u128, m: Mapping, req: HttpRequest)
    ensures
        winner(e, seq![(id, m)], req) == if request_matches(e, m.request, req) {
            Some(0int)
        } else {
            None::<int>
        },
{
    let s = seq![(id, m)];
    assert(s.drop_last() =~= Seq::<(u128, Mapping)>::empty());
    assert(s[0] == (id, m));
    assert(winner(e, s.drop_last(), req) is None);
    if request_matches(e, m.request, req) {
        assert(winner(e, s, req) == Some(0int));
    } else {
        assert(winner(e, s, req) is None);
    }
}

/// Law: a request pattern with no field defined matches any request.
pub proof fn lemma_empty_pattern_matches(e: Enabled, pat: Request, req: HttpRequest)
    requires
        pat.method is None,
        pat.method_pattern is None,
        pat.url is None,
        pat.url_pattern is None,
        pat.headers is None,
        pat.headers_pattern is None,
    ensures
        request_matches(e, pat, req),
{
}

/// Law: matching reads only the request's method, path and headers — never
/// the query. Two requests differing only in their query match exactly the
/// same patterns.
pub proof fn lemma_match_ignores_query(
    e: Enabled,
    pat: Request,
    req1: HttpRequest,
    req2: HttpRequest,
)
    requires
        req1.method@ == req2.method@,
        req1.path@ == req2.path@,
        req1.headers@ == req2.headers@,
    ensures
        request_matches(e, pat, req1) == request_matches(e, pat, req2),
{
}

/// Case folding twice is folding once.
proof fn lemma_name_eq_trans(a: Seq<char>, b: Seq<char>, c: Seq<char>)
    requires
        name_eq(a, b),
        name_eq(b, c),
    ensures
        name_eq(a, c),
{
}

/// Law: header names match case-insensitively and values exactly. Two
/// requests whose headers agree position by position — names up to ASCII
/// case, values to the letter — match exactly the same patterns.
pub proof fn lemma_header_names_case_insensitive(
    e: Enabled,
    pat: Request,
    req1: HttpRequest,
    req2: HttpRequest,
)
    requires
        req1.method@ == req2.method@,
        req1.path@ == req2.path@,
        req1.headers@.len() == req2.headers@.len(),
        forall|j: int|
            0 <= j < req1.headers@.len() ==> name_eq(
                (#[trigger] req1.headers@[j]).key@,
                req2.headers@[j].key@,
            ) && req1.headers@[j].value@ == req2.headers@[j].value@,
    ensures
        request_matches(e, pat, req1) == request_matches(e, pat, req2),
{
    assert forall|h: Header| req_has_header(req1, h) == req_has_header(req2, h) by {
        if req_has_header(req1, h) {
            let j = choose|j: int|
                0 <= j < req1.headers@.len() && name_eq(
                    #[trigger] req1.headers@[j].key@,
                    h.key@,
                ) && req1.headers@[j].value@ == h.value@;
            lemma_name_eq_trans(req2.headers@[j].key@, req1.headers@[j].key@, h.key@);
            assert(name_eq(req2.headers@[j].key@, h.key@));
        }
        if req_has_header(req2, h) {
            let j = choose|j: int|
                0 <= j < req2.headers@.len() && name_eq(
                    #[trigger] req2.headers@[j].key@,
                    h.key@,
                ) && req2.headers@[j].value@ == h.value@;
            lemma_name_eq_trans(req1.headers@[j].key@, req2.headers@[j].key@, h.key@);
            assert(name_eq(req1.headers@[j].key@, h.key@));
        }
    }
    assert forall|h: Header|
        req_has_header_pattern(req1, h) == req_has_header_pattern(req2, h) by {
        if req_has_header_pattern(req1, h) {
            let j = choose|j: int|
                0 <= j < req1.headers@.len() && name_eq(
                    #[trigger] req1.headers@[j].key@,
                    h.key@,
                ) && regex_accepts(h.value@, req1.headers@[j].value@);
            lemma_name_eq_trans(req2.headers@[j].key@, req1.headers@[j].key@, h.key@);
            assert(name_eq(req2.headers@[j].key@, h.key@));
            assert(regex_accepts(h.value@, req2.headers@[j].value@));
        }
        if req_has_header_pattern(req2, h) {
            let j = choose|j: int|
                0 <= j < req2.headers@.len() && name_eq(
                    #[trigger] req2.headers@[j].key@,
                    h.key@,
                ) && regex_accepts(h.value@, req2.headers@[j].value@);
            lemma_name_eq_trans(req1.headers@[j].key@, req2.headers@[j].key@, h.key@);
            assert(name_eq(req1.headers@[j].key@, h.key@));
            assert(regex_accepts(h.value@, req1.headers@[j].value@));
        }
    }
}

/// Request matching over the mapping store.
#[derive(Clone, Copy, Debug)]
pub struct Matcher {
    pub enabled: Enabled,
}

impl Matcher {
    /// A matcher applying the given classes.
    pub fn new(enabled: Enabled) -> (r: Matcher)
        ensures
            r.enabled == enabled,
    {
        Matcher { enabled }
    }

    /// Whether the request carries a header matching `h` exactly.
    fn has_header_exact(req: &HttpRequest, h: &Header) -> (r: bool)
        requires
            valid_header_name(h.key@),
        ensures
            r == req_has_header(*req, *h),
    {
        let n = req.headers.len();
        let mut j: usize = 0;
        while j < n
            invariant
                n == req.headers@.len(),
                j <= n,
                valid_header_name(h.key@),
                forall|k: int|
                    0 <= k < j ==> !(name_eq(#[trigger] req.headers@[k].key@, h.key@)
                        && req.headers@[k].value@ == h.value@),
            decreases n - j,
        {
            let cand = &req.headers[j];
            if header_name_matches(cand.key.as_str(), h.key.as_str()) && str_eq(
                cand.value.as_str(),
                h.value.as_str(),
            ) {
                return true;
            }
            j += 1;
        }
        false
    }

    /// Whether the request carries a header whose name matches `h.key` and
    /// whose value matches the valid regular expression `h.value`.
    fn has_header_pattern(req: &HttpRequest, h: &Header) -> (r: bool)
        requires
            valid_header_name(h.key@),
            regex_valid(h.value@),
        ensures
            r == req_has_header_pattern(*req, *h),
    {
        let n = req.headers.len();
        let mut j: usize = 0;
        while j < n
            invariant
                n == req.headers@.len(),
                j <= n,
                valid_header_name(h.key@),
                regex_valid(h.value@),
                forall|k: int|
                    0 <= k < j ==> !(name_eq(#[trigger] req.headers@[k].key@, h.key@)
                        && regex_accepts(h.value@, req.headers@[k].value@)),
            decreases n - j,
        {
            let cand = &req.headers[j];
            if header_name_matches(cand.key.as_str(), h.key.as_str()) && regex_is_match(
                h.value.as_str(),
                cand.value.as_str(),
            ) {
                return true;
            }
            j += 1;
        }
        false
    }

    /// The header check over a constraint list: every representable entry
    /// must be present.
    fn exact_headers_pass(req: &HttpRequest, hs: &Vec<Header>) -> (r: bool)
        ensures
            r == forall|i: int|
                0 <= i < hs@.len() && valid_header(#[trigger] hs@[i]) ==> req_has_header(
                    *req,
                    hs@[i],
                ),
    {
        let n = hs.len();
        let mut i: usize = 0;
        while i < n
            invariant
                n == hs@.len(),
                i <= n,
                forall|k: int|
                    0 <= k < i && valid_header(#[trigger] hs@[k]) ==> req_has_header(
                        *req,
                        hs@[k],
                    ),
            decreases n - i,
        {
            let h = &hs[i];
            if check_header_name(h.key.as_str()) && check_header_value(h.value.as_str()) {
                if !Self::has_header_exact(req, h) {
                    return false;
                }
            }
            i += 1;
        }
        true
    }

    /// The header-pattern check over a constraint list.
    fn pattern_header_pass(req: &HttpRequest, hs: &Vec<Header>) -> (r: bool)
        ensures
            r == forall|i: int|
                0 <= i < hs@.len() && valid_header_name((#[trigger] hs@[i]).key@) && regex_valid(
                    hs@[i].value@,
                ) ==> req_has_header_pattern(*req, hs@[i]),
    {
        let n = hs.len();
        let mut i: usize = 0;
        while i < n
            invariant
                n == hs@.len(),
                i <= n,
                forall|k: int|
                    0 <= k < i && valid_header_name((#[trigger] hs@[k]).key@) && regex_valid(
                        hs@[k].value@,
                    ) ==> req_has_header_pattern(*req, hs@[k]),
            decreases n - i,
        {
            let h = &hs[i];
            if check_header_name(h.key.as_str()) && regex_compiles(h.value.as_str()) {
                if !Self::has_header_pattern(req, h) {
                    return false;
                }
            }
            i += 1;
        }
        true
    }

    /// Whether `req` matches one mapping's request pattern under the enabled
    /// classes.
    pub fn is_match(&self, req: &HttpRequest, mapping: &Mapping) -> (r: bool)
        ensures
            r == request_matches(self.enabled, mapping.request, *req),
    {
        let pat = &mapping.request;
        if self.enabled.exact_method {
            match &pat.method {
                Some(m) => {
                    if !str_eq(req.method.as_str(), m.as_str()) {
                        return false;
                    }
                },
                None => {},
            }
        }
        if self.enabled.pattern_method {
            match &pat.method_pattern {
                Some(p) => {
                    if !regex_is_match(p.as_str(), req.method.as_str()) {
                        return false;
                    }
                },
                None => {},
            }
        }
        if self.enabled.exact_url {
            match &pat.url {
                Some(u) => {
                    if !str_eq(req.path.as_str(), u.as_str()) {
                        return false;
                    }
                },
                None => {},
            }
        }
        if self.enabled.pattern_url {
            match &pat.url_pattern {
                Some(p) => {
                    if !regex_is_match(p.as_str(), req.path.as_str()) {
                        return false;
                    }
                },
                None => {},
            }
        }
        if self.enabled.exact_header || self.enabled.exact_headers {
            match &pat.headers {
                Some(hs) => {
                    if !Self::exact_headers_pass(req, hs) {
                        return false;
                    }
                },
                None => {},
            }
        }
        if self.enabled.pattern_header {
            match &pat.headers_pattern {
                Some(hs) => {
                    if !Self::pattern_header_pass(req, hs) {
                        return false;
                    }
                },
                None => {},
            }
        }
        true
    }

    /// Evaluate every mapping in the store and pick the winner: the first
    /// inserted among the matches of highest priority. `Err(NoMatch)` exactly
    /// when no mapping matches.
    pub fn get_match<'a>(&self, request: &HttpRequest, mappings: &'a Mappings) -> (r: Result<
        &'a Mapping,
        Error,
    >)
        ensures
            r is Ok <==> winner(self.enabled, mappings@, *request) is Some,
            r matches Ok(m) ==> winner(self.enabled, mappings@, *request) matches Some(i) && *m
                == mappings@[i].1,
            r is Err ==> (r matches Err(e) && e is NoMatch),
    {
        let ghost s = mappings@;
        let n = mappings.len();
        let mut best: Option<usize> = None;
        let mut best_priority: u8 = 0;
        let mut i: usize = 0;
        proof {
            assert(s.take(0) =~= Seq::<(u128, Mapping)>::empty());
        }
        while i < n
            invariant
                n == s.len(),
                s == mappings@,
                i <= n,
                match best {
                    Some(b) => {
                        &&& winner(self.enabled, s.take(i as int), *request) == Some(b as int)
                        &&& b < i
                        &&& best_priority == s[b as int].1.priority
                    },
                    None => winner(self.enabled, s.take(i as int), *request) is None,
                },
            decreases n - i,
        {
            let m = mappings.get(i);
            let matched = self.is_match(request, m);
            proof {
                assert(s.take(i + 1).drop_last() =~= s.take(i as int));
                assert(s.take(i + 1)[i as int] == s[i as int]);
            }
            if matched {
                match best {
                    None => {
                        best = Some(i);
                        best_priority = m.priority;
                    },
                    Some(_) => {
                        if m.priority > best_priority {
                            best = Some(i);
                            best_priority = m.priority;
                        }
                    },
                }
            }
            i += 1;
        }
        proof {
            assert(s.take(n as int) =~= s);
        }
        match best {
            Some(b) => Ok(mappings.get(b)),
            None => Err(Error::NoMatch),
        }
    }
}

} // verus!

