//! Declarative request/response mappings and the store that holds them.

use vstd::prelude::*;

verus! {

/// One HTTP header as configured in a mapping: a name/value pair.
#[derive(Clone, Debug)]
pub struct Header {
    pub key: String,
    pub value: String,
}

/// The request side of a mapping: every field is optional, and an absent
/// field is not a matching constraint. `url` and `url_pattern` constrain the
/// request path only; `headers` carries exact name/value constraints while
/// `headers_pattern` carries name/regular-expression constraints.
#[derive(Clone, Debug)]
pub struct Request {
    pub method: Option<String>,
    pub method_pattern: Option<String>,
    pub url: Option<String>,
    pub url_pattern: Option<String>,
    pub headers: Option<Vec<Header>>,
    pub headers_pattern: Option<Vec<Header>>,
}

/// The response side of a mapping. A mapping with `proxy_base_url` set is a
/// proxy rule; such a rule ignores `status`, `headers` and `body_file_name`.
#[derive(Clone, Debug)]
pub struct Response {
    pub status: Option<u16>,
    pub headers: Option<Vec<Header>>,
    pub body_file_name: Option<String>,
    pub proxy_base_url: Option<String>,
    pub additional_proxy_request_headers: Option<Vec<Header>>,
}

/// One declarative rule: a request pattern, the response to serve for it,
/// and a priority byte that orders competing matches (higher wins).
#[derive(Clone, Debug)]
pub struct Mapping {
    pub priority: u8,
    pub request: Request,
    pub response: Response,
}

impl Request {
    /// A pattern with no field set; it constrains nothing.
    pub fn empty() -> (r: Request)
        ensures
            r.method is None,
            r.method_pattern is None,
            r.url is None,
            r.url_pattern is None,
            r.headers is None,
            r.headers_pattern is None,
    {
        Request {
            method: None,
            method_pattern: None,
            url: None,
            url_pattern: None,
            headers: None,
            headers_pattern: None,
        }
    }
}

impl Response {
    /// A response pattern with no field set.
    pub fn empty() -> (r: Response)
        ensures
            r.status is None,
            r.headers is None,
            r.body_file_name is None,
            r.proxy_base_url is None,
            r.additional_proxy_request_headers is None,
    {
        Response {
            status: None,
            headers: None,
            body_file_name: None,
            proxy_base_url: None,
            additional_proxy_request_headers: None,
        }
    }
}

/// The mapping store: rules keyed by the 128-bit identifier assigned when a
/// rule file was loaded. Insertion order is kept, and it is what makes the
/// matcher's tie-break deterministic for a process run.
#[derive(Clone, Debug)]
pub struct Mappings {
    mappings: Vec<(u128, Mapping)>,
}

impl View for Mappings {
    type V = Seq<(u128, Mapping)>;

    closed spec fn view(&self) -> Seq<(u128, Mapping)> {
        self.mappings@
    }
}

impl Mappings {
    /// True when no two entries share an identifier.
    pub open spec fn wf(&self) -> bool {
        forall|i: int, j: int|
            0 <= i < j < self@.len() ==> self@[i].0 != self@[j].0
    }

    /// Index of the entry holding `id`, if any.
    pub open spec fn spec_index_of(&self, id: u128) -> Option<int> {
        if exists|i: int| 0 <= i < self@.len() && self@[i].0 == id {
            Some(choose|i: int| 0 <= i < self@.len() && self@[i].0 == id)
        } else {
            None
        }
    }

    /// An empty store.
    pub fn new() -> (r: Self)
        ensures
            r@ =~= Seq::<(u128, Mapping)>::empty(),
            r.wf(),
    {
        Mappings { mappings: Vec::new() }
    }

    /// Number of rules held.
    pub fn len(&self) -> (n: usize)
        ensures
            n == self@.len(),
    {
        self.mappings.len()
    }

    /// The rule at position `i`, in insertion order.
    pub fn get(&self, i: usize) -> (m: &Mapping)
        requires
            i < self@.len(),
        ensures
            *m == self@[i as int].1,
    {
        &self.mappings[i].1
    }

    /// Position of the entry holding `id`, scanning from the front.
    fn position_of(&self, id: u128) -> (r: Option<usize>)
        ensures
            r matches Some(i) ==> i < self@.len() && self@[i as int].0 == id,
            r is None ==> forall|k: int| 0 <= k < self@.len() ==> self@[k].0 != id,
    {
        let n = self.mappings.len();
        let mut i: usize = 0;
        while i < n
            invariant
                n == self.mappings.len(),
                i <= n,
                forall|k: int| 0 <= k < i ==> self.mappings@[k].0 != id,
            decreases n - i,
        {
            if self.mappings[i].0 == id {
                return Some(i);
            }
            i += 1;
        }
        None
    }

    /// Insert a rule under `id`. A rule already stored under the same id is
    /// replaced in place; otherwise the rule is appended.
    pub fn insert(&mut self, id: u128, mapping: Mapping)
        requires
            old(self).wf(),
        ensures
            final(self).wf(),
            old(self).spec_index_of(id) matches Some(i) ==> final(self)@ =~= old(
                self,
            )@.update(i, (id, mapping)),
            old(self).spec_index_of(id) is None ==> final(self)@ =~= old(self)@.push(
                (id, mapping),
            ),
    {
        match self.position_of(id) {
            Some(i) => {
                proof {
                    let j = choose|j: int| 0 <= j < self@.len() && self@[j].0 == id;
                    assert(self@[i as int].0 == id);
                    assert(j == i);
                }
                self.mappings.set(i, (id, mapping));
                proof {
                    assert forall|a: int, b: int|
                        0 <= a < b < self@.len() implies self@[a].0 != self@[b].0 by {
                        assert(old(self)@[a].0 != old(self)@[b].0);
                    }
                }
            },
            None => {
                self.mappings.push((id, mapping));
                proof {
                    assert forall|a: int, b: int|
                        0 <= a < b < self@.len() implies self@[a].0 != self@[b].0 by {
                        if b < self@.len() - 1 {
                            assert(old(self)@[a].0 != old(self)@[b].0);
                        } else {
                            assert(old(self)@[a].0 != id);
                        }
                    }
                }
            },
        }
    }
}

} // verus!
