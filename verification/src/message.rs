//! Incoming requests, outgoing responses, and the header grammar both obey.

use crate::mapping::Header;
use vstd::prelude::*;

verus! {

/// An inbound HTTP/1.1 request after framing: method, request-target split
/// into its path and optional query, and the headers in arrival order.
#[derive(Clone, Debug)]
pub struct HttpRequest {
    pub method: String,
    pub path: String,
    pub query: Option<String>,
    pub headers: Vec<Header>,
}

/// An outbound HTTP/1.1 response before framing.
#[derive(Clone, Debug)]
pub struct HttpResponse {
    pub status: u16,
    pub headers: Vec<Header>,
    pub body: String,
}

/// The request-target as it stood on the request line: path, then `?` and
/// the query when one was present.
pub open spec fn uri_of(r: HttpRequest) -> Seq<char> {
    match r.query {
        Some(q) => r.path@ + seq!['?'] + q@,
        None => r.path@,
    }
}

/// Token characters, the alphabet of HTTP methods and header names.
pub open spec fn is_tchar(c: char) -> bool {
    ('a' <= c <= 'z') || ('A' <= c <= 'Z') || ('0' <= c <= '9') || c == '!' || c == '#' || c
        == '$' || c == '%' || c == '&' || c == '\'' || c == '*' || c == '+' || c == '-' || c
        == '.' || c == '^' || c == '_' || c == '`' || c == '|' || c == '~'
}

/// Characters allowed in a header value: visible ASCII, space and tab.
pub open spec fn is_value_char(c: char) -> bool {
    c == ' ' || c == '\t' || ('\u{21}' <= c <= '\u{7e}')
}

/// A valid header name: a non-empty run of token characters.
pub open spec fn valid_header_name(s: Seq<char>) -> bool {
    s.len() > 0 && forall|i: int| 0 <= i < s.len() ==> is_tchar(#[trigger] s[i])
}

/// A valid header value: every character allowed in a value.
pub open spec fn valid_header_value(s: Seq<char>) -> bool {
    forall|i: int| 0 <= i < s.len() ==> is_value_char(#[trigger] s[i])
}

/// A header whose name and value are both representable on the wire.
pub open spec fn valid_header(h: Header) -> bool {
    valid_header_name(h.key@) && valid_header_value(h.value@)
}

/// ASCII upper-case letters folded to lower case; all else untouched.
pub open spec fn lower_char(c: char) -> char {
    if 'A' <= c <= 'Z' {
        (((c as u8) + 0x20) as u8) as char
    } else {
        c
    }
}

/// Header-name equality: same length, equal after case folding. HTTP names
/// compare case-insensitively; values never do.
pub open spec fn name_eq(a: Seq<char>, b: Seq<char>) -> bool {
    a.len() == b.len() && forall|i: int|
        0 <= i < a.len() ==> lower_char(#[trigger] a[i]) == lower_char(b[i])
}

/// The headers as pure name/value character sequences.
pub open spec fn headers_view(hs: Seq<Header>) -> Seq<(Seq<char>, Seq<char>)> {
    hs.map_values(|h: Header| (h.key@, h.value@))
}

/// A fresh header list carrying the same names and values.
pub fn copy_headers(hs: &Vec<Header>) -> (r: Vec<Header>)
    ensures
        headers_view(r@) == headers_view(hs@),
{
    let n = hs.len();
    let mut r: Vec<Header> = Vec::new();
    let mut i: usize = 0;
    while i < n
        invariant
            n == hs@.len(),
            i <= n,
            r@.len() == i,
            forall|k: int|
                0 <= k < i ==> (#[trigger] r@[k]).key@ == hs@[k].key@ && r@[k].value@
                    == hs@[k].value@,
        decreases n - i,
    {
        r.push(Header { key: hs[i].key.clone(), value: hs[i].value.clone() });
        i += 1;
    }
    proof {
        assert(headers_view(r@) =~= headers_view(hs@));
    }
    r
}

/// A fresh copy of an optional string.
pub fn copy_opt_string(o: &Option<String>) -> (r: Option<String>)
    ensures
        r is Some <==> o is Some,
        r matches Some(v) ==> o matches Some(w) && v@ == w@,
{
    match o {
        Some(v) => Some(v.clone()),
        None => None,
    }
}

/// Exact string equality, decided at the character level.
pub fn str_eq(a: &str, b: &str) -> (r: bool)
    ensures
        r == (a@ == b@),
{
    let owned_a = a.to_owned();
    let owned_b = b.to_owned();
    owned_a == owned_b
}

/// Whether `s` is a valid header name.
pub fn check_header_name(s: &str) -> (r: bool)
    ensures
        r == valid_header_name(s@),
{
    if !s.is_ascii() {
        proof {
            let i = choose|i: int| 0 <= i < s@.len() && !('\0' <= #[trigger] s@[i] <= '\u{7f}');
            assert(!is_tchar(s@[i]));
        }
        return false;
    }
    let n = s.unicode_len();
    if n == 0 {
        return false;
    }
    let mut i: usize = 0;
    while i < n
        invariant
            n == s@.len(),
            i <= n,
            s.is_ascii(),
            forall|k: int| 0 <= k < i ==> is_tchar(#[trigger] s@[k]),
        decreases n - i,
    {
        let b = s.get_ascii(i);
        let ok = (0x61 <= b && b <= 0x7a) || (0x41 <= b && b <= 0x5a) || (0x30 <= b && b
            <= 0x39) || b == 0x21 || b == 0x23 || b == 0x24 || b == 0x25 || b == 0x26 || b
            == 0x27 || b == 0x2a || b == 0x2b || b == 0x2d || b == 0x2e || b == 0x5e || b
            == 0x5f || b == 0x60 || b == 0x7c || b == 0x7e;
        if !ok {
            proof {
                assert(!is_tchar(s@[i as int]));
            }
            return false;
        }
        proof {
            assert(is_tchar(s@[i as int]));
        }
        i += 1;
    }
    true
}

/// Whether `s` is a valid header value.
pub fn check_header_value(s: &str) -> (r: bool)
    ensures
        r == valid_header_value(s@),
{
    if !s.is_ascii() {
        proof {
            let i = choose|i: int| 0 <= i < s@.len() && !('\0' <= #[trigger] s@[i] <= '\u{7f}');
            assert(!is_value_char(s@[i]));
        }
        return false;
    }
    let n = s.unicode_len();
    let mut i: usize = 0;
    while i < n
        invariant
            n == s@.len(),
            i <= n,
            s.is_ascii(),
            forall|k: int| 0 <= k < i ==> is_value_char(#[trigger] s@[k]),
        decreases n - i,
    {
        let b = s.get_ascii(i);
        let ok = b == 0x20 || b == 0x09 || (0x21 <= b && b <= 0x7e);
        if !ok {
            proof {
                assert(!is_value_char(s@[i as int]));
            }
            return false;
        }
        proof {
            assert(is_value_char(s@[i as int]));
        }
        i += 1;
    }
    true
}

/// Case-insensitive comparison of a request header name against a pattern
/// name already known to be a valid (hence ASCII) header name.
pub fn header_name_matches(req_name: &str, pat_name: &str) -> (r: bool)
    requires
        valid_header_name(pat_name@),
    ensures
        r == name_eq(req_name@, pat_name@),
{
    if !req_name.is_ascii() {
        proof {
            let i = choose|i: int|
                0 <= i < req_name@.len() && !('\0' <= #[trigger] req_name@[i] <= '\u{7f}');
            if req_name@.len() == pat_name@.len() {
                assert(is_tchar(pat_name@[i]));
                assert(lower_char(req_name@[i]) != lower_char(pat_name@[i]));
            }
        }
        return false;
    }
    let n = req_name.unicode_len();
    let m = pat_name.unicode_len();
    if n != m {
        return false;
    }
    let mut i: usize = 0;
    while i < n
        invariant
            n == req_name@.len(),
            n == pat_name@.len(),
            i <= n,
            req_name.is_ascii(),
            pat_name.is_ascii(),
            valid_header_name(pat_name@),
            forall|k: int|
                0 <= k < i ==> lower_char(#[trigger] req_name@[k]) == lower_char(pat_name@[k]),
        decreases n - i,
    {
        let a = req_name.get_ascii(i);
        let b = pat_name.get_ascii(i);
        let la = if 0x41 <= a && a <= 0x5a {
            a + 0x20
        } else {
            a
        };
        let lb = if 0x41 <= b && b <= 0x5a {
            b + 0x20
        } else {
            b
        };
        if la != lb {
            proof {
                assert(lower_char(req_name@[i as int]) != lower_char(pat_name@[i as int]));
            }
            return false;
        }
        proof {
            assert(lower_char(req_name@[i as int]) == lower_char(pat_name@[i as int]));
        }
        i += 1;
    }
    true
}

} // verus!
