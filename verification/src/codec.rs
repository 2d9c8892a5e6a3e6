//! The inbound HTTP/1.1 codec: framing requests off a byte stream and
//! writing responses back onto it.
//!
//! The decoder recognises exactly the grammar below and nothing else; any
//! version other than HTTP/1.1 is rejected. The encoder writes the status
//! line, every representable header in declared order, a `Content-Length`
//! when none was declared, and the body.

use crate::mapping::Header;
use crate::message::{
    check_header_name, check_header_value, header_name_matches, name_eq, valid_header,
    HttpRequest, HttpResponse,
};
use crate::util::{dec_rep, push_decimal, spec_find_byte};
use vstd::prelude::*;
use vstd::utf8::encode_utf8;

verus! {

/// The inbound codec.
#[derive(Clone, Copy, Debug)]
pub struct Http;

/// Bytes as characters, one per byte.
pub open spec fn chars_of(b: Seq<u8>) -> Seq<char> {
    b.map_values(|x: u8| x as char)
}

/// Token bytes: the ASCII codes of HTTP token characters.
pub open spec fn is_tchar_b(b: u8) -> bool {
    (0x61 <= b <= 0x7a) || (0x41 <= b <= 0x5a) || (0x30 <= b <= 0x39) || b == 0x21 || b == 0x23
        || b == 0x24 || b == 0x25 || b == 0x26 || b == 0x27 || b == 0x2a || b == 0x2b || b
        == 0x2d || b == 0x2e || b == 0x5e || b == 0x5f || b == 0x60 || b == 0x7c || b == 0x7e
}

/// Visible ASCII, the alphabet of request targets.
pub open spec fn is_vchar_b(b: u8) -> bool {
    0x21 <= b <= 0x7e
}

/// Bytes allowed in a header value before trimming: visible ASCII, space
/// and tab.
pub open spec fn is_value_b(b: u8) -> bool {
    b == 0x20 || b == 0x09 || (0x21 <= b <= 0x7e)
}

/// A non-empty run of token bytes.
pub open spec fn is_token_bytes(s: Seq<u8>) -> bool {
    s.len() > 0 && forall|i: int| 0 <= i < s.len() ==> is_tchar_b(#[trigger] s[i])
}

/// A non-empty run of visible ASCII.
pub open spec fn is_target_bytes(s: Seq<u8>) -> bool {
    s.len() > 0 && forall|i: int| 0 <= i < s.len() ==> is_vchar_b(#[trigger] s[i])
}

/// Every byte is allowed in a header value.
pub open spec fn is_value_bytes(s: Seq<u8>) -> bool {
    forall|i: int| 0 <= i < s.len() ==> is_value_b(#[trigger] s[i])
}

/// Optional whitespace: space or tab.
pub open spec fn is_ows_b(b: u8) -> bool {
    b == 0x20 || b == 0x09
}

/// First position at or after `from` that is not optional whitespace.
pub open spec fn front_ws_end(s: Seq<u8>, from: int) -> int
    decreases s.len() - from,
{
    if from < 0 || from >= s.len() {
        s.len() as int
    } else if is_ows_b(s[from]) {
        front_ws_end(s, from + 1)
    } else {
        from
    }
}

/// One past the last position before `upto` that is not optional whitespace.
pub open spec fn back_ws_start(s: Seq<u8>, upto: int) -> int
    decreases upto,
{
    if upto <= 0 || upto > s.len() {
        0
    } else if is_ows_b(s[upto - 1]) {
        back_ws_start(s, upto - 1)
    } else {
        upto
    }
}

/// The value with its surrounding optional whitespace removed.
pub open spec fn trim_ows(s: Seq<u8>) -> Seq<u8> {
    let front = front_ws_end(s, 0);
    let back = back_ws_start(s, s.len() as int);
    if front >= back {
        Seq::<u8>::empty()
    } else {
        s.subrange(front, back)
    }
}

/// Where one line ends, if its CRLF has fully arrived.
pub enum LineAt {
    /// No complete CRLF yet: more bytes are needed.
    Incomplete,
    /// A carriage return not followed by a line feed.
    Invalid,
    /// The line's content runs from the scan start up to `end`, exclusive;
    /// the next line starts at `end + 2`.
    End(int),
}

/// Scan for the CRLF that ends the line starting at `from`.
pub open spec fn line_at(s: Seq<u8>, from: int) -> LineAt {
    match spec_find_byte(s, 13, from) {
        None => LineAt::Incomplete,
        Some(i) => if !(from <= i && i + 1 < s.len()) {
            LineAt::Incomplete
        } else if s[i + 1] != 10 {
            LineAt::Invalid
        } else {
            LineAt::End(i)
        },
    }
}

/// The byte rendering of `HTTP/1.1`, the only version accepted.
pub open spec fn http11_bytes() -> Seq<u8> {
    encode_utf8("HTTP/1.1"@)
}

/// Parse `method SP target SP HTTP/1.1` out of a request line, splitting
/// the target at its first `?` into path and query.
pub open spec fn parse_request_line(line: Seq<u8>) -> Option<
    (Seq<u8>, Seq<u8>, Option<Seq<u8>>),
> {
    match spec_find_byte(line, 32, 0) {
        None => None,
        Some(a) => match spec_find_byte(line, 32, a + 1) {
            None => None,
            Some(b) => {
                let method = line.subrange(0, a);
                let target = line.subrange(a + 1, b);
                let version = line.subrange(b + 1, line.len() as int);
                if is_token_bytes(method) && is_target_bytes(target) && version
                    == http11_bytes() {
                    match spec_find_byte(target, 63, 0) {
                        None => Some((method, target, None)),
                        Some(q) => Some(
                            (
                                method,
                                target.subrange(0, q),
                                Some(target.subrange(q + 1, target.len() as int)),
                            ),
                        ),
                    }
                } else {
                    None
                }
            },
        },
    }
}

/// Parse `name: value` out of a header line: a token name, a colon, and a
/// value whose surrounding whitespace is dropped.
pub open spec fn parse_header_line(line: Seq<u8>) -> Option<(Seq<u8>, Seq<u8>)> {
    match spec_find_byte(line, 58, 0) {
        None => None,
        Some(i) => {
            let name = line.subrange(0, i);
            let raw = line.subrange(i + 1, line.len() as int);
            if is_token_bytes(name) && is_value_bytes(raw) {
                Some((name, trim_ows(raw)))
            } else {
                None
            }
        },
    }
}

/// How parsing the header section ended.
pub enum HeadersParse {
    /// More bytes are needed.
    Incomplete,
    /// A malformed line.
    Invalid,
    /// The empty line arrived: the frame's header section is `headers` and
    /// the frame ends at `used`.
    Done { used: int, headers: Seq<(Seq<u8>, Seq<u8>)> },
}

/// Parse header lines starting at `from` until the empty line.
pub open spec fn parse_headers(s: Seq<u8>, from: int, acc: Seq<(Seq<u8>, Seq<u8>)>)
    -> HeadersParse
    decreases s.len() - from,
{
    if from < 0 {
        HeadersParse::Invalid
    } else {
        match line_at(s, from) {
            LineAt::Incomplete => HeadersParse::Incomplete,
            LineAt::Invalid => HeadersParse::Invalid,
            LineAt::End(end) => {
                if end == from {
                    HeadersParse::Done { used: from + 2, headers: acc }
                } else {
                    match parse_header_line(s.subrange(from, end)) {
                        None => HeadersParse::Invalid,
                        Some(p) => parse_headers(s, end + 2, acc.push(p)),
                    }
                }
            },
        }
    }
}

/// How decoding one frame off the buffer ended.
pub enum FrameParse {
    /// More bytes are needed before anything can be decided.
    Incomplete,
    /// The bytes are not an HTTP/1.1 request frame.
    Invalid,
    /// A full frame: it occupies the first `used` bytes.
    Done {
        used: int,
        method: Seq<u8>,
        path: Seq<u8>,
        query: Option<Seq<u8>>,
        headers: Seq<(Seq<u8>, Seq<u8>)>,
    },
}

/// The decoder's grammar: a request line, then header lines, then the empty
/// line.
pub open spec fn spec_decode(s: Seq<u8>) -> FrameParse {
    match line_at(s, 0) {
        LineAt::Incomplete => FrameParse::Incomplete,
        LineAt::Invalid => FrameParse::Invalid,
        LineAt::End(end) => match parse_request_line(s.subrange(0, end)) {
            None => FrameParse::Invalid,
            Some((method, path, query)) => match parse_headers(
                s,
                end + 2,
                Seq::empty(),
            ) {
                HeadersParse::Incomplete => FrameParse::Incomplete,
                HeadersParse::Invalid => FrameParse::Invalid,
                HeadersParse::Done { used, headers } => FrameParse::Done {
                    used,
                    method,
                    path,
                    query,
                    headers,
                },
            },
        },
    }
}

/// The serialization of one response header: nothing at all for a header
/// that is not representable on the wire.
pub open spec fn ser_header(h: Header) -> Seq<u8> {
    if valid_header(h) {
        encode_utf8(h.key@) + encode_utf8(": "@) + encode_utf8(h.value@) + encode_utf8("\r\n"@)
    } else {
        Seq::<u8>::empty()
    }
}

/// The serialization of a header list, in declared order.
pub open spec fn ser_headers(hs: Seq<Header>) -> Seq<u8>
    decreases hs.len(),
{
    if hs.len() == 0 {
        Seq::<u8>::empty()
    } else {
        ser_headers(hs.drop_last()) + ser_header(hs.last())
    }
}

/// A representable `Content-Length` header is already declared.
pub open spec fn has_content_length(hs: Seq<Header>) -> bool {
    exists|i: int|
        0 <= i < hs.len() && valid_header(#[trigger] hs[i]) && name_eq(
            hs[i].key@,
            "Content-Length"@,
        )
}

/// A decoded token — a method or header name — is a valid header name in
/// the matcher's sense: matching applies to decoded requests as framed.
pub proof fn lemma_token_bytes_valid_name(b: Seq<u8>)
    requires
        is_token_bytes(b),
    ensures
        crate::message::valid_header_name(chars_of(b)),
{
    assert forall|i: int|
        0 <= i < chars_of(b).len() implies crate::message::is_tchar(
        #[trigger] chars_of(b)[i],
    ) by {
        assert(chars_of(b)[i] == b[i] as char);
        assert(is_tchar_b(b[i]));
    }
}

/// Every header name the parser accepts is a token.
proof fn lemma_parse_headers_token_names(s: Seq<u8>, from: int, acc: Seq<(Seq<u8>, Seq<u8>)>)
    requires
        forall|i: int| 0 <= i < acc.len() ==> is_token_bytes((#[trigger] acc[i]).0),
    ensures
        parse_headers(s, from, acc) matches HeadersParse::Done { headers, .. } ==> forall|
            i: int,
        | 0 <= i < headers.len() ==> is_token_bytes((#[trigger] headers[i]).0),
    decreases s.len() - from,
{
    if from >= 0 {
        match line_at(s, from) {
            LineAt::End(end) => {
                if end != from {
                    match parse_header_line(s.subrange(from, end)) {
                        Some(p) => {
                            assert(is_token_bytes(p.0));
                            assert(forall|i: int|
                                0 <= i < acc.push(p).len() ==> is_token_bytes(
                                    (#[trigger] acc.push(p)[i]).0,
                                ));
                            lemma_parse_headers_token_names(s, end + 2, acc.push(p));
                        },
                        None => {},
                    }
                }
            },
            _ => {},
        }
    }
}

/// Law: what is emitted for a header list depends only on the declared
/// names and values — exactly what the producer promises to preserve.
pub proof fn lemma_ser_headers_view(a: Seq<Header>, b: Seq<Header>)
    requires
        crate::message::headers_view(a) == crate::message::headers_view(b),
    ensures
        ser_headers(a) == ser_headers(b),
    decreases a.len(),
{
    assert(crate::message::headers_view(a).len() == a.len());
    assert(crate::message::headers_view(b).len() == b.len());
    assert(a.len() == b.len());
    if a.len() > 0 {
        assert forall|k: int|
            0 <= k < a.len() implies (#[trigger] a[k]).key@ == b[k].key@ && a[k].value@
            == b[k].value@ by {
            assert(crate::message::headers_view(a)[k] == (a[k].key@, a[k].value@));
            assert(crate::message::headers_view(b)[k] == (b[k].key@, b[k].value@));
        }
        assert(crate::message::headers_view(a.drop_last()) =~= crate::message::headers_view(
            b.drop_last(),
        ));
        lemma_ser_headers_view(a.drop_last(), b.drop_last());
        assert(valid_header(a.last()) == valid_header(b.last()));
    }
}

/// Law: emission keeps exactly the representable declared headers, in
/// declared order — serialising a list and serialising only its
/// representable entries write the same bytes.
pub proof fn lemma_ser_headers_filter(hs: Seq<Header>)
    ensures
        ser_headers(hs) == ser_headers(hs.filter(|h: Header| valid_header(h))),
    decreases hs.len(),
{
    reveal(Seq::filter);
    if hs.len() > 0 {
        lemma_ser_headers_filter(hs.drop_last());
        let kept = hs.filter(|h: Header| valid_header(h));
        let kept_rest = hs.drop_last().filter(|h: Header| valid_header(h));
        if valid_header(hs.last()) {
            assert(kept == kept_rest.push(hs.last()));
            assert(kept.drop_last() =~= kept_rest);
            assert(kept.last() == hs.last());
        } else {
            assert(kept == kept_rest);
            assert(ser_header(hs.last()) =~= Seq::<u8>::empty());
            assert(ser_headers(hs) =~= ser_headers(hs.drop_last()));
        }
    }
}

/// Law: a response whose headers carry the declared names and values is
/// emitted with exactly the representable declared headers, in declared
/// order.
pub proof fn lemma_emit_preserves_declared_headers(declared: Seq<Header>, r: HttpResponse)
    requires
        crate::message::headers_view(r.headers@) == crate::message::headers_view(declared),
    ensures
        ser_headers(r.headers@) == ser_headers(
            declared.filter(|h: Header| valid_header(h)),
        ),
{
    lemma_ser_headers_view(r.headers@, declared);
    lemma_ser_headers_filter(declared);
}

/// The reason phrase written on the status line.
pub open spec fn spec_reason(status: u16) -> Seq<char> {
    if status == 200 {
        "OK"@
    } else if status == 201 {
        "Created"@
    } else if status == 204 {
        "No Content"@
    } else if status == 301 {
        "Moved Permanently"@
    } else if status == 302 {
        "Found"@
    } else if status == 400 {
        "Bad Request"@
    } else if status == 401 {
        "Unauthorized"@
    } else if status == 403 {
        "Forbidden"@
    } else if status == 404 {
        "Not Found"@
    } else if status == 500 {
        "Internal Server Error"@
    } else if status == 502 {
        "Bad Gateway"@
    } else if status == 503 {
        "Service Unavailable"@
    } else {
        "Unknown"@
    }
}

/// The serialization of a whole response: status line, declared headers, a
/// `Content-Length` from the body when none was declared, the blank line,
/// and the body bytes.
pub open spec fn spec_encode(r: HttpResponse) -> Seq<u8> {
    encode_utf8("HTTP/1.1 "@) + dec_rep(r.status as int) + encode_utf8(" "@) + encode_utf8(
        spec_reason(r.status),
    ) + encode_utf8("\r\n"@) + ser_headers(r.headers@) + (if has_content_length(r.headers@) {
        Seq::<u8>::empty()
    } else {
        encode_utf8("Content-Length: "@) + dec_rep(
            (encode_utf8(r.body@).len() as usize) as int,
        ) + encode_utf8("\r\n"@)
    }) + encode_utf8("\r\n"@) + encode_utf8(r.body@)
}

/// Byte-pair headers as character-pair headers.
pub open spec fn headers_chars(hs: Seq<(Seq<u8>, Seq<u8>)>) -> Seq<(Seq<char>, Seq<char>)> {
    hs.map_values(|p: (Seq<u8>, Seq<u8>)| (chars_of(p.0), chars_of(p.1)))
}

/// What one decode attempt produced.
#[derive(Debug)]
pub enum DecodeOutcome {
    /// The buffer does not yet hold a whole frame.
    Incomplete,
    /// The buffer can never hold a frame: close the connection.
    Invalid,
    /// One whole request frame, occupying the first `consumed` bytes.
    Complete { consumed: usize, request: HttpRequest },
}

/// Result of scanning for one line's CRLF.
enum LineScan {
    Incomplete,
    Invalid,
    End(usize),
}

/// Scan for the CRLF ending the line that starts at `from`.
fn find_line(src: &Vec<u8>, from: usize) -> (r: LineScan)
    ensures
        r is Incomplete <==> line_at(src@, from as int) is Incomplete,
        r is Invalid <==> line_at(src@, from as int) is Invalid,
        r matches LineScan::End(e) ==> line_at(src@, from as int) == LineAt::End(e as int)
            && from <= e && e + 1 < src@.len(),
{
    let n = src.len();
    match crate::util::find_byte(src, 13, from) {
        None => LineScan::Incomplete,
        Some(i) => {
            proof {
                crate::util::lemma_find_byte(src@, 13, from as int);
            }
            if i + 1 >= n {
                LineScan::Incomplete
            } else if src[i + 1] != 10 {
                LineScan::Invalid
            } else {
                LineScan::End(i)
            }
        },
    }
}

/// The bytes of `src` from `a` up to `b`.
fn copy_range(src: &Vec<u8>, a: usize, b: usize) -> (v: Vec<u8>)
    requires
        a <= b <= src@.len(),
    ensures
        v@ == src@.subrange(a as int, b as int),
{
    let mut v: Vec<u8> = Vec::new();
    let mut i: usize = a;
    while i < b
        invariant
            a <= i <= b <= src@.len(),
            v@ == src@.subrange(a as int, i as int),
        decreases b - i,
    {
        v.push(src[i]);
        proof {
            assert(src@.subrange(a as int, i + 1) =~= src@.subrange(a as int, i as int).push(
                src@[i as int],
            ));
        }
        i += 1;
    }
    v
}

/// Whether every byte of `v` is a token byte, and there is at least one.
fn check_token_bytes(v: &Vec<u8>) -> (r: bool)
    ensures
        r == is_token_bytes(v@),
{
    let n = v.len();
    if n == 0 {
        return false;
    }
    let mut i: usize = 0;
    while i < n
        invariant
            n == v@.len(),
            i <= n,
            forall|k: int| 0 <= k < i ==> is_tchar_b(#[trigger] v@[k]),
        decreases n - i,
    {
        let b = v[i];
        let ok = (0x61 <= b && b <= 0x7a) || (0x41 <= b && b <= 0x5a) || (0x30 <= b && b
            <= 0x39) || b == 0x21 || b == 0x23 || b == 0x24 || b == 0x25 || b == 0x26 || b
            == 0x27 || b == 0x2a || b == 0x2b || b == 0x2d || b == 0x2e || b == 0x5e || b
            == 0x5f || b == 0x60 || b == 0x7c || b == 0x7e;
        if !ok {
            return false;
        }
        i += 1;
    }
    true
}

/// Whether every byte of `v` is visible ASCII, and there is at least one.
fn check_target_bytes(v: &Vec<u8>) -> (r: bool)
    ensures
        r == is_target_bytes(v@),
{
    let n = v.len();
    if n == 0 {
        return false;
    }
    let mut i: usize = 0;
    while i < n
        invariant
            n == v@.len(),
            i <= n,
            forall|k: int| 0 <= k < i ==> is_vchar_b(#[trigger] v@[k]),
        decreases n - i,
    {
        let b = v[i];
        if !(0x21 <= b && b <= 0x7e) {
            return false;
        }
        i += 1;
    }
    true
}

/// Whether every byte of `v` may appear in a header value.
fn check_value_bytes(v: &Vec<u8>) -> (r: bool)
    ensures
        r == is_value_bytes(v@),
{
    let n = v.len();
    let mut i: usize = 0;
    while i < n
        invariant
            n == v@.len(),
            i <= n,
            forall|k: int| 0 <= k < i ==> is_value_b(#[trigger] v@[k]),
        decreases n - i,
    {
        let b = v[i];
        if !(b == 0x20 || b == 0x09 || (0x21 <= b && b <= 0x7e)) {
            return false;
        }
        i += 1;
    }
    true
}

/// Drop optional whitespace from both ends of `v`.
fn trim_ows_e(v: &Vec<u8>) -> (r: Vec<u8>)
    ensures
        r@ == trim_ows(v@),
{
    let n = v.len();
    let mut front: usize = 0;
    while front < n && (v[front] == 0x20 || v[front] == 0x09)
        invariant
            n == v@.len(),
            front <= n,
            front_ws_end(v@, 0) == front_ws_end(v@, front as int),
        decreases n - front,
    {
        front += 1;
    }
    proof {
        assert(front_ws_end(v@, front as int) == front);
    }
    let mut back: usize = n;
    while back > 0 && (v[back - 1] == 0x20 || v[back - 1] == 0x09)
        invariant
            n == v@.len(),
            back <= n,
            back_ws_start(v@, n as int) == back_ws_start(v@, back as int),
        decreases back,
    {
        back -= 1;
    }
    proof {
        assert(back_ws_start(v@, back as int) == back);
    }
    if front >= back {
        let r: Vec<u8> = Vec::new();
        proof {
            assert(r@ =~= trim_ows(v@));
        }
        r
    } else {
        copy_range(v, front, back)
    }
}

/// Where the leading whitespace ends lies within the sequence.
proof fn lemma_front_ws_bounds(s: Seq<u8>, from: int)
    requires
        0 <= from <= s.len(),
    ensures
        from <= front_ws_end(s, from) <= s.len(),
    decreases s.len() - from,
{
    if from < s.len() && is_ows_b(s[from]) {
        lemma_front_ws_bounds(s, from + 1);
    }
}

/// Where the trailing whitespace starts lies within the sequence.
proof fn lemma_back_ws_bounds(s: Seq<u8>, upto: int)
    requires
        0 <= upto <= s.len(),
    ensures
        0 <= back_ws_start(s, upto) <= upto,
    decreases upto,
{
    if 0 < upto <= s.len() && is_ows_b(s[upto - 1]) {
        lemma_back_ws_bounds(s, upto - 1);
    }
}

/// A token or value byte sequence is ASCII.
proof fn lemma_low_bytes_ascii(b: Seq<u8>)
    requires
        forall|i: int| 0 <= i < b.len() ==> #[trigger] b[i] <= 0x7e,
    ensures
        forall|i: int| 0 <= i < b.len() ==> #[trigger] b[i] < 0x80,
{
}

/// Parse one header line into its name and trimmed value.
fn parse_header_line_e(line: &Vec<u8>) -> (r: Option<(String, String)>)
    ensures
        r is Some <==> parse_header_line(line@) is Some,
        r matches Some((k, v)) ==> (parse_header_line(line@) matches Some(p) && k@ == chars_of(
            p.0,
        ) && v@ == chars_of(p.1)),
{
    let n = line.len();
    match crate::util::find_byte(line, 58, 0) {
        None => None,
        Some(i) => {
            proof {
                crate::util::lemma_find_byte(line@, 58, 0);
            }
            let name = copy_range(line, 0, i);
            let raw = copy_range(line, i + 1, n);
            if check_token_bytes(&name) && check_value_bytes(&raw) {
                let value = trim_ows_e(&raw);
                proof {
                    assert(forall|k: int| 0 <= k < name@.len() ==> #[trigger] name@[k] <= 0x7e);
                    lemma_low_bytes_ascii(name@);
                    lemma_front_ws_bounds(raw@, 0);
                    lemma_back_ws_bounds(raw@, raw@.len() as int);
                    assert forall|k: int|
                        0 <= k < value@.len() implies #[trigger] value@[k] <= 0x7e by {
                        let front = front_ws_end(raw@, 0);
                        let back = back_ws_start(raw@, raw@.len() as int);
                        if front < back {
                            assert(value@[k] == raw@[front + k]);
                        }
                    }
                    lemma_low_bytes_ascii(value@);
                }
                let key = crate::util::ascii_to_string(&name);
                let val = crate::util::ascii_to_string(&value);
                proof {
                    assert(key@ =~= chars_of(name@));
                    assert(val@ =~= chars_of(value@));
                }
                Some((key, val))
            } else {
                None
            }
        },
    }
}

/// Compare two byte vectors for equality.
fn vec_bytes_eq(a: &Vec<u8>, b: &Vec<u8>) -> (r: bool)
    ensures
        r == (a@ == b@),
{
    let n = a.len();
    if n != b.len() {
        return false;
    }
    let mut i: usize = 0;
    while i < n
        invariant
            n == a@.len(),
            n == b@.len(),
            i <= n,
            forall|k: int| 0 <= k < i ==> a@[k] == b@[k],
        decreases n - i,
    {
        if a[i] != b[i] {
            return false;
        }
        i += 1;
    }
    proof {
        assert(a@ =~= b@);
    }
    true
}

/// Parse the request line into method, path and query.
fn parse_request_line_e(line: &Vec<u8>) -> (r: Option<(String, String, Option<String>)>)
    ensures
        r is Some <==> parse_request_line(line@) is Some,
        r matches Some((m, p, q)) ==> (parse_request_line(line@) matches Some(t) && m@
            == chars_of(t.0) && p@ == chars_of(t.1) && (q is Some <==> t.2 is Some) && (q
            matches Some(qs) ==> t.2 matches Some(qb) && qs@ == chars_of(qb))),
{
    let n = line.len();
    let a = match crate::util::find_byte(line, 32, 0) {
        None => {
            return None;
        },
        Some(a) => a,
    };
    proof {
        crate::util::lemma_find_byte(line@, 32, 0);
    }
    let b = match crate::util::find_byte(line, 32, a + 1) {
        None => {
            return None;
        },
        Some(b) => b,
    };
    proof {
        crate::util::lemma_find_byte(line@, 32, a + 1);
    }
    let method = copy_range(line, 0, a);
    let target = copy_range(line, a + 1, b);
    let version = copy_range(line, b + 1, n);
    let http11 = "HTTP/1.1".as_bytes_vec();
    if !(check_token_bytes(&method) && check_target_bytes(&target) && vec_bytes_eq(
        &version,
        &http11,
    )) {
        return None;
    }
    proof {
        assert(forall|k: int| 0 <= k < method@.len() ==> #[trigger] method@[k] <= 0x7e);
        lemma_low_bytes_ascii(method@);
        assert(forall|k: int| 0 <= k < target@.len() ==> #[trigger] target@[k] <= 0x7e);
        lemma_low_bytes_ascii(target@);
    }
    let m = crate::util::ascii_to_string(&method);
    match crate::util::find_byte(&target, 63, 0) {
        None => {
            let p = crate::util::ascii_to_string(&target);
            proof {
                assert(m@ =~= chars_of(method@));
                assert(p@ =~= chars_of(target@));
            }
            Some((m, p, None))
        },
        Some(qi) => {
            proof {
                crate::util::lemma_find_byte(target@, 63, 0);
            }
            let path = copy_range(&target, 0, qi);
            let query = copy_range(&target, qi + 1, target.len());
            proof {
                assert(forall|k: int| 0 <= k < path@.len() ==> #[trigger] path@[k] <= 0x7e);
                lemma_low_bytes_ascii(path@);
                assert(forall|k: int| 0 <= k < query@.len() ==> #[trigger] query@[k] <= 0x7e);
                lemma_low_bytes_ascii(query@);
            }
            let p = crate::util::ascii_to_string(&path);
            let q = crate::util::ascii_to_string(&query);
            proof {
                assert(m@ =~= chars_of(method@));
                assert(p@ =~= chars_of(path@));
                assert(q@ =~= chars_of(query@));
            }
            Some((m, p, Some(q)))
        },
    }
}

/// The reason phrase for a status code.
fn reason(status: u16) -> (r: &'static str)
    ensures
        r@ == spec_reason(status),
{
    if status == 200 {
        "OK"
    } else if status == 201 {
        "Created"
    } else if status == 204 {
        "No Content"
    } else if status == 301 {
        "Moved Permanently"
    } else if status == 302 {
        "Found"
    } else if status == 400 {
        "Bad Request"
    } else if status == 401 {
        "Unauthorized"
    } else if status == 403 {
        "Forbidden"
    } else if status == 404 {
        "Not Found"
    } else if status == 500 {
        "Internal Server Error"
    } else if status == 502 {
        "Bad Gateway"
    } else if status == 503 {
        "Service Unavailable"
    } else {
        "Unknown"
    }
}

/// Append a string's bytes to the output buffer.
fn push_str_bytes(out: &mut Vec<u8>, s: &str)
    ensures
        final(out)@ == old(out)@ + encode_utf8(s@),
{
    let bytes = s.as_bytes_vec();
    let mut i: usize = 0;
    let n = bytes.len();
    let ghost start = out@;
    while i < n
        invariant
            n == bytes@.len(),
            i <= n,
            out@ == start + bytes@.subrange(0, i as int),
        decreases n - i,
    {
        out.push(bytes[i]);
        proof {
            assert(bytes@.subrange(0, i + 1) =~= bytes@.subrange(0, i as int).push(
                bytes@[i as int],
            ));
        }
        i += 1;
    }
    proof {
        assert(bytes@.subrange(0, n as int) =~= bytes@);
    }
}

impl Http {
    /// Try to frame one request off the front of `src`. `Incomplete` asks
    /// for more bytes; `Invalid` condemns the connection; `Complete` carries
    /// the request and how many bytes it occupied.
    pub fn decode(&self, src: &Vec<u8>) -> (r: DecodeOutcome)
        ensures
            r is Incomplete <==> spec_decode(src@) is Incomplete,
            r is Invalid <==> spec_decode(src@) is Invalid,
            r matches DecodeOutcome::Complete { consumed, request } ==> (spec_decode(src@)
                matches FrameParse::Done { used, method, path, query, headers } && {
                &&& consumed == used
                &&& consumed <= src@.len()
                &&& request.method@ == chars_of(method)
                &&& request.path@ == chars_of(path)
                &&& (request.query is Some <==> query is Some)
                &&& (request.query matches Some(q) ==> query matches Some(qb) && q@
                    == chars_of(qb))
                &&& crate::message::headers_view(request.headers@) == headers_chars(headers)
                &&& forall|i: int|
                    0 <= i < request.headers@.len() ==> crate::message::valid_header_name(
                        (#[trigger] request.headers@[i]).key@,
                    )
            }),
    {
        let end = match find_line(src, 0) {
            LineScan::Incomplete => {
                return DecodeOutcome::Incomplete;
            },
            LineScan::Invalid => {
                return DecodeOutcome::Invalid;
            },
            LineScan::End(e) => e,
        };
        let buf_len = src.len();
        let line = copy_range(src, 0, end);
        let (m, p, q) = match parse_request_line_e(&line) {
            None => {
                return DecodeOutcome::Invalid;
            },
            Some(t) => t,
        };
        let start = end + 2;
        let mut cur = start;
        let mut hdrs: Vec<Header> = Vec::new();
        let ghost mut gacc: Seq<(Seq<u8>, Seq<u8>)> = Seq::empty();
        proof {
            assert(crate::message::headers_view(hdrs@) =~= headers_chars(gacc));
        }
        loop
            invariant
                buf_len == src@.len(),
                start <= cur <= src@.len(),
                parse_headers(src@, start as int, Seq::empty()) == parse_headers(
                    src@,
                    cur as int,
                    gacc,
                ),
                crate::message::headers_view(hdrs@) == headers_chars(gacc),
                line_at(src@, 0) == LineAt::End(end as int),
                parse_request_line(src@.subrange(0, end as int)) is Some,
                start == end + 2,
                spec_decode(src@) matches FrameParse::Done { used, method, path, query, .. }
                    ==> {
                    &&& m@ == chars_of(method)
                    &&& p@ == chars_of(path)
                    &&& (q is Some <==> query is Some)
                    &&& (q matches Some(qs) ==> query matches Some(qb) && qs@ == chars_of(qb))
                },
            decreases src@.len() - cur,
        {
            let hend = match find_line(src, cur) {
                LineScan::Incomplete => {
                    return DecodeOutcome::Incomplete;
                },
                LineScan::Invalid => {
                    return DecodeOutcome::Invalid;
                },
                LineScan::End(e) => e,
            };
            if hend == cur {
                let consumed = cur + 2;
                proof {
                    assert(parse_headers(src@, cur as int, gacc) == HeadersParse::Done {
                        used: cur + 2,
                        headers: gacc,
                    });
                    lemma_parse_headers_token_names(src@, start as int, Seq::empty());
                    assert(parse_headers(src@, start as int, Seq::empty())
                        == HeadersParse::Done { used: cur + 2, headers: gacc });
                    assert(crate::message::headers_view(hdrs@).len() == hdrs@.len());
                    assert(headers_chars(gacc).len() == gacc.len());
                    assert forall|i: int|
                        0 <= i < hdrs@.len() implies crate::message::valid_header_name(
                        (#[trigger] hdrs@[i]).key@,
                    ) by {
                        assert(crate::message::headers_view(hdrs@)[i] == (
                            hdrs@[i].key@,
                            hdrs@[i].value@,
                        ));
                        assert(0 <= i < gacc.len());
                        assert(headers_chars(gacc)[i] == (
                            chars_of(gacc[i].0),
                            chars_of(gacc[i].1),
                        ));
                        assert(is_token_bytes(gacc[i].0));
                        lemma_token_bytes_valid_name(gacc[i].0);
                    }
                }
                let request = HttpRequest { method: m, path: p, query: q, headers: hdrs };
                return DecodeOutcome::Complete { consumed, request };
            }
            let hline = copy_range(src, cur, hend);
            let (k, v) = match parse_header_line_e(&hline) {
                None => {
                    return DecodeOutcome::Invalid;
                },
                Some(kv) => kv,
            };
            proof {
                let pair = parse_header_line(src@.subrange(cur as int, hend as int))->0;
                assert(headers_chars(gacc.push(pair)) =~= headers_chars(gacc).push(
                    (chars_of(pair.0), chars_of(pair.1)),
                ));
                assert(crate::message::headers_view(hdrs@.push(
                    Header { key: k, value: v },
                )) =~= crate::message::headers_view(hdrs@).push((k@, v@)));
            }
            hdrs.push(Header { key: k, value: v });
            proof {
                gacc = gacc.push(parse_header_line(src@.subrange(cur as int, hend as int))->0);
            }
            cur = hend + 2;
        }
    }

    /// Serialise `item` as an HTTP/1.1 response frame.
    pub fn encode(&self, item: &HttpResponse) -> (out: Vec<u8>)
        ensures
            out@ == spec_encode(*item),
    {
        let mut out: Vec<u8> = Vec::new();
        push_str_bytes(&mut out, "HTTP/1.1 ");
        push_decimal(&mut out, item.status as u64);
        push_str_bytes(&mut out, " ");
        push_str_bytes(&mut out, reason(item.status));
        push_str_bytes(&mut out, "\r\n");
        let n = item.headers.len();
        let mut i: usize = 0;
        let ghost after_status = out@;
        proof {
            assert(ser_headers(item.headers@.take(0)) =~= Seq::<u8>::empty());
            assert(out@ =~= after_status + ser_headers(item.headers@.take(0)));
        }
        let mut has_cl = false;
        while i < n
            invariant
                n == item.headers@.len(),
                i <= n,
                out@ == after_status + ser_headers(item.headers@.take(i as int)),
                has_cl == exists|k: int|
                    0 <= k < i && valid_header(#[trigger] item.headers@[k]) && name_eq(
                        item.headers@[k].key@,
                        "Content-Length"@,
                    ),
            decreases n - i,
        {
            let h = &item.headers[i];
            proof {
                assert(item.headers@.take(i + 1).drop_last() =~= item.headers@.take(i as int));
                assert(item.headers@.take(i + 1).last() == item.headers@[i as int]);
            }
            if check_header_name(h.key.as_str()) && check_header_value(h.value.as_str()) {
                proof {
                    reveal_strlit("Content-Length");
                    assert(crate::message::valid_header_name("Content-Length"@));
                }
                if header_name_matches(h.key.as_str(), "Content-Length") {
                    has_cl = true;
                }
                push_str_bytes(&mut out, h.key.as_str());
                push_str_bytes(&mut out, ": ");
                push_str_bytes(&mut out, h.value.as_str());
                push_str_bytes(&mut out, "\r\n");
            }
            i += 1;
        }
        proof {
            assert(item.headers@.take(n as int) =~= item.headers@);
            assert(has_cl == has_content_length(item.headers@));
        }
        if !has_cl {
            push_str_bytes(&mut out, "Content-Length: ");
            let body_len = item.body.as_str().len();
            push_decimal(&mut out, body_len as u64);
            push_str_bytes(&mut out, "\r\n");
        }
        push_str_bytes(&mut out, "\r\n");
        push_str_bytes(&mut out, item.body.as_str());
        proof {
            assert(out@ =~= spec_encode(*item));
        }
        out
    }
}

} // verus!
