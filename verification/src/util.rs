//! Small shared helpers: optional-value rendering, port defaulting, decimal
//! rendering, byte scanning, and Base64 for the outbound-proxy credentials.

use vstd::prelude::*;

verus! {

/// Append `key: value` to `s` when the optional value is present; append
/// nothing otherwise.
pub fn write_opt(s: &mut String, key: &str, opt: &Option<String>)
    ensures
        opt matches Some(v) ==> final(s)@ == old(s)@ + key@ + ": "@ + v@,
        opt is None ==> final(s)@ == old(s)@,
{
    match opt {
        Some(v) => {
            s.append(key);
            s.append(": ");
            s.append(v.as_str());
        },
        None => {},
    }
}

/// The port a protocol implies when none was given.
pub open spec fn spec_default_port(protocol: Seq<char>) -> u16 {
    if protocol == "http"@ {
        80u16
    } else if protocol == "https"@ {
        443u16
    } else {
        0u16
    }
}

/// An explicit port wins; otherwise the protocol's well-known port, or 0 for
/// a protocol without one.
pub fn default_port(protocol: &str, port: Option<u16>) -> (r: u16)
    ensures
        port matches Some(p) ==> r == p,
        port is None ==> r == spec_default_port(protocol@),
{
    match port {
        Some(p) => p,
        None => {
            if crate::message::str_eq(protocol, "http") {
                80
            } else if crate::message::str_eq(protocol, "https") {
                443
            } else {
                0
            }
        },
    }
}

/// The decimal digits of `n`, most significant first, as ASCII bytes.
pub open spec fn dec_rep(n: int) -> Seq<u8>
    decreases n,
{
    if n < 10 {
        seq![(48 + if n >= 0 { n } else { 0 }) as u8]
    } else {
        dec_rep(n / 10).push((48 + n % 10) as u8)
    }
}

/// Append the decimal rendering of `n` to `out`.
pub fn push_decimal(out: &mut Vec<u8>, n: u64)
    ensures
        final(out)@ == old(out)@ + dec_rep(n as int),
    decreases n,
{
    if n < 10 {
        out.push(48 + (n as u8));
    } else {
        push_decimal(out, n / 10);
        out.push(48 + ((n % 10) as u8));
    }
}

/// The first position at or after `from` holding byte `b`.
pub open spec fn spec_find_byte(s: Seq<u8>, b: u8, from: int) -> Option<int>
    decreases s.len() - from,
{
    if from < 0 || from >= s.len() {
        None
    } else if s[from] == b {
        Some(from)
    } else {
        spec_find_byte(s, b, from + 1)
    }
}

/// What a successful or failed scan means, position by position.
pub proof fn lemma_find_byte(s: Seq<u8>, b: u8, from: int)
    requires
        from >= 0,
    ensures
        spec_find_byte(s, b, from) matches Some(i) ==> from <= i < s.len() && s[i] == b
            && forall|k: int| from <= k < i ==> s[k] != b,
        spec_find_byte(s, b, from) is None ==> forall|k: int| from <= k < s.len() ==> s[k] != b,
    decreases s.len() - from,
{
    if from < s.len() && s[from] != b {
        lemma_find_byte(s, b, from + 1);
    }
}

/// Scan `v` for `b`, starting at `from`.
pub fn find_byte(v: &Vec<u8>, b: u8, from: usize) -> (r: Option<usize>)
    ensures
        match r {
            Some(i) => spec_find_byte(v@, b, from as int) == Some(i as int),
            None => spec_find_byte(v@, b, from as int) is None,
        },
{
    let n = v.len();
    let mut i: usize = from;
    if i >= n {
        return None;
    }
    while i < n
        invariant
            n == v@.len(),
            from <= i <= n,
            spec_find_byte(v@, b, from as int) == spec_find_byte(v@, b, i as int),
        decreases n - i,
    {
        if v[i] == b {
            return Some(i);
        }
        i += 1;
    }
    None
}

/// The Base64 alphabet, index to ASCII code.
pub open spec fn b64_digit(v: int) -> u8 {
    if v < 26 {
        (65 + v) as u8
    } else if v < 52 {
        (71 + v) as u8
    } else if v < 62 {
        (v - 4) as u8
    } else if v == 62 {
        43u8
    } else {
        47u8
    }
}

/// Standard Base64 with `=` padding, three input bytes to four output bytes.
pub open spec fn spec_b64(s: Seq<u8>) -> Seq<u8>
    decreases s.len(),
{
    if s.len() == 0 {
        Seq::<u8>::empty()
    } else if s.len() == 1 {
        seq![
            b64_digit((s[0] >> 2) as int),
            b64_digit(((s[0] & 3) << 4) as int),
            61u8,
            61u8,
        ]
    } else if s.len() == 2 {
        seq![
            b64_digit((s[0] >> 2) as int),
            b64_digit((((s[0] & 3) << 4) | (s[1] >> 4)) as int),
            b64_digit(((s[1] & 15) << 2) as int),
            61u8,
        ]
    } else {
        seq![
            b64_digit((s[0] >> 2) as int),
            b64_digit((((s[0] & 3) << 4) | (s[1] >> 4)) as int),
            b64_digit((((s[1] & 15) << 2) | (s[2] >> 6)) as int),
            b64_digit((s[2] & 63) as int),
        ] + spec_b64(s.skip(3))
    }
}

/// The Base64 alphabet as executable code.
fn b64_digit_e(v: u8) -> (r: u8)
    requires
        v < 64,
    ensures
        r == b64_digit(v as int),
        r < 0x80,
{
    if v < 26 {
        65 + v
    } else if v < 52 {
        71 + v
    } else if v < 62 {
        v - 4
    } else if v == 62 {
        43
    } else {
        47
    }
}

/// Base64-encode `input`; the output bytes are all ASCII.
pub fn b64_encode(input: &Vec<u8>) -> (out: Vec<u8>)
    ensures
        out@ == spec_b64(input@),
        forall|k: int| 0 <= k < out@.len() ==> out@[k] < 0x80,
{
    let n = input.len();
    let mut out: Vec<u8> = Vec::new();
    let mut i: usize = 0;
    proof {
        assert(input@.skip(0) =~= input@);
    }
    while n - i >= 3
        invariant
            n == input@.len(),
            i <= n,
            spec_b64(input@) == out@ + spec_b64(input@.skip(i as int)),
            forall|k: int| 0 <= k < out@.len() ==> out@[k] < 0x80,
        decreases n - i,
    {
        let b0 = input[i];
        let b1 = input[i + 1];
        let b2 = input[i + 2];
        proof {
            assert(b0 >> 2 < 64 && (b0 & 3) << 4 < 64 && b1 >> 4 < 16 && ((b0 & 3) << 4) | (b1
                >> 4) < 64 && (b1 & 15) << 2 < 64 && b2 >> 6 < 4 && ((b1 & 15) << 2) | (b2 >> 6)
                < 64 && b2 & 63 < 64) by (bit_vector);
            assert(input@.skip(i as int)[0] == input@[i as int]);
            assert(input@.skip(i as int)[1] == input@[i + 1]);
            assert(input@.skip(i as int)[2] == input@[i + 2]);
            assert(input@.skip(i as int).skip(3) =~= input@.skip(i + 3));
        }
        out.push(b64_digit_e(b0 >> 2));
        out.push(b64_digit_e(((b0 & 3) << 4) | (b1 >> 4)));
        out.push(b64_digit_e(((b1 & 15) << 2) | (b2 >> 6)));
        out.push(b64_digit_e(b2 & 63));
        i += 3;
    }
    let rem = n - i;
    if rem == 1 {
        let b0 = input[i];
        proof {
            assert(b0 >> 2 < 64 && (b0 & 3) << 4 < 64) by (bit_vector);
            assert(input@.skip(i as int)[0] == input@[i as int]);
            assert(input@.skip(i as int).len() == 1);
        }
        out.push(b64_digit_e(b0 >> 2));
        out.push(b64_digit_e((b0 & 3) << 4));
        out.push(61);
        out.push(61);
    } else if rem == 2 {
        let b0 = input[i];
        let b1 = input[i + 1];
        proof {
            assert(b0 >> 2 < 64 && ((b0 & 3) << 4) | (b1 >> 4) < 64 && (b1 & 15) << 2
                < 64) by (bit_vector);
            assert(input@.skip(i as int)[0] == input@[i as int]);
            assert(input@.skip(i as int)[1] == input@[i + 1]);
            assert(input@.skip(i as int).len() == 2);
        }
        out.push(b64_digit_e(b0 >> 2));
        out.push(b64_digit_e(((b0 & 3) << 4) | (b1 >> 4)));
        out.push(b64_digit_e((b1 & 15) << 2));
        out.push(61);
    } else {
        proof {
            assert(input@.skip(i as int).len() == 0);
            assert(spec_b64(input@.skip(i as int)) =~= Seq::<u8>::empty());
        }
    }
    out
}

/// Relies on `String::from_utf8`: ASCII bytes are valid UTF-8 and decode to
/// one character per byte.
#[verifier::external_body]
pub fn ascii_to_string(b: &Vec<u8>) -> (r: String)
    requires
        forall|i: int| 0 <= i < b@.len() ==> b@[i] < 0x80,
    ensures
        r@ == b@.map_values(|x: u8| x as char),
{
    String::from_utf8(b.clone()).unwrap_or_default()
}

} // verus!
