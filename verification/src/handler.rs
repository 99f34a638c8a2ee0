//! Request pre-processing: turn an inbound request's `Authorization`
//! header into a decision — let the request pass, ask the remote
//! authority about the decoded principal, or deny.
//!
//! A request without Basic credentials is not this gate's business and
//! passes through. A `Basic` header whose payload does not decode to an
//! ASCII `user:password` pair is denied at once, without a network
//! call. A well-formed pair is handed on for the remote membership
//! check; its outcome then maps to pass, `401`, or `500`.

use vstd::prelude::*;
use vstd::string::{StrSliceExecFns, StringExecFns};

use crate::auth_client::{find_from, AuthError};

verus! {

/// The decision taken on one request before any network traffic.
pub enum PreProcess {
    /// No Basic credentials were offered: the pipeline continues.
    Continue,
    /// Credentials decoded; ask the authority about this principal.
    Check { user: String, password: String },
    /// Malformed credentials: deny with this HTTP status.
    Deny(u16),
}

/// The value a base64 alphabet character stands for, or a negative
/// number for a character outside the alphabet.
pub open spec fn b64_val(c: char) -> int {
    if 'A' <= c && c <= 'Z' {
        c as int - 'A' as int
    } else if 'a' <= c && c <= 'z' {
        c as int - 'a' as int + 26
    } else if '0' <= c && c <= '9' {
        c as int - '0' as int + 52
    } else if c == '+' {
        62
    } else if c == '/' {
        63
    } else {
        -1
    }
}

/// The three bytes one full base64 group of values decodes to.
pub open spec fn b64_group(v0: int, v1: int, v2: int, v3: int) -> Seq<u8> {
    seq![
        (v0 * 4 + v1 / 16) as u8,
        ((v1 % 16) * 16 + v2 / 4) as u8,
        ((v2 % 4) * 64 + v3) as u8,
    ]
}

/// Standard base64 decoding with `=` padding: groups of four alphabet
/// characters become three bytes; the final group may carry one or two
/// padding characters and yields two bytes or one. Anything else — a
/// length not divisible by four, a character outside the alphabet,
/// padding before the final group — does not decode.
pub open spec fn spec_b64_decode(s: Seq<char>) -> Option<Seq<u8>>
    decreases s.len(),
{
    if s.len() == 0 {
        Some(Seq::<u8>::empty())
    } else if s.len() < 4 {
        None
    } else if s.len() == 4 {
        let v0 = b64_val(s[0]);
        let v1 = b64_val(s[1]);
        if v0 < 0 || v1 < 0 {
            None
        } else if s[2] == '=' && s[3] == '=' {
            Some(seq![(v0 * 4 + v1 / 16) as u8])
        } else if s[3] == '=' {
            let v2 = b64_val(s[2]);
            if v2 < 0 {
                None
            } else {
                Some(seq![(v0 * 4 + v1 / 16) as u8, ((v1 % 16) * 16 + v2 / 4) as u8])
            }
        } else {
            let v2 = b64_val(s[2]);
            let v3 = b64_val(s[3]);
            if v2 < 0 || v3 < 0 {
                None
            } else {
                Some(b64_group(v0, v1, v2, v3))
            }
        }
    } else {
        let v0 = b64_val(s[0]);
        let v1 = b64_val(s[1]);
        let v2 = b64_val(s[2]);
        let v3 = b64_val(s[3]);
        if v0 < 0 || v1 < 0 || v2 < 0 || v3 < 0 {
            None
        } else {
            match spec_b64_decode(s.skip(4)) {
                Some(rest) => Some(b64_group(v0, v1, v2, v3) + rest),
                None => None,
            }
        }
    }
}

/// Decoding the rest of the input and prepending the bytes already
/// produced.
spec fn b64_decode_onto(prefix: Seq<u8>, rest: Seq<char>) -> Option<Seq<u8>> {
    match spec_b64_decode(rest) {
        Some(b) => Some(prefix + b),
        None => None,
    }
}

/// The value of one base64 alphabet character, or nothing for a
/// character outside the alphabet.
fn b64_val_exec(c: char) -> (r: Option<u8>)
    ensures
        match r {
            Some(v) => b64_val(c) == v as int && v < 64,
            None => b64_val(c) < 0,
        },
{
    if 'A' <= c && c <= 'Z' {
        Some(c as u8 - 65)
    } else if 'a' <= c && c <= 'z' {
        Some(c as u8 - 97 + 26)
    } else if '0' <= c && c <= '9' {
        Some(c as u8 - 48 + 52)
    } else if c == '+' {
        Some(62)
    } else if c == '/' {
        Some(63)
    } else {
        None
    }
}

/// Decode a base64 string, or report that it is not one.
pub fn base64_decode(s: &str) -> (r: Option<Vec<u8>>)
    ensures
        match r {
            Some(v) => spec_b64_decode(s@) == Some(v@),
            None => spec_b64_decode(s@) is None,
        },
{
    let n = s.unicode_len();
    let mut out: Vec<u8> = Vec::new();
    let mut i: usize = 0;
    proof {
        assert(s@.skip(0) =~= s@);
        match spec_b64_decode(s@) {
            Some(b) => {
                assert(Seq::<u8>::empty() + b =~= b);
            },
            None => {},
        }
    }
    while i < n && n - i > 4
        invariant
            n == s@.len(),
            i <= n,
            spec_b64_decode(s@) == b64_decode_onto(out@, s@.skip(i as int)),
        decreases n - i,
    {
        let ghost t = s@.skip(i as int);
        proof {
            assert(t[0] == s@[i as int]);
            assert(t[1] == s@[i as int + 1]);
            assert(t[2] == s@[i as int + 2]);
            assert(t[3] == s@[i as int + 3]);
        }
        let v0 = match b64_val_exec(s.get_char(i)) {
            Some(v) => v,
            None => {
                return None;
            },
        };
        let v1 = match b64_val_exec(s.get_char(i + 1)) {
            Some(v) => v,
            None => {
                return None;
            },
        };
        let v2 = match b64_val_exec(s.get_char(i + 2)) {
            Some(v) => v,
            None => {
                return None;
            },
        };
        let v3 = match b64_val_exec(s.get_char(i + 3)) {
            Some(v) => v,
            None => {
                return None;
            },
        };
        let ghost out_pre = out@;
        out.push(v0 * 4 + v1 / 16);
        out.push((v1 % 16) * 16 + v2 / 4);
        out.push((v2 % 4) * 64 + v3);
        proof {
            assert(t.skip(4) =~= s@.skip(i as int + 4));
            assert(out@ =~= out_pre + b64_group(v0 as int, v1 as int, v2 as int, v3 as int));
            match spec_b64_decode(s@.skip(i as int + 4)) {
                Some(rest) => {
                    assert(out_pre + (b64_group(v0 as int, v1 as int, v2 as int, v3 as int)
                        + rest) =~= out@ + rest);
                },
                None => {},
            }
        }
        i = i + 4;
    }
    if i == n {
        proof {
            assert(s@.skip(i as int) =~= Seq::<char>::empty());
            assert(out@ + Seq::<u8>::empty() =~= out@);
        }
        return Some(out);
    }
    if n - i != 4 {
        return None;
    }
    let ghost t = s@.skip(i as int);
    proof {
        assert(t.len() == 4);
        assert(t[0] == s@[i as int]);
        assert(t[1] == s@[i as int + 1]);
        assert(t[2] == s@[i as int + 2]);
        assert(t[3] == s@[i as int + 3]);
    }
    let v0 = match b64_val_exec(s.get_char(i)) {
        Some(v) => v,
        None => {
            return None;
        },
    };
    let v1 = match b64_val_exec(s.get_char(i + 1)) {
        Some(v) => v,
        None => {
            return None;
        },
    };
    let c2 = s.get_char(i + 2);
    let c3 = s.get_char(i + 3);
    let ghost out_pre = out@;
    if c2 == '=' && c3 == '=' {
        out.push(v0 * 4 + v1 / 16);
        proof {
            assert(out@ =~= out_pre + seq![(v0 as int * 4 + v1 as int / 16) as u8]);
        }
        return Some(out);
    }
    if c3 == '=' {
        let v2 = match b64_val_exec(c2) {
            Some(v) => v,
            None => {
                return None;
            },
        };
        out.push(v0 * 4 + v1 / 16);
        out.push((v1 % 16) * 16 + v2 / 4);
        proof {
            assert(out@ =~= out_pre + seq![
                (v0 as int * 4 + v1 as int / 16) as u8,
                ((v1 as int % 16) * 16 + v2 as int / 4) as u8,
            ]);
        }
        return Some(out);
    }
    let v2 = match b64_val_exec(c2) {
        Some(v) => v,
        None => {
            return None;
        },
    };
    let v3 = match b64_val_exec(c3) {
        Some(v) => v,
        None => {
            return None;
        },
    };
    out.push(v0 * 4 + v1 / 16);
    out.push((v1 % 16) * 16 + v2 / 4);
    out.push((v2 % 4) * 64 + v3);
    proof {
        assert(out@ =~= out_pre + b64_group(v0 as int, v1 as int, v2 as int, v3 as int));
    }
    Some(out)
}

/// Whether a header value offers the HTTP Basic scheme.
pub open spec fn spec_is_basic(h: Seq<char>) -> bool {
    h.len() >= 6 && h.subrange(0, 6) == "Basic "@
}

/// The `user:password` pair a Basic header value carries: its payload
/// must decode from base64 to ASCII bytes containing a colon; the pair
/// splits at the first colon. Anything else carries no credentials.
pub open spec fn spec_basic_credentials(h: Seq<char>) -> Option<(Seq<char>, Seq<char>)> {
    if !spec_is_basic(h) {
        None
    } else {
        match spec_b64_decode(h.skip(6)) {
            Some(bytes) => {
                if exists|k: int| 0 <= k < bytes.len() && bytes[k] >= 0x80 {
                    None
                } else {
                    let chars = bytes.map(|_k: int, b: u8| b as char);
                    let colon = find_from(chars, ':', 0);
                    if colon == chars.len() {
                        None
                    } else {
                        Some((chars.subrange(0, colon), chars.subrange(colon + 1, chars.len() as int)))
                    }
                }
            },
            None => None,
        }
    }
}

/// Relies on `String::from_utf8`: bytes below 0x80 are ASCII, hence
/// valid UTF-8, and decode to exactly one `char` per byte.
#[verifier::external_body]
fn ascii_to_string(bytes: &Vec<u8>, from: usize, to: usize) -> (r: String)
    requires
        from <= to <= bytes@.len(),
        forall|k: int| from <= k < to ==> bytes@[k] < 0x80,
    ensures
        r@ == bytes@.subrange(from as int, to as int).map(|_k: int, b: u8| b as char),
{
    String::from_utf8(bytes[from..to].to_vec()).unwrap()
}

/// Decide what to do with a request, given its `Authorization` header
/// if it carries one. A request offering no Basic credentials passes
/// through; a malformed Basic header is denied with `401` before any
/// network traffic; a well-formed one yields the decoded pair for the
/// remote membership check.
pub fn pre_process(auth_header: Option<&str>) -> (r: PreProcess)
    ensures
        match r {
            PreProcess::Continue => (match auth_header {
                Some(h) => !spec_is_basic(h@),
                None => true,
            }),
            PreProcess::Check { user, password } => auth_header matches Some(h)
                && spec_basic_credentials(h@) == Some((user@, password@)),
            PreProcess::Deny(status) => auth_header matches Some(h) && spec_is_basic(h@)
                && spec_basic_credentials(h@) is None && status == 401u16,
        },
{
    let h = match auth_header {
        Some(h) => h,
        None => {
            return PreProcess::Continue;
        },
    };
    let n = h.unicode_len();
    if n < 6 {
        return PreProcess::Continue;
    }
    let scheme = h.substring_char(0, 6);
    if !String::from_str(scheme).eq(&String::from_str("Basic ")) {
        return PreProcess::Continue;
    }
    let payload = h.substring_char(6, n);
    proof {
        assert(payload@ =~= h@.skip(6));
    }
    let bytes = match base64_decode(payload) {
        Some(b) => b,
        None => {
            return PreProcess::Deny(401);
        },
    };
    let ghost chars = bytes@.map(|_k: int, b: u8| b as char);
    let m = bytes.len();
    let mut colon: usize = m;
    let mut j: usize = 0;
    while j < m
        invariant
            auth_header matches Some(hh) && hh@ == h@,
            spec_is_basic(h@),
            spec_b64_decode(h@.skip(6)) == Some(bytes@),
            chars == bytes@.map(|_k: int, b: u8| b as char),
            m == bytes@.len(),
            0 <= j <= m,
            colon == m || (colon < j && bytes@[colon as int] == 58),
            forall|k: int| 0 <= k < j ==> bytes@[k] < 0x80,
            forall|k: int| 0 <= k < j && k < colon ==> bytes@[k] != 58,
        decreases m - j,
    {
        let b = bytes[j];
        if b >= 0x80 {
            proof {
                assert(0 <= j < bytes@.len() && bytes@[j as int] >= 0x80);
            }
            return PreProcess::Deny(401);
        }
        if b == 58 && colon == m {
            colon = j;
        }
        j = j + 1;
    }
    proof {
        assert(chars.len() == bytes@.len());
        assert forall|k: int| 0 <= k < chars.len() implies
            (chars[k] == ':') == (bytes@[k] == 58) by {
            assert(chars[k] == bytes@[k] as char);
        }
        if colon < m {
            lemma_find_from_at(chars, ':', colon as int);
        } else {
            lemma_find_from_absent(chars, ':');
        }
    }
    if colon == m {
        return PreProcess::Deny(401);
    }
    let user = ascii_to_string(&bytes, 0, colon);
    let password = ascii_to_string(&bytes, colon + 1, m);
    proof {
        assert(user@ =~= chars.subrange(0, colon as int));
        assert(password@ =~= chars.subrange(colon as int + 1, chars.len() as int));
    }
    PreProcess::Check { user, password }
}

/// A character present at `at` and absent before it is found at `at`.
proof fn lemma_find_from_at(s: Seq<char>, c: char, at: int)
    requires
        0 <= at < s.len(),
        s[at] == c,
        forall|k: int| 0 <= k < at ==> s[k] != c,
    ensures
        find_from(s, c, 0) == at,
{
    lemma_find_from_step(s, c, 0, at);
}

/// An absent character is reported at the sequence's length.
proof fn lemma_find_from_absent(s: Seq<char>, c: char)
    requires
        forall|k: int| 0 <= k < s.len() ==> s[k] != c,
    ensures
        find_from(s, c, 0) == s.len(),
{
    lemma_find_from_step(s, c, 0, s.len() as int);
}

/// Searching from `i` skips every index before the first hit.
proof fn lemma_find_from_step(s: Seq<char>, c: char, i: int, at: int)
    requires
        0 <= i <= at <= s.len(),
        at < s.len() ==> s[at] == c,
        forall|k: int| i <= k < at ==> s[k] != c,
    ensures
        find_from(s, c, i) == if at < s.len() {
            at
        } else {
            s.len() as int
        },
    decreases at - i,
{
    if i < at {
        lemma_find_from_step(s, c, i + 1, at);
    }
}

/// Map the authority's verdict on a checked principal to the
/// pre-processor's outcome: pass on membership, deny with `401` on a
/// negative answer, deny with `500` when the authority could not be
/// consulted.
pub fn authorize_outcome(outcome: Result<bool, AuthError>) -> (r: Option<u16>)
    ensures
        match outcome {
            Ok(b) => if b {
                r is None
            } else {
                r == Some(401u16)
            },
            Err(_) => r == Some(500u16),
        },
{
    match outcome {
        Ok(true) => None,
        Ok(false) => Some(401),
        Err(_) => Some(500),
    }
}

} // verus!
