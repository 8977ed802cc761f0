//! A verified client core for a webhook relay: the wire-protocol codec, the
//! session state machine that drives authentication, subscription and
//! keepalives, and the plan for forwarding a relayed webhook as one outbound
//! HTTP request.  Transport (the socket and the HTTP client) stays outside;
//! everything that decides or computes is here, with contracts.

pub mod codec;
pub mod forward;
pub mod json;
pub mod messages;
pub mod roundtrip;
pub mod session;

use vstd::prelude::*;

verus! {

/// A character usable in an HTTP method token.
pub open spec fn is_tchar(c: char) -> bool {
    ||| ('a' <= c && c <= 'z')
    ||| ('A' <= c && c <= 'Z')
    ||| ('0' <= c && c <= '9')
    ||| c == '!' || c == '#' || c == '$' || c == '%' || c == '&' || c == '\''
    ||| c == '*' || c == '+' || c == '-' || c == '.' || c == '^' || c == '_'
    ||| c == '`' || c == '|' || c == '~'
}

/// A syntactically valid HTTP method: a non-empty token.
pub open spec fn is_method_token(s: Seq<char>) -> bool {
    s.len() > 0 && forall|i: int| 0 <= i < s.len() ==> is_tchar(s[i])
}

/// Whether `c` may stand in an HTTP method token.
pub fn is_tchar_exec(c: char) -> (r: bool)
    ensures
        r == is_tchar(c),
{
    ('a' <= c && c <= 'z') || ('A' <= c && c <= 'Z') || ('0' <= c && c <= '9') || c == '!' || c
        == '#' || c == '$' || c == '%' || c == '&' || c == '\'' || c == '*' || c == '+' || c == '-'
        || c == '.' || c == '^' || c == '_' || c == '`' || c == '|' || c == '~'
}

/// Whether `s` is a syntactically valid HTTP method.
pub fn check_method_token(s: &str) -> (r: bool)
    ensures
        r == is_method_token(s@),
{
    let v = crate::json::str_to_chars(s);
    if v.len() == 0 {
        return false;
    }
    let mut i: usize = 0;
    while i < v.len()
        invariant
            v@ == s@,
            i <= v@.len(),
            forall|t: int| 0 <= t < i ==> is_tchar(v@[t]),
        decreases v@.len() - i,
    {
        if !is_tchar_exec(v[i]) {
            return false;
        }
        i = i + 1;
    }
    true
}

/// Whether a string is a syntactically valid absolute URL.  Defined by the
/// `url` crate's parser; a function of the characters alone.
pub uninterp spec fn url_is_valid(s: Seq<char>) -> bool;

/// Relies on `url::Url::parse`: without a base it accepts exactly the
/// syntactically valid absolute URLs, deterministically in its input.
#[verifier::external_body]
pub fn check_url(s: &str) -> (r: bool)
    ensures
        r == url_is_valid(s@),
{
    url::Url::parse(s).is_ok()
}

} // verus!
