//! Upstream addressing for forwarded requests: chat-completions URLs,
//! bearer authorization, and the status forwarded back to the client.

use vstd::prelude::*;
use crate::text::{chars_of, push_str, string_from_chars};

verus! {

broadcast use vstd::string::group_string_axioms;

/// `s` without its trailing `/` characters (std's `trim_end_matches('/')`).
pub open spec fn without_trailing_slashes(s: Seq<char>) -> Seq<char>
    decreases s.len(),
{
    if s.len() > 0 && s.last() == '/' {
        without_trailing_slashes(s.drop_last())
    } else {
        s
    }
}

/// The characters of `s` without trailing slashes.
fn trimmed_endpoint(s: &str) -> (r: Vec<char>)
    ensures
        r@ == without_trailing_slashes(s@),
{
    let mut v = chars_of(s);
    while v.len() > 0 && v[v.len() - 1] == '/'
        invariant
            without_trailing_slashes(v@) == without_trailing_slashes(s@),
        decreases v@.len(),
    {
        let ghost before = v@;
        v.pop();
        assert(v@ =~= before.drop_last());
    }
    v
}

/// The chat-completions URL of an endpoint: the endpoint without trailing
/// slashes, followed by `/chat/completions`.
pub open spec fn chat_url(endpoint: Seq<char>) -> Seq<char> {
    without_trailing_slashes(endpoint) + "/chat/completions"@
}

/// The chat-completions URL of an endpoint.
pub fn build_chat_url(endpoint: &str) -> (r: String)
    ensures
        r@ == chat_url(endpoint@),
{
    let mut v = trimmed_endpoint(endpoint);
    push_str(&mut v, "/chat/completions");
    string_from_chars(v.as_slice())
}

/// The URL of an endpoint with a custom chat path (for providers with
/// non-standard paths): the endpoint without trailing slashes followed by
/// the path; the standard path when none (or an empty one) is given.
pub open spec fn chat_url_with_path(endpoint: Seq<char>, chat_path: Option<Seq<char>>) -> Seq<char> {
    match chat_path {
        Some(p) => if p.len() > 0 {
            without_trailing_slashes(endpoint) + p
        } else {
            chat_url(endpoint)
        },
        None => chat_url(endpoint),
    }
}

/// The URL of an endpoint with an optional custom chat path.
pub fn build_chat_url_with_path(endpoint: &str, chat_path: Option<&str>) -> (r: String)
    ensures
        r@ == chat_url_with_path(
            endpoint@,
            match chat_path {
                Some(p) => Some(p@),
                None => None,
            },
        ),
{
    match chat_path {
        Some(p) => {
            if !p.is_empty() {
                let mut v = trimmed_endpoint(endpoint);
                push_str(&mut v, p);
                return string_from_chars(v.as_slice());
            }
            build_chat_url(endpoint)
        },
        None => build_chat_url(endpoint),
    }
}

/// The `Authorization` header value for an API key: `Bearer <key>`, and
/// none when the key is absent or empty.
pub fn bearer_header(api_key: Option<&str>) -> (r: Option<String>)
    ensures
        match api_key {
            Some(k) => if k@.len() > 0 {
                r matches Some(h) && h@ == "Bearer "@ + k@
            } else {
                r is None
            },
            None => r is None,
        },
{
    match api_key {
        Some(k) => {
            if k.is_empty() {
                None
            } else {
                let mut v = chars_of("Bearer ");
                push_str(&mut v, k);
                Some(string_from_chars(v.as_slice()))
            }
        },
        None => None,
    }
}

/// The status forwarded to the client for an upstream status: the same
/// code when it is a valid HTTP status (100 to 999, what http's
/// `StatusCode::from_u16` accepts), else 500 Internal Server Error.
pub fn forward_error_status(upstream_status: u16) -> (r: u16)
    ensures
        r == if 100 <= upstream_status < 1000 { upstream_status } else { 500 },
{
    if 100 <= upstream_status && upstream_status < 1000 {
        upstream_status
    } else {
        500
    }
}

} // verus!
