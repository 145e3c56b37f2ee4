use vstd::prelude::*;
use vstd::string::StringExecFns;

use crate::error::NylasError;

verus! {

/// A status in the success range 200..=299.
pub open spec fn is_success(status: u16) -> bool {
    200 <= status && status <= 299
}

/// Maps a response status to the error it stands for, if any.
pub fn check_status(status: u16) -> (r: Result<(), NylasError>)
    ensures
        is_success(status) ==> r == Ok::<(), NylasError>(()),
        !is_success(status) ==> r == Err::<(), NylasError>(NylasError::HttpError { status }),
{
    if 200 <= status && status <= 299 {
        Ok(())
    } else {
        Err(NylasError::HttpError { status })
    }
}


/// The HTTP methods that the remote API is called with.
#[derive(Debug, Clone, Copy, PartialEq, Eq, Structural)]
pub enum HttpMethod {
    Get,
    Post,
}

/// One request to the remote API, described as plain values; the caller sends it.
#[derive(Debug, Clone)]
pub struct HttpRequest {
    pub method: HttpMethod,
    pub url: String,
    /// Header names and values, in order.
    pub headers: Vec<(String, String)>,
    /// Form fields of a form-encoded body; empty when the request has no body.
    pub form: Vec<(String, String)>,
}

/// The header that asks for a JSON answer.
pub open spec fn json_headers() -> Seq<(Seq<char>, Seq<char>)> {
    seq![("Accept"@, "application/json"@)]
}

/// The headers of an authenticated request: JSON, and the bearer token.
pub open spec fn bearer_headers(token: Seq<char>) -> Seq<(Seq<char>, Seq<char>)> {
    seq![("Accept"@, "application/json"@), ("Authorization"@, "Bearer "@ + token)]
}

/// A pair of owned strings with the given contents.
pub(crate) fn text_pair(k: &str, v: &str) -> (r: (String, String))
    ensures
        r.0@ == k@,
        r.1@ == v@,
{
    (String::from_str(k), String::from_str(v))
}

/// The headers of an unauthenticated JSON request.
pub fn accept_json_headers() -> (r: Vec<(String, String)>)
    ensures
        r.deep_view() == json_headers(),
{
    let mut r: Vec<(String, String)> = Vec::new();
    r.push(text_pair("Accept", "application/json"));
    assert(r.deep_view() =~= json_headers());
    r
}

/// The headers of a request authenticated with `token`.
pub fn bearer_auth_headers(token: &str) -> (r: Vec<(String, String)>)
    ensures
        r.deep_view() == bearer_headers(token@),
{
    let mut r: Vec<(String, String)> = Vec::new();
    r.push(text_pair("Accept", "application/json"));
    let mut value = String::from_str("Bearer ");
    value.append(token);
    r.push((String::from_str("Authorization"), value));
    assert(r.deep_view() =~= bearer_headers(token@));
    r
}

} // verus!
