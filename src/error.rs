use vstd::prelude::*;

verus! {

/// Every way in which an operation of the library can fail.
#[derive(Debug, Clone, PartialEq, Eq, Structural)]
pub enum NylasError {
    /// The client id or the client secret is empty.
    InvalidCredentials,
    /// The redirect URI does not parse as an absolute URL.
    InvalidRedirectUri,
    /// The operation needs an access token and none is set.
    MissingAccessToken,
    /// The token endpoint answered with success but without an `access_token`.
    TokenNotFound,
    /// The remote API answered with a status outside 200..=299.
    HttpError { status: u16 },
    /// The response body does not have the expected JSON shape.
    DecodeError,
    /// No HTTP status was received: connection, DNS or timeout failure.
    TransportError,
}

} // verus!
