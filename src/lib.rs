//! Client library for an email and calendar web API: the OAuth handshake that
//! yields an access token, the requests that fetch and search messages, and the
//! client-side predicate that filters them.
//!
//! The library describes each HTTP exchange as plain values (`HttpRequest` going
//! out, a status and a body coming back) and decides everything around it; the
//! transport itself is left to the caller.
pub mod accounts;
pub mod auth;
pub mod error;
pub mod filter;
pub mod http;
pub mod messages;
pub mod text;
pub mod query;
