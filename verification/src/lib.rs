//! Client-side dispatch layer for a rate-limited JSON/form-encoded REST API.
//!
//! The heart of the crate is the resilient request dispatcher in [`client`]:
//! it turns one logical API call into a bounded sequence of rate-limit-aware
//! attempts, throttled by a per-endpoint token bucket and a shared
//! server-driven cooldown gate. This module holds the uniform response
//! envelope and the error taxonomy that every call resolves to.

use vstd::prelude::*;

pub mod client;
pub mod newtypes;
pub mod oauth;
pub mod usergroups;
pub mod users;

verus! {

/// How an HTTP exchange failed at the transport level: either no response
/// came back at all, or the server answered with a non-success status.
#[derive(Clone, Copy, Debug, PartialEq, Eq, Structural)]
pub enum HttpFailure {
    /// The request never produced a response (connection or protocol error).
    NoResponse,
    /// The server answered with this non-success status code.
    Status(u16),
}

/// Everything a dispatched call can fail with.
#[derive(Clone, Copy, Debug, PartialEq, Eq, Structural)]
pub enum Error {
    /// The retry budget ran out while the server kept rate-limiting us.
    ExhaustedRateLimits,
    /// A transport-level failure or a non-success status, never retried here.
    Http(HttpFailure),
    /// The server reported success but sent no usable payload.
    OkButNoResponse,
    /// The request body could not be serialized; no network call was made.
    RequestEncoding,
    /// The response body could not be deserialized.
    ResponseDecoding,
    /// The server rejected the request without structured detail.
    Unknown,
}

/// The API's uniform response envelope: a boolean `ok` plus the payload
/// fields flattened into the same object.
pub struct Response<T> {
    pub ok: bool,
    pub response: Option<T>,
}

/// What unwrapping an envelope must yield: the payload when `ok` is true and
/// a payload is present, `OkButNoResponse` when `ok` is true without one, and
/// `Unknown` when the server said `ok: false`.
pub open spec fn envelope_result<T>(ok: bool, response: Option<T>) -> Result<T, Error> {
    if ok {
        match response {
            Some(payload) => Ok(payload),
            None => Err(Error::OkButNoResponse),
        }
    } else {
        Err(Error::Unknown)
    }
}

impl<T> Response<T> {
    pub fn into_result(self) -> (r: Result<T, Error>)
        ensures
            r == envelope_result(self.ok, self.response),
    {
        let Response { ok, response } = self;
        if ok {
            match response {
                Some(response) => Ok(response),
                None => Err(Error::OkButNoResponse),
            }
        } else {
            Err(Error::Unknown)
        }
    }
}

} // verus!
