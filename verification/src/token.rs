//! The primary provider's authorization token: acquired from the token
//! endpoint, valid for a provider-declared lifetime, refreshed lazily just
//! before use once expired. Times are whole seconds of a monotonic clock
//! that the running system reads.
use vstd::prelude::*;

verus! {

/// The token endpoint's reply, as plain values.
#[derive(Debug)]
pub struct TokenRequestResponse {
    pub access_token: String,
    pub expires_in: u64,
    pub token_type: String,
}

/// The token the pipeline holds: its value, its declared lifetime in
/// seconds, and the second it was acquired at.
#[derive(Debug)]
pub struct IgdbToken {
    pub value: String,
    pub expire_in: u64,
    pub acquired_at: u64,
}

impl IgdbToken {
    /// The token of one endpoint reply, stamped with the second it was
    /// acquired at.
    pub fn from_token_response(token_response: TokenRequestResponse, acquired_at: u64) -> (r: Self)
        ensures
            r.value@ == token_response.access_token@,
            r.expire_in == token_response.expires_in,
            r.acquired_at == acquired_at,
    {
        IgdbToken { value: token_response.access_token, expire_in: token_response.expires_in, acquired_at }
    }

    /// Whether the token has outlived its declared lifetime at second
    /// `now`: strictly more seconds have passed since it was acquired than
    /// the provider granted.
    pub fn has_expired(&self, now: u64) -> (r: bool)
        ensures
            r == (now > self.acquired_at + self.expire_in),
    {
        if now <= self.acquired_at {
            false
        } else {
            now - self.acquired_at > self.expire_in
        }
    }
}

} // verus!
