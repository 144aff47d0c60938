//! The token issuer: mints opaque access tokens and says how the shared
//! store must record them.

use vstd::prelude::*;
use vstd::string::StringExecFns;

verus! {

/// Time-to-live of an access token in the shared store, in seconds.
pub const TOKEN_TTL_SECS: u64 = 3600;

/// The issuance response handed back to the caller: the token value alone.
pub struct TokenResponse {
    pub token: String,
}

/// A write the shared store is asked to perform: set `key` to `value`,
/// expiring after `ttl_secs`.
pub struct StoreWrite {
    pub key: String,
    pub value: String,
    pub ttl_secs: u64,
}

/// Relies on `uuid::Uuid::new_v4` and `Uuid`'s `Display` form: a fresh
/// random version-4 UUID, rendered hyphenated, which is always 36
/// characters. The value is random; nothing more is assumed of it.
#[verifier::external_body]
fn generate_token() -> (r: String)
    ensures
        r@.len() == 36,
{
    uuid::Uuid::new_v4().to_string()
}

/// Mint a new access token, together with the store write that records it
/// as active: the token value as its own key, payload `active`, expiring
/// after `TOKEN_TTL_SECS`.
pub fn issue() -> (r: (TokenResponse, StoreWrite))
    ensures
        r.0.token@.len() == 36,
        r.1.key@ == r.0.token@,
        r.1.value@ == "active"@,
        r.1.ttl_secs == TOKEN_TTL_SECS,
{
    let token = generate_token();
    let key = token.clone();
    let response = TokenResponse { token };
    let write = StoreWrite { key, value: String::from_str("active"), ttl_secs: TOKEN_TTL_SECS };
    (response, write)
}

} // verus!
