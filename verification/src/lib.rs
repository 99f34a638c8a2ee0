//! A verified authentication side-car: session-token lifecycle, a
//! TTL-bounded group-membership cache, and the request pre-processing
//! rules that turn an `Authorization` header into an allow/deny decision.
//!
//! All time-dependent behaviour is expressed over an explicit clock
//! value handed in by the caller, so every expiry rule is stated and
//! proved rather than left to a wall-clock dependency. Network calls
//! are performed by the embedding program: the client here decides
//! *what* to fetch and how to fold each response back into its state.

use vstd::prelude::*;

pub mod auth_client;
pub mod handler;
pub mod member_cache;

verus! {

/// Seconds a cached membership answer stays valid after insertion.
pub const MEMBER_TTL_SECS: u64 = 120;

/// Seconds a session token stays valid after acquisition.
pub const SESSION_TTL_SECS: u64 = 1000;

} // verus!
