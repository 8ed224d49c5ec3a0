//! The verified core of an API gateway: backend rotation, bearer-token
//! authentication decisions, token framing and the users route's
//! cache-then-upstream flow.

pub mod balancer;
pub mod headers;
pub mod auth;
pub mod routes;

use vstd::prelude::*;

verus! {

/// Shared application settings: the base URLs that the gateway forwards to.
pub struct AppState {
    pub base_url: Vec<String>,
}

} // verus!
