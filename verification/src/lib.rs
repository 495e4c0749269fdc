//! A gateway between chat protocols of language-model providers.
use vstd::prelude::*;

pub mod balancer;
pub mod chunks;
pub mod client;
pub mod config;
pub mod error;
pub mod failures;
pub mod gateway;
pub mod http;
pub mod json;
pub mod json_client;
pub mod json_text;
pub mod meaning;
pub mod model;
pub mod passing;
pub mod registry;
pub mod replies;
pub mod routes;
pub mod text;
pub mod types;

verus! {

/// The version of this library.
pub fn version() -> (r: &'static str)
    ensures
        r@ == "0.4.0"@,
{
    "0.4.0"
}

} // verus!
