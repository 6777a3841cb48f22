//! A verified core for a climate-scenario catalogue service: filter-query
//! composition, detail aggregation over a storage model, and the
//! registration / login / token-issuance flow.

pub mod auth;
pub mod errors;
pub mod item;
pub mod order;
pub mod query;
pub mod scenario;
pub mod store;
pub mod user;

use vstd::prelude::*;

verus! {

/// Runtime configuration for the service: where the backing store lives and
/// how bearer tokens are signed.
pub struct Config {
    pub database_url: String,
    pub jwt_secret: String,
    pub jwt_expiration: i64,
}

} // verus!
