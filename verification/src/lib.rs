//! The verified core of a delivery price comparison server: reading HTTP
//! requests and choosing their replies, query strings, the promo code store,
//! provider rules, and the text of system files for host metrics.
use vstd::prelude::*;

pub mod http;
pub mod metrics;
pub mod num;
pub mod pricing;
pub mod query;
pub mod store;
pub mod sysinfo;
pub mod text;

verus! {

} // verus!
