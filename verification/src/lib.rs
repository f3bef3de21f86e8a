//! Verified core of the RustDesk Pro management server: licences, users,
//! devices, audit records, the in-memory cache and the metric counters.
use vstd::prelude::*;

pub mod audit;
pub mod cache;
pub mod device;
pub mod license;
pub mod metrics;
pub mod prometheus;
pub mod sql;
pub mod text;
pub mod time;
pub mod user;
pub mod web;

verus! {

} // verus!
