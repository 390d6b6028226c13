//! A crawler's core for a profile-hosting site: targets are turned into
//! request addresses, fetched pages into records, and the records are
//! consumed in submission order under a consecutive-miss circuit breaker.
//!
//! Everything here is pure: fetching, timing and printing are the caller's.

pub mod text;
pub mod record;
pub mod extract;
pub mod source;
pub mod consumer;
pub mod scheduler;
