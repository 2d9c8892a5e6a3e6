//! A mock HTTP origin server core.
//!
//! The crate holds the verified logic of a mock server: declarative
//! request/response mappings, a priority-ordered request matcher, a response
//! producer for canned and upstream-forwarded responses, an HTTP/1.1 inbound
//! codec, and a body-file cache. Network and filesystem plumbing live outside
//! the library and hand it plain values.

pub mod cache;
pub mod codec;
pub mod config;
pub mod error;
pub mod mapping;
pub mod matcher;
pub mod message;
pub mod pipeline;
pub mod producer;
pub mod util;

use vstd::prelude::*;

verus! {

/// Seconds an upstream round trip may take before it is abandoned.
pub const UPSTREAM_TIMEOUT_SECS: u64 = 10;

} // verus!
