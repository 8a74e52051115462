//! A deterministic binary codec for cross-chain location addressing.
//!
//! A multi-location is an ancestry count together with an ordered path of
//! typed junction steps, some of which carry a network identifier. This
//! crate encodes those values into the self-describing inner byte layout
//! used at a foreign-call boundary (one tag byte, then fixed-width fields
//! in network byte order, then an optional trailing variable-length field)
//! and decodes them back, rejecting malformed or oversized input with a
//! typed error.

pub mod bytes_util;
pub mod junction;
pub mod laws;
pub mod location;
pub mod network;
pub mod types;
