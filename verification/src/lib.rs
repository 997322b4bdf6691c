//! A metrics exporter for a remote management API: an authenticated client
//! that refreshes its bearer token when the upstream rejects it, a gauge
//! registry that renders the plaintext exposition format, and the
//! all-or-nothing refresh cycle that feeds one into the other.

pub mod api;
pub mod data;
pub mod error;
pub mod metrics;
pub mod registry;
pub mod text;
pub mod value;
