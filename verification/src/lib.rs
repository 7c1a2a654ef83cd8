//! Delivery-side tail of an event pipeline: a generic worker loop,
//! parameterized by a transport strategy, that consumes events from a
//! channel, attempts delivery with bounded exponential backoff, and
//! applies a configurable failure policy.

pub mod event;
pub mod gcp_pubsub;
pub mod retry;
pub mod webhook;
pub mod writer;
