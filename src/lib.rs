//! Request admission control: per-client token buckets with continuous
//! refill, fixed-window request counters, and the decision an admission
//! middleware takes for each request.
pub mod identity;
pub mod laws;
pub mod limiter;
pub mod store;
pub mod token_bucket;
pub mod window;
