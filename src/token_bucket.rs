//! Token-bucket arithmetic in fixed point.
//!
//! Time is counted in milliseconds and a token is split into `TOKEN` units,
//! so that refilling is exact: a bucket idle for `e` milliseconds gains
//! `e * refill_rate` units, capped at its capacity.
use vstd::prelude::*;

verus! {

/// Units that make up one whole token.
pub const TOKEN: u64 = 1_000_000;

/// Outcome of an admission decision.
#[derive(Clone, Copy, Debug, PartialEq, Eq, Structural)]
pub enum Decision {
    Allow,
    Reject,
}

/// One client's bucket: its level in token units and the time (ms) of the
/// last refill.
#[derive(Clone, Copy, Debug, PartialEq, Eq, Structural)]
pub struct Bucket {
    pub tokens: u64,
    pub last_refill: u64,
}

/// Time elapsed since `last`, with a clock that went backwards read as zero.
pub open spec fn elapsed_since(last: u64, now: u64) -> int {
    if now >= last {
        now - last
    } else {
        0
    }
}

/// Level of `b` at time `now` after the lazy refill, capped at `capacity`.
pub open spec fn refill_level(b: Bucket, now: u64, capacity: u64, refill_rate: u64) -> int {
    let grown = b.tokens + elapsed_since(b.last_refill, now) * refill_rate;
    if grown < capacity {
        grown
    } else {
        capacity as int
    }
}

/// The bucket a client starts with on its first request.
pub open spec fn fresh_bucket(capacity: u64, now: u64) -> Bucket {
    Bucket { tokens: capacity, last_refill: now }
}

/// One admission step: refill, then take a whole token if there is one.
pub open spec fn take_step(b: Bucket, now: u64, capacity: u64, refill_rate: u64) -> (Bucket, Decision) {
    let level = refill_level(b, now, capacity, refill_rate);
    if level >= TOKEN {
        (Bucket { tokens: (level - TOKEN) as u64, last_refill: now }, Decision::Allow)
    } else {
        (Bucket { tokens: level as u64, last_refill: now }, Decision::Reject)
    }
}

/// Level of `b` at `now` after refilling.
pub fn refill(b: Bucket, now: u64, capacity: u64, refill_rate: u64) -> (r: u64)
    requires
        b.tokens <= capacity,
    ensures
        r == refill_level(b, now, capacity, refill_rate),
{
    let elapsed: u64 = if now >= b.last_refill {
        now - b.last_refill
    } else {
        0
    };
    let room: u64 = capacity - b.tokens;
    assert((elapsed as int) * (refill_rate as int) <= u64::MAX * u64::MAX) by (nonlinear_arith);
    let gained: u128 = elapsed as u128 * refill_rate as u128;
    if gained >= room as u128 {
        capacity
    } else {
        b.tokens + gained as u64
    }
}

/// Refills `b` at time `now` and admits the request iff a whole token is
/// available, taking it; a rejected request takes nothing but still moves
/// the refill time to `now`.
pub fn take(b: Bucket, now: u64, capacity: u64, refill_rate: u64) -> (r: (Bucket, Decision))
    requires
        b.tokens <= capacity,
    ensures
        r == take_step(b, now, capacity, refill_rate),
        r.0.tokens <= capacity,
{
    let level = refill(b, now, capacity, refill_rate);
    if level >= TOKEN {
        (Bucket { tokens: level - TOKEN, last_refill: now }, Decision::Allow)
    } else {
        (Bucket { tokens: level, last_refill: now }, Decision::Reject)
    }
}

} // verus!
