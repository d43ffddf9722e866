//! Properties of the limiters, stated over the spec functions that their
//! operations are proved against.
use vstd::prelude::*;
use crate::identity::{by_peer_address, client_key, unknown_key};
use crate::limiter::{bucket_or_fresh, full_at, levels_within, limiter_step};
use crate::token_bucket::{refill_level, take_step, fresh_bucket, Bucket, Decision, TOKEN};
use crate::window::{count_in, decimal, digit_char, window_key, window_step};

verus! {

/// A request never lifts a bucket above its capacity: every bucket of a
/// limiter stays within `[0, capacity]` whatever requests come.
pub proof fn lemma_levels_stay_within(
    buckets: Map<Seq<char>, Bucket>,
    key: Seq<char>,
    now: u64,
    capacity: u64,
    refill_rate: u64,
)
    requires
        levels_within(buckets, capacity),
    ensures
        levels_within(limiter_step(buckets, key, now, capacity, refill_rate).0, capacity),
{
    let b = bucket_or_fresh(buckets, key, capacity, now);
    assert(b.tokens <= capacity);
}

/// The bucket after `k` requests at the same instant `now`.
pub open spec fn burst(b: Bucket, now: u64, capacity: u64, refill_rate: u64, k: nat) -> Bucket
    decreases k,
{
    if k == 0 {
        b
    } else {
        take_step(burst(b, now, capacity, refill_rate, (k - 1) as nat), now, capacity, refill_rate).0
    }
}

proof fn lemma_burst_level(n: nat, capacity: u64, refill_rate: u64, now: u64, k: nat)
    requires
        capacity == n * TOKEN,
        k <= n,
    ensures
        burst(fresh_bucket(capacity, now), now, capacity, refill_rate, k) == (Bucket {
            tokens: (capacity - k * TOKEN) as u64,
            last_refill: now,
        }),
    decreases k,
{
    if k > 0 {
        lemma_burst_level(n, capacity, refill_rate, now, (k - 1) as nat);
        assert((k - 1) * TOKEN + TOKEN == k * TOKEN) by (nonlinear_arith);
        assert(k * TOKEN <= n * TOKEN) by (nonlinear_arith)
            requires
                k <= n,
        ;
    }
}

/// A fresh bucket holding `n` whole tokens admits `n` requests made at one
/// instant, and rejects the next one.
pub proof fn lemma_burst_then_reject(n: nat, capacity: u64, refill_rate: u64, now: u64)
    requires
        capacity == n * TOKEN,
    ensures
        forall|k: nat|
            k < n ==> (#[trigger] take_step(
                burst(fresh_bucket(capacity, now), now, capacity, refill_rate, k),
                now,
                capacity,
                refill_rate,
            )).1 == Decision::Allow,
        take_step(
            burst(fresh_bucket(capacity, now), now, capacity, refill_rate, n),
            now,
            capacity,
            refill_rate,
        ).1 == Decision::Reject,
{
    assert forall|k: nat| k < n implies (#[trigger] take_step(
        burst(fresh_bucket(capacity, now), now, capacity, refill_rate, k),
        now,
        capacity,
        refill_rate,
    )).1 == Decision::Allow by {
        lemma_burst_level(n, capacity, refill_rate, now, k);
        assert(k * TOKEN + TOKEN <= n * TOKEN) by (nonlinear_arith)
            requires
                k < n,
        ;
    }
    lemma_burst_level(n, capacity, refill_rate, now, n);
}

/// After an idle spell of `now - last_refill` milliseconds, a request sees
/// the stored level plus what that spell refills, capped at the capacity,
/// and takes one token from it if there is one.
pub proof fn lemma_idle_refill(b: Bucket, now: u64, capacity: u64, refill_rate: u64)
    requires
        b.tokens <= capacity,
        now >= b.last_refill,
    ensures
        ({
            let level = if b.tokens + (now - b.last_refill) * refill_rate < capacity {
                b.tokens + (now - b.last_refill) * refill_rate
            } else {
                capacity as int
            };
            &&& refill_level(b, now, capacity, refill_rate) == level
            &&& take_step(b, now, capacity, refill_rate).0.tokens == (if level >= TOKEN {
                level - TOKEN
            } else {
                level
            })
        }),
{
}

/// Two requests of one client at the same instant, when a single token is
/// available, are decided one after the other: the first is allowed and the
/// second rejected.
pub proof fn lemma_no_double_spend(
    buckets: Map<Seq<char>, Bucket>,
    key: Seq<char>,
    now: u64,
    capacity: u64,
    refill_rate: u64,
)
    requires
        levels_within(buckets, capacity),
        TOKEN <= refill_level(bucket_or_fresh(buckets, key, capacity, now), now, capacity, refill_rate)
            < 2 * TOKEN,
    ensures
        ({
            let (after, first) = limiter_step(buckets, key, now, capacity, refill_rate);
            let (_, second) = limiter_step(after, key, now, capacity, refill_rate);
            first == Decision::Allow && second == Decision::Reject
        }),
{
    let b = bucket_or_fresh(buckets, key, capacity, now);
    assert(b.tokens <= capacity);
}

/// Dropping a bucket that is full at `now` changes neither the decision nor
/// the buckets left by a later request of that client at `t >= now`.
pub proof fn lemma_eviction_unobservable(
    buckets: Map<Seq<char>, Bucket>,
    key: Seq<char>,
    now: u64,
    t: u64,
    capacity: u64,
    refill_rate: u64,
)
    requires
        levels_within(buckets, capacity),
        buckets.contains_key(key),
        full_at(buckets[key], now, capacity, refill_rate),
        now <= t,
    ensures
        limiter_step(buckets.remove(key), key, t, capacity, refill_rate) == limiter_step(
            buckets,
            key,
            t,
            capacity,
            refill_rate,
        ),
{
    let b = buckets[key];
    assert(b.tokens <= capacity);
    if b.last_refill <= now {
        let e1 = now - b.last_refill;
        let e2 = t - b.last_refill;
        assert(e1 * refill_rate <= e2 * refill_rate) by (nonlinear_arith)
            requires
                0 <= e1 <= e2,
                0 <= refill_rate,
        ;
    }
    assert(refill_level(b, t, capacity, refill_rate) == capacity);
    let (nb, _) = take_step(b, t, capacity, refill_rate);
    assert(buckets.remove(key).insert(key, nb) =~= buckets.insert(key, nb));
}

/// The counters after `n` requests charged to `key`.
pub open spec fn repeated(counters: Map<Seq<char>, u64>, key: Seq<char>, max_requests: u32, n: nat) -> Map<
    Seq<char>,
    u64,
>
    decreases n,
{
    if n == 0 {
        counters
    } else {
        window_step(repeated(counters, key, max_requests, (n - 1) as nat), key, max_requests).0
    }
}

proof fn lemma_repeated_count(counters: Map<Seq<char>, u64>, key: Seq<char>, max_requests: u32, n: nat)
    requires
        !counters.contains_key(key),
        n <= u64::MAX,
    ensures
        count_in(repeated(counters, key, max_requests, n), key) == n,
    decreases n,
{
    if n > 0 {
        lemma_repeated_count(counters, key, max_requests, (n - 1) as nat);
    }
}

/// Within one window, whose counter starts absent, the `n`th request is
/// allowed iff `n <= max_requests`.
pub proof fn lemma_nth_request_in_window(
    counters: Map<Seq<char>, u64>,
    key: Seq<char>,
    max_requests: u32,
    n: nat,
)
    requires
        !counters.contains_key(key),
        1 <= n <= u64::MAX,
    ensures
        count_in(repeated(counters, key, max_requests, n), key) == n,
        window_step(repeated(counters, key, max_requests, (n - 1) as nat), key, max_requests).1 == (if n
            <= max_requests {
            Decision::Allow
        } else {
            Decision::Reject
        }),
{
    lemma_repeated_count(counters, key, max_requests, (n - 1) as nat);
    lemma_repeated_count(counters, key, max_requests, n);
}

proof fn lemma_decimal_nonempty(n: nat)
    ensures
        decimal(n).len() >= 1,
    decreases n,
{
    if n >= 10 {
        lemma_decimal_nonempty(n / 10);
    }
}

proof fn lemma_decimal_injective(a: nat, b: nat)
    requires
        decimal(a) == decimal(b),
    ensures
        a == b,
    decreases a,
{
    if a >= 10 {
        lemma_decimal_nonempty(a / 10);
    }
    if b >= 10 {
        lemma_decimal_nonempty(b / 10);
    }
    if a >= 10 && b >= 10 {
        let da = decimal(a);
        assert(da.drop_last() == decimal(a / 10));
        assert(decimal(b).drop_last() == decimal(b / 10));
        assert(digit_char(a % 10) == da.last());
        assert(digit_char(b % 10) == decimal(b).last());
        lemma_decimal_injective(a / 10, b / 10);
    } else if a < 10 && b < 10 {
        assert(decimal(a)[0] == digit_char(a));
        assert(decimal(b)[0] == digit_char(b));
    } else {
        assert(decimal(a).len() == 1 || decimal(a).len() == decimal(a / 10).len() + 1);
        assert(decimal(b).len() == 1 || decimal(b).len() == decimal(b / 10).len() + 1);
        assert(decimal(a).len() != decimal(b).len());
    }
}

/// Different windows of one client have different counter keys, so a new
/// window starts from a counter of its own.
pub proof fn lemma_window_keys_distinct(client: Seq<char>, w1: nat, w2: nat)
    requires
        w1 != w2,
    ensures
        window_key(client, w1) != window_key(client, w2),
{
    if window_key(client, w1) == window_key(client, w2) {
        let prefix = client + ":"@;
        let start = prefix.len() as int;
        let k1 = window_key(client, w1);
        let k2 = window_key(client, w2);
        assert(k1.subrange(start, k1.len() as int) =~= decimal(w1));
        assert(k2.subrange(start, k2.len() as int) =~= decimal(w2));
        lemma_decimal_injective(w1, w2);
    }
}

/// A request in one window leaves the counter of every other window of the
/// same client as it was; the first request of a window whose counter is
/// absent brings it to one and is allowed.
pub proof fn lemma_new_window_starts_at_one(
    counters: Map<Seq<char>, u64>,
    client: Seq<char>,
    old_window: nat,
    new_window: nat,
    max_requests: u32,
)
    requires
        old_window != new_window,
        max_requests > 0,
    ensures
        count_in(window_step(counters, window_key(client, old_window), max_requests).0, window_key(client, new_window))
            == count_in(counters, window_key(client, new_window)),
        !counters.contains_key(window_key(client, new_window)) ==> {
            let (after, d) = window_step(counters, window_key(client, new_window), max_requests);
            count_in(after, window_key(client, new_window)) == 1 && d == Decision::Allow
        },
{
    lemma_window_keys_distinct(client, old_window, new_window);
}

/// All callers without a resolvable identity are charged to the one
/// `unknown` key, and so share a bucket or a counter.
pub proof fn lemma_unidentified_share_key(
    client_id_header: Seq<char>,
    peer1: Option<String>,
    header1: Option<String>,
    peer2: Option<String>,
    header2: Option<String>,
)
    requires
        client_id_header == by_peer_address() ==> peer1 is None && peer2 is None,
        client_id_header != by_peer_address() ==> header1 is None && header2 is None,
    ensures
        client_key(client_id_header, peer1, header1) == unknown_key(),
        client_key(client_id_header, peer2, header2) == unknown_key(),
{
}

} // verus!
