//! The token-bucket rate limiter and the admission decision built on it.
use vstd::prelude::*;
use crate::identity::{client_key, resolve_client_key};
use crate::store::KeyedStore;
use crate::token_bucket::{refill, refill_level, take, take_step, fresh_bucket, Bucket, Decision};

verus! {

/// Settings of the token-bucket limiter.
#[derive(Clone, Debug)]
pub struct RateLimiterConfig {
    /// Largest level of a bucket, in token units.
    pub capacity: u64,
    /// Units a bucket gains per millisecond (thousandths of a token per second).
    pub refill_rate: u64,
    /// Header naming the client, or `ip` to use the peer address.
    pub client_id_header: String,
}

/// Why a configuration cannot be used.
#[derive(Clone, Copy, Debug, PartialEq, Eq, Structural)]
pub enum ConfigError {
    ZeroCapacity,
    ZeroRefillRate,
    ZeroMaxRequests,
    ZeroWindow,
}

impl RateLimiterConfig {
    /// Refuses a zero capacity, then a zero refill rate.
    pub fn validate(&self) -> (r: Result<(), ConfigError>)
        ensures
            r == (if self.capacity == 0 {
                Err(ConfigError::ZeroCapacity)
            } else if self.refill_rate == 0 {
                Err(ConfigError::ZeroRefillRate)
            } else {
                Ok(())
            }),
    {
        if self.capacity == 0 {
            Err(ConfigError::ZeroCapacity)
        } else if self.refill_rate == 0 {
            Err(ConfigError::ZeroRefillRate)
        } else {
            Ok(())
        }
    }
}

/// The bucket `key` has when a request comes at `now`: its stored one, or a
/// full one on its first request.
pub open spec fn bucket_or_fresh(
    buckets: Map<Seq<char>, Bucket>,
    key: Seq<char>,
    capacity: u64,
    now: u64,
) -> Bucket {
    if buckets.contains_key(key) {
        buckets[key]
    } else {
        fresh_bucket(capacity, now)
    }
}

/// The buckets after a request of `key` at `now`, and its decision.
pub open spec fn limiter_step(
    buckets: Map<Seq<char>, Bucket>,
    key: Seq<char>,
    now: u64,
    capacity: u64,
    refill_rate: u64,
) -> (Map<Seq<char>, Bucket>, Decision) {
    let (b, d) = take_step(bucket_or_fresh(buckets, key, capacity, now), now, capacity, refill_rate);
    (buckets.insert(key, b), d)
}

/// Every bucket's level lies within the capacity.
pub open spec fn levels_within(buckets: Map<Seq<char>, Bucket>, capacity: u64) -> bool {
    forall|k: Seq<char>| #[trigger] buckets.contains_key(k) ==> buckets[k].tokens <= capacity
}

/// A bucket that refilling at `now` brings to its capacity: dropping it
/// changes no later decision, as a returning client gets a full bucket.
pub open spec fn full_at(b: Bucket, now: u64, capacity: u64, refill_rate: u64) -> bool {
    refill_level(b, now, capacity, refill_rate) == capacity
}

/// Per-client token buckets under one configuration.
pub struct RateLimiter {
    config: RateLimiterConfig,
    buckets: KeyedStore<Bucket>,
}

impl RateLimiter {
    pub closed spec fn spec_config(&self) -> RateLimiterConfig {
        self.config
    }

    /// The bucket of each client seen so far.
    pub closed spec fn buckets(&self) -> Map<Seq<char>, Bucket> {
        self.buckets@
    }

    pub closed spec fn wf(&self) -> bool {
        &&& self.buckets.wf()
        &&& self.config.capacity > 0
        &&& self.config.refill_rate > 0
        &&& levels_within(self.buckets@, self.config.capacity)
    }

    /// A limiter with no buckets; the capacity and the refill rate must be
    /// positive.
    pub fn new(config: RateLimiterConfig) -> (r: Result<RateLimiter, ConfigError>)
        ensures
            config.capacity == 0 ==> r == Err::<RateLimiter, ConfigError>(ConfigError::ZeroCapacity),
            config.capacity > 0 && config.refill_rate == 0 ==> r == Err::<RateLimiter, ConfigError>(
                ConfigError::ZeroRefillRate,
            ),
            config.capacity > 0 && config.refill_rate > 0 ==> r is Ok,
            r matches Ok(l) ==> l.wf() && l.spec_config() == config && l.buckets()
                == Map::<Seq<char>, Bucket>::empty(),
    {
        match config.validate() {
            Ok(()) => Ok(RateLimiter { config, buckets: KeyedStore::new() }),
            Err(e) => Err(e),
        }
    }

    pub fn config(&self) -> (r: &RateLimiterConfig)
        ensures
            *r == self.spec_config(),
    {
        &self.config
    }

    /// The current bucket of `client`, if it has made a request.
    pub fn bucket(&self, client: &String) -> (r: Option<Bucket>)
        requires
            self.wf(),
        ensures
            r == (if self.buckets().contains_key(client@) {
                Some(self.buckets()[client@])
            } else {
                None::<Bucket>
            }),
    {
        self.buckets.get(client)
    }

    /// Drops every bucket that is full at `now` (ms), so that the buckets
    /// held are those of clients seen recently.
    pub fn evict_full(&mut self, now: u64)
        requires
            old(self).wf(),
        ensures
            final(self).wf(),
            final(self).spec_config() == old(self).spec_config(),
            forall|k: Seq<char>|
                #[trigger] final(self).buckets().contains_key(k) <==> old(self).buckets().contains_key(k)
                    && !full_at(
                    old(self).buckets()[k],
                    now,
                    old(self).spec_config().capacity,
                    old(self).spec_config().refill_rate,
                ),
            forall|k: Seq<char>|
                #[trigger] final(self).buckets().contains_key(k) ==> final(self).buckets()[k] == old(
                    self,
                ).buckets()[k],
    {
        let keys = self.buckets.keys();
        let capacity = self.config.capacity;
        let refill_rate = self.config.refill_rate;
        let ghost start = self.buckets@;
        let mut i: usize = 0;
        while i < keys.len()
            invariant
                self.wf(),
                self.config == old(self).config,
                capacity == self.config.capacity,
                refill_rate == self.config.refill_rate,
                start == old(self).buckets(),
                i <= keys@.len(),
                forall|k: Seq<char>|
                    start.contains_key(k) <==> exists|j: int| 0 <= j < keys@.len() && (#[trigger] keys@[j])@ == k,
                forall|k: Seq<char>|
                    #[trigger] self.buckets@.contains_key(k) <==> start.contains_key(k) && !((exists|j: int|
                        0 <= j < i && (#[trigger] keys@[j])@ == k) && full_at(start[k], now, capacity, refill_rate)),
                forall|k: Seq<char>| #[trigger] self.buckets@.contains_key(k) ==> self.buckets@[k] == start[k],
            decreases keys@.len() - i,
        {
            let key = &keys[i];
            match self.buckets.get(key) {
                Some(b) => {
                    if refill(b, now, capacity, refill_rate) == capacity {
                        self.buckets.remove(key);
                    }
                },
                None => {},
            }
            assert forall|k: Seq<char>|
                #[trigger] self.buckets@.contains_key(k) <==> start.contains_key(k) && !((exists|j: int|
                    0 <= j < i + 1 && (#[trigger] keys@[j])@ == k) && full_at(start[k], now, capacity, refill_rate)) by {
                if k != key@ {
                    if exists|j: int| 0 <= j < i + 1 && (#[trigger] keys@[j])@ == k {
                        let j = choose|j: int| 0 <= j < i + 1 && (#[trigger] keys@[j])@ == k;
                        assert(j < i);
                    }
                } else {
                    assert(keys@[i as int]@ == k);
                }
            }
            i = i + 1;
        }
        assert forall|k: Seq<char>| #[trigger] self.buckets@.contains_key(k) <==> start.contains_key(k)
            && !full_at(start[k], now, capacity, refill_rate) by {
            if start.contains_key(k) {
                let j = choose|j: int| 0 <= j < keys@.len() && (#[trigger] keys@[j])@ == k;
                assert(0 <= j < i);
            }
        }
    }

    /// Decides a request of `client` at `now` (ms): the client's bucket is
    /// refilled, and a token is taken from it if one is there.
    pub fn check(&mut self, client: String, now: u64) -> (d: Decision)
        requires
            old(self).wf(),
        ensures
            final(self).wf(),
            final(self).spec_config() == old(self).spec_config(),
            (final(self).buckets(), d) == limiter_step(
                old(self).buckets(),
                client@,
                now,
                old(self).spec_config().capacity,
                old(self).spec_config().refill_rate,
            ),
            levels_within(final(self).buckets(), final(self).spec_config().capacity),
    {
        let capacity = self.config.capacity;
        let current = match self.buckets.get(&client) {
            Some(b) => b,
            None => Bucket { tokens: capacity, last_refill: now },
        };
        let (next, d) = take(current, now, capacity, self.config.refill_rate);
        self.buckets.put(client, next);
        d
    }
}

/// HTTP status of a rejected request.
pub const TOO_MANY_REQUESTS: u16 = 429;

pub open spec fn rejection_body() -> Seq<char> {
    "Too many requests: rate limit exceeded"@
}

/// The fixed response sent instead of the handler's.
#[derive(Clone, Debug)]
pub struct Rejection {
    pub status: u16,
    pub body: String,
}

/// What the middleware does with a request.
#[derive(Clone, Debug)]
pub enum Admission {
    /// Hand the request to the wrapped handler unchanged.
    Forward,
    /// Answer with this response; the handler is not called.
    Reject(Rejection),
}

pub open spec fn is_rejection(r: Rejection) -> bool {
    r.status == TOO_MANY_REQUESTS && r.body@ == rejection_body()
}

/// The rejection response: status 429 with a fixed text.
pub fn rejection() -> (r: Rejection)
    ensures
        is_rejection(r),
{
    Rejection { status: TOO_MANY_REQUESTS, body: "Too many requests: rate limit exceeded".to_owned() }
}

/// What the middleware does on `d`.
pub fn admission_of(d: Decision) -> (r: Admission)
    ensures
        d == Decision::Allow <==> r is Forward,
        r matches Admission::Reject(j) ==> is_rejection(j),
{
    match d {
        Decision::Allow => Admission::Forward,
        Decision::Reject => Admission::Reject(rejection()),
    }
}

/// The admission middleware's state: the limiter that every request goes
/// through.
pub struct RateLimiterMiddleware {
    limiter: RateLimiter,
}

impl RateLimiterMiddleware {
    pub closed spec fn spec_limiter(&self) -> RateLimiter {
        self.limiter
    }

    pub fn new(config: RateLimiterConfig) -> (r: Result<RateLimiterMiddleware, ConfigError>)
        ensures
            config.capacity == 0 ==> r == Err::<RateLimiterMiddleware, ConfigError>(ConfigError::ZeroCapacity),
            config.capacity > 0 && config.refill_rate == 0 ==> r == Err::<RateLimiterMiddleware, ConfigError>(
                ConfigError::ZeroRefillRate,
            ),
            config.capacity > 0 && config.refill_rate > 0 ==> r is Ok,
            r matches Ok(m) ==> m.spec_limiter().wf() && m.spec_limiter().spec_config() == config
                && m.spec_limiter().buckets() == Map::<Seq<char>, Bucket>::empty(),
    {
        match RateLimiter::new(config) {
            Ok(limiter) => Ok(RateLimiterMiddleware { limiter }),
            Err(e) => Err(e),
        }
    }

    pub fn limiter(&self) -> (r: &RateLimiter)
        ensures
            *r == self.spec_limiter(),
    {
        &self.limiter
    }

    /// Decides a request at `now` (ms) from its peer address and the value of
    /// the configured header: the request is charged to its resolved client
    /// key exactly once, and forwarded iff the limiter allows it.
    pub fn handle(&mut self, peer_addr: Option<String>, header_value: Option<String>, now: u64) -> (r:
        Admission)
        requires
            old(self).spec_limiter().wf(),
        ensures
            final(self).spec_limiter().wf(),
            final(self).spec_limiter().spec_config() == old(self).spec_limiter().spec_config(),
            ({
                let cfg = old(self).spec_limiter().spec_config();
                let key = client_key(cfg.client_id_header@, peer_addr, header_value);
                let (buckets, d) = limiter_step(
                    old(self).spec_limiter().buckets(),
                    key,
                    now,
                    cfg.capacity,
                    cfg.refill_rate,
                );
                &&& final(self).spec_limiter().buckets() == buckets
                &&& (d == Decision::Allow <==> r is Forward)
            }),
            r matches Admission::Reject(j) ==> is_rejection(j),
    {
        let key = resolve_client_key(&self.limiter.config.client_id_header, peer_addr, header_value);
        let d = self.limiter.check(key, now);
        admission_of(d)
    }
}

} // verus!
