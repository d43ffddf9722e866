//! The fixed-window counter: requests are counted per client and per window
//! of `window_secs` seconds, under the key `<client>:<window>`.
use vstd::prelude::*;
use crate::identity::{client_key, resolve_client_key};
use crate::limiter::ConfigError;
use crate::store::KeyedStore;
use crate::token_bucket::Decision;

verus! {

pub open spec fn digit_char(d: nat) -> char {
    if d == 0 { '0' }
    else if d == 1 { '1' }
    else if d == 2 { '2' }
    else if d == 3 { '3' }
    else if d == 4 { '4' }
    else if d == 5 { '5' }
    else if d == 6 { '6' }
    else if d == 7 { '7' }
    else if d == 8 { '8' }
    else { '9' }
}

/// Decimal digits of `n`, most significant first, without leading zeros.
pub open spec fn decimal(n: nat) -> Seq<char>
    decreases n,
{
    if n < 10 {
        seq![digit_char(n)]
    } else {
        decimal(n / 10).push(digit_char(n % 10))
    }
}

/// Key of the counter of `client` in window `window`.
pub open spec fn window_key(client: Seq<char>, window: nat) -> Seq<char> {
    client + ":"@ + decimal(window)
}

fn digit_str(d: u64) -> (r: &'static str)
    requires
        d < 10,
    ensures
        r@ == seq![digit_char(d as nat)],
{
    proof {
        reveal_strlit("0");
        reveal_strlit("1");
        reveal_strlit("2");
        reveal_strlit("3");
        reveal_strlit("4");
        reveal_strlit("5");
        reveal_strlit("6");
        reveal_strlit("7");
        reveal_strlit("8");
        reveal_strlit("9");
    }
    if d == 0 { "0" }
    else if d == 1 { "1" }
    else if d == 2 { "2" }
    else if d == 3 { "3" }
    else if d == 4 { "4" }
    else if d == 5 { "5" }
    else if d == 6 { "6" }
    else if d == 7 { "7" }
    else if d == 8 { "8" }
    else { "9" }
}

/// `n` written in decimal.
pub fn decimal_string(n: u64) -> (r: String)
    ensures
        r@ == decimal(n as nat),
    decreases n,
{
    if n < 10 {
        digit_str(n).to_owned()
    } else {
        let high = decimal_string(n / 10);
        let r = high.concat(digit_str(n % 10));
        proof {
            assert(r@ =~= decimal(n as nat));
        }
        r
    }
}

/// The window that time `now_secs` falls in.
pub fn window_of(now_secs: u64, window_secs: u64) -> (r: u64)
    requires
        window_secs > 0,
    ensures
        r == now_secs / window_secs,
{
    now_secs / window_secs
}

/// The store key of the counter of `client` in `window`.
pub fn counter_key(client: &String, window: u64) -> (r: String)
    ensures
        r@ == window_key(client@, window as nat),
{
    let digits = decimal_string(window);
    let r = client.clone().concat(":").concat(digits.as_str());
    proof {
        reveal_strlit(":");
    }
    r
}

/// A request whose increment brought its window's counter to `count` is
/// allowed iff `count` is at most `max_requests`.
pub fn counter_decision(count: u64, max_requests: u32) -> (d: Decision)
    ensures
        d == (if count <= max_requests { Decision::Allow } else { Decision::Reject }),
{
    if count <= max_requests as u64 {
        Decision::Allow
    } else {
        Decision::Reject
    }
}

/// What to decide when the shared counter store cannot be reached.
#[derive(Clone, Copy, Debug, PartialEq, Eq, Structural)]
pub enum FailPolicy {
    /// Allow every request while the store is down.
    Open,
    /// Reject every request while the store is down.
    Closed,
}

/// The shared counter store did not answer.
#[derive(Clone, Copy, Debug, PartialEq, Eq, Structural)]
pub enum StoreError {
    Unavailable,
}

/// Settings of the fixed-window limiter.
#[derive(Clone, Debug)]
pub struct WindowConfig {
    /// Requests allowed per client and window.
    pub max_requests: u32,
    /// Length of a window in seconds.
    pub window_secs: u64,
    /// Header naming the client, or `ip` to use the peer address.
    pub client_id_header: String,
    pub fail_policy: FailPolicy,
}

impl WindowConfig {
    /// Refuses a zero request limit, then a zero window.
    pub fn validate(&self) -> (r: Result<(), ConfigError>)
        ensures
            r == (if self.max_requests == 0 {
                Err(ConfigError::ZeroMaxRequests)
            } else if self.window_secs == 0 {
                Err(ConfigError::ZeroWindow)
            } else {
                Ok(())
            }),
    {
        if self.max_requests == 0 {
            Err(ConfigError::ZeroMaxRequests)
        } else if self.window_secs == 0 {
            Err(ConfigError::ZeroWindow)
        } else {
            Ok(())
        }
    }
}

pub open spec fn decision_for_count(count: int, max_requests: u32) -> Decision {
    if count <= max_requests {
        Decision::Allow
    } else {
        Decision::Reject
    }
}

pub open spec fn decision_on_failure(policy: FailPolicy) -> Decision {
    match policy {
        FailPolicy::Open => Decision::Allow,
        FailPolicy::Closed => Decision::Reject,
    }
}

/// Decides on the store's answer to an increment: the counter value it
/// returned, or its failure, which the policy settles.
pub fn decide_on_reply(reply: Result<u64, StoreError>, max_requests: u32, policy: FailPolicy) -> (d:
    Decision)
    ensures
        d == (match reply {
            Ok(count) => decision_for_count(count as int, max_requests),
            Err(_) => decision_on_failure(policy),
        }),
{
    match reply {
        Ok(count) => counter_decision(count, max_requests),
        Err(_) => match policy {
            FailPolicy::Open => Decision::Allow,
            FailPolicy::Closed => Decision::Reject,
        },
    }
}

/// The key of the counter that a request at `now_secs` is charged to.
pub fn request_counter_key(
    config: &WindowConfig,
    peer_addr: Option<String>,
    header_value: Option<String>,
    now_secs: u64,
) -> (r: String)
    requires
        config.window_secs > 0,
    ensures
        r@ == window_key(
            client_key(config.client_id_header@, peer_addr, header_value),
            (now_secs / config.window_secs) as nat,
        ),
{
    let client = resolve_client_key(&config.client_id_header, peer_addr, header_value);
    counter_key(&client, window_of(now_secs, config.window_secs))
}

/// A counter after one more request; it stays at its largest value.
pub open spec fn bumped(count: u64) -> u64 {
    if count < u64::MAX {
        (count + 1) as u64
    } else {
        count
    }
}

/// The counter stored under `key`, zero where there is none.
pub open spec fn count_in(counters: Map<Seq<char>, u64>, key: Seq<char>) -> u64 {
    if counters.contains_key(key) {
        counters[key]
    } else {
        0
    }
}

/// The counters after a request charged to `key`, and its decision.
pub open spec fn window_step(counters: Map<Seq<char>, u64>, key: Seq<char>, max_requests: u32) -> (
    Map<Seq<char>, u64>,
    Decision,
) {
    let count = bumped(count_in(counters, key));
    (counters.insert(key, count), decision_for_count(count as int, max_requests))
}

/// Fixed-window counters held in this process.
pub struct FixedWindowLimiter {
    config: WindowConfig,
    counters: KeyedStore<u64>,
}

impl FixedWindowLimiter {
    pub closed spec fn spec_config(&self) -> WindowConfig {
        self.config
    }

    /// The counter of each key charged so far.
    pub closed spec fn counters(&self) -> Map<Seq<char>, u64> {
        self.counters@
    }

    pub closed spec fn wf(&self) -> bool {
        &&& self.counters.wf()
        &&& self.config.max_requests > 0
        &&& self.config.window_secs > 0
    }

    /// A limiter with no counters; the request limit and the window must be
    /// positive.
    pub fn new(config: WindowConfig) -> (r: Result<FixedWindowLimiter, ConfigError>)
        ensures
            config.max_requests == 0 ==> r == Err::<FixedWindowLimiter, ConfigError>(
                ConfigError::ZeroMaxRequests,
            ),
            config.max_requests > 0 && config.window_secs == 0 ==> r == Err::<
                FixedWindowLimiter,
                ConfigError,
            >(ConfigError::ZeroWindow),
            config.max_requests > 0 && config.window_secs > 0 ==> r is Ok,
            r matches Ok(l) ==> l.wf() && l.spec_config() == config && l.counters() == Map::<
                Seq<char>,
                u64,
            >::empty(),
    {
        match config.validate() {
            Ok(()) => Ok(FixedWindowLimiter { config, counters: KeyedStore::new() }),
            Err(e) => Err(e),
        }
    }

    pub fn config(&self) -> (r: &WindowConfig)
        ensures
            *r == self.spec_config(),
    {
        &self.config
    }

    /// The counter of `client` in `window`, zero where it has none.
    pub fn count(&self, client: &String, window: u64) -> (r: u64)
        requires
            self.wf(),
        ensures
            r == count_in(self.counters(), window_key(client@, window as nat)),
    {
        let key = counter_key(client, window);
        match self.counters.get(&key) {
            Some(c) => c,
            None => 0,
        }
    }

    /// Charges a request of `client` at `now_secs` to the counter of its
    /// window and allows it iff the counter is then within the limit.
    pub fn check(&mut self, client: &String, now_secs: u64) -> (d: Decision)
        requires
            old(self).wf(),
        ensures
            final(self).wf(),
            final(self).spec_config() == old(self).spec_config(),
            (final(self).counters(), d) == window_step(
                old(self).counters(),
                window_key(client@, (now_secs / old(self).spec_config().window_secs) as nat),
                old(self).spec_config().max_requests,
            ),
    {
        let key = counter_key(client, window_of(now_secs, self.config.window_secs));
        let current = match self.counters.get(&key) {
            Some(c) => c,
            None => 0,
        };
        let count = if current < u64::MAX {
            current + 1
        } else {
            current
        };
        self.counters.put(key, count);
        counter_decision(count, self.config.max_requests)
    }
}

} // verus!
