//! The resilient request dispatch layer.
//!
//! One logical API call becomes a bounded sequence of attempts. Before each
//! send to a registered endpoint the caller waits on that endpoint's local
//! token bucket and then on its shared server-driven cooldown gate. A 429
//! response with a parseable `Retry-After` arms the cooldown and the attempt is
//! retried; every other failure is surfaced at once. Time enters every
//! operation as an explicit monotonic-millisecond reading, so the whole
//! decision layer is deterministic and verified; the actual sleeping and the
//! HTTP transport live outside it.

use vstd::prelude::*;
use vstd::string::StringExecFns;

use crate::Error;
use crate::HttpFailure;

verus! {

broadcast use
    vstd::arithmetic::div_mod::lemma_fundamental_div_mod,
    vstd::arithmetic::div_mod::lemma_mod_bound,
    vstd::arithmetic::div_mod::lemma_div_pos_is_pos;

/// A rate class: each tier maps to a fixed requests-per-minute quota.
#[derive(Clone, Copy, Debug, PartialEq, Eq, Structural)]
pub enum RateLimitingTier {
    Tier1,
    Tier2,
    Tier3,
    Tier4,
}

impl RateLimitingTier {
    /// Requests per minute granted to this tier.
    pub open spec fn quota_spec(self) -> u32 {
        match self {
            RateLimitingTier::Tier1 => 1,
            RateLimitingTier::Tier2 => 20,
            RateLimitingTier::Tier3 => 50,
            RateLimitingTier::Tier4 => 100,
        }
    }

    pub fn quota(&self) -> (q: u32)
        ensures
            q == self.quota_spec(),
            1 <= q <= 100,
    {
        match self {
            RateLimitingTier::Tier1 => 1,
            RateLimitingTier::Tier2 => 20,
            RateLimitingTier::Tier3 => 50,
            RateLimitingTier::Tier4 => 100,
        }
    }
}

/// A local admission throttle: a steady-rate limiter that stores at most
/// one token, refilled one interval (`60000 / quota` milliseconds) after
/// the last grant, so an endpoint is granted no more than its quota of
/// calls in any rolling minute. Each granted call consumes the token.
/// Time is an explicit monotonic-millisecond reading supplied by the
/// caller.
pub struct TokenBucket {
    quota: u32,
    interval_ms: u64,
    tokens: u32,
    refill_start_ms: u64,
}

impl TokenBucket {
    /// Requests per minute this bucket grants.
    pub closed spec fn spec_quota(self) -> u32 {
        self.quota
    }

    /// Milliseconds between two token refills.
    pub closed spec fn spec_interval_ms(self) -> u64 {
        self.interval_ms
    }

    /// Tokens available as of the last refill reckoning (zero or one).
    pub closed spec fn spec_tokens(self) -> u32 {
        self.tokens
    }

    /// The instant from which not-yet-credited refill time accrues.
    pub closed spec fn spec_refill_start_ms(self) -> u64 {
        self.refill_start_ms
    }

    pub open spec fn wf(self) -> bool {
        &&& 1 <= self.spec_quota() <= 60000
        &&& self.spec_interval_ms() == 60000 as int / self.spec_quota() as int
        &&& 1 <= self.spec_interval_ms() <= 60000
        &&& self.spec_tokens() <= 1
    }

    /// Tokens that would be available at instant `now`, after crediting
    /// every whole refill interval elapsed since `refill_start_ms` —
    /// capped at the one stored token: idle time never banks a burst.
    pub open spec fn refilled_tokens(self, now: u64) -> int {
        let earned = (now - self.spec_refill_start_ms()) / (self.spec_interval_ms() as int);
        if self.spec_tokens() + earned >= 1 {
            1
        } else {
            self.spec_tokens() + earned
        }
    }

    /// Where the refill reckoning stands after crediting refills at `now`:
    /// a bucket holding its token accrues nothing, otherwise the time
    /// already waited toward the next token is kept.
    pub open spec fn refilled_start(self, now: u64) -> int {
        let earned = (now - self.spec_refill_start_ms()) / (self.spec_interval_ms() as int);
        if self.spec_tokens() + earned >= 1 {
            now as int
        } else {
            self.spec_refill_start_ms() + earned * self.spec_interval_ms()
        }
    }

    /// A bucket starts with its one token available, so a fresh endpoint's
    /// first call proceeds at once and a steady rate of one grant per
    /// interval follows.
    pub fn new(quota: u32, now_ms: u64) -> (b: TokenBucket)
        requires
            1 <= quota <= 60000,
        ensures
            b.wf(),
            b.spec_quota() == quota,
            b.spec_tokens() == 1,
            b.spec_refill_start_ms() == now_ms,
    {
        proof {
            assert(1 <= 60000 as int / quota as int <= 60000) by (nonlinear_arith)
                requires
                    1 <= quota <= 60000,
            ;
        }
        TokenBucket { quota, interval_ms: 60000 / (quota as u64), tokens: 1, refill_start_ms: now_ms }
    }

    /// Everything one admission check at instant `now` does to a bucket:
    /// exactly one token is consumed when one is available (zero wait),
    /// otherwise the caller is told to wait until the next refill, and the
    /// wait is always bounded by one refill interval — a call is only ever
    /// delayed, never dropped.
    pub open spec fn acquire_transition(pre: TokenBucket, post: TokenBucket, now: u64, wait_ms: u64) -> bool {
        &&& post.wf()
        &&& post.spec_quota() == pre.spec_quota()
        &&& post.spec_interval_ms() == pre.spec_interval_ms()
        &&& post.spec_refill_start_ms() == pre.refilled_start(now)
        &&& now >= post.spec_refill_start_ms()
        &&& wait_ms <= pre.spec_interval_ms()
        &&& (pre.refilled_tokens(now) > 0 ==> wait_ms == 0
            && post.spec_tokens() == pre.refilled_tokens(now) - 1)
        &&& (pre.refilled_tokens(now) == 0 ==> wait_ms > 0
            && post.spec_tokens() == 0
            && now + wait_ms == pre.refilled_start(now) + pre.spec_interval_ms())
    }

    /// One admission check at instant `now`. If a token is available the
    /// call is granted at once (`wait_ms == 0`) and a token is consumed;
    /// otherwise the caller is told how long to wait for the next token.
    pub fn acquire(&mut self, now: u64) -> (wait_ms: u64)
        requires
            old(self).wf(),
            now >= old(self).spec_refill_start_ms(),
        ensures
            TokenBucket::acquire_transition(*old(self), *final(self), now, wait_ms),
    {
        let elapsed: u64 = now - self.refill_start_ms;
        let earned: u64 = elapsed / self.interval_ms;
        proof {
            lemma_earned_time_bounds(elapsed as int, self.interval_ms as int);
        }
        if earned >= (1 - self.tokens) as u64 {
            self.tokens = 1;
            self.refill_start_ms = now;
        } else {
            self.tokens = self.tokens + earned as u32;
            self.refill_start_ms = self.refill_start_ms + earned * self.interval_ms;
        }
        if self.tokens > 0 {
            self.tokens = self.tokens - 1;
            0
        } else {
            let since: u64 = now - self.refill_start_ms;
            self.interval_ms - since
        }
    }
}

/// How much of an elapsed span whole refill intervals account for:
/// `(e / iv) * iv` never exceeds `e`, and what is left over is `e % iv`,
/// strictly less than one interval.
proof fn lemma_earned_time_bounds(e: int, iv: int)
    requires
        0 <= e,
        0 < iv,
    ensures
        0 <= (e / iv) * iv <= e,
        e - (e / iv) * iv == e % iv,
        0 <= e % iv < iv,
{
    vstd::arithmetic::div_mod::lemma_fundamental_div_mod(e, iv);
    vstd::arithmetic::mul::lemma_mul_is_commutative(e / iv, iv);
}

/// The milliseconds of admission credit a bucket holds at instant `now`:
/// a stored token is worth one refill interval, plus the time already
/// accrued toward the next token, the whole capped at one token's worth.
/// Every zero-wait admission costs one interval of credit, and waiting
/// restores credit no faster than real time passes — which is what bounds
/// admissions over any time window.
pub open spec fn bucket_credit_ms(b: TokenBucket, now: u64) -> int {
    let raw = b.spec_tokens() * b.spec_interval_ms() + (now - b.spec_refill_start_ms());
    if raw >= b.spec_interval_ms() {
        b.spec_interval_ms() as int
    } else {
        raw
    }
}

/// Credit is never negative and never exceeds one interval.
pub proof fn lemma_credit_bounds(b: TokenBucket, now: u64)
    requires
        b.wf(),
        now >= b.spec_refill_start_ms(),
    ensures
        0 <= bucket_credit_ms(b, now),
        bucket_credit_ms(b, now) <= b.spec_interval_ms(),
{
    vstd::arithmetic::mul::lemma_mul_nonnegative(b.spec_tokens() as int, b.spec_interval_ms() as int);
}

/// Waiting restores credit no faster than real time passes.
pub proof fn lemma_credit_grows_with_time(b: TokenBucket, t1: u64, t2: u64)
    requires
        b.wf(),
        b.spec_refill_start_ms() <= t1 <= t2,
    ensures
        bucket_credit_ms(b, t2) <= bucket_credit_ms(b, t1) + (t2 - t1),
{
}

/// A zero-wait admission happens exactly when a full interval of credit
/// is on hand, and it spends all of it: the granted caller leaves the
/// bucket with no token and nothing accrued.
pub proof fn lemma_admission_consumes_credit(pre: TokenBucket, post: TokenBucket, now: u64)
    requires
        pre.wf(),
        now >= pre.spec_refill_start_ms(),
        TokenBucket::acquire_transition(pre, post, now, 0),
    ensures
        bucket_credit_ms(pre, now) == pre.spec_interval_ms(),
        bucket_credit_ms(post, now) == 0,
        bucket_credit_ms(post, now) <= bucket_credit_ms(pre, now) - pre.spec_interval_ms(),
{
    let d = pre.spec_interval_ms() as int;
    let tokens = pre.spec_tokens() as int;
    let e = now - pre.spec_refill_start_ms();
    let earned = e / d;
    lemma_earned_time_bounds(e, d);
    // Zero wait means the token was on hand after the refill reckoning,
    // which with a one-token store means the refill capped.
    assert(pre.refilled_tokens(now) > 0);
    assert(tokens + earned >= 1);
    assert(post.spec_tokens() == 0);
    assert(post.spec_refill_start_ms() == now);
    assert(tokens * d + earned * d == (tokens + earned) * d) by (nonlinear_arith);
    assert((tokens + earned) * d >= d) by (nonlinear_arith)
        requires
            tokens + earned >= 1,
            d >= 1,
    ;
    assert(tokens * d + e >= d);
}

/// The credit ledger of the first `j` admissions of a chain at
/// non-decreasing times: every admission costs one interval and time
/// restores credit at most one-for-one.
proof fn lemma_window_chain(states: Seq<TokenBucket>, times: Seq<u64>, j: int)
    requires
        states.len() >= 2,
        times.len() == states.len() - 1,
        states[0].wf(),
        times[0] >= states[0].spec_refill_start_ms(),
        forall|i: int| 0 <= i < times.len() - 1 ==> #[trigger] times[i] <= times[i + 1],
        forall|i: int| 0 <= i < times.len() ==> TokenBucket::acquire_transition(
            #[trigger] states[i],
            states[i + 1],
            times[i],
            0,
        ),
        1 <= j <= times.len(),
    ensures
        bucket_credit_ms(states[j], times[j - 1]) <= bucket_credit_ms(states[0], times[0]) + (
        times[j - 1] - times[0]) - j * states[0].spec_interval_ms(),
        states[j].wf(),
        times[j - 1] >= states[j].spec_refill_start_ms(),
        states[j].spec_interval_ms() == states[0].spec_interval_ms(),
    decreases j,
{
    let d = states[0].spec_interval_ms() as int;
    if j == 1 {
        assert(TokenBucket::acquire_transition(states[0], states[1], times[0], 0));
        lemma_admission_consumes_credit(states[0], states[1], times[0]);
        assert(1 * d == d) by (nonlinear_arith);
    } else {
        lemma_window_chain(states, times, j - 1);
        let mid = states[j - 1];
        assert(times[j - 2] <= times[j - 1]);
        lemma_credit_grows_with_time(mid, times[j - 2], times[j - 1]);
        assert(TokenBucket::acquire_transition(states[j - 1], states[j], times[j - 1], 0));
        lemma_admission_consumes_credit(mid, states[j], times[j - 1]);
        assert((j - 1) * d + d == j * d) by (nonlinear_arith);
    }
}

/// Quota respect over a time window, in credit terms: for any chain of
/// zero-wait admissions from one bucket at non-decreasing instants, the
/// number of admissions times the refill interval never exceeds one
/// interval of starting credit plus the window's length in milliseconds.
pub proof fn lemma_window_quota_respected(states: Seq<TokenBucket>, times: Seq<u64>)
    requires
        states.len() >= 2,
        times.len() == states.len() - 1,
        states[0].wf(),
        times[0] >= states[0].spec_refill_start_ms(),
        forall|i: int| 0 <= i < times.len() - 1 ==> #[trigger] times[i] <= times[i + 1],
        forall|i: int| 0 <= i < times.len() ==> TokenBucket::acquire_transition(
            #[trigger] states[i],
            states[i + 1],
            times[i],
            0,
        ),
    ensures
        times.len() * states[0].spec_interval_ms() <= states[0].spec_interval_ms() + (
        times.last() - times[0]),
{
    let k = times.len() as int;
    lemma_window_chain(states, times, k);
    lemma_credit_bounds(states[0], times[0]);
    lemma_credit_bounds(states[k as int], times[k - 1]);
    assert(states.last() == states[k as int]);
    assert(times.last() == times[k - 1]);
}

/// Each tier's refill interval divides one minute exactly.
pub proof fn lemma_tier_interval_divides_minute(t: RateLimitingTier)
    ensures
        (60000 as int / t.quota_spec() as int) * t.quota_spec() == 60000,
{
    match t {
        RateLimitingTier::Tier1 => assert((60000 as int / 1) * 1 == 60000),
        RateLimitingTier::Tier2 => assert((60000 as int / 20) * 20 == 60000),
        RateLimitingTier::Tier3 => assert((60000 as int / 50) * 50 == 60000),
        RateLimitingTier::Tier4 => assert((60000 as int / 100) * 100 == 60000),
    }
}

/// Quota respect: a bucket whose refill interval divides one minute —
/// true of every tier — grants no more than its quota of calls in any
/// rolling 60-second window, however large the burst of waiting callers.
pub proof fn lemma_minute_window_admits_at_most_quota(states: Seq<TokenBucket>, times: Seq<u64>)
    requires
        states.len() >= 2,
        times.len() == states.len() - 1,
        states[0].wf(),
        times[0] >= states[0].spec_refill_start_ms(),
        states[0].spec_interval_ms() * states[0].spec_quota() == 60000,
        forall|i: int| 0 <= i < times.len() - 1 ==> #[trigger] times[i] <= times[i + 1],
        forall|i: int| 0 <= i < times.len() ==> TokenBucket::acquire_transition(
            #[trigger] states[i],
            states[i + 1],
            times[i],
            0,
        ),
        times.last() - times[0] < 60000,
    ensures
        times.len() <= states[0].spec_quota(),
{
    lemma_window_quota_respected(states, times);
    let k = times.len() as int;
    let d = states[0].spec_interval_ms() as int;
    let q = states[0].spec_quota() as int;
    assert(k * d <= d + (times.last() - times[0]));
    assert(d + (times.last() - times[0]) < d + d * q);
    assert(d + d * q == (q + 1) * d) by (nonlinear_arith);
    assert(k < q + 1) by (nonlinear_arith)
        requires
            k * d < (q + 1) * d,
            d >= 1,
    ;
}

/// The shared server-driven cooldown for one endpoint: at most one active
/// deadline at a time. While a deadline lies in the future every caller
/// must wait for it; once it has passed the slot counts as clear and can
/// be armed again.
#[derive(Clone, Copy, Debug, PartialEq, Eq, Structural)]
pub struct RetryAfterGate {
    pub deadline_ms: Option<u64>,
}

impl RetryAfterGate {
    /// A cooldown is active while its deadline lies strictly in the future.
    pub open spec fn is_armed(self, now: u64) -> bool {
        match self.deadline_ms {
            Some(d) => now < d,
            None => false,
        }
    }

    /// What arming does: the first reported deadline wins. While a cooldown
    /// is active a new request is dropped — the deadline is neither
    /// extended nor shortened; on a clear (or expired) gate the deadline
    /// becomes `now + duration_ms`.
    pub open spec fn arm_spec(self, now: u64, duration_ms: u64) -> RetryAfterGate {
        if self.is_armed(now) {
            self
        } else {
            RetryAfterGate { deadline_ms: Some((now + duration_ms) as u64) }
        }
    }

    /// How long a caller at instant `now` must still wait before the cooldown
    /// lets it pass: zero when no cooldown is active.
    pub open spec fn remaining_spec(self, now: u64) -> u64 {
        match self.deadline_ms {
            Some(d) => if now < d { (d - now) as u64 } else { 0 },
            None => 0,
        }
    }

    /// A gate starts with no active cooldown.
    pub fn new() -> (g: RetryAfterGate)
        ensures
            g.deadline_ms is None,
    {
        RetryAfterGate { deadline_ms: None }
    }

    /// Arm a cooldown of `duration_ms` observed at instant `now`. While a
    /// cooldown is already active the report is dropped whatever its
    /// duration; only a report that lands on a clear gate computes a
    /// deadline, so only that case needs the no-overflow bound.
    pub fn arm(&mut self, now: u64, duration_ms: u64)
        requires
            old(self).is_armed(now) || now + duration_ms <= u64::MAX,
        ensures
            *final(self) == old(self).arm_spec(now, duration_ms),
    {
        if let Some(d) = self.deadline_ms {
            if now < d {
                return ;
            }
        }
        self.deadline_ms = Some(now + duration_ms);
    }

    /// The wait a caller at instant `now` still owes the cooldown; positive
    /// exactly while a cooldown is active.
    pub fn wait_remaining(&self, now: u64) -> (wait_ms: u64)
        ensures
            wait_ms == self.remaining_spec(now),
            wait_ms > 0 <==> self.is_armed(now),
    {
        match self.deadline_ms {
            Some(d) => if now < d {
                d - now
            } else {
                0
            },
            None => 0,
        }
    }
}

/// Gate enforcement: arm a clear gate at `now` for `duration_ms`, and at
/// any instant before `now + duration_ms` the remaining wait is positive —
/// no caller slips through early — and waiting it out lands exactly on
/// the armed deadline.
pub proof fn lemma_gate_enforcement(g: RetryAfterGate, now: u64, duration_ms: u64, later: u64)
    requires
        !g.is_armed(now),
        now + duration_ms <= u64::MAX,
        now <= later < now + duration_ms,
    ensures
        g.arm_spec(now, duration_ms).remaining_spec(later) > 0,
        later + g.arm_spec(now, duration_ms).remaining_spec(later) == now + duration_ms,
{
}

/// Gate first-wins: while a cooldown armed at `now1` for `d1` is still
/// active, arming again with any other duration changes nothing — the
/// original deadline is neither extended nor shortened.
pub proof fn lemma_gate_first_wins(g: RetryAfterGate, now1: u64, d1: u64, now2: u64, d2: u64)
    requires
        !g.is_armed(now1),
        now1 + d1 <= u64::MAX,
        now1 <= now2 < now1 + d1,
    ensures
        g.arm_spec(now1, d1).arm_spec(now2, d2) == g.arm_spec(now1, d1),
{
}

/// Gate expiry: once an armed cooldown's deadline has passed, the slot is
/// clear again — it delays nobody and a later report arms a fresh cooldown.
pub proof fn lemma_gate_rearms_after_expiry(g: RetryAfterGate, now1: u64, d1: u64, now2: u64, d2: u64)
    requires
        !g.is_armed(now1),
        now1 + d1 <= u64::MAX,
        now2 >= now1 + d1,
        now2 + d2 <= u64::MAX,
    ensures
        g.arm_spec(now1, d1).remaining_spec(now2) == 0,
        g.arm_spec(now1, d1).arm_spec(now2, d2).deadline_ms == Some((now2 + d2) as u64),
{
}


/// Character-for-character string equality, so that endpoint names can be
/// looked up against the fixed registry.
fn str_eq(a: &str, b: &str) -> (r: bool)
    ensures
        r == (a@ == b@),
{
    let a_len = a.unicode_len();
    let b_len = b.unicode_len();
    if a_len != b_len {
        return false;
    }
    let mut i: usize = 0;
    while i < a_len
        invariant
            i <= a_len,
            a_len == a@.len(),
            a_len == b@.len(),
            forall|j: int| 0 <= j < i ==> a@[j] == b@[j],
        decreases a_len - i,
    {
        if a.get_char(i) != b.get_char(i) {
            return false;
        }
        i = i + 1;
    }
    proof {
        assert(a@ =~= b@);
    }
    true
}

/// The fixed endpoint registry: which tier, if any, throttles an endpoint.
/// An endpoint absent from this table is unthrottled by this layer.
pub open spec fn tier_for_spec(endpoint: Seq<char>) -> Option<RateLimitingTier> {
    if endpoint == "usergroups.list"@ {
        Some(RateLimitingTier::Tier2)
    } else if endpoint == "usergroups.users.list"@ {
        Some(RateLimitingTier::Tier2)
    } else if endpoint == "users.info"@ {
        Some(RateLimitingTier::Tier4)
    } else {
        None
    }
}

/// Which registry slot an endpoint name resolves to.
#[derive(Clone, Copy, Debug, PartialEq, Eq, Structural)]
pub enum RegisteredEndpoint {
    UsergroupsList,
    UsergroupsUsersList,
    UsersInfo,
}

/// The slot, if any, the registry holds for an endpoint name.
pub open spec fn slot_for_spec(endpoint: Seq<char>) -> Option<RegisteredEndpoint> {
    if endpoint == "usergroups.list"@ {
        Some(RegisteredEndpoint::UsergroupsList)
    } else if endpoint == "usergroups.users.list"@ {
        Some(RegisteredEndpoint::UsergroupsUsersList)
    } else if endpoint == "users.info"@ {
        Some(RegisteredEndpoint::UsersInfo)
    } else {
        None
    }
}

impl RegisteredEndpoint {
    /// The tier the registry assigns to this slot.
    pub open spec fn tier_spec(self) -> RateLimitingTier {
        match self {
            RegisteredEndpoint::UsergroupsList => RateLimitingTier::Tier2,
            RegisteredEndpoint::UsergroupsUsersList => RateLimitingTier::Tier2,
            RegisteredEndpoint::UsersInfo => RateLimitingTier::Tier4,
        }
    }
}

/// Look an endpoint name up in the fixed registry.
pub fn tier_for(endpoint: &str) -> (t: Option<RateLimitingTier>)
    ensures
        t == tier_for_spec(endpoint@),
{
    if str_eq(endpoint, "usergroups.list") {
        Some(RateLimitingTier::Tier2)
    } else if str_eq(endpoint, "usergroups.users.list") {
        Some(RateLimitingTier::Tier2)
    } else if str_eq(endpoint, "users.info") {
        Some(RateLimitingTier::Tier4)
    } else {
        None
    }
}

fn slot_for(endpoint: &str) -> (e: Option<RegisteredEndpoint>)
    ensures
        e == slot_for_spec(endpoint@),
{
    if str_eq(endpoint, "usergroups.list") {
        Some(RegisteredEndpoint::UsergroupsList)
    } else if str_eq(endpoint, "usergroups.users.list") {
        Some(RegisteredEndpoint::UsergroupsUsersList)
    } else if str_eq(endpoint, "users.info") {
        Some(RegisteredEndpoint::UsersInfo)
    } else {
        None
    }
}

/// An endpoint's local throttle paired with its shared cooldown gate.
pub struct RateLimiterWithRetryAfterHandling {
    pub rate_limiter: TokenBucket,
    pub retry_after: RetryAfterGate,
}

impl RateLimiterWithRetryAfterHandling {
    pub open spec fn wf(self) -> bool {
        self.rate_limiter.wf()
    }

    /// Refill reckoning does not postdate `now` (time is monotonic).
    pub open spec fn ready_by(self, now_ms: u64) -> bool {
        now_ms >= self.rate_limiter.spec_refill_start_ms()
    }

    /// A fresh pair: a bucket metering the tier's rate, its one token on
    /// hand, and a clear gate.
    pub fn new(tier: RateLimitingTier, now_ms: u64) -> (s: Self)
        ensures
            s.wf(),
            s.ready_by(now_ms),
            s.rate_limiter.spec_quota() == tier.quota_spec(),
            s.rate_limiter.spec_tokens() == 1,
            s.retry_after.deadline_ms is None,
    {
        let quota = tier.quota();
        RateLimiterWithRetryAfterHandling {
            rate_limiter: TokenBucket::new(quota, now_ms),
            retry_after: RetryAfterGate::new(),
        }
    }
}

/// One rate-limiter state per registered endpoint, constructed once and
/// consulted for every dispatch attempt.
pub struct RateLimiter {
    pub usergroups_list: RateLimiterWithRetryAfterHandling,
    pub usergroups_users_list: RateLimiterWithRetryAfterHandling,
    pub users_info: RateLimiterWithRetryAfterHandling,
}

impl RateLimiter {
    /// The state held for a registry slot.
    pub open spec fn spec_state(self, e: RegisteredEndpoint) -> RateLimiterWithRetryAfterHandling {
        match e {
            RegisteredEndpoint::UsergroupsList => self.usergroups_list,
            RegisteredEndpoint::UsergroupsUsersList => self.usergroups_users_list,
            RegisteredEndpoint::UsersInfo => self.users_info,
        }
    }

    pub open spec fn wf(self) -> bool {
        forall|e: RegisteredEndpoint| (#[trigger] self.spec_state(e)).wf()
    }

    pub open spec fn ready_by(self, now_ms: u64) -> bool {
        forall|e: RegisteredEndpoint| (#[trigger] self.spec_state(e)).ready_by(now_ms)
    }

    /// Each registered endpoint starts with a bucket metering its tier's
    /// rate, the first call free to proceed, and a clear gate.
    pub fn new(now_ms: u64) -> (r: RateLimiter)
        ensures
            r.wf(),
            r.ready_by(now_ms),
            forall|e: RegisteredEndpoint| {
                &&& (#[trigger] r.spec_state(e)).rate_limiter.spec_quota() == e.tier_spec().quota_spec()
                &&& r.spec_state(e).rate_limiter.spec_tokens() == 1
                &&& r.spec_state(e).retry_after.deadline_ms is None
            },
    {
        RateLimiter {
            usergroups_list: RateLimiterWithRetryAfterHandling::new(RateLimitingTier::Tier2, now_ms),
            usergroups_users_list: RateLimiterWithRetryAfterHandling::new(RateLimitingTier::Tier2, now_ms),
            users_info: RateLimiterWithRetryAfterHandling::new(RateLimitingTier::Tier4, now_ms),
        }
    }

    /// One admission check against an endpoint's token bucket.
    /// An endpoint absent from the registry is never delayed: zero wait and
    /// no state changes.
    pub fn acquire(&mut self, endpoint: &str, now_ms: u64) -> (wait_ms: u64)
        requires
            old(self).wf(),
            old(self).ready_by(now_ms),
        ensures
            final(self).wf(),
            final(self).ready_by(now_ms),
            match slot_for_spec(endpoint@) {
                None => wait_ms == 0 && *final(self) == *old(self),
                Some(e) => {
                    &&& TokenBucket::acquire_transition(
                        old(self).spec_state(e).rate_limiter,
                        final(self).spec_state(e).rate_limiter,
                        now_ms,
                        wait_ms,
                    )
                    &&& final(self).spec_state(e).retry_after == old(self).spec_state(e).retry_after
                    &&& forall|e2: RegisteredEndpoint| e2 != e
                        ==> #[trigger] final(self).spec_state(e2) == old(self).spec_state(e2)
                },
            },
    {
        match slot_for(endpoint) {
            None => 0,
            Some(RegisteredEndpoint::UsergroupsList) => {
                assert(old(self).spec_state(RegisteredEndpoint::UsergroupsList).wf());
                self.usergroups_list.rate_limiter.acquire(now_ms)
            },
            Some(RegisteredEndpoint::UsergroupsUsersList) => {
                assert(old(self).spec_state(RegisteredEndpoint::UsergroupsUsersList).wf());
                self.usergroups_users_list.rate_limiter.acquire(now_ms)
            },
            Some(RegisteredEndpoint::UsersInfo) => {
                assert(old(self).spec_state(RegisteredEndpoint::UsersInfo).wf());
                self.users_info.rate_limiter.acquire(now_ms)
            },
        }
    }

    /// One admission check with bounded random jitter folded in: the
    /// caller draws `jitter_ms` (at most [`JITTER_MAX_MS`]) and, whenever
    /// the bucket imposes a delay, the jitter is added to it so that many
    /// concurrent waiters release at slightly different times. An
    /// immediate grant and an unregistered endpoint still wait zero.
    pub fn acquire_with_jitter(&mut self, endpoint: &str, now_ms: u64, jitter_ms: u64) -> (wait_ms: u64)
        requires
            old(self).wf(),
            old(self).ready_by(now_ms),
            jitter_ms <= JITTER_MAX_MS,
        ensures
            final(self).wf(),
            final(self).ready_by(now_ms),
            match slot_for_spec(endpoint@) {
                None => wait_ms == 0 && *final(self) == *old(self),
                Some(e) => exists|bucket_wait: u64| {
                    &&& #[trigger] TokenBucket::acquire_transition(
                        old(self).spec_state(e).rate_limiter,
                        final(self).spec_state(e).rate_limiter,
                        now_ms,
                        bucket_wait,
                    )
                    &&& wait_ms == if bucket_wait == 0 {
                        0u64
                    } else {
                        (bucket_wait + jitter_ms) as u64
                    }
                    &&& final(self).spec_state(e).retry_after == old(self).spec_state(e).retry_after
                    &&& forall|e2: RegisteredEndpoint| e2 != e
                        ==> #[trigger] final(self).spec_state(e2) == old(self).spec_state(e2)
                },
            },
    {
        let bucket_wait = self.acquire(endpoint, now_ms);
        if bucket_wait == 0 {
            0
        } else {
            proof {
                let e = slot_for_spec(endpoint@)->0;
                assert(old(self).spec_state(e).wf());
            }
            bucket_wait + jitter_ms
        }
    }

    /// The wait an endpoint's cooldown gate still demands at `now_ms`.
    /// An endpoint absent from the registry is never delayed.
    pub fn gate_wait(&self, endpoint: &str, now_ms: u64) -> (wait_ms: u64)
        ensures
            match slot_for_spec(endpoint@) {
                None => wait_ms == 0,
                Some(e) => wait_ms == self.spec_state(e).retry_after.remaining_spec(now_ms),
            },
    {
        match slot_for(endpoint) {
            None => 0,
            Some(RegisteredEndpoint::UsergroupsList) => self.usergroups_list.retry_after.wait_remaining(now_ms),
            Some(RegisteredEndpoint::UsergroupsUsersList) => self.usergroups_users_list.retry_after.wait_remaining(
                now_ms,
            ),
            Some(RegisteredEndpoint::UsersInfo) => self.users_info.retry_after.wait_remaining(now_ms),
        }
    }

    /// Arm an endpoint's cooldown gate with a server-reported pause; first
    /// report wins while one is active. An endpoint absent from the
    /// registry has no gate, so nothing changes.
    pub fn set_retry_after(&mut self, endpoint: &str, now_ms: u64, duration_ms: u64)
        requires
            match slot_for_spec(endpoint@) {
                None => true,
                Some(e) => old(self).spec_state(e).retry_after.is_armed(now_ms) || now_ms
                    + duration_ms <= u64::MAX,
            },
        ensures
            match slot_for_spec(endpoint@) {
                None => *final(self) == *old(self),
                Some(e) => {
                    &&& final(self).spec_state(e).retry_after == old(self).spec_state(
                        e,
                    ).retry_after.arm_spec(now_ms, duration_ms)
                    &&& final(self).spec_state(e).rate_limiter == old(self).spec_state(e).rate_limiter
                    &&& forall|e2: RegisteredEndpoint| e2 != e
                        ==> #[trigger] final(self).spec_state(e2) == old(self).spec_state(e2)
                },
            },
            forall|e: RegisteredEndpoint| (#[trigger] final(self).spec_state(e)).rate_limiter
                == old(self).spec_state(e).rate_limiter,
    {
        match slot_for(endpoint) {
            None => (),
            Some(RegisteredEndpoint::UsergroupsList) => self.usergroups_list.retry_after.arm(
                now_ms,
                duration_ms,
            ),
            Some(RegisteredEndpoint::UsergroupsUsersList) => self.usergroups_users_list.retry_after.arm(
                now_ms,
                duration_ms,
            ),
            Some(RegisteredEndpoint::UsersInfo) => self.users_info.retry_after.arm(now_ms, duration_ms),
        }
    }
}

/// Unregistered-endpoint bypass: the registry's two views agree on which
/// endpoints it knows, so an endpoint without a tier has no limiter slot
/// either — and for such an endpoint `acquire`, `gate_wait` and
/// `set_retry_after` promise zero wait and untouched state, whatever the
/// limiter holds and however often they are called.
pub proof fn lemma_unregistered_endpoint_bypass(endpoint: Seq<char>)
    ensures
        tier_for_spec(endpoint) is None <==> slot_for_spec(endpoint) is None,
{
}


/// The most network sends one logical call may make before it gives up.
pub const ATTEMPT_CEILING: usize = 5;

/// The bound on the random jitter added to a bucket wait.
pub const JITTER_MAX_MS: u64 = 200;

pub open spec fn is_ascii_digit(b: u8) -> bool {
    48 <= b <= 57
}

pub open spec fn all_ascii_digits(s: Seq<u8>) -> bool {
    forall|i: int| 0 <= i < s.len() ==> is_ascii_digit(#[trigger] s[i])
}

/// The number a string of decimal digits denotes.
pub open spec fn digits_value(s: Seq<u8>) -> nat
    decreases s.len(),
{
    if s.len() == 0 {
        0
    } else {
        digits_value(s.drop_last()) * 10 + (s.last() - 48) as nat
    }
}

/// A header value with one optional leading plus sign stripped.
pub open spec fn retry_after_digits(s: Seq<u8>) -> Seq<u8> {
    if s.len() > 0 && s[0] == 43 {
        s.subrange(1, s.len() as int)
    } else {
        s
    }
}

/// What a `Retry-After` header value means: after an optional leading plus
/// sign, a non-empty run of decimal digits denoting a non-negative count
/// of seconds (bounded only by what a 64-bit count can hold); anything
/// else carries no usable retry instruction.
pub open spec fn parse_retry_after_spec(s: Seq<u8>) -> Option<u64> {
    let digits = retry_after_digits(s);
    if digits.len() > 0 && all_ascii_digits(digits) && digits_value(digits) <= u64::MAX {
        Some(digits_value(digits) as u64)
    } else {
        None
    }
}

/// Extending a digit string never shrinks its value, so a prefix already
/// over a bound dooms the whole string.
proof fn lemma_digits_prefix_le(s: Seq<u8>, i: int)
    requires
        0 <= i <= s.len(),
    ensures
        digits_value(s.subrange(0, i)) <= digits_value(s),
    decreases s.len() - i,
{
    if i == s.len() {
        assert(s.subrange(0, i) =~= s);
    } else {
        assert(s.subrange(0, i + 1).drop_last() =~= s.subrange(0, i));
        assert(s.subrange(0, i + 1).last() == s[i]);
        assert(digits_value(s.subrange(0, i)) <= digits_value(s.subrange(0, i + 1)));
        lemma_digits_prefix_le(s, i + 1);
    }
}

/// Parse a `Retry-After` header value as a non-negative count of seconds.
pub fn parse_retry_after(header: &[u8]) -> (r: Option<u64>)
    ensures
        r == parse_retry_after_spec(header@),
{
    let len = header.len();
    let start: usize = if len > 0 && header[0] == 43 {
        1
    } else {
        0
    };
    let ghost digits = retry_after_digits(header@);
    if start >= len {
        return None;
    }
    let mut acc: u64 = 0;
    let mut i: usize = start;
    while i < len
        invariant
            start <= i <= len,
            len == header@.len(),
            start == if len > 0 && header@[0] == 43 { 1int } else { 0int },
            digits == retry_after_digits(header@),
            digits.len() == len - start,
            forall|j: int| 0 <= j < digits.len() ==> digits[j] == header@[j + start],
            acc as nat == digits_value(digits.subrange(0, i - start)),
            forall|j: int| 0 <= j < i - start ==> is_ascii_digit(#[trigger] digits[j]),
        decreases len - i,
    {
        let b = header[i];
        if b < 48 || b > 57 {
            proof {
                assert(!is_ascii_digit(digits[i - start]));
            }
            return None;
        }
        let d: u64 = (b - 48) as u64;
        proof {
            assert(digits.subrange(0, i - start + 1).drop_last() =~= digits.subrange(0, i - start));
            assert(digits.subrange(0, i - start + 1).last() == digits[i - start]);
            let m = (u64::MAX - d) as int;
            assert(m == 10 * (m / 10) + m % 10);
            assert(0 <= m % 10 < 10);
        }
        if acc > (u64::MAX - d) / 10 {
            // One more digit already pushes the value past what a 64-bit
            // count can hold, and further digits only grow it.
            proof {
                lemma_digits_prefix_le(digits, i - start + 1);
            }
            return None;
        }
        acc = acc * 10 + d;
        i = i + 1;
    }
    proof {
        assert(digits.subrange(0, (len - start) as int) =~= digits);
    }
    Some(acc)
}

/// What the dispatcher does with one HTTP response.
#[derive(Clone, Copy, Debug, PartialEq, Eq, Structural)]
pub enum ResponseDirective {
    /// A 429 with a usable `Retry-After` on a registered endpoint: arm the
    /// endpoint's gate for this many seconds and retry.
    RetryAfter { seconds: u64 },
    /// A failure this layer does not retry: surface the status.
    Fail { status: u16 },
    /// A success status: decode the body as the response envelope.
    ParseBody,
}

/// How one response status is interpreted. Only a 429 that both carries a
/// parseable `Retry-After` and hits a registered endpoint is retried; a 429
/// whose retry instruction cannot be interpreted is a plain failure, as is
/// every other non-success status (the 4xx and 5xx ranges).
pub open spec fn directive_spec(registered: bool, status: u16, retry_after: Option<Seq<u8>>) -> ResponseDirective {
    if status == 429 {
        match retry_after {
            Some(h) => match parse_retry_after_spec(h) {
                Some(seconds) => if registered {
                    ResponseDirective::RetryAfter { seconds }
                } else {
                    ResponseDirective::Fail { status: 429 }
                },
                None => ResponseDirective::Fail { status: 429 },
            },
            None => ResponseDirective::Fail { status: 429 },
        }
    } else if 400 <= status && status < 600 {
        ResponseDirective::Fail { status }
    } else {
        ResponseDirective::ParseBody
    }
}

pub open spec fn header_view(h: Option<&[u8]>) -> Option<Seq<u8>> {
    match h {
        Some(b) => Some(b@),
        None => None,
    }
}

/// Interpret one response's status and `Retry-After` header.
pub fn handle_status(registered: bool, status: u16, retry_after: Option<&[u8]>) -> (d: ResponseDirective)
    ensures
        d == directive_spec(registered, status, header_view(retry_after)),
{
    if status == 429 {
        match retry_after {
            Some(h) => match parse_retry_after(h) {
                Some(seconds) => if registered {
                    ResponseDirective::RetryAfter { seconds }
                } else {
                    ResponseDirective::Fail { status: 429 }
                },
                None => ResponseDirective::Fail { status: 429 },
            },
            None => ResponseDirective::Fail { status: 429 },
        }
    } else if 400 <= status && status < 600 {
        ResponseDirective::Fail { status }
    } else {
        ResponseDirective::ParseBody
    }
}

/// What the transport reports for one attempted send.
#[derive(Clone, Debug)]
pub enum ScriptedResult {
    /// The send itself failed; no response arrived.
    NoResponse,
    /// A response with this status and, possibly, a `Retry-After` header.
    Response { status: u16, retry_after: Option<Vec<u8>> },
}

/// How one logical call resolves.
#[derive(Clone, Copy, Debug, PartialEq, Eq, Structural)]
pub enum DispatchVerdict {
    Failed(Error),
    /// The response to send number `send_index` (counted from zero) carried
    /// a success status; its body is the envelope to decode.
    Delivered { send_index: usize },
}

pub open spec fn scripted_header_view(r: ScriptedResult) -> Option<Seq<u8>> {
    match r {
        ScriptedResult::NoResponse => None,
        ScriptedResult::Response { status, retry_after } => match retry_after {
            Some(v) => Some(v@),
            None => None,
        },
    }
}

/// The attempt loop, one attempt at a time: past the ceiling the call is
/// exhausted; a failed send or a non-retried status fails the call; a
/// retried 429 moves to the next attempt; a success status delivers the
/// response. The second component counts network sends.
pub open spec fn run_dispatch(registered: bool, script: Seq<ScriptedResult>, attempt: nat, sends: nat) -> (
    DispatchVerdict,
    nat,
)
    decreases ATTEMPT_CEILING + 1 - attempt,
{
    if attempt > ATTEMPT_CEILING {
        (DispatchVerdict::Failed(Error::ExhaustedRateLimits), sends)
    } else {
        match script[sends as int] {
            ScriptedResult::NoResponse => (DispatchVerdict::Failed(Error::Http(HttpFailure::NoResponse)), sends + 1),
            ScriptedResult::Response { status, retry_after } => match directive_spec(
                registered,
                status,
                scripted_header_view(script[sends as int]),
            ) {
                ResponseDirective::RetryAfter { seconds } => run_dispatch(
                    registered,
                    script,
                    attempt + 1,
                    sends + 1,
                ),
                ResponseDirective::Fail { status } => (
                    DispatchVerdict::Failed(Error::Http(HttpFailure::Status(status))),
                    sends + 1,
                ),
                ResponseDirective::ParseBody => (DispatchVerdict::Delivered { send_index: sends as usize }, sends + 1),
            },
        }
    }
}

/// How one logical call resolves against a transport script: an encoding
/// failure is terminal before any send; otherwise the attempt loop runs.
pub open spec fn dispatch_outcome(registered: bool, encoded_ok: bool, script: Seq<ScriptedResult>) -> (
    DispatchVerdict,
    nat,
) {
    if !encoded_ok {
        (DispatchVerdict::Failed(Error::RequestEncoding), 0)
    } else {
        run_dispatch(registered, script, 1, 0)
    }
}

/// Drive one logical call against a scripted transport, exactly as the
/// live dispatch loop treats statuses and retry instructions. The script
/// holds what each successive send would get back; a script at least as
/// long as the attempt ceiling always suffices, since no call sends more
/// often than that.
pub fn dispatch_script(registered: bool, encoded_ok: bool, script: &Vec<ScriptedResult>) -> (r: (
    DispatchVerdict,
    usize,
))
    requires
        script@.len() >= ATTEMPT_CEILING,
    ensures
        r.0 == dispatch_outcome(registered, encoded_ok, script@).0,
        r.1 == dispatch_outcome(registered, encoded_ok, script@).1,
        r.1 <= ATTEMPT_CEILING,
{
    if !encoded_ok {
        return (DispatchVerdict::Failed(Error::RequestEncoding), 0);
    }
    let mut attempt: usize = 1;
    let mut sends: usize = 0;
    loop
        invariant
            encoded_ok,
            script@.len() >= ATTEMPT_CEILING,
            1 <= attempt <= ATTEMPT_CEILING + 1,
            sends == attempt - 1,
            run_dispatch(registered, script@, attempt as nat, sends as nat) == run_dispatch(
                registered,
                script@,
                1,
                0,
            ),
        decreases ATTEMPT_CEILING + 1 - attempt,
    {
        if attempt > ATTEMPT_CEILING {
            return (DispatchVerdict::Failed(Error::ExhaustedRateLimits), sends);
        }
        match &script[sends] {
            ScriptedResult::NoResponse => {
                return (DispatchVerdict::Failed(Error::Http(HttpFailure::NoResponse)), sends + 1);
            },
            ScriptedResult::Response { status, retry_after } => {
                let header: Option<&[u8]> = match retry_after {
                    Some(v) => Some(v.as_slice()),
                    None => None,
                };
                match handle_status(registered, *status, header) {
                    ResponseDirective::RetryAfter { seconds: _ } => {
                        attempt = attempt + 1;
                        sends = sends + 1;
                    },
                    ResponseDirective::Fail { status } => {
                        return (DispatchVerdict::Failed(Error::Http(HttpFailure::Status(status))), sends + 1);
                    },
                    ResponseDirective::ParseBody => {
                        return (DispatchVerdict::Delivered { send_index: sends }, sends + 1);
                    },
                }
            },
        }
    }
}


/// What one HTTP attempt sends, as plain values; the shell performs this
/// request verbatim against the transport.
pub struct HttpRequestParts {
    pub url: String,
    pub content_type: String,
    pub accept: String,
    pub authorization: Option<String>,
    pub body: String,
}

/// Build the one request shape every attempt sends: the fixed base URL
/// followed by the endpoint name, form-urlencoded content type, JSON
/// accept, a bearer header exactly when the client holds a token, and the
/// body exactly as it was encoded once — every retry resends the same
/// bytes.
pub fn build_request(endpoint: &str, auth_token: Option<&str>, body: &str) -> (r: HttpRequestParts)
    ensures
        r.url@ == "https://slack.com/api/"@ + endpoint@,
        r.content_type@ == "application/x-www-form-urlencoded"@,
        r.accept@ == "application/json"@,
        match auth_token {
            Some(token) => r.authorization matches Some(h) && h@ == "Bearer "@ + token@,
            None => r.authorization is None,
        },
        r.body@ == body@,
{
    HttpRequestParts {
        url: String::from_str("https://slack.com/api/").concat(endpoint),
        content_type: String::from_str("application/x-www-form-urlencoded"),
        accept: String::from_str("application/json"),
        authorization: match auth_token {
            Some(token) => Some(String::from_str("Bearer ").concat(token)),
            None => None,
        },
        body: String::from_str(body),
    }
}

/// A response that the dispatcher retries when the endpoint is registered:
/// a 429 whose `Retry-After` carries a usable number of seconds.
pub open spec fn is_retriable_rate_limit(r: ScriptedResult) -> bool {
    match r {
        ScriptedResult::NoResponse => false,
        ScriptedResult::Response { status, retry_after } => status == 429 && (match retry_after {
            Some(v) => parse_retry_after_spec(v@) is Some,
            None => false,
        }),
    }
}

/// A 429 whose retry instruction cannot be interpreted: the header is
/// missing or does not parse.
pub open spec fn is_uninterpretable_rate_limit(r: ScriptedResult) -> bool {
    match r {
        ScriptedResult::NoResponse => false,
        ScriptedResult::Response { status, retry_after } => status == 429 && (match retry_after {
            Some(v) => parse_retry_after_spec(v@) is None,
            None => true,
        }),
    }
}

/// Retry ceiling: a registered endpoint whose server answers every send
/// with a retriable 429 exhausts the call after exactly the attempt
/// ceiling of sends, never more.
pub proof fn lemma_retry_ceiling(script: Seq<ScriptedResult>)
    requires
        script.len() >= ATTEMPT_CEILING,
        forall|i: int| 0 <= i < ATTEMPT_CEILING ==> is_retriable_rate_limit(#[trigger] script[i]),
    ensures
        dispatch_outcome(true, true, script) == (
            DispatchVerdict::Failed(Error::ExhaustedRateLimits),
            ATTEMPT_CEILING as nat,
        ),
{
    assert(run_dispatch(true, script, 6, 5) == (
        DispatchVerdict::Failed(Error::ExhaustedRateLimits),
        5 as nat,
    ));
    assert(is_retriable_rate_limit(script[4]) && run_dispatch(true, script, 5, 4) == run_dispatch(
        true,
        script,
        6,
        5,
    ));
    assert(is_retriable_rate_limit(script[3]) && run_dispatch(true, script, 4, 3) == run_dispatch(
        true,
        script,
        5,
        4,
    ));
    assert(is_retriable_rate_limit(script[2]) && run_dispatch(true, script, 3, 2) == run_dispatch(
        true,
        script,
        4,
        3,
    ));
    assert(is_retriable_rate_limit(script[1]) && run_dispatch(true, script, 2, 1) == run_dispatch(
        true,
        script,
        3,
        2,
    ));
    assert(is_retriable_rate_limit(script[0]) && run_dispatch(true, script, 1, 0) == run_dispatch(
        true,
        script,
        2,
        1,
    ));
}

/// Unparseable retry signal: a 429 whose `Retry-After` is missing or not a
/// number is not retried — the call fails at once, after one send, with
/// the 429 surfaced as a transport failure.
pub proof fn lemma_unparseable_retry_not_retried(registered: bool, script: Seq<ScriptedResult>)
    requires
        script.len() >= ATTEMPT_CEILING,
        is_uninterpretable_rate_limit(script[0]),
    ensures
        dispatch_outcome(registered, true, script) == (
            DispatchVerdict::Failed(Error::Http(HttpFailure::Status(429))),
            1 as nat,
        ),
{
}

/// A retriable 429 from an endpoint the registry does not know is not
/// retried either: only registered endpoints take part in the cooldown
/// logic, so the 429 is surfaced at once.
pub proof fn lemma_unregistered_rate_limit_not_retried(script: Seq<ScriptedResult>)
    requires
        script.len() >= ATTEMPT_CEILING,
        is_retriable_rate_limit(script[0]),
    ensures
        dispatch_outcome(false, true, script) == (
            DispatchVerdict::Failed(Error::Http(HttpFailure::Status(429))),
            1 as nat,
        ),
{
}

/// Encoding short-circuit: a body that cannot be encoded fails the call
/// before anything touches the network — zero sends, whatever the server
/// would have answered.
pub proof fn lemma_encoding_short_circuit(registered: bool, script: Seq<ScriptedResult>)
    ensures
        dispatch_outcome(registered, false, script) == (
            DispatchVerdict::Failed(Error::RequestEncoding),
            0 as nat,
        ),
{
}

} // verus!
