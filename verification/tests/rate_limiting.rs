use slack_client::client::build_request;
use slack_client::client::tier_for;
use slack_client::client::RateLimiter;
use slack_client::client::RateLimitingTier;
use slack_client::client::RetryAfterGate;
use slack_client::client::TokenBucket;

#[test]
fn tier_quotas_are_fixed() {
    assert_eq!(RateLimitingTier::Tier1.quota(), 1);
    assert_eq!(RateLimitingTier::Tier2.quota(), 20);
    assert_eq!(RateLimitingTier::Tier3.quota(), 50);
    assert_eq!(RateLimitingTier::Tier4.quota(), 100);
}

#[test]
fn registry_maps_known_endpoints_to_their_tiers() {
    assert_eq!(tier_for("usergroups.list"), Some(RateLimitingTier::Tier2));
    assert_eq!(tier_for("usergroups.users.list"), Some(RateLimitingTier::Tier2));
    assert_eq!(tier_for("users.info"), Some(RateLimitingTier::Tier4));
    assert_eq!(tier_for("chat.postMessage"), None);
    assert_eq!(tier_for(""), None);
    assert_eq!(tier_for("users.inf"), None);
    assert_eq!(tier_for("users.info2"), None);
}

#[test]
fn fresh_bucket_grants_one_call_then_meters_its_rate() {
    let mut bucket = TokenBucket::new(20, 0);
    assert_eq!(bucket.acquire(0), 0);
    // Tier quota 20/minute refills the one stored token every 3000 ms.
    assert_eq!(bucket.acquire(0), 3000);
    assert_eq!(bucket.acquire(1000), 2000);
    assert_eq!(bucket.acquire(3000), 0);
    assert_eq!(bucket.acquire(3001), 2999);
}

#[test]
fn at_most_quota_admissions_fit_in_a_rolling_minute() {
    let mut bucket = TokenBucket::new(20, 0);
    // One grant every 3000 ms: exactly twenty grants land inside [0, 60000).
    for k in 0..20u64 {
        assert_eq!(bucket.acquire(k * 3000), 0);
    }
    // The twenty-first is pushed past the minute mark.
    assert_eq!(bucket.acquire(59999), 1);
    assert_eq!(bucket.acquire(60000), 0);
}

#[test]
fn bucket_refills_continuously_and_never_banks_idle_time() {
    let mut bucket = TokenBucket::new(1, 0);
    assert_eq!(bucket.acquire(0), 0);
    assert_eq!(bucket.acquire(0), 60000);
    assert_eq!(bucket.acquire(59999), 1);
    assert_eq!(bucket.acquire(60000), 0);
    // Idle time beyond the one stored token is discarded, not banked.
    assert_eq!(bucket.acquire(500000), 0);
    assert_eq!(bucket.acquire(500000), 60000);
}

#[test]
fn gate_starts_clear_and_enforces_an_armed_deadline() {
    let mut gate = RetryAfterGate::new();
    assert_eq!(gate.wait_remaining(100), 0);
    gate.arm(100, 5000);
    assert_eq!(gate.wait_remaining(100), 5000);
    assert_eq!(gate.wait_remaining(3000), 2100);
    assert_eq!(gate.wait_remaining(5100), 0);
}

#[test]
fn gate_keeps_the_first_reported_deadline() {
    let mut gate = RetryAfterGate::new();
    gate.arm(100, 5000);
    // A second report while the cooldown is active is dropped entirely,
    // whether shorter or longer.
    gate.arm(200, 60);
    assert_eq!(gate.wait_remaining(200), 4900);
    gate.arm(300, 600000);
    assert_eq!(gate.wait_remaining(300), 4800);
    // Even an absurdly large report is dropped while one is active.
    gate.arm(400, u64::MAX);
    assert_eq!(gate.wait_remaining(400), 4700);
}

#[test]
fn gate_can_be_armed_again_after_expiry() {
    let mut gate = RetryAfterGate::new();
    gate.arm(100, 1000);
    assert_eq!(gate.wait_remaining(1100), 0);
    gate.arm(2000, 700);
    assert_eq!(gate.wait_remaining(2000), 700);
}

#[test]
fn unregistered_endpoints_bypass_bucket_and_gate() {
    let mut limiter = RateLimiter::new(0);
    for _ in 0..1000 {
        assert_eq!(limiter.acquire("chat.postMessage", 0), 0);
    }
    assert_eq!(limiter.gate_wait("chat.postMessage", 0), 0);
    limiter.set_retry_after("chat.postMessage", 0, 30000);
    assert_eq!(limiter.gate_wait("chat.postMessage", 0), 0);
}

#[test]
fn registered_endpoints_share_one_bucket_per_endpoint() {
    let mut limiter = RateLimiter::new(0);
    assert_eq!(limiter.acquire("users.info", 0), 0);
    // Tier quota 100/minute meters one call every 600 ms.
    assert_eq!(limiter.acquire("users.info", 0), 600);
    assert_eq!(limiter.acquire("users.info", 600), 0);
    // Other endpoints keep their own, untouched buckets.
    assert_eq!(limiter.acquire("usergroups.list", 600), 0);
}

#[test]
fn jittered_admission_adds_the_drawn_jitter_to_delays_only() {
    let mut limiter = RateLimiter::new(0);
    // An immediate grant stays immediate whatever jitter was drawn.
    assert_eq!(limiter.acquire_with_jitter("usergroups.list", 0, 150), 0);
    // A delayed call waits the bucket's refill plus the drawn jitter.
    assert_eq!(limiter.acquire_with_jitter("usergroups.list", 0, 150), 3150);
    assert_eq!(limiter.acquire_with_jitter("chat.postMessage", 0, 200), 0);
}

#[test]
fn request_parts_are_fixed_and_resend_the_encoded_body() {
    let parts = build_request("users.info", Some("xoxb-1"), "user=U1");
    assert_eq!(parts.url, "https://slack.com/api/users.info");
    assert_eq!(parts.content_type, "application/x-www-form-urlencoded");
    assert_eq!(parts.accept, "application/json");
    assert_eq!(parts.authorization.as_deref(), Some("Bearer xoxb-1"));
    assert_eq!(parts.body, "user=U1");
    let anonymous = build_request("users.info", None, "user=U1");
    assert!(anonymous.authorization.is_none());
}

#[test]
fn armed_gate_delays_a_call_whose_bucket_is_ready() {
    let mut limiter = RateLimiter::new(0);
    limiter.set_retry_after("usergroups.list", 0, 30000);
    // The bucket's token is on hand, but the armed cooldown holds the call
    // back until the full server-mandated pause has elapsed.
    assert_eq!(limiter.acquire("usergroups.list", 10), 0);
    assert_eq!(limiter.gate_wait("usergroups.list", 10), 29990);
    assert_eq!(limiter.gate_wait("usergroups.list", 29999), 1);
    assert_eq!(limiter.gate_wait("usergroups.list", 30000), 0);
}
