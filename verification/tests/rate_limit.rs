use nagent::config::{Config, RateLimitConfig};
use nagent::net::{Endpoint, Ip};
use nagent::rate_limit::{ip_from_socket, RateLimitError, RateLimitPolicy, RateLimiter};
use nagent::server::{build_rate_limiters, pass, Side};

const SECOND: u64 = 1_000_000_000;

fn remote_v4() -> Ip {
    Ip::V4(203, 0, 113, 7)
}
fn remote_v4_other() -> Ip {
    Ip::V4(203, 0, 113, 8)
}
fn remote_v6() -> Ip {
    Ip::V6(0x2001, 0xdb8, 0, 0, 0, 0, 0, 1)
}

fn limiter(per_min: u32) -> RateLimiter {
    RateLimiter::new(RateLimitPolicy { tokens_per_minute: per_min })
}

#[test]
fn loopback_ips_always_pass() {
    let mut rl = limiter(1);
    let v4_loop = Ip::V4(127, 0, 0, 1);
    let v6_loop = Ip::V6(0, 0, 0, 0, 0, 0, 0, 1);
    for _ in 0..100 {
        assert!(rl.check(v4_loop, 0).is_ok());
        assert!(rl.check(v6_loop, 0).is_ok());
    }
    assert_eq!(rl.bucket_count(), 0, "loopback must not create buckets");
}

#[test]
fn bucket_is_independent_per_ip() {
    let mut rl = limiter(2);
    assert!(rl.check(remote_v4(), 0).is_ok());
    assert!(rl.check(remote_v4(), 0).is_ok());
    let err = rl.check(remote_v4(), 0).unwrap_err();
    assert!(matches!(err, RateLimitError::Limited { .. }));
    assert!(rl.check(remote_v4_other(), 0).is_ok());
}

#[test]
fn rejected_call_reports_retry_after() {
    let mut rl = limiter(60);
    for _ in 0..60 {
        assert!(rl.check(remote_v4(), 0).is_ok());
    }
    let err = rl.check(remote_v4(), 0).unwrap_err();
    match err {
        RateLimitError::Limited { retry_after_ms, .. } => {
            assert!(
                (500..=1500).contains(&retry_after_ms),
                "retry_after_ms out of expected band: {retry_after_ms}"
            );
            assert_eq!(retry_after_ms, 1000);
        }
    }
    assert_eq!(err.retry_after_secs(), 1);
    assert_eq!(
        err.message(),
        "rate limit exceeded for 203.0.113.7: retry after 1000 ms"
    );
}

#[test]
fn refill_restores_capacity() {
    let mut rl = limiter(6_000);
    for _ in 0..3 {
        assert!(rl.check(remote_v4(), 0).is_ok());
    }
    assert!(rl.check(remote_v4(), 30_000_000).is_ok());
}

#[test]
fn refill_is_exact() {
    let mut rl = limiter(1);
    assert!(rl.check(remote_v4(), 0).is_ok());
    assert!(rl.check(remote_v4(), 60 * SECOND - 1).is_err());
    assert!(rl.check(remote_v4(), 60 * SECOND).is_ok());
    assert!(rl.check(remote_v4(), 61 * SECOND).is_err());
}

#[test]
fn zero_budget_never_admits() {
    let mut rl = limiter(0);
    let err = rl.check(remote_v4(), 0).unwrap_err();
    assert!(matches!(err, RateLimitError::Limited { .. }));
    assert!(rl.check(remote_v4(), u64::MAX).is_err());
}

#[test]
fn v6_remote_uses_its_own_bucket() {
    let mut rl = limiter(1);
    assert!(rl.check(remote_v4(), 0).is_ok());
    assert!(rl.check(remote_v4(), 0).is_err());
    assert!(rl.check(remote_v6(), 0).is_ok());
}

#[test]
fn sweep_drops_idle_full_buckets_only() {
    let mut rl = limiter(60);
    assert!(rl.check(remote_v4(), 0).is_ok());
    for _ in 0..2 {
        assert!(rl.check(remote_v4_other(), 0).is_ok());
    }
    assert_eq!(rl.bucket_count(), 2);
    rl.sweep_idle_buckets(SECOND);
    assert_eq!(rl.bucket_count(), 2);
    rl.sweep_idle_buckets(120 * SECOND);
    assert_eq!(rl.bucket_count(), 0, "idle full buckets should be evicted");
}

#[test]
fn stt_per_frame_check_drops_bucket_after_two_frames() {
    let mut stt = RateLimiter::new(RateLimitPolicy::stt(2));
    let remote = Ip::V4(198, 51, 100, 42);
    assert!(stt.check_opt(Some(remote), 0).is_ok());
    assert!(stt.check_opt(Some(remote), 0).is_ok());
    let err = stt.check_opt(Some(remote), 0).unwrap_err();
    assert!(matches!(err, RateLimitError::Limited { .. }));
    assert!(stt.check_opt(None, 0).is_ok());
}

#[test]
fn llm_rate_limit_middleware_is_wired_in() {
    let mut cfg = nagent::config::Config::from_env(
        &nagent::config::Env { vars: vec![("WHISPER_MODEL_PATH".into(), "m.bin".into())] },
        &nagent::config_file::TomlConfig::empty(),
        Ok(nagent::net::Endpoint { ip: Ip::V4(127, 0, 0, 1), port: 1 }),
    )
    .unwrap();
    cfg.rate_limit = RateLimitConfig { stt_per_min: 120, llm_per_min: 1 };
    let cfg: Config = cfg;
    let (stt, mut llm) = build_rate_limiters(&cfg);
    assert_eq!(stt.tokens_per_minute(), 120);
    assert_eq!(llm.tokens_per_minute(), 1);
    for _ in 0..10 {
        assert!(pass(&mut llm, Some(Ip::V4(127, 0, 0, 1)), 0, Side::Chat).is_ok());
        assert!(pass(&mut llm, None, 0, Side::Chat).is_ok());
    }
    let remote = Ip::V4(203, 0, 113, 10);
    assert!(pass(&mut llm, Some(remote), 0, Side::Chat).is_ok());
    let refused = pass(&mut llm, Some(remote), 0, Side::Chat).unwrap_err();
    assert_eq!(refused.body, "rate limit exceeded");
    assert_eq!(refused.retry_after, "60");
    let refused = pass(&mut llm, Some(remote), 30_000_000_001, Side::Speech).unwrap_err();
    assert_eq!(refused.body, "rate limit exceeded for STT pipeline");
    assert_eq!(refused.retry_after, "30");
}

#[test]
fn llm_loopback_bypass_lets_through_any_request_count() {
    let mut llm = RateLimiter::new(RateLimitPolicy::llm(1));
    for _ in 0..10 {
        assert!(pass(&mut llm, Some(Ip::V4(127, 0, 0, 1)), 0, Side::Chat).is_ok());
    }
}

#[test]
fn stt_loopback_bypass_lets_through_any_ws_count() {
    let mut stt = RateLimiter::new(RateLimitPolicy::stt(1));
    for _ in 0..5 {
        assert!(pass(&mut stt, Some(Ip::V4(127, 0, 0, 1)), 0, Side::Speech).is_ok());
    }
}

#[test]
fn ws_upgrade_succeeds_for_loopback_with_tiny_budget() {
    let mut stt = RateLimiter::new(RateLimitPolicy::stt(1));
    assert!(pass(&mut stt, Some(Ip::V6(0, 0, 0, 0, 0, 0, 0, 1)), 0, Side::Speech).is_ok());
    assert_eq!(stt.bucket_count(), 0);
}

#[test]
fn a_peer_is_known_by_its_address() {
    assert_eq!(ip_from_socket(Endpoint { ip: remote_v4(), port: 4711 }), remote_v4());
}
