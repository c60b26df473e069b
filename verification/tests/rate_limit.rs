use uppe::rate_limit::PrivateMonitorRateLimiter;

#[test]
fn test_rate_limiter() {
    let mut limiter = PrivateMonitorRateLimiter::new();

    for _ in 0..10 {
        assert!(limiter.can_add_monitor("peer1"));
    }
    assert!(!limiter.can_add_monitor("peer1"));

    for _ in 0..100 {
        assert!(limiter.can_check("peer1"));
    }
    assert!(!limiter.can_check("peer1"));
}

#[test]
fn check_window_renews_after_an_hour() {
    let mut limiter = PrivateMonitorRateLimiter::new();
    for _ in 0..100 {
        assert!(limiter.can_check_at("owner", 1_000));
    }
    assert!(!limiter.can_check_at("owner", 4_600));
    assert!(limiter.can_check_at("owner", 4_601));
    assert!(limiter.can_check_at("other", 1_000));
}

#[test]
fn owners_are_limited_separately() {
    let mut limiter = PrivateMonitorRateLimiter::default();
    for _ in 0..10 {
        assert!(limiter.can_add_monitor_at("a", 0));
    }
    assert!(!limiter.can_add_monitor_at("a", 0));
    assert!(limiter.can_add_monitor_at("b", 0));
}
