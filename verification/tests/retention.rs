use uppe::retention::RetentionPolicy;

#[test]
fn test_retention_policy_defaults() {
    let policy = RetentionPolicy::default();
    assert_eq!(policy.private_result_days, 7);
    assert_eq!(policy.public_result_days, 30);
    assert_eq!(policy.peer_result_days, 30);
}

#[test]
fn test_retention_seconds_calculation() {
    let policy = RetentionPolicy::default();
    assert_eq!(policy.private_retention_seconds(), 7 * 24 * 3600);
    assert_eq!(policy.public_retention_seconds(), 30 * 24 * 3600);
    assert_eq!(policy.peer_retention_seconds(), 30 * 24 * 3600);
}

#[test]
fn test_custom_retention_policy() {
    let policy = RetentionPolicy { private_result_days: 14, public_result_days: 60, peer_result_days: 14 };
    assert_eq!(policy.private_retention_seconds(), 14 * 24 * 3600);
    assert_eq!(policy.public_retention_seconds(), 60 * 24 * 3600);
}

#[test]
fn cleanup_cutoffs_are_now_minus_retention() {
    let policy = RetentionPolicy::default();
    let (private_cutoff, public_cutoff) = policy.local_cleanup_cutoffs(10_000_000);
    assert_eq!(private_cutoff, 10_000_000 - 604_800);
    assert_eq!(public_cutoff, 10_000_000 - 2_592_000);
}
