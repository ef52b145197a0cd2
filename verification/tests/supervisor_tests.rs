use speller_pool::supervisor::{RestartPolicy, SupervisorVerdict};

#[test]
fn delays_grow_linearly_to_the_cap() {
    let policy = RestartPolicy { max_attempts: 5, base_delay_ms: 100, max_delay_ms: 250 };
    assert_eq!(policy.next_verdict(0), SupervisorVerdict::Retry(100));
    assert_eq!(policy.next_verdict(1), SupervisorVerdict::Retry(200));
    assert_eq!(policy.next_verdict(2), SupervisorVerdict::Retry(250));
    assert_eq!(policy.next_verdict(3), SupervisorVerdict::Retry(250));
    assert_eq!(policy.next_verdict(4), SupervisorVerdict::Retry(250));
}

#[test]
fn gives_up_after_the_attempt_budget() {
    let policy = RestartPolicy { max_attempts: 3, base_delay_ms: 50, max_delay_ms: 1000 };
    assert!(matches!(policy.next_verdict(2), SupervisorVerdict::Retry(_)));
    assert_eq!(policy.next_verdict(3), SupervisorVerdict::GiveUp);
    assert_eq!(policy.next_verdict(100), SupervisorVerdict::GiveUp);
}

#[test]
fn zero_attempts_means_no_retry_at_all() {
    let policy = RestartPolicy { max_attempts: 0, base_delay_ms: 1, max_delay_ms: 1 };
    assert_eq!(policy.next_verdict(0), SupervisorVerdict::GiveUp);
}
