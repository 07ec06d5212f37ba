use zblog_server::infrastructure::login_throttle::{ClientIp, LoginThrottle};

fn ip(last: u8) -> ClientIp {
    ClientIp::V4(u32::from_be_bytes([127, 0, 0, last]))
}

#[test]
fn allows_login_before_the_limit() {
    let mut throttle = LoginThrottle::new();
    throttle.record_failure(ip(1));
    throttle.record_failure(ip(1));
    assert_eq!(throttle.locked_secs(ip(1)), None);
}

#[test]
fn locks_out_after_three_consecutive_failures() {
    let mut throttle = LoginThrottle::new();
    for _ in 0..3 {
        throttle.record_failure(ip(1));
    }
    let secs = throttle.locked_secs(ip(1));
    assert!(secs.is_some_and(|s| s > 290 && s <= 300));
}

#[test]
fn tracks_ips_independently() {
    let mut throttle = LoginThrottle::new();
    for _ in 0..3 {
        throttle.record_failure(ip(1));
    }
    assert_eq!(throttle.locked_secs(ip(2)), None);
}

#[test]
fn successful_login_clears_the_failure_count() {
    let mut throttle = LoginThrottle::new();
    throttle.record_failure(ip(1));
    throttle.record_failure(ip(1));
    throttle.record_success(ip(1));
    throttle.record_failure(ip(1));
    throttle.record_failure(ip(1));
    assert_eq!(throttle.locked_secs(ip(1)), None);
}

const MS: u64 = 1_000_000;
const SEC: u64 = 1_000_000_000;

#[test]
fn expired_lockout_allows_a_fresh_cycle() {
    let mut throttle = LoginThrottle::with_limits(3, 10 * MS);
    for _ in 0..3 {
        throttle.record_failure_at(ip(1), 0);
    }
    assert!(throttle.locked_secs_at(ip(1), 0).is_some());
    assert_eq!(throttle.locked_secs_at(ip(1), 20 * MS), None);
    throttle.record_failure_at(ip(1), 20 * MS);
    assert_eq!(throttle.locked_secs_at(ip(1), 20 * MS), None);
}

#[test]
fn failures_during_lockout_do_not_extend_it() {
    let mut throttle = LoginThrottle::with_limits(3, 50 * MS);
    for _ in 0..3 {
        throttle.record_failure_at(ip(1), 0);
    }
    throttle.record_failure_at(ip(1), 30 * MS);
    assert_eq!(throttle.locked_secs_at(ip(1), 60 * MS), None);
}

#[test]
fn lockout_seconds_count_down_and_round_down() {
    let mut throttle = LoginThrottle::new();
    for t in [SEC, 2 * SEC, 3 * SEC] {
        throttle.record_failure_at(ip(7), t);
    }
    // Locked until 303 s.
    assert_eq!(throttle.locked_secs_at(ip(7), 3 * SEC), Some(300));
    assert_eq!(throttle.locked_secs_at(ip(7), 3 * SEC + 1), Some(299));
    assert_eq!(throttle.locked_secs_at(ip(7), 302 * SEC + 500 * MS), Some(1));
    assert_eq!(throttle.locked_secs_at(ip(7), 303 * SEC - 1), Some(1));
    assert_eq!(throttle.locked_secs_at(ip(7), 303 * SEC), None);
}

#[test]
fn lockout_refuses_even_after_success_attempts_elsewhere() {
    let mut throttle = LoginThrottle::new();
    for _ in 0..3 {
        throttle.record_failure_at(ip(1), 0);
    }
    throttle.record_success(ip(2));
    assert_eq!(throttle.locked_secs_at(ip(1), SEC), Some(299));
}

#[test]
fn ipv4_and_ipv6_addresses_are_distinct() {
    let mut throttle = LoginThrottle::new();
    let v6 = ClientIp::V6(0xffff_7f00_0001);
    for _ in 0..3 {
        throttle.record_failure_at(v6, 0);
    }
    assert_eq!(throttle.locked_secs_at(ip(1), 0), None);
    assert_eq!(throttle.locked_secs_at(v6, 0), Some(300));
}

#[test]
fn many_calls_on_other_addresses_leave_an_address_alone() {
    let mut throttle = LoginThrottle::new();
    throttle.record_failure_at(ip(2), 0);
    throttle.record_failure_at(ip(2), SEC);
    for t in 0..10 {
        throttle.record_failure_at(ip(1), t * SEC);
        throttle.record_success(ip(3));
        assert_eq!(throttle.locked_secs_at(ip(4), t * SEC), None);
    }
    // ip(2) still has its two failures: one more locks it.
    throttle.record_failure_at(ip(2), 20 * SEC);
    assert_eq!(throttle.locked_secs_at(ip(2), 20 * SEC), Some(300));
}

#[test]
fn lockout_end_stays_and_relocking_takes_three_more_failures() {
    let mut throttle = LoginThrottle::new();
    for _ in 0..3 {
        throttle.record_failure_at(ip(1), 0);
    }
    // Failures during the lockout leave its end at 300 s.
    for t in [10, 100, 299] {
        throttle.record_failure_at(ip(1), t * SEC);
    }
    assert_eq!(throttle.locked_secs_at(ip(1), 299 * SEC), Some(1));
    // After the end, without a check in between, two failures do not lock again...
    throttle.record_failure_at(ip(1), 300 * SEC);
    throttle.record_failure_at(ip(1), 301 * SEC);
    assert_eq!(throttle.locked_secs_at(ip(1), 301 * SEC), None);
    // ...the check cleared the entry, so a fresh cycle of three is needed.
    throttle.record_failure_at(ip(1), 302 * SEC);
    throttle.record_failure_at(ip(1), 303 * SEC);
    assert_eq!(throttle.locked_secs_at(ip(1), 303 * SEC), None);
    throttle.record_failure_at(ip(1), 304 * SEC);
    assert_eq!(throttle.locked_secs_at(ip(1), 304 * SEC), Some(300));
}

#[test]
fn relocking_without_a_check_counts_from_zero() {
    let mut throttle = LoginThrottle::new();
    for _ in 0..3 {
        throttle.record_failure_at(ip(1), 0);
    }
    for t in [400, 401, 402] {
        throttle.record_failure_at(ip(1), t * SEC);
    }
    assert_eq!(throttle.locked_secs_at(ip(1), 402 * SEC), Some(300));
}

#[test]
fn default_throttle_starts_empty() {
    let mut throttle = LoginThrottle::default();
    assert_eq!(throttle.locked_secs(ip(1)), None);
}
