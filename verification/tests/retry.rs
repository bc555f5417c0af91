use oci_free_tier_arm::error::ApiError;
use oci_free_tier_arm::retry::{three_halves, Retry, Verdict};

fn http(status: u16, message: &str) -> ApiError {
    ApiError::Http { status, message: message.to_string() }
}

fn by_floats(n: i64) -> i64 {
    (n as f64 * 1.5) as i64
}

#[test]
fn growth_is_that_of_floating_point() {
    for n in -2000..2000i64 {
        assert_eq!(three_halves(n), by_floats(n));
    }
    for shift in 0..63 {
        let base = 1i64 << shift;
        for around in -70..70i64 {
            for n in [base.wrapping_add(around), base.wrapping_neg().wrapping_add(around)] {
                assert_eq!(three_halves(n), by_floats(n), "{}", n);
            }
        }
    }
    let mut state: u64 = 88172645463325252;
    for _ in 0..200000 {
        state ^= state << 13;
        state ^= state >> 7;
        state ^= state << 17;
        for n in [state as i64, (state >> 9) as i64, (state >> 11) as i64, (state >> 3) as i64] {
            assert_eq!(three_halves(n), by_floats(n), "{}", n);
        }
    }
    for n in [i64::MAX, i64::MIN, i64::MAX - 1, i64::MIN + 1, 0, 1, -1] {
        assert_eq!(three_halves(n), by_floats(n), "{}", n);
    }
    assert_eq!(three_halves(30), 45);
    assert_eq!(three_halves(45), 67);
    assert_eq!(three_halves(-3), -4);
    assert_eq!(three_halves(i64::MAX), i64::MAX);
}

#[test]
fn rests_grow_up_to_the_longest() {
    let mut retry = Retry::start(30, 300, 0);
    assert_eq!(retry.backoff, 30);
    let mut seen = vec![];
    for _ in 0..8 {
        seen.push(retry.backoff);
        retry = retry.wake(11);
    }
    assert_eq!(seen, vec![30, 45, 67, 100, 150, 225, 300, 300]);
    assert_eq!(retry.tries, 8);
}

#[test]
fn clock_adds_up_to_ten_seconds() {
    let retry = Retry::start(30, 300, 0);
    for nanos in 0..40u32 {
        assert_eq!(retry.wake(nanos).backoff, 45 + (nanos % 11) as i64);
    }
    assert_eq!(retry.wake(999_999_999).backoff, 45 + (999_999_999u32 % 11) as i64);
}

#[test]
fn rests_are_never_below_the_first() {
    let odd = Retry { initial: 50, max: 20, limit: 0, tries: 3, backoff: 50 };
    assert_eq!(odd.wake(5).backoff, 50);
    let small = Retry { initial: 5, max: 300, limit: 0, tries: 3, backoff: -7 };
    assert_eq!(small.wake(0).backoff, 5);
    let large = Retry { initial: 5, max: i64::MAX, limit: 0, tries: 3, backoff: i64::MAX - 5 };
    assert_eq!(large.wake(10).backoff, i64::MAX);
}

#[test]
fn rate_limits_double_the_rest() {
    let retry = Retry::start(30, 300, 0);
    let after = |r: Retry| match r.judge(&http(429, "slow down")) {
        Verdict::Rest { retry, seconds } => (retry.backoff, seconds),
        _ => panic!(),
    };
    assert_eq!(after(retry), (60, 60));
    assert_eq!(after(Retry { backoff: 200, ..retry }), (300, 300));
    let wide = Retry { backoff: i64::MAX - 1, max: i64::MAX, ..retry };
    assert_eq!(after(wide), (i64::MAX, i64::MAX as u64));
}

#[test]
fn other_passing_errors_keep_the_rest() {
    let retry = Retry::start(30, 300, 0);
    for error in [
        http(500, "Out of host capacity."),
        http(503, ""),
        ApiError::Transport("reset".to_string()),
    ] {
        assert_eq!(retry.judge(&error), Verdict::Rest { retry, seconds: 30 });
    }
}

#[test]
fn negative_rests_are_read_without_a_sign() {
    let retry = Retry::start(-1, 300, 0);
    assert_eq!(
        retry.judge(&http(503, "")),
        Verdict::Rest { retry, seconds: u64::MAX }
    );
    let retry = Retry::start(i64::MIN, 300, 0);
    assert_eq!(
        retry.judge(&http(503, "")),
        Verdict::Rest { retry, seconds: i64::MIN as u64 }
    );
}

#[test]
fn refusals_and_strange_errors_end_the_tries() {
    let retry = Retry::start(30, 300, 0);
    assert_eq!(retry.judge(&http(401, "NotAuthenticated")), Verdict::Refused);
    assert_eq!(retry.judge(&http(503, "LimitExceeded")), Verdict::Refused);
    assert_eq!(retry.judge(&http(500, "strange")), Verdict::Unexpected);
    assert_eq!(retry.judge(&http(404, "out of host capacity")), Verdict::Unexpected);
    assert_eq!(retry.judge(&ApiError::Other("strange".to_string())), Verdict::Unexpected);
}

#[test]
fn tries_are_limited_where_the_limit_is_positive() {
    let mut retry = Retry::start(1, 1, 2);
    assert!(retry.may_go_on());
    retry = retry.wake(0);
    assert!(retry.may_go_on());
    retry = retry.wake(0);
    assert!(!retry.may_go_on());
    assert!(Retry { limit: 0, ..retry }.may_go_on());
    assert!(Retry { limit: -5, tries: u64::MAX, ..retry }.may_go_on());
    assert_eq!(Retry { tries: u64::MAX, ..retry }.wake(0).tries, 0);
}
