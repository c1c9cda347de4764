use rate_limiter::token_bucket::{ConfigError, Decision, TokenBucket};

fn bucket(max_tokens: i64, initial_level: i64, refill_rate: i64, now: i64) -> TokenBucket {
    TokenBucket::new_at(max_tokens, initial_level, refill_rate, now).unwrap()
}

#[test]
fn full_bucket_admits_capacity_then_rejects() {
    let mut b = bucket(5, 5, 1000, 0);
    for _ in 0..5 {
        assert_eq!(b.request_at(0), Decision::Admit);
    }
    assert_eq!(b.request_at(0), Decision::Reject);
    assert_eq!(b.current_level, 0);
}

#[test]
fn one_token_regenerates_after_one_interval() {
    let mut b = bucket(5, 5, 1000, 0);
    for _ in 0..5 {
        assert_eq!(b.request_at(0), Decision::Admit);
    }
    assert_eq!(b.request_at(0), Decision::Reject);
    assert_eq!(b.request_at(1000), Decision::Admit);
    assert_eq!(b.current_level, 0);
    assert_eq!(b.last_refill_time, 1000);
}

#[test]
fn refill_from_empty_is_capped_at_capacity() {
    let mut b = bucket(10, 0, 100, 0);
    assert_eq!(b.request_at(1050), Decision::Admit);
    assert_eq!(b.current_level, 9);
    assert_eq!(b.last_refill_time, 1050);
}

#[test]
fn fractional_remainder_is_discarded() {
    let mut b = bucket(10, 0, 100, 0);
    assert_eq!(b.request_at(1050), Decision::Admit);
    // The 50ms remainder was discarded: 99ms later no new token has been
    // earned, so this admission only spends an existing token.
    assert_eq!(b.request_at(1149), Decision::Admit);
    assert_eq!(b.current_level, 8);
    assert_eq!(b.last_refill_time, 1050);
}

#[test]
fn construction_rejects_nonpositive_refill_rate() {
    assert_eq!(
        TokenBucket::new_at(5, 5, 0, 0),
        Err(ConfigError::NonPositiveRefillRate)
    );
    assert_eq!(
        TokenBucket::new_at(5, 5, -7, 0),
        Err(ConfigError::NonPositiveRefillRate)
    );
    assert_eq!(
        TokenBucket::new(5, 5, 0),
        Err(ConfigError::NonPositiveRefillRate)
    );
}

#[test]
fn construction_rejects_out_of_range_level() {
    assert_eq!(TokenBucket::new_at(5, 6, 100, 0), Err(ConfigError::InvalidLevel));
    assert_eq!(TokenBucket::new_at(5, -1, 100, 0), Err(ConfigError::InvalidLevel));
    assert_eq!(TokenBucket::new_at(-3, 0, 100, 0), Err(ConfigError::InvalidLevel));
    assert_eq!(TokenBucket::new(5, 6, 100), Err(ConfigError::InvalidLevel));
}

#[test]
fn rate_is_checked_before_level() {
    assert_eq!(
        TokenBucket::new_at(5, 6, 0, 0),
        Err(ConfigError::NonPositiveRefillRate)
    );
}

#[test]
fn level_stays_in_bounds_over_mixed_sequence() {
    let mut b = bucket(3, 2, 10, 100);
    let times: [i64; 9] = [100, 50, 100, 100, 100, 500, 90, 10_000, 10_000];
    for now in times {
        b.request_at(now);
        assert!(0 <= b.current_level && b.current_level <= b.max_tokens);
    }
}

#[test]
fn empty_bucket_rejects_without_mutation() {
    let mut b = bucket(5, 0, 1000, 0);
    assert_eq!(b.request_at(500), Decision::Reject);
    assert_eq!(b.current_level, 0);
    assert_eq!(b.last_refill_time, 0);
}

#[test]
fn zero_capacity_bucket_rejects_forever() {
    let mut b = bucket(0, 0, 10, 0);
    assert_eq!(b.request_at(0), Decision::Reject);
    assert_eq!(b.request_at(1_000_000), Decision::Reject);
    assert_eq!(b.current_level, 0);
}

#[test]
fn long_idle_fills_to_capacity_only() {
    let mut b = bucket(5, 2, 10, 0);
    assert_eq!(b.request_at(1_000_000), Decision::Admit);
    assert_eq!(b.current_level, 4);
    assert_eq!(b.last_refill_time, 1_000_000);
}

#[test]
fn backward_clock_credits_nothing() {
    let mut b = bucket(5, 5, 10, 1000);
    assert_eq!(b.request_at(0), Decision::Admit);
    assert_eq!(b.current_level, 4);
    assert_eq!(b.last_refill_time, 1000);
}

#[test]
fn widest_possible_elapsed_span_saturates() {
    let mut b = bucket(3, 0, 1, i64::MIN);
    assert_eq!(b.request_at(i64::MAX), Decision::Admit);
    assert_eq!(b.current_level, 2);
    assert_eq!(b.last_refill_time, i64::MAX);
    assert_eq!(b.request_at(i64::MAX), Decision::Admit);
    assert_eq!(b.current_level, 1);
}

#[test]
fn zero_refill_window_admits_exactly_the_level() {
    let mut b = bucket(5, 3, 1_000_000, 0);
    let mut admits: i64 = 0;
    let mut rejects: i64 = 0;
    let times: [i64; 10] = [0, 5, 999_999, 17, 0, 3, 900_000, 1, 2, 40];
    for now in times {
        match b.request_at(now) {
            Decision::Admit => admits += 1,
            Decision::Reject => rejects += 1,
        }
    }
    assert_eq!(admits, 3);
    assert_eq!(rejects, 7);
}

#[test]
fn wall_clock_requests_drain_a_full_bucket() {
    // One token per hour: the clock cannot regenerate a token mid-test.
    let mut b = TokenBucket::new(5, 5, 3_600_000).unwrap();
    for _ in 0..5 {
        assert_eq!(b.request(), Decision::Admit);
    }
    assert_eq!(b.request(), Decision::Reject);
    assert_eq!(b.current_level, 0);
}
