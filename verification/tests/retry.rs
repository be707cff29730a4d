use clawnicle::retry::{LONGEST_PAUSE, MILLISECOND, ONE, TWO};
use clawnicle::RetryPolicy;

/// The pauses after the first failed attempts.
fn pauses(policy: &RetryPolicy, n: usize) -> Vec<u128> {
    let mut out = Vec::new();
    let mut pause = policy.first_backoff();
    for _ in 0..n {
        out.push(pause);
        pause = policy.next_backoff(pause);
    }
    out
}

fn growing_by(multiplier: f32) -> RetryPolicy {
    RetryPolicy {
        max_attempts: 10,
        initial_backoff: 1_000,
        max_backoff: 1_000_000,
        backoff_multiplier: multiplier.to_bits(),
        timeout: None,
    }
}

#[test]
fn none_tries_once() {
    let policy = RetryPolicy::none();
    assert_eq!(policy.max_attempts, 1);
    assert_eq!(policy.initial_backoff, 0);
    assert_eq!(policy.max_backoff, 0);
    assert_eq!(f32::from_bits(policy.backoff_multiplier), 1.0);
    assert_eq!(policy.timeout, None);
    let default = RetryPolicy::default();
    assert_eq!(format!("{policy:?}"), format!("{default:?}"));
}

#[test]
fn exponential_3_starts_at_100ms_and_doubles() {
    let policy = RetryPolicy::exponential_3();
    assert_eq!(policy.max_attempts, 3);
    assert_eq!(f32::from_bits(policy.backoff_multiplier), 2.0);
    assert_eq!(policy.timeout, None);
    let ms: Vec<u128> = pauses(&policy, 8).iter().map(|ns| ns / MILLISECOND).collect();
    assert_eq!(ms, vec![100, 200, 400, 800, 1600, 3200, 5000, 5000]);
}

#[test]
fn builders_change_one_field() {
    let policy = RetryPolicy::exponential_3()
        .with_timeout(5_000 * MILLISECOND)
        .with_max_attempts(7);
    assert_eq!(policy.timeout, Some(5_000_000_000));
    assert_eq!(policy.max_attempts, 7);
    assert_eq!(policy.initial_backoff, 100_000_000);
    assert_eq!(policy.max_backoff, 5_000_000_000);
    assert_eq!(policy.backoff_multiplier, TWO);
}

#[test]
fn pauses_are_rounded_down() {
    assert_eq!(
        pauses(&growing_by(1.5), 5),
        vec![1_000, 1_500, 2_250, 3_375, 5_062]
    );
    assert_eq!(pauses(&growing_by(0.5), 4), vec![1_000, 500, 250, 125]);
}

#[test]
fn a_multiplier_of_one_keeps_the_pause() {
    let policy = growing_by(1.0);
    assert_eq!(policy.backoff_multiplier, ONE);
    assert_eq!(pauses(&policy, 3), vec![1_000, 1_000, 1_000]);
}

#[test]
fn odd_multipliers_are_harmless() {
    assert_eq!(pauses(&growing_by(f32::NAN), 2), vec![1_000, 0]);
    assert_eq!(pauses(&growing_by(-2.0), 2), vec![1_000, 0]);
    assert_eq!(pauses(&growing_by(-0.0), 2), vec![1_000, 0]);
    assert_eq!(pauses(&growing_by(0.0), 2), vec![1_000, 0]);
    assert_eq!(pauses(&growing_by(f32::INFINITY), 2), vec![1_000, 1_000_000]);
    assert_eq!(pauses(&growing_by(f32::MAX), 2), vec![1_000, 1_000_000]);
    assert_eq!(pauses(&growing_by(f32::MIN_POSITIVE), 2), vec![1_000, 0]);
    assert_eq!(pauses(&growing_by(f32::from_bits(1)), 2), vec![1_000, 0]);
    let idle = RetryPolicy {
        initial_backoff: 0,
        ..growing_by(f32::INFINITY)
    };
    assert_eq!(pauses(&idle, 2), vec![0, 0]);
}

#[test]
fn no_pause_exceeds_the_maximum() {
    let policy = RetryPolicy {
        initial_backoff: 9_999,
        max_backoff: 5_000,
        ..growing_by(3.0)
    };
    assert_eq!(pauses(&policy, 3), vec![5_000, 5_000, 5_000]);
    let endless = RetryPolicy {
        initial_backoff: u128::MAX,
        max_backoff: u128::MAX,
        ..growing_by(f32::MAX)
    };
    assert_eq!(pauses(&endless, 3), vec![LONGEST_PAUSE; 3]);
    assert_eq!(LONGEST_PAUSE, std::time::Duration::MAX.as_nanos());
}

#[test]
fn pauses_add_at_most_the_maximum_each() {
    let policy = RetryPolicy::exponential_3().with_max_attempts(20);
    let total: u128 = pauses(&policy, 19).iter().sum();
    assert!(total <= 19 * policy.max_backoff);
}
