use clawnicle::{Budget, BudgetUsage, CancelToken};

#[test]
fn unlimited_budget_never_exceeds() {
    let usage = BudgetUsage {
        tokens: u64::MAX,
        usd_micros: u64::MAX,
        wallclock_ms: u64::MAX,
    };
    assert_eq!(usage.exceeds(&Budget::unlimited()), None);
}

#[test]
fn wallclock_cap_trips() {
    let usage = BudgetUsage {
        wallclock_ms: 1001,
        ..BudgetUsage::zero()
    };
    let budget = Budget::unlimited().with_max_wallclock_ms(1000);
    assert_eq!(usage.exceeds(&budget), Some("wallclock"));
}

#[test]
fn token_cap_trips_first() {
    let usage = BudgetUsage {
        tokens: 101,
        usd_micros: 100,
        wallclock_ms: 100,
    };
    let budget = Budget {
        max_tokens: Some(100),
        max_usd_micros: Some(200),
        max_wallclock_ms: Some(200),
    };
    assert_eq!(usage.exceeds(&budget), Some("tokens"));
}

#[test]
fn token_clones_share_one_flag() {
    let a = CancelToken::new();
    let b = a.clone();
    assert!(!a.is_cancelled());
    b.cancel();
    assert!(a.is_cancelled());
}

#[test]
fn caps_may_be_reached_exactly() {
    let usage = BudgetUsage {
        tokens: 100,
        usd_micros: 200,
        wallclock_ms: 300,
    };
    let budget = Budget::unlimited()
        .with_max_tokens(100)
        .with_max_usd_micros(200)
        .with_max_wallclock_ms(300);
    assert_eq!(usage.exceeds(&budget), None);
    assert_eq!(usage.exceeds(&budget.with_max_usd_micros(199)), Some("usd"));
}

#[test]
fn defaults_are_unlimited_and_zero() {
    let budget = Budget::default();
    assert_eq!(budget.max_tokens, None);
    assert_eq!(budget.max_usd_micros, None);
    assert_eq!(budget.max_wallclock_ms, None);
    let usage = BudgetUsage::default();
    assert_eq!((usage.tokens, usage.usd_micros, usage.wallclock_ms), (0, 0, 0));
}

#[test]
fn a_breach_is_permanent() {
    let budget = Budget::unlimited().with_max_tokens(10);
    let mut usage = BudgetUsage::zero();
    usage.tokens = 11;
    assert_eq!(usage.exceeds(&budget), Some("tokens"));
    usage.tokens = 12;
    usage.wallclock_ms = 1;
    assert_eq!(usage.exceeds(&budget), Some("tokens"));
}

#[test]
fn a_default_token_is_not_cancelled() {
    assert!(!CancelToken::default().is_cancelled());
}
