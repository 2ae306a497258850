use relayer::field::Field;
use relayer::validator::{BalanceReading, BalanceRequirement};
use relayer::watcher::{
    resolves_at, BalanceWatcher, WatchDecision, WatchEvent, WatcherConfig,
};

fn requirement(amount: &str) -> BalanceRequirement {
    BalanceRequirement {
        address: "0xfeed".to_string(),
        amount: amount.to_string(),
        token_symbol: "usdc".to_string(),
    }
}

fn balance(v: u64) -> BalanceReading {
    BalanceReading::Balance(Field::from_u64(v))
}

#[test]
fn resolves_only_after_the_second_query() {
    let mut watcher = BalanceWatcher::new(requirement("5"), WatcherConfig::unbounded());
    assert_eq!(
        watcher.observe(WatchEvent::Observed(balance(4))),
        WatchDecision::Retry { after_ms: 1000 }
    );
    assert_eq!(watcher.attempts, 1);
    assert_eq!(watcher.observe(WatchEvent::Observed(balance(6))), WatchDecision::Funded);
    assert_eq!(watcher.attempts, 2);
    assert_eq!(resolves_at("5", &vec![balance(4), balance(6)]), Some(1));
}

#[test]
fn the_unbounded_configuration_never_gives_up() {
    let config = WatcherConfig::unbounded();
    assert_eq!(config.interval_ms, 1000);
    assert_eq!(config.max_attempts, None);
    let mut watcher = BalanceWatcher::new(requirement("5"), config);
    watcher.attempts = u64::MAX - 1;
    assert_eq!(
        watcher.observe(WatchEvent::Observed(balance(0))),
        WatchDecision::Retry { after_ms: 1000 }
    );
    assert_eq!(watcher.attempts, u64::MAX);
    assert_eq!(
        watcher.observe(WatchEvent::Observed(balance(0))),
        WatchDecision::Retry { after_ms: 1000 }
    );
    assert_eq!(watcher.attempts, u64::MAX);
}

#[test]
fn an_exact_balance_is_enough() {
    let mut watcher = BalanceWatcher::new(requirement("5"), WatcherConfig::unbounded());
    assert_eq!(watcher.observe(WatchEvent::Observed(balance(5))), WatchDecision::Funded);
}

#[test]
fn a_failed_query_is_tried_again() {
    let mut watcher = BalanceWatcher::new(requirement("5"), WatcherConfig::bounded(250, 3));
    assert_eq!(
        watcher.observe(WatchEvent::Observed(BalanceReading::Unavailable)),
        WatchDecision::Retry { after_ms: 250 }
    );
    assert_eq!(watcher.attempts, 1);
    assert_eq!(watcher.requirement, requirement("5"));
    assert_eq!(watcher.config, WatcherConfig::bounded(250, 3));
}

#[test]
fn a_bounded_watcher_times_out() {
    let mut watcher = BalanceWatcher::new(requirement("5"), WatcherConfig::bounded(250, 3));
    assert_eq!(
        watcher.observe(WatchEvent::Observed(balance(1))),
        WatchDecision::Retry { after_ms: 250 }
    );
    assert_eq!(
        watcher.observe(WatchEvent::Observed(BalanceReading::Unavailable)),
        WatchDecision::Retry { after_ms: 250 }
    );
    assert_eq!(watcher.observe(WatchEvent::Observed(balance(4))), WatchDecision::TimedOut);
    assert_eq!(watcher.attempts, 3);
}

#[test]
fn funds_at_the_last_attempt_still_count() {
    let mut watcher = BalanceWatcher::new(requirement("5"), WatcherConfig::bounded(250, 2));
    assert_eq!(
        watcher.observe(WatchEvent::Observed(balance(1))),
        WatchDecision::Retry { after_ms: 250 }
    );
    assert_eq!(watcher.observe(WatchEvent::Observed(balance(9))), WatchDecision::Funded);
}

#[test]
fn a_limit_of_zero_or_one_allows_one_query() {
    let mut watcher = BalanceWatcher::new(requirement("5"), WatcherConfig::bounded(250, 0));
    assert_eq!(watcher.observe(WatchEvent::Observed(balance(1))), WatchDecision::TimedOut);
    let mut watcher = BalanceWatcher::new(requirement("5"), WatcherConfig::bounded(250, 1));
    assert_eq!(watcher.observe(WatchEvent::Observed(balance(1))), WatchDecision::TimedOut);
    let mut watcher = BalanceWatcher::new(requirement("5"), WatcherConfig::bounded(250, 0));
    assert_eq!(watcher.observe(WatchEvent::Observed(balance(5))), WatchDecision::Funded);
}

#[test]
fn cancelling_ends_the_wait() {
    let mut watcher = BalanceWatcher::new(requirement("5"), WatcherConfig::unbounded());
    assert_eq!(watcher.observe(WatchEvent::Cancelled), WatchDecision::Cancelled);
    assert_eq!(watcher.attempts, 0);
}

#[test]
fn an_unreadable_amount_is_never_funded() {
    let mut watcher = BalanceWatcher::new(requirement("5.50"), WatcherConfig::unbounded());
    assert_eq!(
        watcher.observe(WatchEvent::Observed(BalanceReading::Balance(Field {
            limbs: [u64::MAX; 4]
        }))),
        WatchDecision::Retry { after_ms: 1000 }
    );
    assert_eq!(resolves_at("5.50", &vec![balance(100), balance(1000)]), None);
    assert_eq!(resolves_at("five", &vec![balance(100)]), None);
}

#[test]
fn resolution_is_the_first_covering_reading() {
    assert_eq!(resolves_at("5", &vec![]), None);
    assert_eq!(resolves_at("5", &vec![balance(5)]), Some(0));
    assert_eq!(resolves_at("5", &vec![balance(1), balance(2), balance(3)]), None);
    assert_eq!(
        resolves_at(
            "5",
            &vec![balance(1), BalanceReading::Unavailable, balance(7), balance(0), balance(9)]
        ),
        Some(2)
    );
    assert_eq!(
        resolves_at(
            "18446744073709551616",
            &vec![balance(u64::MAX), BalanceReading::Balance(Field { limbs: [0, 1, 0, 0] })]
        ),
        Some(1)
    );
}
