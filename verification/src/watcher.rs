//! Waiting for funds: the decision after each query of a balance.
//!
//! The watcher does not query and does not sleep. It is told what a query
//! gave and says what to do next; whoever drives it performs the query
//! again after the interval for as long as the answer is `Retry`.

use crate::field::{parse_decimal, DecimalError, Field};
use crate::validator::{balance_covers, covers, BalanceReading, BalanceRequirement, ReadingView};
use vstd::prelude::*;

verus! {

/// How patiently to wait. `max_attempts` is the number of queries after
/// which the watcher gives up; `None` means that it never does.
#[derive(Clone, Copy, Debug, PartialEq, Eq)]
pub struct WatcherConfig {
    pub interval_ms: u64,
    pub max_attempts: Option<u64>,
}

/// What happened while waiting.
#[derive(Clone, Copy, Debug, PartialEq, Eq)]
pub enum WatchEvent {
    /// A query was made, and this is what it gave.
    Observed(BalanceReading),
    /// The request was abandoned.
    Cancelled,
}

pub enum WatchEventView {
    Observed(ReadingView),
    Cancelled,
}

impl View for WatchEvent {
    type V = WatchEventView;

    open spec fn view(&self) -> WatchEventView {
        match self {
            WatchEvent::Observed(reading) => WatchEventView::Observed(reading@),
            WatchEvent::Cancelled => WatchEventView::Cancelled,
        }
    }
}

/// What to do after an event.
#[derive(Clone, Copy, Debug, PartialEq, Eq, Structural)]
pub enum WatchDecision {
    /// The balance covers the amount: the wait is over.
    Funded,
    /// Query again after so many milliseconds.
    Retry { after_ms: u64 },
    /// The allowed number of queries is used up.
    TimedOut,
    /// The wait was cancelled.
    Cancelled,
}

/// The reading shows a balance that covers the amount. A failed query
/// shows none.
pub open spec fn funded_by(amount: Seq<char>, reading: ReadingView) -> bool {
    reading matches ReadingView::Balance(balance) && covers(balance, amount)
}

/// The decision after an event, `attempts` queries having been made before
/// it.
pub open spec fn watch_decision(
    amount: Seq<char>,
    config: WatcherConfig,
    attempts: nat,
    event: WatchEventView,
) -> WatchDecision {
    match event {
        WatchEventView::Cancelled => WatchDecision::Cancelled,
        WatchEventView::Observed(reading) => if funded_by(amount, reading) {
            WatchDecision::Funded
        } else if config.max_attempts matches Some(limit) && attempts + 1 >= limit {
            WatchDecision::TimedOut
        } else {
            WatchDecision::Retry { after_ms: config.interval_ms }
        },
    }
}

/// The wait of one request for its funds.
#[derive(Debug, PartialEq, Eq)]
pub struct BalanceWatcher {
    pub requirement: BalanceRequirement,
    pub config: WatcherConfig,
    /// The queries made so far; it stops counting at `u64::MAX`.
    pub attempts: u64,
}

impl WatcherConfig {
    /// One query a second, for ever.
    pub fn unbounded() -> (r: WatcherConfig)
        ensures
            r.interval_ms == 1000,
            r.max_attempts is None,
    {
        WatcherConfig { interval_ms: 1000, max_attempts: None }
    }

    /// One query every `interval_ms` milliseconds, `max_attempts` at most.
    pub fn bounded(interval_ms: u64, max_attempts: u64) -> (r: WatcherConfig)
        ensures
            r.interval_ms == interval_ms,
            r.max_attempts == Some(max_attempts),
    {
        WatcherConfig { interval_ms, max_attempts: Some(max_attempts) }
    }
}

impl BalanceWatcher {
    pub fn new(requirement: BalanceRequirement, config: WatcherConfig) -> (r: BalanceWatcher)
        ensures
            r.requirement == requirement,
            r.config == config,
            r.attempts == 0,
    {
        BalanceWatcher { requirement, config, attempts: 0 }
    }

    /// Takes note of an event and decides what to do next. A query counts
    /// as an attempt whatever it gave.
    pub fn observe(&mut self, event: WatchEvent) -> (r: WatchDecision)
        ensures
            r == watch_decision(
                old(self).requirement@.amount,
                old(self).config,
                old(self).attempts as nat,
                event@,
            ),
            final(self).requirement == old(self).requirement,
            final(self).config == old(self).config,
            final(self).attempts == if event is Observed && old(self).attempts < u64::MAX {
                (old(self).attempts + 1) as u64
            } else {
                old(self).attempts
            },
    {
        match event {
            WatchEvent::Cancelled => WatchDecision::Cancelled,
            WatchEvent::Observed(reading) => {
                let before = self.attempts;
                if before < u64::MAX {
                    self.attempts = before + 1;
                }
                let funded = match reading {
                    BalanceReading::Balance(balance) => balance_covers(
                        &balance,
                        self.requirement.amount.as_str(),
                    ),
                    BalanceReading::Unavailable => false,
                };
                if funded {
                    WatchDecision::Funded
                } else {
                    let spent = match self.config.max_attempts {
                        Some(limit) => limit == 0 || before >= limit - 1,
                        None => false,
                    };
                    if spent {
                        WatchDecision::TimedOut
                    } else {
                        WatchDecision::Retry { after_ms: self.config.interval_ms }
                    }
                }
            },
        }
    }
}

/// The first of a series of readings that shows the funds, `None` if none
/// of them does.
pub fn resolves_at(amount: &str, readings: &Vec<BalanceReading>) -> (r: Option<usize>)
    ensures
        match r {
            Some(i) => i < readings.len() && funded_by(amount@, readings@[i as int]@) && forall|
                j: int,
            |
                0 <= j < i ==> !funded_by(amount@, #[trigger] readings@[j]@),
            None => forall|j: int|
                0 <= j < readings.len() ==> !funded_by(amount@, #[trigger] readings@[j]@),
        },
{
    let needed = match Field::from_dec_str(amount) {
        Ok(needed) => needed,
        Err(_) => { return None; },
    };
    let mut i: usize = 0;
    while i < readings.len()
        invariant
            i <= readings.len(),
            parse_decimal(amount@) == Ok::<nat, DecimalError>(needed@),
            forall|j: int| 0 <= j < i ==> !funded_by(amount@, #[trigger] readings@[j]@),
        decreases readings.len() - i,
    {
        match readings[i] {
            BalanceReading::Balance(balance) => {
                if balance.ge(&needed) {
                    return Some(i);
                }
            },
            BalanceReading::Unavailable => {},
        }
        i += 1;
    }
    None
}

/// A watcher without a limit, left alone, goes on exactly until the first
/// reading that shows the funds: it answers `Retry` to every reading
/// before that one and `Funded` to that one.
pub proof fn law_watcher_resolves_at_first_cover(
    amount: Seq<char>,
    config: WatcherConfig,
    readings: Seq<ReadingView>,
    first: int,
)
    requires
        config.max_attempts is None,
        0 <= first < readings.len(),
        funded_by(amount, readings[first]),
        forall|j: int| 0 <= j < first ==> !funded_by(amount, #[trigger] readings[j]),
    ensures
        forall|j: int|
            0 <= j < first ==> watch_decision(
                amount,
                config,
                j as nat,
                WatchEventView::Observed(#[trigger] readings[j]),
            ) == (WatchDecision::Retry { after_ms: config.interval_ms }),
        watch_decision(amount, config, first as nat, WatchEventView::Observed(readings[first]))
            == WatchDecision::Funded,
{
}

} // verus!
