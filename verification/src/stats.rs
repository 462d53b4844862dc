//! Running totals of the bridge, and the periodic report on them.

use vstd::prelude::*;

verus! {

/// Seconds between two reports.
pub const REPORT_INTERVAL_SECS: u64 = 2;

/// The count after `count`: the totals wrap at the end of `u64`.
pub open spec fn count_after(count: u64) -> u64 {
    if count == u64::MAX {
        0
    } else {
        (count + 1) as u64
    }
}

/// The count after `count`.
pub fn count_up(count: u64) -> (next: u64)
    ensures
        next == count_after(count),
{
    if count == u64::MAX {
        0
    } else {
        count + 1
    }
}

/// Totals since the start of the process or since the reporter last
/// reset them.
#[derive(Debug, Clone, Copy, PartialEq, Eq, Structural)]
pub struct Stats {
    /// Messages received from MQTT.
    pub received_total: u64,
    /// Records published to Kafka.
    pub published_total: u64,
    /// Records in flight at the Kafka producer when a message was last
    /// admitted.
    pub in_flight_snapshot: i32,
}

impl Stats {
    /// Totals that stand at zero.
    pub fn new() -> (stats: Stats)
        ensures
            stats == (Stats { received_total: 0, published_total: 0, in_flight_snapshot: 0 }),
    {
        Stats { received_total: 0, published_total: 0, in_flight_snapshot: 0 }
    }
}

/// One line of the report.
#[derive(Debug, Clone, Copy, PartialEq, Eq, Structural)]
pub struct StatsReport {
    pub received: u64,
    pub published: u64,
    /// Messages received per second since the sample before.
    pub rate: u64,
    pub in_flight: i32,
    /// Whether the totals were set back to zero after this report.
    pub reset: bool,
}

/// How many messages were counted between the sample `last` and the sample
/// `current` of a total that wraps at the end of `u64`.
pub open spec fn counted_between(last: u64, current: u64) -> int {
    if last <= current {
        current - last
    } else {
        current - last + u64::MAX + 1
    }
}

/// The reporter: it remembers the total of received messages that it saw
/// last.
#[derive(Debug, Clone, Copy, PartialEq, Eq, Structural)]
pub struct StatsReporter {
    pub last: u64,
}

impl StatsReporter {
    /// A reporter that has seen nothing yet.
    pub fn new() -> (reporter: StatsReporter)
        ensures
            reporter.last == 0,
    {
        StatsReporter { last: 0 }
    }

    /// Whether a sample is reported: not while nothing was ever received.
    pub open spec fn reports(self, stats: Stats) -> bool {
        !(stats.received_total == 0 && self.last == 0)
    }

    /// Whether a sample ends a burst: the total stands where it stood at
    /// the sample before, and not at zero.
    pub open spec fn resets(self, stats: Stats) -> bool {
        stats.received_total == self.last && stats.received_total != 0
    }

    /// The line for the sample `stats`.
    pub open spec fn report_of(self, stats: Stats) -> StatsReport {
        StatsReport {
            received: stats.received_total,
            published: stats.published_total,
            rate: (counted_between(self.last, stats.received_total) / (
            REPORT_INTERVAL_SECS as int)) as u64,
            in_flight: stats.in_flight_snapshot,
            reset: self.resets(stats),
        }
    }

    /// Takes one sample of `stats`, to be called every
    /// `REPORT_INTERVAL_SECS` seconds. Nothing is reported while nothing
    /// was ever received. Where no message came since the sample before,
    /// the burst is over: the totals and the remembered sample go back to
    /// zero, so that the rate of the next burst starts from a clean
    /// baseline.
    pub fn tick(&mut self, stats: &mut Stats) -> (report: Option<StatsReport>)
        ensures
            report == if old(self).reports(*old(stats)) {
                Some(old(self).report_of(*old(stats)))
            } else {
                None
            },
            final(stats).in_flight_snapshot == old(stats).in_flight_snapshot,
            old(self).reports(*old(stats)) && old(self).resets(*old(stats)) ==> {
                &&& final(self).last == 0
                &&& final(stats).received_total == 0
                &&& final(stats).published_total == 0
            },
            old(self).reports(*old(stats)) && !old(self).resets(*old(stats)) ==> {
                &&& final(self).last == old(stats).received_total
                &&& *final(stats) == *old(stats)
            },
            !old(self).reports(*old(stats)) ==> {
                &&& *final(self) == *old(self)
                &&& *final(stats) == *old(stats)
            },
    {
        let current = stats.received_total;
        let current_published = stats.published_total;
        if current == 0 && self.last == 0 {
            return None;
        }
        let delta = if self.last <= current {
            current - self.last
        } else {
            (u64::MAX - self.last) + current + 1
        };
        let reset = current == self.last && current != 0;
        let report = StatsReport {
            received: current,
            published: current_published,
            rate: delta / REPORT_INTERVAL_SECS,
            in_flight: stats.in_flight_snapshot,
            reset,
        };
        if reset {
            self.last = 0;
            stats.received_total = 0;
            stats.published_total = 0;
        } else {
            self.last = current;
        }
        Some(report)
    }
}

} // verus!
