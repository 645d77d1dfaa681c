//! Crawl statistics: counters over requests, responses and bodies read, kept for the
//! current reporting window and for the whole crawl. Times are milliseconds on a
//! monotonic clock that the caller reads.
use vstd::prelude::*;

use crate::response::Response;

verus! {

/// Counters since `start`.
#[derive(Debug, Clone, Copy, PartialEq, Eq)]
pub struct Stats {
    pub start: u64,
    pub n_requests: u64,
    pub n_responses: u64,
    pub n_read_responses: u64,
}

/// What a report states: the counters and the time they cover.
#[derive(Debug, Clone, Copy, PartialEq, Eq)]
pub struct StatsReport {
    pub n_requests: u64,
    pub n_responses: u64,
    pub n_read_responses: u64,
    pub elapsed: u64,
}

/// The time from `start` to `now`, or none where the clock reads earlier.
pub open spec fn elapsed_since(start: u64, now: u64) -> u64 {
    if now >= start {
        (now - start) as u64
    } else {
        0
    }
}

/// Whether a completion brought a response.
pub open spec fn responded(response: Option<Response>) -> bool {
    response.is_some()
}

/// Whether a completion brought a response with a body.
pub open spec fn read_body(response: Option<Response>) -> bool {
    response.is_some() && response.unwrap().body.is_some()
}

impl Stats {
    /// Responses are counted among requests, and bodies read among responses.
    pub open spec fn wf(self) -> bool {
        self.n_read_responses <= self.n_responses <= self.n_requests
    }

    /// Counters that are all no greater than those of `other`.
    pub open spec fn within(self, other: Stats) -> bool {
        &&& self.n_requests <= other.n_requests
        &&& self.n_responses <= other.n_responses
        &&& self.n_read_responses <= other.n_read_responses
    }

    /// The counters after one completion.
    pub open spec fn after_record(self, response: Option<Response>) -> Stats {
        Stats {
            n_requests: (self.n_requests + 1) as u64,
            n_responses: (self.n_responses + if responded(response) {
                1int
            } else {
                0
            }) as u64,
            n_read_responses: (self.n_read_responses + if read_body(response) {
                1int
            } else {
                0
            }) as u64,
            ..self
        }
    }

    /// Counters at zero from `now` on.
    pub fn new(now: u64) -> (r: Stats)
        ensures
            r == (Stats { start: now, n_requests: 0, n_responses: 0, n_read_responses: 0 }),
    {
        Stats { start: now, n_requests: 0, n_responses: 0, n_read_responses: 0 }
    }

    /// Counts one completed request, its response if any, and its body if read.
    pub fn record_response(&mut self, response: &Option<Response>)
        requires
            old(self).wf(),
            old(self).n_requests < u64::MAX,
        ensures
            final(self).wf(),
            *final(self) == old(self).after_record(*response),
    {
        self.n_requests = self.n_requests + 1;
        match response {
            Some(response) => {
                self.n_responses = self.n_responses + 1;
                if response.body.is_some() {
                    self.n_read_responses = self.n_read_responses + 1;
                }
            },
            None => {},
        }
    }

    /// The counters, and the time they cover up to `now`.
    pub fn report(&self, now: u64) -> (r: StatsReport)
        ensures
            r == (StatsReport {
                n_requests: self.n_requests,
                n_responses: self.n_responses,
                n_read_responses: self.n_read_responses,
                elapsed: elapsed_since(self.start, now),
            }),
    {
        let elapsed = if now >= self.start {
            now - self.start
        } else {
            0
        };
        StatsReport {
            n_requests: self.n_requests,
            n_responses: self.n_responses,
            n_read_responses: self.n_read_responses,
            elapsed,
        }
    }
}

/// The state of crawl statistics.
pub struct CrawlStatsView {
    pub report_every: u64,
    pub last_report: u64,
    pub last_stats: Stats,
    pub all_stats: Stats,
}

/// Statistics for the current window and for the whole crawl, reported every
/// `report_every` milliseconds.
pub struct CrawlStats {
    report_every: u64,
    last_report: u64,
    last_stats: Stats,
    all_stats: Stats,
}

impl View for CrawlStats {
    type V = CrawlStatsView;

    closed spec fn view(&self) -> CrawlStatsView {
        CrawlStatsView {
            report_every: self.report_every,
            last_report: self.last_report,
            last_stats: self.last_stats,
            all_stats: self.all_stats,
        }
    }
}

impl CrawlStats {
    /// Both sets of counters are consistent, and the window's never exceed the crawl's.
    pub open spec fn wf(&self) -> bool {
        &&& self@.last_stats.wf()
        &&& self@.all_stats.wf()
        &&& self@.last_stats.within(self@.all_stats)
    }

    /// Statistics at zero from `now` on, reported every `report_every` milliseconds.
    pub fn new(report_every: u64, now: u64) -> (r: CrawlStats)
        ensures
            r.wf(),
            r@.report_every == report_every,
            r@.last_report == now,
            r@.last_stats == (Stats {
                start: now,
                n_requests: 0,
                n_responses: 0,
                n_read_responses: 0,
            }),
            r@.all_stats == r@.last_stats,
    {
        CrawlStats {
            report_every,
            last_report: now,
            last_stats: Stats::new(now),
            all_stats: Stats::new(now),
        }
    }

    /// The counters of the whole crawl.
    pub fn overall(&self) -> (r: Stats)
        ensures
            r == self@.all_stats,
    {
        self.all_stats
    }

    /// Counts one completion in the window and in the whole crawl.
    pub fn record_response(&mut self, response: &Option<Response>)
        requires
            old(self).wf(),
            old(self)@.all_stats.n_requests < u64::MAX,
        ensures
            final(self).wf(),
            final(self)@ == (CrawlStatsView {
                last_stats: old(self)@.last_stats.after_record(*response),
                all_stats: old(self)@.all_stats.after_record(*response),
                ..old(self)@
            }),
    {
        self.last_stats.record_response(response);
        self.all_stats.record_response(response);
    }

    /// Once `report_every` has passed since the last report, the reports of the window
    /// and of the whole crawl up to `now`; a new window then starts at `now`. Before
    /// that, nothing.
    pub fn maybe_report(&mut self, now: u64) -> (r: Option<(StatsReport, StatsReport)>)
        requires
            old(self).wf(),
        ensures
            final(self).wf(),
            elapsed_since(old(self)@.last_report, now) < old(self)@.report_every ==> r.is_none()
                && final(self)@ == old(self)@,
            elapsed_since(old(self)@.last_report, now) >= old(self)@.report_every ==> {
                &&& r == Some(
                    (
                        StatsReport {
                            n_requests: old(self)@.last_stats.n_requests,
                            n_responses: old(self)@.last_stats.n_responses,
                            n_read_responses: old(self)@.last_stats.n_read_responses,
                            elapsed: elapsed_since(old(self)@.last_stats.start, now),
                        },
                        StatsReport {
                            n_requests: old(self)@.all_stats.n_requests,
                            n_responses: old(self)@.all_stats.n_responses,
                            n_read_responses: old(self)@.all_stats.n_read_responses,
                            elapsed: elapsed_since(old(self)@.all_stats.start, now),
                        },
                    ),
                )
                &&& final(self)@ == (CrawlStatsView {
                    last_report: now,
                    last_stats: Stats {
                        start: now,
                        n_requests: 0,
                        n_responses: 0,
                        n_read_responses: 0,
                    },
                    ..old(self)@
                })
            },
    {
        let elapsed = if now >= self.last_report {
            now - self.last_report
        } else {
            0
        };
        if elapsed < self.report_every {
            return None;
        }
        let window = self.last_stats.report(now);
        let overall = self.all_stats.report(now);
        self.last_stats = Stats::new(now);
        self.last_report = now;
        Some((window, overall))
    }
}

} // verus!
