//! The per-site worker: the decision half of the report pipeline.
//!
//! One worker serves one site.  It holds no sockets and no clocks:
//! the driver asks [`Worker::next_action`] what to do, performs the
//! outside work — acquire a permit, run the crawl, fetch a report,
//! push the packaged event, wait out the pacing interval — and
//! reports each outcome through the `on_*` methods.  The worker
//! walks the discovered URL list strictly in order, stops the whole
//! site on the first report failure, and treats a disconnected
//! subscriber as a normal stop, not an error.  An outcome reported
//! out of protocol stops the worker rather than corrupting it; the
//! stopped phase is therefore absorbing under every outcome, and
//! since only the `AwaitReport` phase ever asks for a report fetch,
//! a worker performs no further report requests once the sink has
//! reported disconnection.

use vstd::prelude::*;
use crate::crawler::url_views;
use crate::urls::{PageUrl, UrlView};

verus! {

/// The worker's position in its run.
#[derive(Debug, PartialEq, Eq, Structural, Clone, Copy)]
pub enum Phase {
    /// Waiting for a governor permit.
    AwaitPermit,
    /// Permit held; the site's crawl has not finished yet.
    AwaitCrawl,
    /// Waiting for the report of the current URL.
    AwaitReport,
    /// Report in hand; waiting for the sink push's outcome.
    AwaitPush,
    /// Event delivered; waiting out the inter-request pacing.
    AwaitPause,
    /// Finished: release the permit, do no further work.
    Stopped,
}

/// What the worker asks its driver to do next.
#[derive(Debug)]
pub enum WorkerAction {
    /// Take one governor permit before any work.
    AcquirePermit,
    /// Run the site's sitemap crawl.
    RunCrawl,
    /// Request a report for this URL.
    FetchReport { url: String },
    /// Package the report as an event keyed by this URL and push it
    /// downstream.
    PushEvent { url: String },
    /// Wait the fixed inter-request interval.
    Pause,
    /// Release the permit if one is held, and stop.
    Stop,
}

/// One site's worker state.
pub struct Worker {
    urls: Vec<PageUrl>,
    next: usize,
    phase: Phase,
}

impl Worker {
    /// The current phase.
    pub closed spec fn spec_phase(self) -> Phase {
        self.phase
    }

    /// The discovered URL list being walked.
    pub closed spec fn spec_urls(self) -> Seq<UrlView> {
        url_views(self.urls@)
    }

    /// The position of the URL currently being worked on.
    pub closed spec fn spec_next(self) -> nat {
        self.next as nat
    }

    /// Well-formed: the cursor never runs past the list, and it
    /// stands strictly inside it whenever a URL is being worked on.
    pub open spec fn wf(self) -> bool {
        &&& self.spec_next() <= self.spec_urls().len()
        &&& ((self.spec_phase() == Phase::AwaitReport || self.spec_phase() == Phase::AwaitPush
            || self.spec_phase() == Phase::AwaitPause) ==> self.spec_next()
            < self.spec_urls().len())
    }

    /// A fresh worker, before any permit is held.
    pub fn new() -> (w: Worker)
        ensures
            w.spec_phase() == Phase::AwaitPermit,
            w.spec_urls().len() == 0,
            w.spec_next() == 0,
            w.wf(),
    {
        Worker { urls: Vec::new(), next: 0, phase: Phase::AwaitPermit }
    }

    /// What the driver should do next.  Only the `AwaitReport` phase
    /// ever asks for a report fetch; a stopped worker asks for
    /// nothing but `Stop`.
    pub fn next_action(&self) -> (a: WorkerAction)
        requires
            self.wf(),
        ensures
            self.spec_phase() == Phase::AwaitPermit ==> a == WorkerAction::AcquirePermit,
            self.spec_phase() == Phase::AwaitCrawl ==> a == WorkerAction::RunCrawl,
            self.spec_phase() == Phase::AwaitReport ==> (a matches WorkerAction::FetchReport {
                url,
            } && url@ == self.spec_urls()[self.spec_next() as int].full),
            self.spec_phase() == Phase::AwaitPush ==> (a matches WorkerAction::PushEvent { url }
                && url@ == self.spec_urls()[self.spec_next() as int].full),
            self.spec_phase() == Phase::AwaitPause ==> a == WorkerAction::Pause,
            self.spec_phase() == Phase::Stopped ==> a == WorkerAction::Stop,
            (a matches WorkerAction::FetchReport { .. }) <==> self.spec_phase()
                == Phase::AwaitReport,
    {
        match self.phase {
            Phase::AwaitPermit => WorkerAction::AcquirePermit,
            Phase::AwaitCrawl => WorkerAction::RunCrawl,
            Phase::AwaitReport => WorkerAction::FetchReport {
                url: self.urls[self.next].full.clone(),
            },
            Phase::AwaitPush => WorkerAction::PushEvent { url: self.urls[self.next].full.clone() },
            Phase::AwaitPause => WorkerAction::Pause,
            Phase::Stopped => WorkerAction::Stop,
        }
    }

    /// The permit outcome.  A denied permit (the governor is closed
    /// or shutting down) stops the worker silently before any work.
    pub fn on_permit(&mut self, granted: bool)
        requires
            old(self).wf(),
        ensures
            final(self).wf(),
            final(self).spec_urls() == old(self).spec_urls(),
            final(self).spec_next() == old(self).spec_next(),
            old(self).spec_phase() == Phase::AwaitPermit && granted ==> final(self).spec_phase()
                == Phase::AwaitCrawl,
            old(self).spec_phase() == Phase::AwaitPermit && !granted ==> final(self).spec_phase()
                == Phase::Stopped,
            old(self).spec_phase() != Phase::AwaitPermit ==> final(self).spec_phase()
                == Phase::Stopped,
    {
        match self.phase {
            Phase::AwaitPermit => {
                if granted {
                    self.phase = Phase::AwaitCrawl;
                } else {
                    self.phase = Phase::Stopped;
                }
            },
            _ => {
                self.phase = Phase::Stopped;
            },
        }
    }

    /// The crawl outcome.  A failed crawl emits nothing and stops
    /// this worker only — one site's crawl failure never reaches the
    /// subscriber.  A finished crawl hands over the discovered list;
    /// an empty list stops at once.
    pub fn on_crawl(&mut self, result: Option<Vec<PageUrl>>)
        requires
            old(self).wf(),
        ensures
            final(self).wf(),
            ({
                old(self).spec_phase() == Phase::AwaitCrawl && (result matches Some(urls)
                    && urls@.len() > 0)
            }) ==> final(self).spec_phase() == Phase::AwaitReport && final(self).spec_urls()
                == url_views(result->Some_0@) && final(self).spec_next() == 0,
            ({
                old(self).spec_phase() == Phase::AwaitCrawl && (result matches Some(urls)
                    && urls@.len() == 0)
            }) ==> final(self).spec_phase() == Phase::Stopped,
            old(self).spec_phase() == Phase::AwaitCrawl && result is None ==> final(self).spec_phase() == Phase::Stopped,
            old(self).spec_phase() != Phase::AwaitCrawl ==> final(self).spec_phase()
                == Phase::Stopped,
    {
        match self.phase {
            Phase::AwaitCrawl => {
                match result {
                    Some(urls) => {
                        if urls.len() == 0 {
                            self.phase = Phase::Stopped;
                        } else {
                            self.urls = urls;
                            self.next = 0;
                            self.phase = Phase::AwaitReport;
                        }
                    },
                    None => {
                        self.phase = Phase::Stopped;
                    },
                }
            },
            _ => {
                self.phase = Phase::Stopped;
            },
        }
    }

    /// The report outcome for the current URL.  Failure stops this
    /// site's remaining URLs: no retry, no skip-and-continue.
    pub fn on_report(&mut self, ok: bool)
        requires
            old(self).wf(),
        ensures
            final(self).wf(),
            final(self).spec_urls() == old(self).spec_urls(),
            final(self).spec_next() == old(self).spec_next(),
            old(self).spec_phase() == Phase::AwaitReport && ok ==> final(self).spec_phase()
                == Phase::AwaitPush,
            old(self).spec_phase() == Phase::AwaitReport && !ok ==> final(self).spec_phase()
                == Phase::Stopped,
            old(self).spec_phase() != Phase::AwaitReport ==> final(self).spec_phase()
                == Phase::Stopped,
    {
        match self.phase {
            Phase::AwaitReport => {
                if ok {
                    self.phase = Phase::AwaitPush;
                } else {
                    self.phase = Phase::Stopped;
                }
            },
            _ => {
                self.phase = Phase::Stopped;
            },
        }
    }

    /// The sink outcome.  A delivered event leads into the pacing
    /// pause; a disconnected subscriber stops the worker at once —
    /// the remaining URLs are abandoned, and nothing is retried.
    pub fn on_push(&mut self, delivered: bool)
        requires
            old(self).wf(),
        ensures
            final(self).wf(),
            final(self).spec_urls() == old(self).spec_urls(),
            final(self).spec_next() == old(self).spec_next(),
            old(self).spec_phase() == Phase::AwaitPush && delivered ==> final(self).spec_phase()
                == Phase::AwaitPause,
            old(self).spec_phase() == Phase::AwaitPush && !delivered ==> final(self).spec_phase()
                == Phase::Stopped,
            old(self).spec_phase() != Phase::AwaitPush ==> final(self).spec_phase()
                == Phase::Stopped,
    {
        match self.phase {
            Phase::AwaitPush => {
                if delivered {
                    self.phase = Phase::AwaitPause;
                } else {
                    self.phase = Phase::Stopped;
                }
            },
            _ => {
                self.phase = Phase::Stopped;
            },
        }
    }

    /// The pacing pause has elapsed: move to the next URL in
    /// discovery order, or stop when the list is done.
    pub fn on_pause(&mut self)
        requires
            old(self).wf(),
        ensures
            final(self).wf(),
            final(self).spec_urls() == old(self).spec_urls(),
            old(self).spec_phase() == Phase::AwaitPause && old(self).spec_next() + 1 < old(self).spec_urls().len() ==> final(self).spec_phase() == Phase::AwaitReport && final(self).spec_next() == old(self).spec_next() + 1,
            old(self).spec_phase() == Phase::AwaitPause && old(self).spec_next() + 1 >= old(self).spec_urls().len() ==> final(self).spec_phase() == Phase::Stopped,
            old(self).spec_phase() != Phase::AwaitPause ==> final(self).spec_phase()
                == Phase::Stopped && final(self).spec_next() == old(self).spec_next(),
    {
        match self.phase {
            Phase::AwaitPause => {
                let n = self.urls.len();
                proof {
                    assert(self.next < n);
                }
                self.next = self.next + 1;
                if self.next < self.urls.len() {
                    self.phase = Phase::AwaitReport;
                } else {
                    self.phase = Phase::Stopped;
                }
            },
            _ => {
                self.phase = Phase::Stopped;
            },
        }
    }
}

} // verus!
