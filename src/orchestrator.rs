//! The query orchestrator: on each input change it bumps the generation and
//! reschedules the debounce; when the debounce fires it asks the driver to
//! fan out; each arriving batch is shown only while its generation is
//! current. A short clear timer empties the list of an older query only if
//! no batch of the new one came first.
use vstd::prelude::*;
use crate::debounce::{fired, scheduled, DebounceModel, Debouncer, TimerCommand};
use crate::generation::GenerationCounter;
use crate::provider::{batch_view, search_terms, ResultModel, SearchResult};
use crate::text::{views_of, words_of};

verus! {

/// Debounce delay of backend queries, in milliseconds.
pub const PROVIDER_DEBOUNCE_MS: u32 = 120;

/// Delay of the timer that clears an older query's results, in milliseconds.
pub const CLEAR_STALE_MS: u32 = 25;

/// What the driver does after an input change.
#[derive(Debug, Clone, Copy, PartialEq, Eq)]
pub enum InputOutcome {
    /// The query has no terms: the list was emptied and nothing is scheduled.
    Cleared { cancel: Option<u64> },
    /// No backend is available: the list holds only the notice.
    NoBackends { cancel: Option<u64> },
    /// A debounce timer is to be (re)armed.
    Scheduled(TimerCommand),
}

/// A query to fan out to every backend.
pub struct FanOutRequest {
    /// The generation that every delivery of this query carries.
    pub generation: u64,
    /// The search terms.
    pub terms: Vec<String>,
    /// The cap on results per backend.
    pub max_results: usize,
    /// Delay of the clear timer to arm, tagged with `generation`.
    pub clear_delay_ms: u32,
}

/// What became of a delivered batch.
#[derive(Debug, Clone, Copy, PartialEq, Eq)]
pub enum Delivery {
    /// Its query was superseded: it was dropped.
    Stale,
    /// It was shown; `cancel_clear` names the clear timer to remove, if one
    /// was armed for this query.
    Accepted { cancel_clear: Option<u64> },
}

/// Where the orchestrator stands for the current query.
#[derive(Debug, Clone, Copy, PartialEq, Eq)]
pub enum Phase {
    /// Nothing pending and no fan-out of the current query in flight.
    Idle,
    /// A debounce trigger is pending.
    Debouncing,
    /// The current query's fan-out has not finished.
    FanningOut,
}

/// The single-owner state of the search orchestration.
pub struct Orchestrator {
    generation: GenerationCounter,
    debounce: Debouncer,
    query: String,
    max_results: usize,
    delay_ms: u32,
    clear_delay_ms: u32,
    clear_pending: Option<u64>,
    accepted: Option<u64>,
    visible: Vec<SearchResult>,
    no_backends: bool,
    in_flight: Option<u64>,
}

impl Orchestrator {
    /// The current generation.
    pub closed spec fn current(&self) -> u64 {
        self.generation.value()
    }

    /// The state of the debounce scheduler.
    pub closed spec fn debounce_state(&self) -> DebounceModel {
        self.debounce@
    }

    /// The results on display.
    pub closed spec fn shown(&self) -> Seq<ResultModel> {
        batch_view(self.visible@)
    }

    /// The generation whose clear timer is armed, if any.
    pub closed spec fn clear_armed(&self) -> Option<u64> {
        self.clear_pending
    }

    /// The generation whose first batch has been shown, if any.
    pub closed spec fn first_shown(&self) -> Option<u64> {
        self.accepted
    }

    /// The text of the last query.
    pub closed spec fn query_text(&self) -> Seq<char> {
        self.query@
    }

    /// The cap on results per backend.
    pub closed spec fn cap(&self) -> usize {
        self.max_results
    }

    /// The debounce delay of backend queries.
    pub closed spec fn delay(&self) -> u32 {
        self.delay_ms
    }

    /// The delay of the clear timer.
    pub closed spec fn clear_delay(&self) -> u32 {
        self.clear_delay_ms
    }

    /// The list holds only the notice that no backend is available.
    pub closed spec fn shows_notice(&self) -> bool {
        self.no_backends
    }

    /// The generation whose fan-out has not finished, if any.
    pub closed spec fn fanning_out(&self) -> Option<u64> {
        self.in_flight
    }

    /// The phase: debouncing while a trigger is pending, fanning out while
    /// the current query's fan-out runs, idle otherwise.
    pub open spec fn phase_of(&self) -> Phase {
        if self.debounce_state().pending is Some {
            Phase::Debouncing
        } else if self.fanning_out() == Some(self.current()) {
            Phase::FanningOut
        } else {
            Phase::Idle
        }
    }

    /// A pending trigger always carries the current generation, and no
    /// generation that the state remembers is newer than the current one.
    pub closed spec fn wf(&self) -> bool {
        &&& self.generation.wf()
        &&& self.debounce.wf()
        &&& (self.debounce@.pending matches Some(p) ==> p.generation == self.generation.value())
        &&& (self.accepted matches Some(g) ==> g <= self.generation.value())
        &&& (self.clear_pending matches Some(g) ==> g <= self.generation.value())
        &&& (self.in_flight matches Some(g) ==> g <= self.generation.value())
    }

    /// What the state remembers of generations is never newer than the
    /// current one.
    pub proof fn lemma_wf_bounds(&self)
        requires
            self.wf(),
        ensures
            self.first_shown() matches Some(g) ==> g <= self.current(),
            self.clear_armed() matches Some(g) ==> g <= self.current(),
            self.fanning_out() matches Some(g) ==> g <= self.current(),
            self.debounce_state().pending matches Some(p) ==> p.generation == self.current(),
    {
    }

    /// An orchestrator with nothing shown and nothing pending.
    pub fn new(max_results: usize, delay_ms: u32, clear_delay_ms: u32) -> (r: Self)
        ensures
            r.wf(),
            r.current() == 0,
            r.shown() == Seq::<ResultModel>::empty(),
            r.debounce_state().pending is None,
            r.debounce_state().next_token == 0,
            r.clear_armed() is None,
            r.first_shown() is None,
            r.cap() == max_results,
            r.delay() == delay_ms,
            r.clear_delay() == clear_delay_ms,
            !r.shows_notice(),
            r.fanning_out() is None,
    {
        let r = Orchestrator {
            generation: GenerationCounter::new(),
            debounce: Debouncer::new(),
            query: String::new(),
            max_results,
            delay_ms,
            clear_delay_ms,
            clear_pending: None,
            accepted: None,
            visible: Vec::new(),
            no_backends: false,
            in_flight: None,
        };
        assert(batch_view(r.visible@) =~= Seq::<ResultModel>::empty());
        r
    }

    /// The current generation.
    pub fn current_generation(&self) -> (r: u64)
        ensures
            r == self.current(),
    {
        self.generation.current()
    }

    /// Tells whether the counters leave room for one more input change.
    pub fn can_accept_input(&self) -> (r: bool)
        ensures
            r == (self.current() < u64::MAX && self.debounce_state().next_token < u64::MAX),
    {
        self.generation.current() < u64::MAX && self.debounce.next_token() < u64::MAX
    }

    /// The results on display.
    pub fn visible(&self) -> (r: &Vec<SearchResult>)
        ensures
            batch_view(r@) == self.shown(),
    {
        &self.visible
    }

    /// Tells whether the list holds only the notice that no backend is available.
    pub fn no_backends(&self) -> (r: bool)
        ensures
            r == self.shows_notice(),
    {
        self.no_backends
    }

    /// The query text changed to `text`, with `backend_count` backends
    /// available. The generation is bumped in every case, so that batches of
    /// earlier queries are dropped from now on. A query without terms empties
    /// the list; with no backend the list shows the notice; otherwise the
    /// debounce is rescheduled with the new generation.
    pub fn input_changed(&mut self, text: &str, backend_count: usize) -> (r: InputOutcome)
        requires
            old(self).wf(),
            old(self).current() < u64::MAX,
            old(self).debounce_state().next_token < u64::MAX,
        ensures
            final(self).wf(),
            final(self).current() == old(self).current() + 1,
            final(self).first_shown() != Some(final(self).current()),
            final(self).clear_armed() != Some(final(self).current()),
            final(self).fanning_out() != Some(final(self).current()),
            final(self).query_text() == text@,
            final(self).clear_armed() == old(self).clear_armed(),
            final(self).first_shown() == old(self).first_shown(),
            final(self).fanning_out() == old(self).fanning_out(),
            final(self).cap() == old(self).cap(),
            final(self).delay() == old(self).delay(),
            final(self).clear_delay() == old(self).clear_delay(),
            ({
                let cancel = match old(self).debounce_state().pending {
                    Some(p) => Some(p.token),
                    None => None::<u64>,
                };
                if words_of(text@).len() == 0 {
                    &&& r == InputOutcome::Cleared { cancel }
                    &&& final(self).shown() == Seq::<ResultModel>::empty()
                    &&& final(self).debounce_state().pending is None
                    &&& final(self).debounce_state().next_token == old(self).debounce_state().next_token
                    &&& !final(self).shows_notice()
                } else if backend_count == 0 {
                    &&& r == InputOutcome::NoBackends { cancel }
                    &&& final(self).shown() == Seq::<ResultModel>::empty()
                    &&& final(self).debounce_state().pending is None
                    &&& final(self).debounce_state().next_token == old(self).debounce_state().next_token
                    &&& final(self).shows_notice()
                } else {
                    &&& r == InputOutcome::Scheduled(TimerCommand {
                        cancel,
                        arm: old(self).debounce_state().next_token,
                        delay_ms: old(self).delay(),
                    })
                    &&& final(self).debounce_state() == scheduled(old(self).debounce_state(), final(self).current())
                    &&& final(self).shown() == old(self).shown()
                    &&& final(self).shows_notice() == old(self).shows_notice()
                }
            }),
    {
        let g = self.generation.bump();
        self.query = text.to_owned();
        let terms = search_terms(text);
        if terms.len() == 0 {
            let cancel = self.debounce.cancel();
            self.visible.clear();
            self.no_backends = false;
            assert(batch_view(self.visible@) =~= Seq::<ResultModel>::empty());
            return InputOutcome::Cleared { cancel };
        }
        if backend_count == 0 {
            let cancel = self.debounce.cancel();
            self.visible.clear();
            self.no_backends = true;
            assert(batch_view(self.visible@) =~= Seq::<ResultModel>::empty());
            return InputOutcome::NoBackends { cancel };
        }
        let cmd = self.debounce.schedule(self.delay_ms, g);
        InputOutcome::Scheduled(cmd)
    }

    /// The debounce timer `token` elapsed. When it is the pending one, the
    /// query it carries is handed out for fan-out and a clear timer is armed
    /// for its generation; any other timer fires nothing.
    pub fn debounce_elapsed(&mut self, token: u64) -> (r: Option<FanOutRequest>)
        requires
            old(self).wf(),
        ensures
            final(self).wf(),
            final(self).current() == old(self).current(),
            final(self).shown() == old(self).shown(),
            final(self).first_shown() == old(self).first_shown(),
            final(self).shows_notice() == old(self).shows_notice(),
            final(self).query_text() == old(self).query_text(),
            final(self).debounce_state() == fired(old(self).debounce_state(), token).0,
            match fired(old(self).debounce_state(), token).1 {
                Some(g) => {
                    &&& r is Some
                    &&& g == old(self).current()
                    &&& r->0.generation == g
                    &&& views_of(r->0.terms@) == words_of(old(self).query_text())
                    &&& r->0.max_results == old(self).cap()
                    &&& r->0.clear_delay_ms == old(self).clear_delay()
                    &&& final(self).clear_armed() == Some(g)
                    &&& final(self).fanning_out() == Some(g)
                },
                None => r is None && final(self).clear_armed() == old(self).clear_armed()
                    && final(self).fanning_out() == old(self).fanning_out(),
            },
    {
        match self.debounce.fire(token) {
            Some(g) => {
                self.clear_pending = Some(g);
                self.in_flight = Some(g);
                let terms = search_terms(self.query.as_str());
                Some(FanOutRequest {
                    generation: g,
                    terms,
                    max_results: self.max_results,
                    clear_delay_ms: self.clear_delay_ms,
                })
            },
            None => None,
        }
    }

    /// The clear timer of `generation` elapsed. It empties the list only when
    /// it is still armed (no batch arrived first) and its query is current.
    pub fn clear_elapsed(&mut self, generation: u64) -> (r: bool)
        requires
            old(self).wf(),
        ensures
            final(self).wf(),
            r == (old(self).clear_armed() == Some(generation)),
            final(self).current() == old(self).current(),
            final(self).debounce_state() == old(self).debounce_state(),
            final(self).first_shown() == old(self).first_shown(),
            final(self).fanning_out() == old(self).fanning_out(),
            final(self).query_text() == old(self).query_text(),
            final(self).clear_armed() == if r { None } else { old(self).clear_armed() },
            final(self).shown() == if r && generation == old(self).current() {
                Seq::<ResultModel>::empty()
            } else {
                old(self).shown()
            },
            final(self).shows_notice() == (old(self).shows_notice() && !(r && generation == old(self).current())),
    {
        if self.clear_pending == Some(generation) {
            self.clear_pending = None;
            if generation == self.generation.current() {
                self.visible.clear();
                self.no_backends = false;
                assert(batch_view(self.visible@) =~= Seq::<ResultModel>::empty());
            }
            true
        } else {
            false
        }
    }

    /// Every backend of the fan-out of `generation` has answered, failed
    /// or timed out.
    pub fn fan_out_finished(&mut self, generation: u64)
        requires
            old(self).wf(),
        ensures
            final(self).wf(),
            final(self).current() == old(self).current(),
            final(self).debounce_state() == old(self).debounce_state(),
            final(self).shown() == old(self).shown(),
            final(self).clear_armed() == old(self).clear_armed(),
            final(self).first_shown() == old(self).first_shown(),
            final(self).shows_notice() == old(self).shows_notice(),
            final(self).query_text() == old(self).query_text(),
            final(self).fanning_out() == if old(self).fanning_out() == Some(generation) {
                None::<u64>
            } else {
                old(self).fanning_out()
            },
    {
        if self.in_flight == Some(generation) {
            self.in_flight = None;
        }
    }

    /// The phase of the current query.
    pub fn phase(&self) -> (r: Phase)
        ensures
            r == self.phase_of(),
    {
        if self.debounce.is_pending() {
            Phase::Debouncing
        } else if self.in_flight == Some(self.generation.current()) {
            Phase::FanningOut
        } else {
            Phase::Idle
        }
    }

    /// A backend's batch for the query of `generation` arrived. A batch of
    /// a superseded query changes nothing. Otherwise the clear timer is
    /// disarmed, the first batch of the query replaces what was shown, and
    /// later batches are appended in arrival order.
    pub fn deliver(&mut self, generation: u64, batch: Vec<SearchResult>) -> (r: Delivery)
        requires
            old(self).wf(),
        ensures
            final(self).wf(),
            final(self).current() == old(self).current(),
            final(self).debounce_state() == old(self).debounce_state(),
            final(self).query_text() == old(self).query_text(),
            final(self).fanning_out() == old(self).fanning_out(),
            generation != old(self).current() ==> {
                &&& r == Delivery::Stale
                &&& final(self).shown() == old(self).shown()
                &&& final(self).clear_armed() == old(self).clear_armed()
                &&& final(self).first_shown() == old(self).first_shown()
                &&& final(self).shows_notice() == old(self).shows_notice()
            },
            generation == old(self).current() ==> {
                &&& r == Delivery::Accepted {
                    cancel_clear: if old(self).clear_armed() == Some(generation) {
                        Some(generation)
                    } else {
                        None::<u64>
                    },
                }
                &&& final(self).clear_armed() == if old(self).clear_armed() == Some(generation) {
                    None::<u64>
                } else {
                    old(self).clear_armed()
                }
                &&& final(self).first_shown() == Some(generation)
                &&& final(self).shown() == if old(self).first_shown() == Some(generation) {
                    old(self).shown() + batch_view(batch@)
                } else {
                    batch_view(batch@)
                }
                &&& !final(self).shows_notice()
            },
    {
        if generation != self.generation.current() {
            return Delivery::Stale;
        }
        let cancel_clear = if self.clear_pending == Some(generation) {
            self.clear_pending = None;
            Some(generation)
        } else {
            None
        };
        if self.accepted != Some(generation) {
            self.visible.clear();
            self.accepted = Some(generation);
        }
        self.no_backends = false;
        let ghost before = self.visible@;
        let mut batch = batch;
        let ghost added = batch@;
        self.visible.append(&mut batch);
        assert(batch_view(self.visible@) =~= batch_view(before) + batch_view(added));
        Delivery::Accepted { cancel_clear }
    }
}

} // verus!
