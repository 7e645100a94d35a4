//! The generalized fetch-reconcile-upsert pipeline, as a step machine.
//!
//! The machine holds every decision of one pipeline instance: which
//! candidate to fetch next, how long to wait to respect the source's rate
//! limit, which fetched rows become writes, and how a candidate's failure is
//! contained. The surrounding process performs the suspending work — the
//! fetch itself, the sleep, the store write — and reports each result back
//! as one event. Candidates are processed strictly sequentially: the next
//! fetch never starts before the previous candidate's fetch, reconcile and
//! persist steps have finished.

use vstd::prelude::*;

use crate::dividend::{
    models, spec_reconcile, records_for_year, reconcile_with, DividendModel, DividendRecord,
};
use crate::errors::{FetchError, PersistError};
use crate::persistence::WriteOutcome;

verus! {

/// Which completeness predicate selected the candidates: records whose
/// ex-dividend dates are still blank, or securities with no row or multiple
/// unresolved rows for the year.
#[derive(Clone, Copy, PartialEq, Eq, Structural, Debug)]
pub enum SelectionMode {
    UnannouncedDates,
    MissingOrMultiple,
}

/// One unit of work: a security, and, for the unannounced-dates workflow,
/// the stored record to reconcile against.
pub struct Candidate {
    pub symbol: String,
    pub stored: Option<DividendRecord>,
}

/// Where the machine stands between two events.
#[derive(Clone, Copy, PartialEq, Eq, Structural, Debug)]
pub enum Phase {
    Ready,
    InFlight,
    Persisting,
}

/// What the surrounding process must do next.
#[derive(Clone, Copy, PartialEq, Eq, Structural, Debug)]
pub enum PipelineAction {
    /// Fetch the current candidate from the source.
    Fetch,
    /// Wait this many seconds before the next fetch may start.
    Sleep(u64),
    /// Write the first pending record to the store.
    Persist,
    /// Every candidate has been processed.
    Done,
}

/// One pipeline instance's state.
pub struct PipelineMachine {
    pub mode: SelectionMode,
    pub year: i32,
    /// The fixed inter-fetch delay, in seconds.
    pub delay_secs: u64,
    pub candidates: Vec<Candidate>,
    /// Index of the next candidate whose processing has not begun.
    pub idx: usize,
    pub phase: Phase,
    /// Writes of the current candidate still awaiting persistence.
    pub pending: Vec<DividendRecord>,
    /// Earliest time the next fetch may start, in epoch seconds.
    pub next_allowed: u64,
    /// Whether a write of the current candidate has failed.
    pub cur_failed: bool,
    pub attempted: u64,
    pub succeeded: u64,
    pub failed_fetches: u64,
    pub failed_writes: u64,
    pub writes: u64,
}

/// Completion accounting of one finished pipeline run.
#[derive(Clone, Copy, PartialEq, Eq, Structural, Debug)]
pub struct PipelineSummary {
    pub attempted: u64,
    pub succeeded: u64,
    pub failed_fetches: u64,
    pub failed_writes: u64,
    pub writes: u64,
}

/// One event reported back to the machine, with the data it carried.
pub enum PipelineEvent {
    FetchStarted { at: u64 },
    FetchFinished { failed: bool, fetched: Seq<DividendRecord> },
    PersistFinished { failed: bool },
}

/// The writes one candidate's successful fetch produces: for the
/// missing-or-multiple workflow, every fetched record of the target year;
/// for the unannounced-dates workflow, the stored record rewritten with the
/// first conflicting fetched dates, or nothing when nothing material
/// differs.
pub open spec fn spec_writes_for(
    mode: SelectionMode,
    year: int,
    stored: Option<DividendRecord>,
    fetched: Seq<DividendRecord>,
) -> Seq<DividendModel> {
    match mode {
        SelectionMode::MissingOrMultiple => models(fetched).filter(
            |m: DividendModel| m.year == year,
        ),
        SelectionMode::UnannouncedDates => match stored {
            Option::None => Seq::empty(),
            Option::Some(s) => match spec_reconcile(s, fetched) {
                Option::None => Seq::empty(),
                Option::Some(m) => seq![m],
            },
        },
    }
}

impl PipelineMachine {
    /// The bookkeeping invariant: counters follow the phase, and completed
    /// candidates bound the outcome counters.
    pub open spec fn wf(self) -> bool {
        &&& self.idx <= self.candidates@.len()
        &&& (self.phase is Ready ==> self.attempted == self.idx && self.pending@.len() == 0
            && !self.cur_failed)
        &&& (self.phase is InFlight ==> self.attempted == self.idx + 1 && self.pending@.len()
            == 0 && self.idx < self.candidates@.len())
        &&& (self.phase is Persisting ==> self.attempted == self.idx + 1 && self.pending@.len()
            > 0 && self.idx < self.candidates@.len())
        &&& self.succeeded + self.failed_fetches <= self.idx
    }

    /// Every candidate has been processed.
    pub open spec fn spec_complete(self) -> bool {
        self.phase is Ready && self.idx == self.candidates@.len()
    }

    /// A fresh machine over the given candidates.
    pub fn new(mode: SelectionMode, year: i32, delay_secs: u64, candidates: Vec<Candidate>) -> (r:
        PipelineMachine)
        ensures
            r.wf(),
            r.mode == mode,
            r.year == year,
            r.delay_secs == delay_secs,
            r.candidates == candidates,
            r.idx == 0,
            r.phase is Ready,
            r.next_allowed == 0,
            r.attempted == 0,
            r.succeeded == 0,
            r.failed_fetches == 0,
            r.failed_writes == 0,
            r.writes == 0,
    {
        PipelineMachine {
            mode,
            year,
            delay_secs,
            candidates,
            idx: 0,
            phase: Phase::Ready,
            pending: Vec::new(),
            next_allowed: 0,
            cur_failed: false,
            attempted: 0,
            succeeded: 0,
            failed_fetches: 0,
            failed_writes: 0,
            writes: 0,
        }
    }

    /// What the surrounding process must do next, as of time `now`.
    pub fn next_action(&self, now: u64) -> (r: PipelineAction)
        requires
            self.wf(),
            !(self.phase is InFlight),
        ensures
            r is Done <==> self.spec_complete(),
            r is Persist <==> self.phase is Persisting,
            r is Fetch <==> (self.phase is Ready && self.idx < self.candidates@.len() && now
                >= self.next_allowed),
            r matches PipelineAction::Sleep(d) ==> self.phase is Ready && self.idx
                < self.candidates@.len() && now < self.next_allowed && d == self.next_allowed
                - now,
    {
        match self.phase {
            Phase::Persisting => PipelineAction::Persist,
            _ => {
                if self.idx >= self.candidates.len() {
                    PipelineAction::Done
                } else if now >= self.next_allowed {
                    PipelineAction::Fetch
                } else {
                    PipelineAction::Sleep(self.next_allowed - now)
                }
            },
        }
    }

    /// Record that the current candidate's fetch started at time `now`.
    /// The next fetch is then not allowed before `now + delay_secs`.
    pub fn start_fetch(&mut self, now: u64)
        requires
            old(self).wf(),
            old(self).phase is Ready,
            old(self).idx < old(self).candidates@.len(),
            now >= old(self).next_allowed,
            now + old(self).delay_secs <= u64::MAX,
        ensures
            final(self).wf(),
            machine_step(
                *old(self),
                PipelineEvent::FetchStarted { at: now },
                *final(self),
            ),
    {
        let n = self.candidates.len();
        assert(self.idx < n);
        self.phase = Phase::InFlight;
        self.attempted = self.attempted + 1;
        self.next_allowed = now + self.delay_secs;
    }

    /// Feed the current candidate's fetch result back. A fetch error is
    /// contained: the candidate is skipped — it stays a candidate for the
    /// next scheduled run — and processing moves to the next one. A
    /// successful fetch is reconciled into the pending writes; no material
    /// difference means no write at all.
    pub fn finish_fetch(&mut self, result: Result<Vec<DividendRecord>, FetchError>)
        requires
            old(self).wf(),
            old(self).phase is InFlight,
        ensures
            final(self).wf(),
            machine_step(
                *old(self),
                PipelineEvent::FetchFinished {
                    failed: result is Err,
                    fetched: (match result {
                        Result::Ok(v) => v@,
                        Result::Err(_) => Seq::empty(),
                    }),
                },
                *final(self),
            ),
    {
        let n = self.candidates.len();
        assert(self.idx < n);
        match result {
            Err(_) => {
                self.failed_fetches = self.failed_fetches + 1;
                self.idx = self.idx + 1;
                self.phase = Phase::Ready;
                self.cur_failed = false;
            },
            Ok(details) => {
                let writes: Vec<DividendRecord> = match self.mode {
                    SelectionMode::MissingOrMultiple => records_for_year(&details, self.year),
                    SelectionMode::UnannouncedDates => {
                        let mut w: Vec<DividendRecord> = Vec::new();
                        match &self.candidates[self.idx].stored {
                            None => {},
                            Some(s) => {
                                match reconcile_with(s, &details) {
                                    None => {},
                                    Some(rec) => {
                                        w.push(rec);
                                    },
                                }
                            },
                        }
                        proof {
                            assert(models(w@) =~= spec_writes_for(
                                self.mode,
                                self.year as int,
                                self.candidates@[self.idx as int].stored,
                                details@,
                            ));
                        }
                        w
                    },
                };
                if writes.len() == 0 {
                    self.succeeded = self.succeeded + 1;
                    self.idx = self.idx + 1;
                    self.phase = Phase::Ready;
                    self.cur_failed = false;
                } else {
                    self.pending = writes;
                    self.phase = Phase::Persisting;
                    self.cur_failed = false;
                }
            },
        }
    }

    /// Feed the result of persisting the first pending write back. A failed
    /// write is logged against the candidate and does not stop the rest;
    /// when the candidate's last write is done, processing moves on.
    pub fn finish_persist(&mut self, result: Result<WriteOutcome, PersistError>)
        requires
            old(self).wf(),
            old(self).phase is Persisting,
            old(self).writes < u64::MAX,
            old(self).failed_writes < u64::MAX,
        ensures
            final(self).wf(),
            machine_step(
                *old(self),
                PipelineEvent::PersistFinished { failed: result is Err },
                *final(self),
            ),
    {
        let n = self.candidates.len();
        assert(self.idx < n);
        let failed = result.is_err();
        if failed {
            self.failed_writes = self.failed_writes + 1;
            self.cur_failed = true;
        } else {
            self.writes = self.writes + 1;
        }
        self.pending.remove(0);
        proof {
            assert(models(self.pending@) =~= models(old(self).pending@).drop_first());
        }
        if self.pending.len() == 0 {
            if !self.cur_failed {
                self.succeeded = self.succeeded + 1;
            }
            self.idx = self.idx + 1;
            self.phase = Phase::Ready;
            self.cur_failed = false;
        }
    }

    /// The completion accounting of this run so far. Pipeline-level success
    /// means "ran to completion": partial failure is expected, reported
    /// here, and non-fatal.
    pub fn summary(&self) -> (r: PipelineSummary)
        ensures
            r.attempted == self.attempted,
            r.succeeded == self.succeeded,
            r.failed_fetches == self.failed_fetches,
            r.failed_writes == self.failed_writes,
            r.writes == self.writes,
    {
        PipelineSummary {
            attempted: self.attempted,
            succeeded: self.succeeded,
            failed_fetches: self.failed_fetches,
            failed_writes: self.failed_writes,
            writes: self.writes,
        }
    }
}

/// The parts of the machine no event changes.
pub open spec fn same_static(pre: PipelineMachine, post: PipelineMachine) -> bool {
    post.mode == pre.mode && post.year == pre.year && post.delay_secs == pre.delay_secs
        && post.candidates == pre.candidates
}

/// The machine's transition relation: what one event does to the state.
pub open spec fn machine_step(
    pre: PipelineMachine,
    ev: PipelineEvent,
    post: PipelineMachine,
) -> bool {
    match ev {
        PipelineEvent::FetchStarted { at } => {
            &&& pre.phase is Ready
            &&& pre.idx < pre.candidates@.len()
            &&& at >= pre.next_allowed
            &&& same_static(pre, post)
            &&& post.phase is InFlight
            &&& post.idx == pre.idx
            &&& post.pending == pre.pending
            &&& post.next_allowed == at + pre.delay_secs
            &&& post.cur_failed == pre.cur_failed
            &&& post.attempted == pre.attempted + 1
            &&& post.succeeded == pre.succeeded
            &&& post.failed_fetches == pre.failed_fetches
            &&& post.failed_writes == pre.failed_writes
            &&& post.writes == pre.writes
        },
        PipelineEvent::FetchFinished { failed, fetched } => {
            &&& pre.phase is InFlight
            &&& same_static(pre, post)
            &&& post.next_allowed == pre.next_allowed
            &&& post.attempted == pre.attempted
            &&& post.failed_writes == pre.failed_writes
            &&& post.writes == pre.writes
            &&& if failed {
                &&& post.phase is Ready
                &&& post.idx == pre.idx + 1
                &&& post.pending@.len() == 0
                &&& !post.cur_failed
                &&& post.succeeded == pre.succeeded
                &&& post.failed_fetches == pre.failed_fetches + 1
            } else {
                let writes = spec_writes_for(
                    pre.mode,
                    pre.year as int,
                    if pre.idx < pre.candidates@.len() {
                        pre.candidates@[pre.idx as int].stored
                    } else {
                        Option::None
                    },
                    fetched,
                );
                &&& post.failed_fetches == pre.failed_fetches
                &&& if writes.len() == 0 {
                    &&& post.phase is Ready
                    &&& post.idx == pre.idx + 1
                    &&& post.pending@.len() == 0
                    &&& !post.cur_failed
                    &&& post.succeeded == pre.succeeded + 1
                } else {
                    &&& post.phase is Persisting
                    &&& post.idx == pre.idx
                    &&& models(post.pending@) == writes
                    &&& !post.cur_failed
                    &&& post.succeeded == pre.succeeded
                }
            }
        },
        PipelineEvent::PersistFinished { failed } => {
            &&& pre.phase is Persisting
            &&& pre.pending@.len() > 0
            &&& same_static(pre, post)
            &&& post.next_allowed == pre.next_allowed
            &&& post.attempted == pre.attempted
            &&& post.failed_fetches == pre.failed_fetches
            &&& models(post.pending@) == models(pre.pending@).drop_first()
            &&& post.failed_writes == pre.failed_writes + if failed {
                1int
            } else {
                0int
            }
            &&& post.writes == pre.writes + if failed {
                0int
            } else {
                1int
            }
            &&& if pre.pending@.len() == 1 {
                &&& post.phase is Ready
                &&& post.idx == pre.idx + 1
                &&& !post.cur_failed
                &&& post.succeeded == pre.succeeded + if pre.cur_failed || failed {
                    0int
                } else {
                    1int
                }
            } else {
                &&& post.phase is Persisting
                &&& post.idx == pre.idx
                &&& post.cur_failed == (pre.cur_failed || failed)
                &&& post.succeeded == pre.succeeded
            }
        },
    }
}

/// A run of the machine: `states` is one longer than `events`, and each
/// event steps its state to the next.
pub open spec fn valid_run(states: Seq<PipelineMachine>, events: Seq<PipelineEvent>) -> bool {
    states.len() == events.len() + 1 && forall|i: int|
        0 <= i < events.len() ==> machine_step(states[i], #[trigger] events[i], states[i + 1])
}

proof fn lemma_run_static(states: Seq<PipelineMachine>, events: Seq<PipelineEvent>, a: int, b: int)
    requires
        valid_run(states, events),
        0 <= a <= b < states.len(),
    ensures
        states[b].delay_secs == states[a].delay_secs,
        states[b].next_allowed >= states[a].next_allowed,
        states[b].candidates == states[a].candidates,
    decreases b - a,
{
    if a < b {
        lemma_run_static(states, events, a, b - 1);
        assert(machine_step(states[b - 1], events[b - 1], states[b]));
    }
}

/// Rate-limit spacing: in any run, if the fetch of one candidate starts at
/// `ti` and any later fetch starts at `tj`, then at least the configured
/// delay lies between them.
pub proof fn lemma_rate_limit_spacing(
    states: Seq<PipelineMachine>,
    events: Seq<PipelineEvent>,
    i: int,
    j: int,
    ti: u64,
    tj: u64,
)
    requires
        valid_run(states, events),
        0 <= i < j < events.len(),
        events[i] == (PipelineEvent::FetchStarted { at: ti }),
        events[j] == (PipelineEvent::FetchStarted { at: tj }),
    ensures
        tj >= ti + states[i].delay_secs,
{
    assert(machine_step(states[i], events[i], states[i + 1]));
    assert(states[i + 1].next_allowed == ti + states[i].delay_secs);
    lemma_run_static(states, events, i + 1, j);
    assert(states[j].next_allowed >= ti + states[i].delay_secs);
    assert(machine_step(states[j], events[j], states[j + 1]));
    assert(tj >= states[j].next_allowed);
}

proof fn lemma_step_wf(pre: PipelineMachine, ev: PipelineEvent, post: PipelineMachine)
    requires
        pre.wf(),
        machine_step(pre, ev, post),
    ensures
        post.wf(),
{
    match ev {
        PipelineEvent::FetchStarted { at: _ } => {
            assert(post.wf());
        },
        PipelineEvent::FetchFinished { failed, fetched } => {
            assert(post.idx <= post.candidates@.len());
            if !failed {
                let writes = spec_writes_for(
                    pre.mode,
                    pre.year as int,
                    if pre.idx < pre.candidates@.len() {
                        pre.candidates@[pre.idx as int].stored
                    } else {
                        Option::None
                    },
                    fetched,
                );
                if writes.len() != 0 {
                    assert(post.pending@.len() == models(post.pending@).len());
                    assert(post.pending@.len() == writes.len());
                }
            }
            assert(post.wf());
        },
        PipelineEvent::PersistFinished { failed } => {
            assert(post.pending@.len() == models(post.pending@).len());
            assert(post.pending@.len() == pre.pending@.len() - 1);
            assert(post.wf());
        },
    }
}

proof fn lemma_run_wf(states: Seq<PipelineMachine>, events: Seq<PipelineEvent>, b: int)
    requires
        valid_run(states, events),
        0 <= b < states.len(),
        states[0].wf(),
    ensures
        states[b].wf(),
    decreases b,
{
    if b > 0 {
        lemma_run_wf(states, events, b - 1);
        assert(machine_step(states[b - 1], events[b - 1], states[b]));
        lemma_step_wf(states[b - 1], events[b - 1], states[b]);
    }
}

/// Per-candidate failure isolation: a run that starts fresh and reaches
/// completion has attempted every candidate exactly once — fetch errors and
/// write errors reduce only the succeeded count, never the attempted count,
/// and never stop the remaining candidates.
pub proof fn lemma_failure_isolation(states: Seq<PipelineMachine>, events: Seq<PipelineEvent>)
    requires
        valid_run(states, events),
        states.len() > 0,
        states[0].wf(),
        states[0].idx == 0,
        states[0].attempted == 0,
        states[0].phase is Ready,
        states.last().spec_complete(),
    ensures
        states.last().attempted == states[0].candidates@.len(),
    {
    let last = states.len() - 1;
    lemma_run_wf(states, events, last);
    lemma_run_static(states, events, 0, last);
}

/// Candidates of the unannounced-dates workflow: each stored record that
/// still lacks its dates, carried with its security code.
pub fn candidates_from_records(records: Vec<DividendRecord>) -> (r: Vec<Candidate>)
    ensures
        r@.len() == records@.len(),
        forall|i: int|
            0 <= i < records@.len() ==> {
                let c = #[trigger] r@[i];
                c.symbol@ == records@[i].security_code@ && (c.stored matches Some(s) && s.model()
                    == records@[i].model())
            },
{
    let n = records.len();
    let mut records = records;
    let mut out: Vec<Candidate> = Vec::new();
    let mut i: usize = 0;
    while i < n
        invariant
            n == records@.len(),
            0 <= i <= n,
            out@.len() == i,
            forall|j: int|
                0 <= j < i ==> {
                    let c = #[trigger] out@[j];
                    c.symbol@ == records@[j].security_code@ && (c.stored matches Some(s)
                        && s.model() == records@[j].model())
                },
        decreases n - i,
    {
        let symbol = records[i].security_code.clone();
        let stored = records[i].duplicate();
        out.push(Candidate { symbol, stored: Some(stored) });
        i = i + 1;
    }
    out
}

/// Candidates of the missing-or-multiple workflow: bare security codes.
pub fn candidates_from_symbols(symbols: Vec<String>) -> (r: Vec<Candidate>)
    ensures
        r@.len() == symbols@.len(),
        forall|i: int|
            0 <= i < symbols@.len() ==> {
                let c = #[trigger] r@[i];
                c.symbol@ == symbols@[i]@ && c.stored is None
            },
{
    let n = symbols.len();
    let symbols = symbols;
    let mut out: Vec<Candidate> = Vec::new();
    let mut i: usize = 0;
    while i < n
        invariant
            n == symbols@.len(),
            0 <= i <= n,
            out@.len() == i,
            forall|j: int|
                0 <= j < i ==> {
                    let c = #[trigger] out@[j];
                    c.symbol@ == symbols@[j]@ && c.stored is None
                },
        decreases n - i,
    {
        let symbol = symbols[i].clone();
        out.push(Candidate { symbol, stored: None });
        i = i + 1;
    }
    out
}

/// The fan-in of the dividend job: both workflow instances run to their
/// natural end, each branch's outcome is reported to the journal by the
/// caller, and neither branch's failure propagates — the job itself
/// always completes.
pub fn join_outcomes(
    without_or_multiple: &Result<PipelineSummary, PersistError>,
    unannounced: &Result<PipelineSummary, PersistError>,
) -> (r: Result<(), PersistError>)
    ensures
        r is Ok,
{
    let _ = without_or_multiple;
    let _ = unannounced;
    Ok(())
}

} // verus!
