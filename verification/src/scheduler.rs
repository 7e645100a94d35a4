//! The scheduler: a registry of (cron expression, job) pairs, a tick
//! decision that starts every due job that is not already running, and the
//! completion bookkeeping that re-arms a job.
//!
//! The surrounding process owns the clock and the tasks: at a fixed short
//! tick interval it reduces the clock to `TimeParts`, asks `tick` which
//! jobs to start, runs each started job as an independent task, and reports
//! each job's end through `complete`. A job's returned error is logged by
//! the caller and never affects the registry or the other jobs. The same
//! job is never started while a previous run of it is still marked
//! running: a due tick for a running job is skipped, not queued.

use vstd::prelude::*;
use vstd::string::StringExecFns;

use crate::cron::{parse_cron, CronSchedule, TimeParts};
use crate::errors::SchedulerConfigError;

verus! {

/// One registered job: its schedule, a task identifier used for logging,
/// and whether an invocation of it is currently in flight.
pub struct JobSlot {
    pub job_id: String,
    pub schedule: CronSchedule,
    pub running: bool,
}

/// The registry of jobs, owned by the dispatcher for the process lifetime.
pub struct Scheduler {
    pub jobs: Vec<JobSlot>,
    /// Whether the one-time process-started notification has been emitted.
    pub notified: bool,
}

/// One observed scheduler event: a clock tick, or the end of one job's
/// invocation.
pub enum SchedulerEvent {
    Tick { t: TimeParts },
    Complete { j: int },
}

/// `slot` carries the task identifier `id`, is not running, and its
/// schedule fires exactly when the written expression `expr` fires.
pub open spec fn slot_matches(slot: JobSlot, id: Seq<char>, expr: Seq<char>) -> bool {
    slot.job_id@ == id && !slot.running && forall|t: TimeParts|
        #[trigger] slot.schedule.spec_due(t) <==> crate::cron::cron_text_due(expr, t)
}

impl Scheduler {
    /// An empty registry.
    pub fn new() -> (r: Scheduler)
        ensures
            r.jobs@.len() == 0,
            !r.notified,
    {
        Scheduler { jobs: Vec::new(), notified: false }
    }

    /// Register a job under a cron expression. A malformed expression is a
    /// startup-time configuration error and registers nothing.
    pub fn register(&mut self, cron_expr: &str, job_id: String) -> (r: Result<
        (),
        SchedulerConfigError,
    >)
        ensures
            r is Ok <==> crate::cron::valid_cron(cron_expr@),
            r is Ok ==> final(self).jobs@.len() == old(self).jobs@.len() + 1 && (forall|i: int|
                0 <= i < old(self).jobs@.len() ==> final(self).jobs@[i] == old(self).jobs@[i])
                && slot_matches(final(self).jobs@.last(), job_id@, cron_expr@),
            r is Err ==> *final(self) == *old(self),
            final(self).notified == old(self).notified,
    {
        match parse_cron(cron_expr) {
            Err(e) => Err(e),
            Ok(schedule) => {
                self.jobs.push(JobSlot { job_id, schedule, running: false });
                Ok(())
            },
        }
    }

    /// Decide, for one tick of the clock, which jobs start now: every job
    /// whose schedule fires at `t` and which is not already running. The
    /// started jobs are marked running; a due job that is still running is
    /// skipped, not queued.
    pub fn tick(&mut self, t: &TimeParts) -> (started: Vec<usize>)
        ensures
            final(self).jobs@.len() == old(self).jobs@.len(),
            final(self).notified == old(self).notified,
            forall|i: int|
                0 <= i < old(self).jobs@.len() ==> {
                    let pre = old(self).jobs@[i];
                    let post = #[trigger] final(self).jobs@[i];
                    post.job_id == pre.job_id && post.schedule == pre.schedule && post.running == (
                    pre.running || pre.schedule.spec_due(*t))
                },
            forall|i: int|
                0 <= i < started@.len() ==> {
                    let j = #[trigger] started@[i] as int;
                    0 <= j < old(self).jobs@.len() && !old(self).jobs@[j].running && old(
                        self,
                    ).jobs@[j].schedule.spec_due(*t)
                },
            forall|j: int|
                0 <= j < old(self).jobs@.len() && !old(self).jobs@[j].running && (#[trigger] old(
                    self,
                ).jobs@[j]).schedule.spec_due(*t) ==> exists|i: int|
                    0 <= i < started@.len() && #[trigger] started@[i] == j,
            forall|a: int, b: int|
                0 <= a < b < started@.len() ==> #[trigger] started@[a] < #[trigger] started@[b],
    {
        let n = self.jobs.len();
        let mut started: Vec<usize> = Vec::new();
        let mut k: usize = 0;
        while k < n
            invariant
                n == self.jobs@.len() == old(self).jobs@.len(),
                0 <= k <= n,
                self.notified == old(self).notified,
                forall|i: int| k <= i < n ==> #[trigger] self.jobs@[i] == old(self).jobs@[i],
                forall|i: int|
                    0 <= i < k ==> {
                        let pre = old(self).jobs@[i];
                        let post = #[trigger] self.jobs@[i];
                        post.job_id == pre.job_id && post.schedule == pre.schedule && post.running
                            == (pre.running || pre.schedule.spec_due(*t))
                    },
                forall|i: int|
                    0 <= i < started@.len() ==> {
                        let j = #[trigger] started@[i] as int;
                        0 <= j < k && !old(self).jobs@[j].running && old(
                            self,
                        ).jobs@[j].schedule.spec_due(*t)
                    },
                forall|j: int|
                    0 <= j < k && !old(self).jobs@[j].running && (#[trigger] old(
                        self,
                    ).jobs@[j]).schedule.spec_due(*t) ==> exists|i: int|
                        0 <= i < started@.len() && #[trigger] started@[i] == j,
                forall|a: int, b: int|
                    0 <= a < b < started@.len() ==> #[trigger] started@[a] < #[trigger] started@[b],
            decreases n - k,
        {
            let is_due = self.jobs[k].schedule.due(t);
            if is_due && !self.jobs[k].running {
                let ghost pre_started = started@;
                let slot = &mut self.jobs[k];  // hold the borrow briefly
                slot.running = true;
                started.push(k);
                proof {
                    assert(started@[pre_started.len() as int] == k);
                    assert forall|j: int|
                        0 <= j < k + 1 && !old(self).jobs@[j].running && (#[trigger] old(
                            self,
                        ).jobs@[j]).schedule.spec_due(*t) implies exists|i: int|
                        0 <= i < started@.len() && #[trigger] started@[i] == j by {
                        if j < k {
                            let i = choose|i: int|
                                0 <= i < pre_started.len() && #[trigger] pre_started[i] == j;
                            assert(started@[i] == j);
                        } else {
                            assert(started@[pre_started.len() as int] == j);
                        }
                    }
                }
            }
            k = k + 1;
        }
        started
    }

    /// Record that job `j`'s invocation has ended, whatever its outcome,
    /// re-arming it for its next due tick.
    pub fn complete(&mut self, j: usize)
        requires
            j < old(self).jobs@.len(),
        ensures
            final(self).jobs@.len() == old(self).jobs@.len(),
            final(self).notified == old(self).notified,
            forall|i: int|
                0 <= i < old(self).jobs@.len() && i != j ==> #[trigger] final(self).jobs@[i] == old(
                    self,
                ).jobs@[i],
            final(self).jobs@[j as int].job_id == old(self).jobs@[j as int].job_id,
            final(self).jobs@[j as int].schedule == old(self).jobs@[j as int].schedule,
            !final(self).jobs@[j as int].running,
    {
        let slot = &mut self.jobs[j];
        slot.running = false;
    }

    /// Claim the one-time process-started notification. True exactly once:
    /// the caller sends the notice only when this returns true, and a
    /// notifier failure is logged, not fatal.
    pub fn claim_startup_notice(&mut self) -> (send: bool)
        ensures
            send == !old(self).notified,
            final(self).notified,
            final(self).jobs == old(self).jobs,
    {
        let send = !self.notified;
        self.notified = true;
        send
    }
}

/// The scheduler's transition relation over observed events.
pub open spec fn scheduler_step(pre: Scheduler, ev: SchedulerEvent, post: Scheduler) -> bool {
    match ev {
        SchedulerEvent::Tick { t } => {
            &&& post.jobs@.len() == pre.jobs@.len()
            &&& forall|i: int|
                0 <= i < pre.jobs@.len() ==> {
                    let a = pre.jobs@[i];
                    let b = #[trigger] post.jobs@[i];
                    b.job_id == a.job_id && b.schedule == a.schedule && b.running == (a.running
                        || a.schedule.spec_due(t))
                }
        },
        SchedulerEvent::Complete { j } => {
            &&& 0 <= j < pre.jobs@.len()
            &&& pre.jobs@[j].running
            &&& post.jobs@.len() == pre.jobs@.len()
            &&& forall|i: int|
                0 <= i < pre.jobs@.len() && i != j ==> #[trigger] post.jobs@[i] == pre.jobs@[i]
            &&& post.jobs@[j].job_id == pre.jobs@[j].job_id
            &&& post.jobs@[j].schedule == pre.jobs@[j].schedule
            &&& !post.jobs@[j].running
        },
    }
}

/// A run of the scheduler: each event steps its state to the next.
pub open spec fn scheduler_run(states: Seq<Scheduler>, events: Seq<SchedulerEvent>) -> bool {
    states.len() == events.len() + 1 && forall|i: int|
        0 <= i < events.len() ==> scheduler_step(states[i], #[trigger] events[i], states[i + 1])
}

/// Job `j` starts at step `i`: it was not running and the step leaves it
/// running.
pub open spec fn starts_at(states: Seq<Scheduler>, i: int, j: int) -> bool {
    0 <= i < states.len() - 1 && 0 <= j < states[i].jobs@.len() && !states[i].jobs@[j].running
        && states[i + 1].jobs@.len() > j && states[i + 1].jobs@[j].running
}

proof fn lemma_running_until_complete(
    states: Seq<Scheduler>,
    events: Seq<SchedulerEvent>,
    a: int,
    b: int,
    j: int,
)
    requires
        scheduler_run(states, events),
        0 <= a <= b < states.len(),
        0 <= j < states[a].jobs@.len(),
        states[a].jobs@[j].running,
        forall|m: int| a <= m < b ==> events[m] != (SchedulerEvent::Complete { j }),
    ensures
        j < states[b].jobs@.len(),
        states[b].jobs@[j].running,
    decreases b - a,
{
    if a < b {
        assert(scheduler_step(states[a], events[a], states[a + 1]));
        match events[a] {
            SchedulerEvent::Tick { t } => {
                assert(states[a + 1].jobs@[j].running);
            },
            SchedulerEvent::Complete { j: j2 } => {
                assert(j2 != j);
                assert(states[a + 1].jobs@[j].running);
            },
        }
        lemma_running_until_complete(states, events, a + 1, b, j);
    }
}

/// At most one concurrent invocation per job: if the same job starts at
/// two steps of a run, a completion of that job lies strictly between
/// them. No second invocation begins before the first has ended.
pub proof fn lemma_at_most_one_concurrent(
    states: Seq<Scheduler>,
    events: Seq<SchedulerEvent>,
    i: int,
    k: int,
    j: int,
)
    requires
        scheduler_run(states, events),
        0 <= i < k < events.len(),
        starts_at(states, i, j),
        starts_at(states, k, j),
    ensures
        exists|m: int| i < m < k && events[m] == (SchedulerEvent::Complete { j }),
{
    if forall|m: int| i < m < k ==> events[m] != (SchedulerEvent::Complete { j }) {
        assert(forall|m: int|
            i + 1 <= m < k ==> events[m] != (SchedulerEvent::Complete { j }));
        lemma_running_until_complete(states, events, i + 1, k, j);
        assert(states[k].jobs@[j].running);
        assert(false);
    }
}

/// Which step of the end-of-day quote ingestion chain follows which: the
/// chain runs in a fixed order, stops early when the day has no quotes,
/// and ends by invalidating the whole TTL cache so downstream reads see
/// freshly written data.
#[derive(Clone, Copy, PartialEq, Eq, Structural, Debug)]
pub enum QuoteStep {
    FetchQuotes,
    CountCheck,
    MakeupLack,
    MovingAverage,
    RebuildLast,
    Estimate,
    YieldRank,
    MoneyHistory,
    ClearCache,
    Finished,
}

/// The successor of one quote-chain step. After `CountCheck`, a day with
/// no quotes ends the chain at once; otherwise the chain proceeds in
/// order, clears the cache, and finishes.
pub fn next_quote_step(cur: QuoteStep, daily_quote_count: i64) -> (r: QuoteStep)
    ensures
        cur is FetchQuotes ==> r is CountCheck,
        cur is CountCheck && daily_quote_count == 0 ==> r is Finished,
        cur is CountCheck && daily_quote_count != 0 ==> r is MakeupLack,
        cur is MakeupLack ==> r is MovingAverage,
        cur is MovingAverage ==> r is RebuildLast,
        cur is RebuildLast ==> r is Estimate,
        cur is Estimate ==> r is YieldRank,
        cur is YieldRank ==> r is MoneyHistory,
        cur is MoneyHistory ==> r is ClearCache,
        cur is ClearCache ==> r is Finished,
        cur is Finished ==> r is Finished,
{
    match cur {
        QuoteStep::FetchQuotes => QuoteStep::CountCheck,
        QuoteStep::CountCheck => {
            if daily_quote_count == 0 {
                QuoteStep::Finished
            } else {
                QuoteStep::MakeupLack
            }
        },
        QuoteStep::MakeupLack => QuoteStep::MovingAverage,
        QuoteStep::MovingAverage => QuoteStep::RebuildLast,
        QuoteStep::RebuildLast => QuoteStep::Estimate,
        QuoteStep::Estimate => QuoteStep::YieldRank,
        QuoteStep::YieldRank => QuoteStep::MoneyHistory,
        QuoteStep::MoneyHistory => QuoteStep::ClearCache,
        QuoteStep::ClearCache => QuoteStep::Finished,
        QuoteStep::Finished => QuoteStep::Finished,
    }
}

/// The fixed job table of the harvester, registered once at startup: each
/// entry is a cron expression, all evaluated on one clock, and a task
/// identifier used for logging. Every expression of the table is a valid
/// six-field cron expression, so registration always succeeds and appends
/// the thirteen slots in order, each firing exactly when its written
/// expression fires.
pub fn standard_registry(sched: &mut Scheduler) -> (r: Result<(), SchedulerConfigError>)
    ensures
        r is Ok,
        final(sched).jobs@.len() == old(sched).jobs@.len() + 13,
        forall|i: int|
            0 <= i < old(sched).jobs@.len() ==> final(sched).jobs@[i] == old(sched).jobs@[i],
        final(sched).notified == old(sched).notified,
        ({
            let base = old(sched).jobs@.len() as int;
            let jobs = final(sched).jobs@;
            &&& slot_matches(jobs[base + 0], "financial_statement_quarter"@, "0 0 17 * * *"@)
            &&& slot_matches(jobs[base + 1], "net_asset_value_emerging"@, "0 0 17 * * *"@)
            &&& slot_matches(jobs[base + 2], "financial_statement_annual"@, "0 0 21 * * *"@)
            &&& slot_matches(jobs[base + 3], "net_asset_value_zero_value"@, "0 0 21 * * *"@)
            &&& slot_matches(jobs[base + 4], "revenue"@, "0 0 21 * * *"@)
            &&& slot_matches(jobs[base + 5], "isin"@, "0 0 21 * * *"@)
            &&& slot_matches(jobs[base + 6], "delisted_company"@, "0 0 21 * * *"@)
            &&& slot_matches(jobs[base + 7], "stock_weight"@, "0 0 21 * * *"@)
            &&& slot_matches(jobs[base + 8], "ex_dividend_reminder"@, "0 0 0 * * *"@)
            &&& slot_matches(jobs[base + 9], "taiwan_stock_index"@, "0 0 7 * * *"@)
            &&& slot_matches(jobs[base + 10], "quote_chain"@, "0 0 7 * * *"@)
            &&& slot_matches(jobs[base + 11], "dividend_backfill"@, "0 0 13 * * *"@)
            &&& slot_matches(jobs[base + 12], "free_dns"@, "0 * * * * *"@)
        }),
{
    proof {
        lemma_cron_daily_17();
        lemma_cron_daily_21();
        lemma_cron_daily_0();
        lemma_cron_daily_7();
        lemma_cron_daily_13();
        lemma_cron_every_minute();
    }
    sched.register("0 0 17 * * *", String::from_str("financial_statement_quarter"))?;
    sched.register("0 0 17 * * *", String::from_str("net_asset_value_emerging"))?;
    sched.register("0 0 21 * * *", String::from_str("financial_statement_annual"))?;
    sched.register("0 0 21 * * *", String::from_str("net_asset_value_zero_value"))?;
    sched.register("0 0 21 * * *", String::from_str("revenue"))?;
    sched.register("0 0 21 * * *", String::from_str("isin"))?;
    sched.register("0 0 21 * * *", String::from_str("delisted_company"))?;
    sched.register("0 0 21 * * *", String::from_str("stock_weight"))?;
    sched.register("0 0 0 * * *", String::from_str("ex_dividend_reminder"))?;
    sched.register("0 0 7 * * *", String::from_str("taiwan_stock_index"))?;
    sched.register("0 0 7 * * *", String::from_str("quote_chain"))?;
    sched.register("0 0 13 * * *", String::from_str("dividend_backfill"))?;
    sched.register("0 * * * * *", String::from_str("free_dns"))?;
    Ok(())
}

proof fn lemma_cron_daily_17()
    ensures
        crate::cron::valid_cron("0 0 17 * * *"@),
{
    reveal_strlit("0 0 17 * * *");
    let s = "0 0 17 * * *"@;
    assert(s.len() == 12);
    assert(s[0] == '0');
    assert(s[1] == ' ');
    assert(s[2] == '0');
    assert(s[3] == ' ');
    assert(s[4] == '1');
    assert(s[5] == '7');
    assert(s[6] == ' ');
    assert(s[7] == '*');
    assert(s[8] == ' ');
    assert(s[9] == '*');
    assert(s[10] == ' ');
    assert(s[11] == '*');
    crate::cron::lemma_split_head(s, 1);
    let r1 = s.subrange(2, 12);
    assert(r1[0] == '0');
    assert(r1[1] == ' ');
    crate::cron::lemma_split_head(r1, 1);
    let r2 = r1.subrange(2, 10);
    assert(r2[0] == '1');
    assert(r2[1] == '7');
    assert(r2[2] == ' ');
    crate::cron::lemma_split_head(r2, 2);
    let r3 = r2.subrange(3, 8);
    assert(r3[0] == '*');
    assert(r3[1] == ' ');
    crate::cron::lemma_split_head(r3, 1);
    let r4 = r3.subrange(2, 5);
    assert(r4[0] == '*');
    assert(r4[1] == ' ');
    crate::cron::lemma_split_head(r4, 1);
    let r5 = r4.subrange(2, 3);
    assert(r5[0] == '*');
    crate::cron::lemma_split_single(r5);
    let toks = crate::cron::split_on_space(s);
    assert(toks =~= seq![s.subrange(0, 1), r1.subrange(0, 1), r2.subrange(0, 2), r3.subrange(0, 1), r4.subrange(0, 1), r5]);
    let tok0 = s.subrange(0, 1);
    assert(tok0.len() == 1);
    assert(tok0[0] == '0');
    assert(crate::text::all_digits(tok0)) by {
        assert forall|i: int| 0 <= i < tok0.len() implies crate::text::is_digit_char(#[trigger] tok0[i]) by {
            if i == 0 { assert(crate::text::is_digit_char(tok0[0])); }
        }
    }
    crate::cron::lemma_digits_val1(tok0);
    assert(crate::text::digits_val(tok0) == 0);
    crate::cron::lemma_digits_field(tok0, 0, 59);
    assert(toks[0] == tok0);
    let tok1 = r1.subrange(0, 1);
    assert(tok1.len() == 1);
    assert(tok1[0] == '0');
    assert(crate::text::all_digits(tok1)) by {
        assert forall|i: int| 0 <= i < tok1.len() implies crate::text::is_digit_char(#[trigger] tok1[i]) by {
            if i == 0 { assert(crate::text::is_digit_char(tok1[0])); }
        }
    }
    crate::cron::lemma_digits_val1(tok1);
    assert(crate::text::digits_val(tok1) == 0);
    crate::cron::lemma_digits_field(tok1, 0, 59);
    assert(toks[1] == tok1);
    let tok2 = r2.subrange(0, 2);
    assert(tok2.len() == 2);
    assert(tok2[0] == '1');
    assert(tok2[1] == '7');
    assert(crate::text::all_digits(tok2)) by {
        assert forall|i: int| 0 <= i < tok2.len() implies crate::text::is_digit_char(#[trigger] tok2[i]) by {
            if i == 0 { assert(crate::text::is_digit_char(tok2[0])); }
            if i == 1 { assert(crate::text::is_digit_char(tok2[1])); }
        }
    }
    crate::cron::lemma_digits_val2(tok2);
    assert(crate::text::digits_val(tok2) == 17);
    crate::cron::lemma_digits_field(tok2, 0, 23);
    assert(toks[2] == tok2);
    let tok3 = r3.subrange(0, 1);
    assert(tok3.len() == 1);
    assert(tok3[0] == '*');
    crate::cron::lemma_star_field(tok3, 1, 31);
    assert(toks[3] == tok3);
    let tok4 = r4.subrange(0, 1);
    assert(tok4.len() == 1);
    assert(tok4[0] == '*');
    crate::cron::lemma_star_field(tok4, 1, 12);
    assert(toks[4] == tok4);
    let tok5 = r5;
    assert(tok5.len() == 1);
    assert(tok5[0] == '*');
    crate::cron::lemma_star_field(tok5, 0, 6);
    assert(toks[5] == tok5);
    assert(crate::cron::valid_cron(s));
}

proof fn lemma_cron_daily_21()
    ensures
        crate::cron::valid_cron("0 0 21 * * *"@),
{
    reveal_strlit("0 0 21 * * *");
    let s = "0 0 21 * * *"@;
    assert(s.len() == 12);
    assert(s[0] == '0');
    assert(s[1] == ' ');
    assert(s[2] == '0');
    assert(s[3] == ' ');
    assert(s[4] == '2');
    assert(s[5] == '1');
    assert(s[6] == ' ');
    assert(s[7] == '*');
    assert(s[8] == ' ');
    assert(s[9] == '*');
    assert(s[10] == ' ');
    assert(s[11] == '*');
    crate::cron::lemma_split_head(s, 1);
    let r1 = s.subrange(2, 12);
    assert(r1[0] == '0');
    assert(r1[1] == ' ');
    crate::cron::lemma_split_head(r1, 1);
    let r2 = r1.subrange(2, 10);
    assert(r2[0] == '2');
    assert(r2[1] == '1');
    assert(r2[2] == ' ');
    crate::cron::lemma_split_head(r2, 2);
    let r3 = r2.subrange(3, 8);
    assert(r3[0] == '*');
    assert(r3[1] == ' ');
    crate::cron::lemma_split_head(r3, 1);
    let r4 = r3.subrange(2, 5);
    assert(r4[0] == '*');
    assert(r4[1] == ' ');
    crate::cron::lemma_split_head(r4, 1);
    let r5 = r4.subrange(2, 3);
    assert(r5[0] == '*');
    crate::cron::lemma_split_single(r5);
    let toks = crate::cron::split_on_space(s);
    assert(toks =~= seq![s.subrange(0, 1), r1.subrange(0, 1), r2.subrange(0, 2), r3.subrange(0, 1), r4.subrange(0, 1), r5]);
    let tok0 = s.subrange(0, 1);
    assert(tok0.len() == 1);
    assert(tok0[0] == '0');
    assert(crate::text::all_digits(tok0)) by {
        assert forall|i: int| 0 <= i < tok0.len() implies crate::text::is_digit_char(#[trigger] tok0[i]) by {
            if i == 0 { assert(crate::text::is_digit_char(tok0[0])); }
        }
    }
    crate::cron::lemma_digits_val1(tok0);
    assert(crate::text::digits_val(tok0) == 0);
    crate::cron::lemma_digits_field(tok0, 0, 59);
    assert(toks[0] == tok0);
    let tok1 = r1.subrange(0, 1);
    assert(tok1.len() == 1);
    assert(tok1[0] == '0');
    assert(crate::text::all_digits(tok1)) by {
        assert forall|i: int| 0 <= i < tok1.len() implies crate::text::is_digit_char(#[trigger] tok1[i]) by {
            if i == 0 { assert(crate::text::is_digit_char(tok1[0])); }
        }
    }
    crate::cron::lemma_digits_val1(tok1);
    assert(crate::text::digits_val(tok1) == 0);
    crate::cron::lemma_digits_field(tok1, 0, 59);
    assert(toks[1] == tok1);
    let tok2 = r2.subrange(0, 2);
    assert(tok2.len() == 2);
    assert(tok2[0] == '2');
    assert(tok2[1] == '1');
    assert(crate::text::all_digits(tok2)) by {
        assert forall|i: int| 0 <= i < tok2.len() implies crate::text::is_digit_char(#[trigger] tok2[i]) by {
            if i == 0 { assert(crate::text::is_digit_char(tok2[0])); }
            if i == 1 { assert(crate::text::is_digit_char(tok2[1])); }
        }
    }
    crate::cron::lemma_digits_val2(tok2);
    assert(crate::text::digits_val(tok2) == 21);
    crate::cron::lemma_digits_field(tok2, 0, 23);
    assert(toks[2] == tok2);
    let tok3 = r3.subrange(0, 1);
    assert(tok3.len() == 1);
    assert(tok3[0] == '*');
    crate::cron::lemma_star_field(tok3, 1, 31);
    assert(toks[3] == tok3);
    let tok4 = r4.subrange(0, 1);
    assert(tok4.len() == 1);
    assert(tok4[0] == '*');
    crate::cron::lemma_star_field(tok4, 1, 12);
    assert(toks[4] == tok4);
    let tok5 = r5;
    assert(tok5.len() == 1);
    assert(tok5[0] == '*');
    crate::cron::lemma_star_field(tok5, 0, 6);
    assert(toks[5] == tok5);
    assert(crate::cron::valid_cron(s));
}

proof fn lemma_cron_daily_0()
    ensures
        crate::cron::valid_cron("0 0 0 * * *"@),
{
    reveal_strlit("0 0 0 * * *");
    let s = "0 0 0 * * *"@;
    assert(s.len() == 11);
    assert(s[0] == '0');
    assert(s[1] == ' ');
    assert(s[2] == '0');
    assert(s[3] == ' ');
    assert(s[4] == '0');
    assert(s[5] == ' ');
    assert(s[6] == '*');
    assert(s[7] == ' ');
    assert(s[8] == '*');
    assert(s[9] == ' ');
    assert(s[10] == '*');
    crate::cron::lemma_split_head(s, 1);
    let r1 = s.subrange(2, 11);
    assert(r1[0] == '0');
    assert(r1[1] == ' ');
    crate::cron::lemma_split_head(r1, 1);
    let r2 = r1.subrange(2, 9);
    assert(r2[0] == '0');
    assert(r2[1] == ' ');
    crate::cron::lemma_split_head(r2, 1);
    let r3 = r2.subrange(2, 7);
    assert(r3[0] == '*');
    assert(r3[1] == ' ');
    crate::cron::lemma_split_head(r3, 1);
    let r4 = r3.subrange(2, 5);
    assert(r4[0] == '*');
    assert(r4[1] == ' ');
    crate::cron::lemma_split_head(r4, 1);
    let r5 = r4.subrange(2, 3);
    assert(r5[0] == '*');
    crate::cron::lemma_split_single(r5);
    let toks = crate::cron::split_on_space(s);
    assert(toks =~= seq![s.subrange(0, 1), r1.subrange(0, 1), r2.subrange(0, 1), r3.subrange(0, 1), r4.subrange(0, 1), r5]);
    let tok0 = s.subrange(0, 1);
    assert(tok0.len() == 1);
    assert(tok0[0] == '0');
    assert(crate::text::all_digits(tok0)) by {
        assert forall|i: int| 0 <= i < tok0.len() implies crate::text::is_digit_char(#[trigger] tok0[i]) by {
            if i == 0 { assert(crate::text::is_digit_char(tok0[0])); }
        }
    }
    crate::cron::lemma_digits_val1(tok0);
    assert(crate::text::digits_val(tok0) == 0);
    crate::cron::lemma_digits_field(tok0, 0, 59);
    assert(toks[0] == tok0);
    let tok1 = r1.subrange(0, 1);
    assert(tok1.len() == 1);
    assert(tok1[0] == '0');
    assert(crate::text::all_digits(tok1)) by {
        assert forall|i: int| 0 <= i < tok1.len() implies crate::text::is_digit_char(#[trigger] tok1[i]) by {
            if i == 0 { assert(crate::text::is_digit_char(tok1[0])); }
        }
    }
    crate::cron::lemma_digits_val1(tok1);
    assert(crate::text::digits_val(tok1) == 0);
    crate::cron::lemma_digits_field(tok1, 0, 59);
    assert(toks[1] == tok1);
    let tok2 = r2.subrange(0, 1);
    assert(tok2.len() == 1);
    assert(tok2[0] == '0');
    assert(crate::text::all_digits(tok2)) by {
        assert forall|i: int| 0 <= i < tok2.len() implies crate::text::is_digit_char(#[trigger] tok2[i]) by {
            if i == 0 { assert(crate::text::is_digit_char(tok2[0])); }
        }
    }
    crate::cron::lemma_digits_val1(tok2);
    assert(crate::text::digits_val(tok2) == 0);
    crate::cron::lemma_digits_field(tok2, 0, 23);
    assert(toks[2] == tok2);
    let tok3 = r3.subrange(0, 1);
    assert(tok3.len() == 1);
    assert(tok3[0] == '*');
    crate::cron::lemma_star_field(tok3, 1, 31);
    assert(toks[3] == tok3);
    let tok4 = r4.subrange(0, 1);
    assert(tok4.len() == 1);
    assert(tok4[0] == '*');
    crate::cron::lemma_star_field(tok4, 1, 12);
    assert(toks[4] == tok4);
    let tok5 = r5;
    assert(tok5.len() == 1);
    assert(tok5[0] == '*');
    crate::cron::lemma_star_field(tok5, 0, 6);
    assert(toks[5] == tok5);
    assert(crate::cron::valid_cron(s));
}

proof fn lemma_cron_daily_7()
    ensures
        crate::cron::valid_cron("0 0 7 * * *"@),
{
    reveal_strlit("0 0 7 * * *");
    let s = "0 0 7 * * *"@;
    assert(s.len() == 11);
    assert(s[0] == '0');
    assert(s[1] == ' ');
    assert(s[2] == '0');
    assert(s[3] == ' ');
    assert(s[4] == '7');
    assert(s[5] == ' ');
    assert(s[6] == '*');
    assert(s[7] == ' ');
    assert(s[8] == '*');
    assert(s[9] == ' ');
    assert(s[10] == '*');
    crate::cron::lemma_split_head(s, 1);
    let r1 = s.subrange(2, 11);
    assert(r1[0] == '0');
    assert(r1[1] == ' ');
    crate::cron::lemma_split_head(r1, 1);
    let r2 = r1.subrange(2, 9);
    assert(r2[0] == '7');
    assert(r2[1] == ' ');
    crate::cron::lemma_split_head(r2, 1);
    let r3 = r2.subrange(2, 7);
    assert(r3[0] == '*');
    assert(r3[1] == ' ');
    crate::cron::lemma_split_head(r3, 1);
    let r4 = r3.subrange(2, 5);
    assert(r4[0] == '*');
    assert(r4[1] == ' ');
    crate::cron::lemma_split_head(r4, 1);
    let r5 = r4.subrange(2, 3);
    assert(r5[0] == '*');
    crate::cron::lemma_split_single(r5);
    let toks = crate::cron::split_on_space(s);
    assert(toks =~= seq![s.subrange(0, 1), r1.subrange(0, 1), r2.subrange(0, 1), r3.subrange(0, 1), r4.subrange(0, 1), r5]);
    let tok0 = s.subrange(0, 1);
    assert(tok0.len() == 1);
    assert(tok0[0] == '0');
    assert(crate::text::all_digits(tok0)) by {
        assert forall|i: int| 0 <= i < tok0.len() implies crate::text::is_digit_char(#[trigger] tok0[i]) by {
            if i == 0 { assert(crate::text::is_digit_char(tok0[0])); }
        }
    }
    crate::cron::lemma_digits_val1(tok0);
    assert(crate::text::digits_val(tok0) == 0);
    crate::cron::lemma_digits_field(tok0, 0, 59);
    assert(toks[0] == tok0);
    let tok1 = r1.subrange(0, 1);
    assert(tok1.len() == 1);
    assert(tok1[0] == '0');
    assert(crate::text::all_digits(tok1)) by {
        assert forall|i: int| 0 <= i < tok1.len() implies crate::text::is_digit_char(#[trigger] tok1[i]) by {
            if i == 0 { assert(crate::text::is_digit_char(tok1[0])); }
        }
    }
    crate::cron::lemma_digits_val1(tok1);
    assert(crate::text::digits_val(tok1) == 0);
    crate::cron::lemma_digits_field(tok1, 0, 59);
    assert(toks[1] == tok1);
    let tok2 = r2.subrange(0, 1);
    assert(tok2.len() == 1);
    assert(tok2[0] == '7');
    assert(crate::text::all_digits(tok2)) by {
        assert forall|i: int| 0 <= i < tok2.len() implies crate::text::is_digit_char(#[trigger] tok2[i]) by {
            if i == 0 { assert(crate::text::is_digit_char(tok2[0])); }
        }
    }
    crate::cron::lemma_digits_val1(tok2);
    assert(crate::text::digits_val(tok2) == 7);
    crate::cron::lemma_digits_field(tok2, 0, 23);
    assert(toks[2] == tok2);
    let tok3 = r3.subrange(0, 1);
    assert(tok3.len() == 1);
    assert(tok3[0] == '*');
    crate::cron::lemma_star_field(tok3, 1, 31);
    assert(toks[3] == tok3);
    let tok4 = r4.subrange(0, 1);
    assert(tok4.len() == 1);
    assert(tok4[0] == '*');
    crate::cron::lemma_star_field(tok4, 1, 12);
    assert(toks[4] == tok4);
    let tok5 = r5;
    assert(tok5.len() == 1);
    assert(tok5[0] == '*');
    crate::cron::lemma_star_field(tok5, 0, 6);
    assert(toks[5] == tok5);
    assert(crate::cron::valid_cron(s));
}

proof fn lemma_cron_daily_13()
    ensures
        crate::cron::valid_cron("0 0 13 * * *"@),
{
    reveal_strlit("0 0 13 * * *");
    let s = "0 0 13 * * *"@;
    assert(s.len() == 12);
    assert(s[0] == '0');
    assert(s[1] == ' ');
    assert(s[2] == '0');
    assert(s[3] == ' ');
    assert(s[4] == '1');
    assert(s[5] == '3');
    assert(s[6] == ' ');
    assert(s[7] == '*');
    assert(s[8] == ' ');
    assert(s[9] == '*');
    assert(s[10] == ' ');
    assert(s[11] == '*');
    crate::cron::lemma_split_head(s, 1);
    let r1 = s.subrange(2, 12);
    assert(r1[0] == '0');
    assert(r1[1] == ' ');
    crate::cron::lemma_split_head(r1, 1);
    let r2 = r1.subrange(2, 10);
    assert(r2[0] == '1');
    assert(r2[1] == '3');
    assert(r2[2] == ' ');
    crate::cron::lemma_split_head(r2, 2);
    let r3 = r2.subrange(3, 8);
    assert(r3[0] == '*');
    assert(r3[1] == ' ');
    crate::cron::lemma_split_head(r3, 1);
    let r4 = r3.subrange(2, 5);
    assert(r4[0] == '*');
    assert(r4[1] == ' ');
    crate::cron::lemma_split_head(r4, 1);
    let r5 = r4.subrange(2, 3);
    assert(r5[0] == '*');
    crate::cron::lemma_split_single(r5);
    let toks = crate::cron::split_on_space(s);
    assert(toks =~= seq![s.subrange(0, 1), r1.subrange(0, 1), r2.subrange(0, 2), r3.subrange(0, 1), r4.subrange(0, 1), r5]);
    let tok0 = s.subrange(0, 1);
    assert(tok0.len() == 1);
    assert(tok0[0] == '0');
    assert(crate::text::all_digits(tok0)) by {
        assert forall|i: int| 0 <= i < tok0.len() implies crate::text::is_digit_char(#[trigger] tok0[i]) by {
            if i == 0 { assert(crate::text::is_digit_char(tok0[0])); }
        }
    }
    crate::cron::lemma_digits_val1(tok0);
    assert(crate::text::digits_val(tok0) == 0);
    crate::cron::lemma_digits_field(tok0, 0, 59);
    assert(toks[0] == tok0);
    let tok1 = r1.subrange(0, 1);
    assert(tok1.len() == 1);
    assert(tok1[0] == '0');
    assert(crate::text::all_digits(tok1)) by {
        assert forall|i: int| 0 <= i < tok1.len() implies crate::text::is_digit_char(#[trigger] tok1[i]) by {
            if i == 0 { assert(crate::text::is_digit_char(tok1[0])); }
        }
    }
    crate::cron::lemma_digits_val1(tok1);
    assert(crate::text::digits_val(tok1) == 0);
    crate::cron::lemma_digits_field(tok1, 0, 59);
    assert(toks[1] == tok1);
    let tok2 = r2.subrange(0, 2);
    assert(tok2.len() == 2);
    assert(tok2[0] == '1');
    assert(tok2[1] == '3');
    assert(crate::text::all_digits(tok2)) by {
        assert forall|i: int| 0 <= i < tok2.len() implies crate::text::is_digit_char(#[trigger] tok2[i]) by {
            if i == 0 { assert(crate::text::is_digit_char(tok2[0])); }
            if i == 1 { assert(crate::text::is_digit_char(tok2[1])); }
        }
    }
    crate::cron::lemma_digits_val2(tok2);
    assert(crate::text::digits_val(tok2) == 13);
    crate::cron::lemma_digits_field(tok2, 0, 23);
    assert(toks[2] == tok2);
    let tok3 = r3.subrange(0, 1);
    assert(tok3.len() == 1);
    assert(tok3[0] == '*');
    crate::cron::lemma_star_field(tok3, 1, 31);
    assert(toks[3] == tok3);
    let tok4 = r4.subrange(0, 1);
    assert(tok4.len() == 1);
    assert(tok4[0] == '*');
    crate::cron::lemma_star_field(tok4, 1, 12);
    assert(toks[4] == tok4);
    let tok5 = r5;
    assert(tok5.len() == 1);
    assert(tok5[0] == '*');
    crate::cron::lemma_star_field(tok5, 0, 6);
    assert(toks[5] == tok5);
    assert(crate::cron::valid_cron(s));
}

proof fn lemma_cron_every_minute()
    ensures
        crate::cron::valid_cron("0 * * * * *"@),
{
    reveal_strlit("0 * * * * *");
    let s = "0 * * * * *"@;
    assert(s.len() == 11);
    assert(s[0] == '0');
    assert(s[1] == ' ');
    assert(s[2] == '*');
    assert(s[3] == ' ');
    assert(s[4] == '*');
    assert(s[5] == ' ');
    assert(s[6] == '*');
    assert(s[7] == ' ');
    assert(s[8] == '*');
    assert(s[9] == ' ');
    assert(s[10] == '*');
    crate::cron::lemma_split_head(s, 1);
    let r1 = s.subrange(2, 11);
    assert(r1[0] == '*');
    assert(r1[1] == ' ');
    crate::cron::lemma_split_head(r1, 1);
    let r2 = r1.subrange(2, 9);
    assert(r2[0] == '*');
    assert(r2[1] == ' ');
    crate::cron::lemma_split_head(r2, 1);
    let r3 = r2.subrange(2, 7);
    assert(r3[0] == '*');
    assert(r3[1] == ' ');
    crate::cron::lemma_split_head(r3, 1);
    let r4 = r3.subrange(2, 5);
    assert(r4[0] == '*');
    assert(r4[1] == ' ');
    crate::cron::lemma_split_head(r4, 1);
    let r5 = r4.subrange(2, 3);
    assert(r5[0] == '*');
    crate::cron::lemma_split_single(r5);
    let toks = crate::cron::split_on_space(s);
    assert(toks =~= seq![s.subrange(0, 1), r1.subrange(0, 1), r2.subrange(0, 1), r3.subrange(0, 1), r4.subrange(0, 1), r5]);
    let tok0 = s.subrange(0, 1);
    assert(tok0.len() == 1);
    assert(tok0[0] == '0');
    assert(crate::text::all_digits(tok0)) by {
        assert forall|i: int| 0 <= i < tok0.len() implies crate::text::is_digit_char(#[trigger] tok0[i]) by {
            if i == 0 { assert(crate::text::is_digit_char(tok0[0])); }
        }
    }
    crate::cron::lemma_digits_val1(tok0);
    assert(crate::text::digits_val(tok0) == 0);
    crate::cron::lemma_digits_field(tok0, 0, 59);
    assert(toks[0] == tok0);
    let tok1 = r1.subrange(0, 1);
    assert(tok1.len() == 1);
    assert(tok1[0] == '*');
    crate::cron::lemma_star_field(tok1, 0, 59);
    assert(toks[1] == tok1);
    let tok2 = r2.subrange(0, 1);
    assert(tok2.len() == 1);
    assert(tok2[0] == '*');
    crate::cron::lemma_star_field(tok2, 0, 23);
    assert(toks[2] == tok2);
    let tok3 = r3.subrange(0, 1);
    assert(tok3.len() == 1);
    assert(tok3[0] == '*');
    crate::cron::lemma_star_field(tok3, 1, 31);
    assert(toks[3] == tok3);
    let tok4 = r4.subrange(0, 1);
    assert(tok4.len() == 1);
    assert(tok4[0] == '*');
    crate::cron::lemma_star_field(tok4, 1, 12);
    assert(toks[4] == tok4);
    let tok5 = r5;
    assert(tok5.len() == 1);
    assert(tok5[0] == '*');
    crate::cron::lemma_star_field(tok5, 0, 6);
    assert(toks[5] == tok5);
    assert(crate::cron::valid_cron(s));
}
} // verus!
