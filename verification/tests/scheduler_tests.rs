//! Cron parsing, due evaluation and the dispatcher's at-most-one-concurrent
//! rule, on concrete expressions and ticks.

use stock_crawler::cron::{parse_cron, TimeParts};
use stock_crawler::scheduler::{next_quote_step, standard_registry, QuoteStep, Scheduler};

fn at(hour: u8, min: u8, sec: u8) -> TimeParts {
    TimeParts { sec, min, hour, dom: 15, month: 6, dow: 4 }
}

#[test]
fn plain_expression_fires_at_its_instant_only() {
    let sched = parse_cron("0 0 17 * * *").unwrap();
    assert!(sched.due(&at(17, 0, 0)));
    assert!(!sched.due(&at(17, 0, 1)));
    assert!(!sched.due(&at(18, 0, 0)));
    assert!(!sched.due(&at(17, 30, 0)));
}

#[test]
fn every_minute_expression() {
    let sched = parse_cron("0 * * * * *").unwrap();
    assert!(sched.due(&at(3, 59, 0)));
    assert!(sched.due(&at(23, 0, 0)));
    assert!(!sched.due(&at(23, 0, 30)));
}

#[test]
fn lists_and_ranges() {
    let sched = parse_cron("0 30 9,12,15 * 5-8 1,3,5").unwrap();
    let t = TimeParts { sec: 0, min: 30, hour: 12, dom: 3, month: 6, dow: 3 };
    assert!(sched.due(&t));
    assert!(!sched.due(&TimeParts { hour: 10, ..t }));
    assert!(!sched.due(&TimeParts { month: 4, ..t }));
    assert!(!sched.due(&TimeParts { month: 9, ..t }));
    assert!(!sched.due(&TimeParts { dow: 2, ..t }));
    assert!(sched.due(&TimeParts { hour: 15, month: 8, dow: 5, ..t }));
}

#[test]
fn malformed_expressions_are_rejected() {
    assert!(parse_cron("* * * * *").is_err(), "five fields");
    assert!(parse_cron("* * * * * * *").is_err(), "seven fields");
    assert!(parse_cron("60 * * * * *").is_err(), "seconds out of range");
    assert!(parse_cron("* * 24 * * *").is_err(), "hours out of range");
    assert!(parse_cron("* * * 0 * *").is_err(), "day of month below range");
    assert!(parse_cron("* * * * * 7").is_err(), "day of week out of range");
    assert!(parse_cron("a * * * * *").is_err(), "not a number");
    assert!(parse_cron("5-3 * * * * *").is_err(), "descending range");
    assert!(parse_cron("1,,2 * * * * *").is_err(), "empty list item");
    assert!(parse_cron("" ).is_err(), "empty expression");
}

#[test]
fn range_edges_are_admitted() {
    let sched = parse_cron("0-5 * * * * *").unwrap();
    assert!(sched.due(&at(1, 1, 0)));
    assert!(sched.due(&at(1, 1, 5)));
    assert!(!sched.due(&at(1, 1, 6)));
}

#[test]
fn tick_starts_due_jobs_and_skips_running_ones() {
    let mut sched = Scheduler::new();
    sched.register("0 0 17 * * *", "quarter_report".to_string()).unwrap();
    sched.register("0 * * * * *", "free_dns".to_string()).unwrap();

    // at 17:00:00 both are due and both start
    let started = sched.tick(&at(17, 0, 0));
    assert_eq!(started, vec![0, 1]);

    // a due tick for a still-running job is skipped, not queued
    let started_again = sched.tick(&at(17, 0, 0));
    assert!(started_again.is_empty(), "no second invocation while running");

    // completion re-arms the job: the next due tick starts it again
    sched.complete(1);
    let started_third = sched.tick(&at(17, 1, 0));
    assert_eq!(started_third, vec![1]);
}

#[test]
fn startup_notice_is_claimed_once() {
    let mut sched = Scheduler::new();
    assert!(sched.claim_startup_notice());
    assert!(!sched.claim_startup_notice());
    assert!(!sched.claim_startup_notice());
}

#[test]
fn the_standard_registry_is_well_formed() {
    let mut sched = Scheduler::new();
    standard_registry(&mut sched).unwrap();
    assert_eq!(sched.jobs.len(), 13);
    // at 13:00:00 the dividend backfill fires, and so does the every-minute
    // dynamic-DNS job; nothing else is due
    let t = TimeParts { sec: 0, min: 0, hour: 13, dom: 15, month: 6, dow: 4 };
    let started = sched.tick(&t);
    assert_eq!(started.len(), 2);
    assert_eq!(sched.jobs[started[0]].job_id, "dividend_backfill");
    assert_eq!(sched.jobs[started[1]].job_id, "free_dns");
}

#[test]
fn quote_chain_runs_in_order_and_stops_on_an_empty_day() {
    // an ordinary day walks the whole chain and ends by clearing the cache
    let mut step = QuoteStep::FetchQuotes;
    let mut seen = vec![step];
    while step != QuoteStep::Finished {
        step = next_quote_step(step, 1500);
        seen.push(step);
    }
    assert_eq!(
        seen,
        vec![
            QuoteStep::FetchQuotes,
            QuoteStep::CountCheck,
            QuoteStep::MakeupLack,
            QuoteStep::MovingAverage,
            QuoteStep::RebuildLast,
            QuoteStep::Estimate,
            QuoteStep::YieldRank,
            QuoteStep::MoneyHistory,
            QuoteStep::ClearCache,
            QuoteStep::Finished,
        ]
    );
    // a day without quotes ends right after the count check
    assert_eq!(next_quote_step(QuoteStep::CountCheck, 0), QuoteStep::Finished);
}
