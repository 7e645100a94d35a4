//! The pipeline machine driven through whole runs: rate-limit spacing,
//! per-candidate failure isolation, and the no-op exclusion, on concrete
//! candidates.

use stock_crawler::dividend::DividendRecord;
use stock_crawler::errors::{FetchError, PersistError};
use stock_crawler::persistence::{DividendStore, WriteOutcome};
use stock_crawler::pipeline::{
    candidates_from_records, candidates_from_symbols, join_outcomes, PipelineAction,
    PipelineMachine, SelectionMode,
};

fn record(code: &str, year: i32, quarter: &str, ex1: &str) -> DividendRecord {
    DividendRecord {
        security_code: code.to_string(),
        year,
        quarter: quarter.to_string(),
        ex_dividend_date1: ex1.to_string(),
        ex_dividend_date2: String::new(),
        payable_date1: String::new(),
        payable_date2: String::new(),
    }
}

/// Drive one machine to completion against a store, with candidate
/// `failing` (if any) answering its fetch with an error. Returns the times
/// at which each fetch started.
fn drive(
    machine: &mut PipelineMachine,
    store: &mut DividendStore,
    fetched_per_candidate: &[Vec<DividendRecord>],
    failing: Option<usize>,
) -> Vec<u64> {
    let mut now: u64 = 10_000;
    let mut fetch_times: Vec<u64> = Vec::new();
    let mut cur: usize = 0;
    loop {
        match machine.next_action(now) {
            PipelineAction::Done => break,
            PipelineAction::Sleep(d) => {
                // the process would sleep; here the clock just advances
                now += d;
            }
            PipelineAction::Fetch => {
                machine.start_fetch(now);
                fetch_times.push(now);
                let result: Result<Vec<DividendRecord>, FetchError> = if failing == Some(cur) {
                    Err(FetchError::Timeout)
                } else {
                    Ok(fetched_per_candidate[cur]
                        .iter()
                        .map(|r| r.duplicate())
                        .collect())
                };
                machine.finish_fetch(result);
                cur += 1;
                now += 1; // the fetch itself takes a moment
            }
            PipelineAction::Persist => {
                // pending writes go through the store model, one by one
                let rec = machine.pending[0].duplicate();
                let outcome: Result<WriteOutcome, PersistError> = Ok(store.upsert(rec));
                machine.finish_persist(outcome);
            }
        }
    }
    fetch_times
}

#[test]
fn rate_limit_spacing_between_consecutive_fetches() {
    let symbols = vec!["2330".to_string(), "2317".to_string(), "2603".to_string()];
    let mut machine = PipelineMachine::new(
        SelectionMode::MissingOrMultiple,
        2023,
        90,
        candidates_from_symbols(symbols),
    );
    let mut store = DividendStore::new();
    let fetched = vec![
        vec![record("2330", 2023, "1", "2023-03-15")],
        vec![record("2317", 2023, "1", "2023-04-20")],
        vec![record("2603", 2023, "1", "2023-05-02")],
    ];
    let times = drive(&mut machine, &mut store, &fetched, None);
    assert_eq!(times.len(), 3);
    for w in times.windows(2) {
        assert!(w[1] - w[0] >= 90, "fetches {} and {} closer than the delay", w[0], w[1]);
    }
    assert_eq!(store.records.len(), 3);
}

#[test]
fn failure_of_one_candidate_does_not_stop_the_rest() {
    // candidate 3 of 5 fails its fetch; 4 and 5 still execute and the
    // pipeline completes
    let symbols: Vec<String> =
        ["2330", "2317", "2603", "2884", "2454"].iter().map(|s| s.to_string()).collect();
    let mut machine = PipelineMachine::new(
        SelectionMode::MissingOrMultiple,
        2023,
        5,
        candidates_from_symbols(symbols),
    );
    let mut store = DividendStore::new();
    let fetched: Vec<Vec<DividendRecord>> = ["2330", "2317", "2603", "2884", "2454"]
        .iter()
        .map(|s| vec![record(s, 2023, "1", "2023-03-15")])
        .collect();
    let times = drive(&mut machine, &mut store, &fetched, Some(2));
    let summary = machine.summary();
    assert_eq!(times.len(), 5, "every candidate was attempted");
    assert_eq!(summary.attempted, 5);
    assert_eq!(summary.failed_fetches, 1);
    assert_eq!(summary.succeeded, 4);
    assert_eq!(summary.writes, 4);
    // the failed candidate's record was never written; the others were
    assert_eq!(store.records.len(), 4);
    assert!(store.records.iter().all(|r| r.security_code != "2603"));
}

#[test]
fn no_write_is_issued_when_fetched_equals_stored() {
    // unannounced-dates mode with a fetched row identical to the stored one:
    // the write counter stays at zero
    let stored = record("2330", 2023, "2", "");
    let mut machine = PipelineMachine::new(
        SelectionMode::UnannouncedDates,
        2023,
        5,
        candidates_from_records(vec![stored.duplicate()]),
    );
    let mut store = DividendStore::new();
    let fetched = vec![vec![record("2330", 2023, "2", "")]];
    drive(&mut machine, &mut store, &fetched, None);
    let summary = machine.summary();
    assert_eq!(summary.attempted, 1);
    assert_eq!(summary.succeeded, 1);
    assert_eq!(summary.writes, 0, "identical values must not be written");
    assert_eq!(store.records.len(), 0);
}

#[test]
fn unannounced_dates_are_filled_from_the_fetch() {
    let stored = record("2330", 2023, "2", "");
    let mut machine = PipelineMachine::new(
        SelectionMode::UnannouncedDates,
        2023,
        5,
        candidates_from_records(vec![stored.duplicate()]),
    );
    let mut store = DividendStore::new();
    store.upsert(stored);
    let fetched = vec![vec![record("2330", 2023, "2", "2023-06-15")]];
    drive(&mut machine, &mut store, &fetched, None);
    assert_eq!(machine.summary().writes, 1);
    assert_eq!(store.records.len(), 1);
    assert_eq!(store.records[0].ex_dividend_date1, "2023-06-15");
}

#[test]
fn period_filter_drops_other_years_in_missing_mode() {
    let symbols = vec!["2330".to_string()];
    let mut machine = PipelineMachine::new(
        SelectionMode::MissingOrMultiple,
        2023,
        5,
        candidates_from_symbols(symbols),
    );
    let mut store = DividendStore::new();
    let fetched = vec![vec![
        record("2330", 2021, "4", "2021-12-01"),
        record("2330", 2023, "1", "2023-03-15"),
        record("2330", 2022, "4", "2022-12-01"),
    ]];
    drive(&mut machine, &mut store, &fetched, None);
    assert_eq!(machine.summary().writes, 1);
    assert_eq!(store.records.len(), 1);
    assert_eq!(store.records[0].year, 2023);
}

#[test]
fn fan_in_swallows_branch_failures() {
    let ok = Ok(PipelineMachine::new(
        SelectionMode::MissingOrMultiple,
        2023,
        5,
        Vec::new(),
    )
    .summary());
    let failed: Result<_, PersistError> = Err(PersistError::Read);
    assert!(join_outcomes(&failed, &ok).is_ok());
}
