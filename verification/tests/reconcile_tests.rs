//! The dividend reconciliation decisions and the natural-key store,
//! exercised on concrete records.

use stock_crawler::dividend::{
    dates_differ, records_for_year, reconcile_with, same_identity, DividendRecord,
};
use stock_crawler::persistence::DividendStore;

fn record(code: &str, year: i32, quarter: &str, ex1: &str, ex2: &str, pay1: &str, pay2: &str)
    -> DividendRecord {
    DividendRecord {
        security_code: code.to_string(),
        year,
        quarter: quarter.to_string(),
        ex_dividend_date1: ex1.to_string(),
        ex_dividend_date2: ex2.to_string(),
        payable_date1: pay1.to_string(),
        payable_date2: pay2.to_string(),
    }
}

#[test]
fn reconciliation_overwrites_with_fetched_dates() {
    // a stored record with a blank first ex-dividend date, and a fetched
    // record of the same identity carrying the announced date
    let stored = record("2330", 2023, "2", "", "", "", "");
    let fetched = record("2330", 2023, "2", "2023-06-15", "", "2023-07-13", "");
    let decision = reconcile_with(&stored, &vec![fetched]).unwrap();
    assert_eq!(decision.security_code, "2330");
    assert_eq!(decision.year, 2023);
    assert_eq!(decision.quarter, "2");
    // all date fields come from the fetched record: an overwrite, not a merge
    assert_eq!(decision.ex_dividend_date1, "2023-06-15");
    assert_eq!(decision.ex_dividend_date2, "");
    assert_eq!(decision.payable_date1, "2023-07-13");
    assert_eq!(decision.payable_date2, "");

    // persisting it leaves exactly one row under the identity
    let mut store = DividendStore::new();
    store.upsert(stored);
    let outcome = store.upsert(decision);
    assert_eq!(outcome.rows_affected, 1);
    assert_eq!(store.records.len(), 1);
    assert_eq!(store.records[0].ex_dividend_date1, "2023-06-15");
}

#[test]
fn identical_values_produce_no_write() {
    let stored = record("2330", 2023, "2", "2023-06-15", "", "2023-07-13", "");
    let fetched = record("2330", 2023, "2", "2023-06-15", "", "2023-07-13", "");
    assert!(reconcile_with(&stored, &vec![fetched]).is_none());
}

#[test]
fn other_identities_are_ignored() {
    let stored = record("2330", 2023, "2", "", "", "", "");
    let other_year = record("2330", 2022, "2", "2022-06-15", "", "", "");
    let other_quarter = record("2330", 2023, "3", "2023-09-15", "", "", "");
    let other_code = record("2317", 2023, "2", "2023-06-15", "", "", "");
    assert!(reconcile_with(&stored, &vec![other_year, other_quarter, other_code]).is_none());
}

#[test]
fn first_conflicting_detail_wins() {
    let stored = record("2330", 2023, "2", "", "", "", "");
    let first = record("2330", 2023, "2", "2023-06-15", "", "", "");
    let second = record("2330", 2023, "2", "2023-06-16", "", "", "");
    let decision = reconcile_with(&stored, &vec![first, second]).unwrap();
    assert_eq!(decision.ex_dividend_date1, "2023-06-15");
}

#[test]
fn upsert_twice_is_the_same_as_once() {
    // the same record applied twice leaves the same stored state as once
    let rec = record("2330", 2023, "2", "2023-06-15", "", "2023-07-13", "");
    let mut once = DividendStore::new();
    once.upsert(rec.duplicate());
    let mut twice = DividendStore::new();
    twice.upsert(rec.duplicate());
    twice.upsert(rec.duplicate());
    assert_eq!(once.records.len(), twice.records.len());
    assert_eq!(once.records.len(), 1);
    assert_eq!(once.records[0].ex_dividend_date1, twice.records[0].ex_dividend_date1);
    assert_eq!(once.records[0].payable_date1, twice.records[0].payable_date1);
}

#[test]
fn period_filter_keeps_only_the_target_year() {
    let rows = vec![
        record("2330", 2022, "4", "2022-12-15", "", "", ""),
        record("2330", 2023, "1", "2023-03-15", "", "", ""),
        record("2330", 2023, "2", "2023-06-15", "", "", ""),
    ];
    let kept = records_for_year(&rows, 2023);
    assert_eq!(kept.len(), 2);
    assert_eq!(kept[0].quarter, "1");
    assert_eq!(kept[1].quarter, "2");
    assert!(records_for_year(&rows, 2021).is_empty());
}

#[test]
fn identity_and_difference_predicates() {
    let a = record("2330", 2023, "2", "", "", "", "");
    let b = record("2330", 2023, "2", "2023-06-15", "", "", "");
    let c = record("2317", 2023, "2", "", "", "", "");
    assert!(same_identity(&a, &b));
    assert!(!same_identity(&a, &c));
    assert!(dates_differ(&a, &b));
    assert!(!dates_differ(&a, &a));
}

#[test]
fn candidate_selection_by_completeness() {
    let mut store = DividendStore::new();
    store.upsert(record("2330", 2023, "2", "", "", "", ""));
    store.upsert(record("2317", 2023, "1", "2023-04-20", "", "", ""));
    store.upsert(record("2603", 2022, "4", "", "", "", ""));
    // unannounced: both ex-dividend dates blank, and of the target year
    let unannounced = store.candidates_unannounced(2023);
    assert_eq!(unannounced.len(), 1);
    assert_eq!(unannounced[0].security_code, "2330");

    // without-or-multiple: symbols holding no row, or several, for the year
    let universe = vec!["2330".to_string(), "2317".to_string(), "2884".to_string()];
    let picked = store.select_without_or_multiple(&universe, 2023);
    assert_eq!(picked, vec!["2884".to_string()]);
    store.upsert(record("2330", 2023, "3", "", "", "", ""));
    let picked2 = store.select_without_or_multiple(&universe, 2023);
    assert_eq!(picked2, vec!["2330".to_string(), "2884".to_string()]);
}
