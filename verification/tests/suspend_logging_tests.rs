//! The suspended-listing delta, the journal, and the error tags, on
//! concrete values.

use stock_crawler::cache::{SharedCache, StockRecord};
use stock_crawler::dates::CivilDate;
use stock_crawler::errors::{FetchError, PersistError};
use stock_crawler::logging::{
    debug_file_async, error_file_async, info_file_async, should_flush, warn_file_async, Logger,
};
use stock_crawler::suspend::{roc_year, select_suspend_updates, should_visit, SuspendListing};

fn stock(symbol: &str, suspended: bool) -> StockRecord {
    StockRecord {
        stock_symbol: symbol.to_string(),
        name: symbol.to_string(),
        suspend_listing: suspended,
    }
}

fn row(symbol: &str, delisting_date: &str) -> SuspendListing {
    SuspendListing {
        delisting_date: delisting_date.to_string(),
        name: symbol.to_string(),
        stock_symbol: symbol.to_string(),
    }
}

#[test]
fn delisting_rows_flag_cached_stocks() {
    let mut cache = SharedCache::new();
    cache.apply_updates(vec![stock("2330", false), stock("2317", false), stock("1234", true)]);
    let rows = vec![
        row("2330", "112/05/30"), // cached, not yet flagged: update
        row("2317", "109/01/02"), // before Republic-era year 110: skipped
        row("1234", "112/05/30"), // already flagged: skipped
        row("9999", "112/05/30"), // unknown symbol: skipped
        row("2330", "xx"),        // unreadable date: skipped
    ];
    let updates = select_suspend_updates(&cache, &rows);
    assert_eq!(updates.len(), 1);
    assert_eq!(updates[0].stock_symbol, "2330");
    assert!(updates[0].suspend_listing);

    // writing the delta back flags the record in the cache
    cache.apply_updates(updates);
    assert!(cache.get_snapshot(&"2330".to_string()).unwrap().suspend_listing);
    assert!(!cache.get_snapshot(&"2317".to_string()).unwrap().suspend_listing);
}

#[test]
fn republic_era_years_parse_from_the_date_prefix() {
    assert_eq!(roc_year("112/05/30"), Some(112));
    assert_eq!(roc_year("109"), Some(109));
    assert_eq!(roc_year("9/"), None);
    assert_eq!(roc_year("ab/05/30"), None);
    assert_eq!(roc_year(""), None);
}

#[test]
fn the_suspension_job_skips_weekends() {
    // 2023-04-22 was a Saturday, 2023-04-24 a Monday
    assert!(!should_visit(&CivilDate { year: 2023, month: 4, day: 22 }));
    assert!(should_visit(&CivilDate { year: 2023, month: 4, day: 24 }));
}

#[test]
fn the_journal_keeps_messages_per_severity_in_order() {
    let mut logger = Logger::new("default");
    info_file_async(&mut logger, "started".to_string());
    warn_file_async(&mut logger, "slow source".to_string());
    error_file_async(&mut logger, "fetch failed".to_string());
    debug_file_async(&mut logger, "tick".to_string());
    info_file_async(&mut logger, "done".to_string());
    assert_eq!(logger.info_log, vec!["started".to_string(), "done".to_string()]);
    assert_eq!(logger.warn_log, vec!["slow source".to_string()]);
    assert_eq!(logger.error_log, vec!["fetch failed".to_string()]);
    assert_eq!(logger.debug_log, vec!["tick".to_string()]);
    assert_eq!(logger.name, "default");
}

#[test]
fn the_writer_flushes_on_an_empty_queue_or_a_full_buffer() {
    assert!(should_flush(true, 0));
    assert!(should_flush(false, 2048));
    assert!(should_flush(false, 4000));
    assert!(!should_flush(false, 2047));
}

#[test]
fn error_tags_name_their_condition() {
    assert_eq!(FetchError::Timeout.describe(), "fetch: timeout");
    assert_eq!(FetchError::Network.describe(), "fetch: network error");
    assert_eq!(FetchError::Decode.describe(), "fetch: undecodable response");
    assert_eq!(PersistError::Write.describe(), "persist: write failed");
    assert_eq!(PersistError::Connection.describe(), "persist: connection error");
    assert_eq!(PersistError::Read.describe(), "persist: read failed");
}

#[test]
fn gateway_read_parameters() {
    let d = CivilDate { year: 2023, month: 4, day: 20 };
    let (year, text) = stock_crawler::persistence::dividends_on_date_params(&d);
    assert_eq!(year, 2023);
    assert_eq!(text, "2023-04-20");
    let d2 = CivilDate { year: 2023, month: 8, day: 4 };
    let (window_start, key) = stock_crawler::persistence::money_history_params(&d2);
    assert_eq!(window_start, CivilDate { year: 2023, month: 7, day: 5 });
    assert_eq!(key, "2023-08-04");
}
