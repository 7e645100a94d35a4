//! The shared cache and the TTL result cache, exercised on concrete values.

use stock_crawler::cache::{SharedCache, StockRecord, TtlCache};

fn stock(symbol: &str, name: &str, suspended: bool) -> StockRecord {
    StockRecord {
        stock_symbol: symbol.to_string(),
        name: name.to_string(),
        suspend_listing: suspended,
    }
}

#[test]
fn shared_cache_snapshot_reads_what_was_applied() {
    let mut cache = SharedCache::new();
    cache.apply_updates(vec![stock("2330", "tsmc", false), stock("2317", "hon hai", false)]);
    let got = cache.get_snapshot(&"2330".to_string()).unwrap();
    assert_eq!(got.stock_symbol, "2330");
    assert_eq!(got.name, "tsmc");
    assert!(!got.suspend_listing);
    assert!(cache.get_snapshot(&"9999".to_string()).is_none());
}

#[test]
fn shared_cache_apply_updates_replaces_by_identity() {
    let mut cache = SharedCache::new();
    cache.apply_updates(vec![stock("2330", "tsmc", false)]);
    cache.apply_updates(vec![stock("2330", "tsmc", true)]);
    let all = cache.read_all();
    assert_eq!(all.len(), 1);
    assert!(all[0].suspend_listing);
}

#[test]
fn shared_cache_last_update_wins_within_one_batch() {
    let mut cache = SharedCache::new();
    cache.apply_updates(vec![stock("2330", "old", false), stock("2330", "new", true)]);
    let got = cache.get_snapshot(&"2330".to_string()).unwrap();
    assert_eq!(got.name, "new");
    assert!(got.suspend_listing);
}

#[test]
fn ttl_entry_fresh_within_ttl_and_expired_after() {
    let mut cache: TtlCache<String> = TtlCache::new();
    let t0: i64 = 1_000_000;
    cache.put_at("yield_rank".to_string(), "cached".to_string(), t0);
    // read 30 seconds later under a 60 second TTL: the value comes back
    let hit = cache.get_at(&"yield_rank".to_string(), 60, t0 + 30);
    assert_eq!(hit, Some(&"cached".to_string()));
    // read 61 seconds later: the entry has expired
    let miss = cache.get_at(&"yield_rank".to_string(), 60, t0 + 61);
    assert_eq!(miss, None);
    // exactly at the boundary the entry is still fresh
    let edge = cache.get_at(&"yield_rank".to_string(), 60, t0 + 60);
    assert_eq!(edge, Some(&"cached".to_string()));
}

#[test]
fn ttl_clear_all_invalidates_regardless_of_remaining_ttl() {
    let mut cache: TtlCache<String> = TtlCache::new();
    let t0: i64 = 500;
    cache.put_at("a".to_string(), "1".to_string(), t0);
    cache.put_at("b".to_string(), "2".to_string(), t0);
    assert!(cache.get_at(&"a".to_string(), 1000, t0 + 1).is_some());
    cache.clear_all();
    assert_eq!(cache.get_at(&"a".to_string(), 1000, t0 + 1), None);
    assert_eq!(cache.get_at(&"b".to_string(), 1000, t0 + 1), None);
}

#[test]
fn ttl_put_replaces_the_previous_entry() {
    let mut cache: TtlCache<u64> = TtlCache::new();
    cache.put_at("k".to_string(), 1, 100);
    cache.put_at("k".to_string(), 2, 200);
    assert_eq!(cache.get_at(&"k".to_string(), 10, 205), Some(&2));
}

#[test]
fn ttl_wall_clock_interface_round_trips() {
    let mut cache: TtlCache<u64> = TtlCache::new();
    cache.put("k".to_string(), 7);
    // a fresh insert under a generous TTL is still readable
    assert_eq!(cache.get_or_none(&"k".to_string(), 3600), Some(&7));
    assert_eq!(cache.get_or_none(&"absent".to_string(), 3600), None);
}
