use short_link::cache::LinkCache;
use short_link::cleanup::{cleanup_expired_links, cleanup_expired_links_internal, CleanupLock};
use short_link::generator::YitIdHelper;
use short_link::hashing::calculate_sha256;
use short_link::pojo::LinkHistory;
use short_link::service::create_link;
use short_link::store::LinkStore;
use short_link::types::CleanupStats;

fn store_with_expired(urls_expired: &[&str], urls_live: &[&str]) -> (LinkStore, LinkCache) {
    let mut store = LinkStore::new();
    let mut cache = LinkCache::new();
    let mut idgen = YitIdHelper::new();
    for url in urls_expired {
        create_link(&mut cache, &mut store, &mut idgen, url.to_string(), None)
            .expect("creation succeeds");
        let last = store.records.len() - 1;
        store.records[last].expire_date = Some(5);
    }
    for url in urls_live {
        create_link(&mut cache, &mut store, &mut idgen, url.to_string(), None)
            .expect("creation succeeds");
    }
    (store, cache)
}

#[test]
fn cycle_retires_expired_records_and_evicts_their_entries() {
    let (mut store, mut cache) = store_with_expired(
        &["http://old.example/1", "http://old.example/2", "http://old.example/3"],
        &["http://new.example/1"],
    );
    let mut stats = CleanupStats::default();

    let cleaned = cleanup_expired_links_internal(&mut store, &mut cache, &mut stats, 10, 2);
    assert_eq!(cleaned, 3);

    for rec in &store.records {
        if rec.origin_url.starts_with("http://old.example") {
            assert!(!rec.active);
            // both cache families were evicted for the retired record
            assert_eq!(cache.fwd_get(&calculate_sha256(&rec.origin_url)), None);
            assert_eq!(cache.rev_get(rec.id), None);
        } else {
            assert!(rec.active);
            assert!(cache.rev_get(rec.id).is_some());
        }
    }
    assert_eq!(stats.last_cleanup_time, Some(10));
    assert_eq!(stats.last_cleanup_count, 3);
    assert_eq!(stats.total_cleanup_runs, 1);
    assert_eq!(stats.total_cleaned, 3);
}

#[test]
fn second_cycle_retires_nothing() {
    let (mut store, mut cache) =
        store_with_expired(&["http://old.example/1", "http://old.example/2"], &[]);
    let mut stats = CleanupStats::default();

    let first = cleanup_expired_links_internal(&mut store, &mut cache, &mut stats, 10, 1000);
    assert_eq!(first, 2);
    let stats_after_first = stats;
    let records_after_first: Vec<(i64, bool)> =
        store.records.iter().map(|r| (r.id, r.active)).collect();

    let second = cleanup_expired_links_internal(&mut store, &mut cache, &mut stats, 10, 1000);
    assert_eq!(second, 0);
    // the records did not change the second time
    let records_after_second: Vec<(i64, bool)> =
        store.records.iter().map(|r| (r.id, r.active)).collect();
    assert_eq!(records_after_first, records_after_second);
    // the empty run is still recorded: one more completed cycle, a count of
    // zero, and no growth of the cumulative total
    assert_eq!(stats.total_cleanup_runs, stats_after_first.total_cleanup_runs + 1);
    assert_eq!(stats.last_cleanup_count, 0);
    assert_eq!(stats.total_cleaned, stats_after_first.total_cleaned);
    assert_eq!(stats.last_cleanup_time, Some(10));
}

#[test]
fn records_without_expiry_are_never_retired() {
    let (mut store, mut cache) = store_with_expired(&[], &["http://keep.example"]);
    let mut stats = CleanupStats::default();
    let cleaned = cleanup_expired_links_internal(&mut store, &mut cache, &mut stats, i64::MAX, 10);
    assert_eq!(cleaned, 0);
    assert!(store.records[0].active);
    // the empty cycle still counts as a completed run
    assert_eq!(stats.total_cleanup_runs, 1);
    assert_eq!(stats.last_cleanup_time, Some(i64::MAX));
    assert_eq!(stats.last_cleanup_count, 0);
    assert_eq!(stats.total_cleaned, 0);
}

#[test]
fn only_one_instance_runs_within_a_lease_window() {
    let (mut store, mut cache) = store_with_expired(&["http://old.example/1"], &[]);
    let mut stats = CleanupStats::default();
    let mut lock = CleanupLock::new();

    // another instance holds the lease
    assert!(lock.try_acquire());
    let skipped = cleanup_expired_links(
        &mut lock, true, &mut store, &mut cache, &mut stats, 10, 1000,
    );
    assert_eq!(skipped, 0);
    assert!(store.records[0].active, "a skipped cycle touches nothing");
    assert_eq!(stats.total_cleanup_runs, 0);

    // the lease is released; the next pass does the work
    lock.release();
    let cleaned = cleanup_expired_links(
        &mut lock, true, &mut store, &mut cache, &mut stats, 10, 1000,
    );
    assert_eq!(cleaned, 1);
    assert!(!store.records[0].active);
    assert!(!lock.locked, "the lease is released after the pass");
}

#[test]
fn disabled_lock_always_runs() {
    let (mut store, mut cache) = store_with_expired(&["http://old.example/1"], &[]);
    let mut stats = CleanupStats::default();
    let mut lock = CleanupLock::new();
    assert!(lock.try_acquire());
    // with locking disabled the held lease is irrelevant
    let cleaned = cleanup_expired_links(
        &mut lock, false, &mut store, &mut cache, &mut stats, 10, 1000,
    );
    assert_eq!(cleaned, 1);
}

#[test]
fn batching_covers_every_expired_record() {
    let urls: Vec<String> = (0..7).map(|i| format!("http://batch.example/{}", i)).collect();
    let mut store = LinkStore::new();
    let mut cache = LinkCache::new();
    let mut idgen = YitIdHelper::new();
    for url in &urls {
        create_link(&mut cache, &mut store, &mut idgen, url.clone(), None)
            .expect("creation succeeds");
        let last = store.records.len() - 1;
        store.records[last].expire_date = Some(1);
    }
    let mut stats = CleanupStats::default();
    let cleaned = cleanup_expired_links_internal(&mut store, &mut cache, &mut stats, 2, 3);
    assert_eq!(cleaned, 7);
    assert!(store.records.iter().all(|r| !r.active));
}

#[test]
fn manually_built_record_round_trips() {
    let url = "http://manual.example";
    let rec = LinkHistory::from_url(42, url, calculate_sha256(url));
    assert_eq!(rec.id, 42);
    assert!(rec.active);
    let resp = rec.to_response();
    assert_eq!(resp.link_code, short_link::codec::encode_base62(42));
}
