use rest_countries_plugin::engine::{lookup_complete, lookup_probe, request_url, Probe};
use rest_countries_plugin::errors::ErrorKind;
use rest_countries_plugin::store::{CacheEntry, CacheStore};
use rest_countries_plugin::sweeper::{sweeper_tick, SWEEP_BATCH_CAP};

const PAYLOAD: &str = "[{\"name\":{\"common\":\"Germany\"}}]";

fn entry(key: &str, created_at: i64) -> CacheEntry {
    CacheEntry {
        key: key.to_string(),
        payload: format!("[{{\"row\":\"{}\"}}]", key),
        created_at,
    }
}

#[test]
fn miss_then_hit_returns_identical_payload() {
    let mut store = CacheStore::new();
    let key = "germany".to_string();

    match lookup_probe(&store, &key) {
        Probe::Miss => {}
        _ => panic!("first lookup of an unseen key must miss"),
    }

    let first = lookup_complete(&mut store, &key, 200, PAYLOAD.to_string(), 100).unwrap();
    assert_eq!(first, PAYLOAD);
    assert_eq!(store.len(), 1);

    match lookup_probe(&store, &key) {
        Probe::Hit(second) => assert_eq!(second, first),
        _ => panic!("second lookup must hit without an upstream call"),
    }
    assert_eq!(store.len(), 1);
}

#[test]
fn hit_does_not_mutate_created_at() {
    let mut store = CacheStore::new();
    let key = "germany".to_string();
    lookup_complete(&mut store, &key, 200, PAYLOAD.to_string(), 100).unwrap();

    let before = store.get(&key).unwrap().created_at;
    match lookup_probe(&store, &key) {
        Probe::Hit(_) => {}
        _ => panic!("expected a hit"),
    }
    let after = store.get(&key).unwrap().created_at;
    assert_eq!(before, 100);
    assert_eq!(after, 100);
}

#[test]
fn empty_key_is_rejected_without_upstream_call() {
    let store = CacheStore::new();
    let key = "".to_string();
    match lookup_probe(&store, &key) {
        Probe::Invalid(e) => {
            assert_eq!(e.status(), 400);
            assert!(e.message().contains("Country name is required"));
        }
        _ => panic!("an empty key must be rejected, not treated as a miss"),
    }
}

#[test]
fn blank_key_is_rejected() {
    let store = CacheStore::new();
    let key = " \t ".to_string();
    match lookup_probe(&store, &key) {
        Probe::Invalid(e) => assert_eq!(e.status(), 400),
        _ => panic!("a key that trims to nothing must be rejected"),
    }
}

#[test]
fn upstream_failure_propagates_with_status_and_no_write() {
    let mut store = CacheStore::new();
    let key = "germany".to_string();
    let err = lookup_complete(&mut store, &key, 503, "oops".to_string(), 100).unwrap_err();
    assert_eq!(err.status(), 500);
    assert_eq!(err.kind, ErrorKind::Upstream);
    assert!(err.message().contains("503"));
    assert!(err.message().contains("oops"));
    assert_eq!(store.len(), 0);
}

#[test]
fn malformed_payload_is_rejected_and_not_cached() {
    let mut store = CacheStore::new();
    let key = "germany".to_string();
    let err = lookup_complete(&mut store, &key, 200, "{not json".to_string(), 100).unwrap_err();
    assert_eq!(err.kind, ErrorKind::Validation);
    assert_eq!(store.len(), 0);
}

#[test]
fn well_formed_payload_is_cached_verbatim() {
    let mut store = CacheStore::new();
    let key = "germany".to_string();
    let got = lookup_complete(&mut store, &key, 200, PAYLOAD.to_string(), 7).unwrap();
    assert_eq!(got, PAYLOAD);
    let row = store.get(&key).unwrap();
    assert_eq!(row.payload, PAYLOAD);
    assert_eq!(row.created_at, 7);
}

#[test]
fn ttl_expiry_boundary() {
    let ttl: i64 = 60;
    let now: i64 = 1000;

    let mut store = CacheStore::new();
    store.insert(entry("old", now - ttl - 1));
    let deleted = sweeper_tick(&mut store, ttl, now);
    assert_eq!(deleted, 1);
    assert!(store.get(&"old".to_string()).is_none());

    let mut store = CacheStore::new();
    store.insert(entry("young", now - ttl + 1));
    let deleted = sweeper_tick(&mut store, ttl, now);
    assert_eq!(deleted, 0);
    assert_eq!(store.get(&"young".to_string()).unwrap().created_at, now - ttl + 1);
}

#[test]
fn sweep_deletes_at_most_the_batch_cap_per_tick() {
    let ttl: i64 = 10;
    let now: i64 = 1000;
    let mut store = CacheStore::new();
    for i in 0..25 {
        store.insert(entry(&format!("expired-{}", i), now - ttl - 5));
    }
    assert_eq!(sweeper_tick(&mut store, ttl, now), SWEEP_BATCH_CAP);
    assert_eq!(store.len(), 15);
    assert_eq!(sweeper_tick(&mut store, ttl, now), SWEEP_BATCH_CAP);
    assert_eq!(store.len(), 5);
    assert_eq!(sweeper_tick(&mut store, ttl, now), 5);
    assert_eq!(store.len(), 0);
}

#[test]
fn sweep_mixes_expired_and_fresh() {
    let ttl: i64 = 10;
    let now: i64 = 1000;
    let mut store = CacheStore::new();
    store.insert(entry("stale", now - ttl - 1));
    store.insert(entry("fresh", now));
    store.insert(entry("edge", now - ttl)); // exactly at the threshold: eligible
    let deleted = sweeper_tick(&mut store, ttl, now);
    assert_eq!(deleted, 2);
    assert_eq!(store.len(), 1);
    assert!(store.get(&"fresh".to_string()).is_some());
}

#[test]
fn end_to_end_scenario() {
    let mut store = CacheStore::new();
    let key = "germany".to_string();
    let t0: i64 = 10_000;

    // Empty store: the first lookup misses and the completed fetch caches P.
    assert!(matches!(lookup_probe(&store, &key), Probe::Miss));
    let p = lookup_complete(&mut store, &key, 200, PAYLOAD.to_string(), t0).unwrap();
    assert_eq!(store.len(), 1);
    let row = store.get(&key).unwrap();
    assert_eq!(row.key, "germany");
    assert_eq!(row.payload, p);

    // The second lookup serves P from the store.
    match lookup_probe(&store, &key) {
        Probe::Hit(served) => assert_eq!(served, p),
        _ => panic!("expected a hit"),
    }

    // With ttl = 5, a tick more than 5 seconds later removes the row.
    let ttl: i64 = 5;
    assert_eq!(sweeper_tick(&mut store, ttl, t0 + 6), 1);
    assert_eq!(store.len(), 0);

    // The third lookup misses again and would go back upstream.
    assert!(matches!(lookup_probe(&store, &key), Probe::Miss));
}

#[test]
fn completing_a_key_that_appeared_meanwhile_keeps_the_first_entry() {
    let mut store = CacheStore::new();
    let key = "germany".to_string();
    lookup_complete(&mut store, &key, 200, PAYLOAD.to_string(), 100).unwrap();
    let served = lookup_complete(&mut store, &key, 200, "[2]".to_string(), 200).unwrap();
    assert_eq!(served, "[2]");
    assert_eq!(store.len(), 1);
    let row = store.get(&key).unwrap();
    assert_eq!(row.payload, PAYLOAD);
    assert_eq!(row.created_at, 100);
}

#[test]
fn sweep_with_zero_cap_deletes_nothing() {
    let mut store = CacheStore::new();
    store.insert(entry("stale", 0));
    assert_eq!(store.sweep_batch(1000, 0), 0);
    assert_eq!(store.len(), 1);
}

#[test]
fn request_url_joins_base_and_key() {
    let u = request_url("https://restcountries.com", "germany");
    assert_eq!(u, "https://restcountries.com/v3.1/name/germany");
}
