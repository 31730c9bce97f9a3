use tower_sessions::{CachingSessionStore, Expiry, Id, MemoryStore, Record, SessionStore};

fn rec(count: u64, expiry: Expiry) -> Record {
    Record { count, expiry }
}

fn fresh() -> CachingSessionStore<MemoryStore<Record>, MemoryStore<Record>> {
    CachingSessionStore::new(MemoryStore::new(), MemoryStore::new())
}

#[test]
fn create_mirrors_record_into_cache() {
    let mut tiers = fresh();
    let r = rec(1, Expiry::OnSessionEnd);
    let id = tiers.create(&r).unwrap();
    assert_eq!(tiers.store.loads(), 0);
    // The read is answered by the cache: the back store is never consulted.
    assert_eq!(tiers.load(&id).unwrap(), Some(r));
    assert_eq!(tiers.store.loads(), 0);
}

#[test]
fn hydration_makes_second_load_skip_the_store() {
    let mut back: MemoryStore<Record> = MemoryStore::new();
    let r = rec(2, Expiry::OnSessionEnd);
    let id = back.create(&r).unwrap();
    let mut tiers = CachingSessionStore::new(MemoryStore::new(), back);

    // Cache miss, store hit: the store is consulted once and the cache is
    // hydrated with the result.
    assert_eq!(tiers.load(&id).unwrap(), Some(r));
    assert_eq!(tiers.store.loads(), 1);

    // Second load for the same identifier: answered by the cache alone.
    assert_eq!(tiers.load(&id).unwrap(), Some(r));
    assert_eq!(tiers.store.loads(), 1);
}

#[test]
fn failed_save_purges_stale_cache_entry() {
    let mut cache: MemoryStore<Record> = MemoryStore::new();
    let id = Id(11);
    cache
        .save_or_create(&id, &rec(1, Expiry::OnSessionEnd))
        .unwrap();
    // The cache holds a record the authoritative store knows nothing about.
    let mut tiers = CachingSessionStore::new(cache, MemoryStore::new());

    // The store answers false; the cache answered true; the entry is purged.
    assert!(!tiers.save(&id, &rec(2, Expiry::OnSessionEnd)).unwrap());

    // No stale-positive read: the cache hit does not outlive authoritative
    // absence.
    assert_eq!(tiers.load(&id).unwrap(), None);
}

#[test]
fn save_updates_both_tiers_and_returns_the_store_answer() {
    let mut tiers = fresh();
    let id = tiers.create(&rec(0, Expiry::OnSessionEnd)).unwrap();
    let r2 = rec(9, Expiry::OnSessionEnd);
    assert!(tiers.save(&id, &r2).unwrap());
    assert_eq!(tiers.load(&id).unwrap(), Some(r2));
    assert_eq!(tiers.cache.load(&id).unwrap(), Some(r2));
}

#[test]
fn save_with_record_only_in_store_is_authoritative() {
    let mut back: MemoryStore<Record> = MemoryStore::new();
    let id = back.create(&rec(0, Expiry::OnSessionEnd)).unwrap();
    let mut tiers = CachingSessionStore::new(MemoryStore::new(), back);
    let r2 = rec(5, Expiry::OnSessionEnd);
    assert!(tiers.save(&id, &r2).unwrap());
    assert_eq!(tiers.load(&id).unwrap(), Some(r2));
}

#[test]
fn delete_removes_from_both_tiers() {
    let mut tiers = fresh();
    let id = tiers.create(&rec(3, Expiry::OnSessionEnd)).unwrap();
    assert!(tiers.delete(&id).unwrap());
    assert_eq!(tiers.load(&id).unwrap(), None);
    assert_eq!(tiers.cache.load(&id).unwrap(), None);
    assert_eq!(tiers.store.load(&id).unwrap(), None);
    assert!(!tiers.delete(&id).unwrap());
}

#[test]
fn cycle_purges_old_identifier_from_cache_and_rebinds() {
    let mut tiers = fresh();
    let r = rec(6, Expiry::OnSessionEnd);
    let old_id = tiers.create(&r).unwrap();
    let new_id = tiers.cycle_id(&old_id).unwrap().unwrap();
    assert_ne!(new_id, old_id);
    assert_eq!(tiers.load(&old_id).unwrap(), None);
    assert_eq!(tiers.load(&new_id).unwrap(), Some(r));
}

#[test]
fn save_or_create_writes_both_tiers() {
    let mut tiers = fresh();
    let id = Id(21);
    let r = rec(8, Expiry::OnSessionEnd);
    tiers.save_or_create(&id, &r).unwrap();
    assert_eq!(tiers.cache.load(&id).unwrap(), Some(r));
    assert_eq!(tiers.store.load(&id).unwrap(), Some(r));
}

#[test]
fn record_expired_only_in_store_is_not_resurrected_by_save() {
    let mut back: MemoryStore<Record> = MemoryStore::new();
    let r = rec(1, Expiry::AtDateTime(10));
    let id = back.create(&r).unwrap();
    let mut cache: MemoryStore<Record> = MemoryStore::new();
    cache.save_or_create(&id, &r).unwrap();
    let mut tiers = CachingSessionStore::new(cache, back);
    // The authoritative record lapses; the cache copy (whose clock lags) has
    // not noticed yet.
    tiers.store.set_now(10);
    assert!(!tiers.save(&id, &rec(2, Expiry::AtDateTime(10))).unwrap());
    assert_eq!(tiers.load(&id).unwrap(), None);
}
