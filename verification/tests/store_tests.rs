use tower_sessions::{Expiry, Id, MemoryStore, Record, SessionStore};

fn rec(count: u64, expiry: Expiry) -> Record {
    Record { count, expiry }
}

#[test]
fn create_then_load_round_trip() {
    let mut store: MemoryStore<Record> = MemoryStore::new();
    let r = rec(7, Expiry::OnSessionEnd);
    let id = store.create(&r).unwrap();
    assert_eq!(store.load(&id).unwrap(), Some(r));
}

#[test]
fn created_ids_are_distinct() {
    let mut store: MemoryStore<Record> = MemoryStore::new();
    let mut ids: Vec<Id> = Vec::new();
    for i in 0..100u64 {
        let id = store.create(&rec(i, Expiry::OnSessionEnd)).unwrap();
        ids.push(id);
    }
    for i in 0..ids.len() {
        for j in 0..ids.len() {
            if i != j {
                assert_ne!(ids[i], ids[j]);
            }
        }
    }
}

#[test]
fn ids_stay_distinct_across_deletes() {
    let mut store: MemoryStore<Record> = MemoryStore::new();
    let id1 = store.create(&rec(1, Expiry::OnSessionEnd)).unwrap();
    assert!(store.delete(&id1).unwrap());
    let id2 = store.create(&rec(2, Expiry::OnSessionEnd)).unwrap();
    assert_ne!(id1, id2);
}

#[test]
fn save_on_absent_id_returns_false_and_leaves_store_unchanged() {
    let mut store: MemoryStore<Record> = MemoryStore::new();
    let ghost_id = Id(42);
    assert!(!store.save(&ghost_id, &rec(1, Expiry::OnSessionEnd)).unwrap());
    assert_eq!(store.load(&ghost_id).unwrap(), None);
}

#[test]
fn load_after_delete_returns_none() {
    let mut store: MemoryStore<Record> = MemoryStore::new();
    let id = store.create(&rec(3, Expiry::OnSessionEnd)).unwrap();
    assert!(store.delete(&id).unwrap());
    assert_eq!(store.load(&id).unwrap(), None);
    assert!(!store.delete(&id).unwrap());
}

#[test]
fn at_datetime_expiry_lapses_without_delete() {
    let mut store: MemoryStore<Record> = MemoryStore::new();
    let id = store.create(&rec(5, Expiry::AtDateTime(100))).unwrap();
    assert!(store.load(&id).unwrap().is_some());
    store.set_now(99);
    assert_eq!(store.now(), 99);
    assert!(store.load(&id).unwrap().is_some());
    store.set_now(100);
    assert_eq!(store.load(&id).unwrap(), None);
}

#[test]
fn expired_record_cannot_be_saved_back() {
    let mut store: MemoryStore<Record> = MemoryStore::new();
    let r = rec(5, Expiry::AtDateTime(5));
    let id = store.create(&r).unwrap();
    store.set_now(5);
    assert!(!store.save(&id, &r).unwrap());
    assert_eq!(store.load(&id).unwrap(), None);
}

#[test]
fn on_inactivity_expiry_is_refreshed_on_save() {
    let mut store: MemoryStore<Record> = MemoryStore::new();
    let r = rec(1, Expiry::OnInactivity(10));
    let id = store.create(&r).unwrap();
    store.set_now(5);
    assert!(store.save(&id, &r).unwrap());
    store.set_now(12);
    assert!(store.load(&id).unwrap().is_some());
    store.set_now(15);
    assert_eq!(store.load(&id).unwrap(), None);
}

#[test]
fn on_session_end_never_lapses_by_clock() {
    let mut store: MemoryStore<Record> = MemoryStore::new();
    let id = store.create(&rec(9, Expiry::OnSessionEnd)).unwrap();
    store.set_now(u64::MAX);
    assert!(store.load(&id).unwrap().is_some());
}

#[test]
fn cycle_preserves_data_and_invalidates_old_identifier() {
    let mut store: MemoryStore<Record> = MemoryStore::new();
    let r = rec(7, Expiry::OnSessionEnd);
    let old_id = store.create(&r).unwrap();
    let new_id = store.cycle_id(&old_id).unwrap().unwrap();
    assert_ne!(new_id, old_id);
    assert_eq!(store.load(&old_id).unwrap(), None);
    assert_eq!(store.load(&new_id).unwrap(), Some(r));
}

#[test]
fn cycle_on_absent_identifier_returns_none() {
    let mut store: MemoryStore<Record> = MemoryStore::new();
    assert_eq!(store.cycle_id(&Id(7)).unwrap(), None);
}

#[test]
fn save_or_create_persists_under_given_identifier() {
    let mut store: MemoryStore<Record> = MemoryStore::new();
    let id = Id(12);
    let r = rec(4, Expiry::OnSessionEnd);
    store.save_or_create(&id, &r).unwrap();
    assert_eq!(store.load(&id).unwrap(), Some(r));
    let r2 = rec(5, Expiry::OnSessionEnd);
    store.save_or_create(&id, &r2).unwrap();
    assert_eq!(store.load(&id).unwrap(), Some(r2));
}

#[test]
fn save_or_create_does_not_break_freshness_of_minted_ids() {
    let mut store: MemoryStore<Record> = MemoryStore::new();
    let taken = Id(3);
    store
        .save_or_create(&taken, &rec(1, Expiry::OnSessionEnd))
        .unwrap();
    for i in 0..10u64 {
        let id = store.create(&rec(i, Expiry::OnSessionEnd)).unwrap();
        assert_ne!(id, taken);
    }
}

#[test]
fn load_counter_counts_loads_only() {
    let mut store: MemoryStore<Record> = MemoryStore::new();
    let id = store.create(&rec(0, Expiry::OnSessionEnd)).unwrap();
    assert_eq!(store.loads(), 0);
    store.load(&id).unwrap();
    store.load(&id).unwrap();
    assert_eq!(store.loads(), 2);
    store.delete(&id).unwrap();
    assert_eq!(store.loads(), 2);
}
