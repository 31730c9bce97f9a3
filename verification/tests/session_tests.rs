use tower_sessions::{
    CachingSessionStore, Expiry, Id, MemoryStore, NoMiddleware, Record, Session, SessionStore,
    SessionUpdate, Updater,
};

fn rec(count: u64, expiry: Expiry) -> Record {
    Record { count, expiry }
}

fn bound_id(updater: &Updater) -> Id {
    match updater.get() {
        Some(SessionUpdate::Bind(id, _)) => id,
        other => panic!("expected a bind disposition, got {:?}", other),
    }
}

#[test]
fn updater_starts_empty() {
    let updater = Updater::new();
    assert_eq!(updater.get(), None);
}

#[test]
fn load_without_identifier_skips_the_store() {
    let mut store: MemoryStore<Record> = MemoryStore::new();
    let session = Session::new(None);
    let state = session.load(&mut store).unwrap();
    assert!(state.is_none());
    assert_eq!(store.loads(), 0);
}

#[test]
fn load_with_unknown_identifier_returns_none() {
    let mut store: MemoryStore<Record> = MemoryStore::new();
    let session = Session::new(Some(Id(99)));
    assert!(session.load(&mut store).unwrap().is_none());
}

#[test]
fn create_reports_bind_disposition_with_expiry() {
    let mut store: MemoryStore<Record> = MemoryStore::new();
    let mut updater = Updater::new();
    let r = rec(0, Expiry::OnInactivity(60));
    let state = Session::new(None)
        .create(&mut store, r, &mut updater)
        .unwrap();
    assert_eq!(state.data(), &r);
    match updater.get() {
        Some(SessionUpdate::Bind(_, expiry)) => assert_eq!(expiry, Expiry::OnInactivity(60)),
        other => panic!("expected a bind disposition, got {:?}", other),
    }
}

#[test]
fn end_to_end_create_mutate_save_reload() {
    let mut store: MemoryStore<Record> = MemoryStore::new();
    let mut updater = Updater::new();

    // create({count: 0}) -> identifier A
    let state = Session::new(None)
        .create(&mut store, rec(0, Expiry::OnSessionEnd), &mut updater)
        .unwrap();
    let a = bound_id(&updater);
    assert_eq!(state.data().count, 0);
    drop(state);

    // load(A), set count = 1, save
    let state = Session::new(Some(a)).load(&mut store).unwrap().unwrap();
    let mut guard = state.data_mut();
    let mut data = *guard.data();
    data.count = 1;
    guard.set_data(data);
    let state = guard.save(&mut store).unwrap().unwrap();
    assert_eq!(state.data().count, 1);

    // load(A) again: the persisted record holds count == 1
    let state = Session::new(Some(a)).load(&mut store).unwrap().unwrap();
    assert_eq!(state.data().count, 1);
}

#[test]
fn racing_delete_wins_over_save() {
    let mut store: MemoryStore<Record> = MemoryStore::new();
    let mut updater = Updater::new();

    let state = Session::new(None)
        .create(&mut store, rec(0, Expiry::OnSessionEnd), &mut updater)
        .unwrap();
    let a = bound_id(&updater);

    // A concurrent request deletes the record first.
    assert!(store.delete(&a).unwrap());

    // The racing save on the pre-delete state finds nothing to update; the
    // mutation is discarded, never written.
    let mut guard = state.data_mut();
    guard.set_data(rec(1, Expiry::OnSessionEnd));
    assert!(guard.save(&mut store).unwrap().is_none());
    assert_eq!(store.load(&a).unwrap(), None);
}

#[test]
fn load_after_lifecycle_delete_returns_none() {
    let mut store: MemoryStore<Record> = MemoryStore::new();
    let mut updater = Updater::new();
    let state = Session::new(None)
        .create(&mut store, rec(4, Expiry::OnSessionEnd), &mut updater)
        .unwrap();
    let a = bound_id(&updater);
    assert!(state.delete(&mut store, &mut updater).unwrap());
    assert_eq!(updater.get(), Some(SessionUpdate::Delete));
    assert!(Session::new(Some(a)).load(&mut store).unwrap().is_none());
}

#[test]
fn delete_reports_disposition_even_when_record_already_gone() {
    let mut store: MemoryStore<Record> = MemoryStore::new();
    let mut updater = Updater::new();
    let state = Session::new(None)
        .create(&mut store, rec(4, Expiry::OnSessionEnd), &mut updater)
        .unwrap();
    let a = bound_id(&updater);

    // Another request already deleted the record.
    assert!(store.delete(&a).unwrap());

    // The lifecycle delete still reports Delete, so any outstanding cookie
    // is cleared, and faithfully returns that nothing existed.
    assert!(!state.delete(&mut store, &mut updater).unwrap());
    assert_eq!(updater.get(), Some(SessionUpdate::Delete));
}

#[test]
fn cycle_rebinds_identifier_and_keeps_data() {
    let mut store: MemoryStore<Record> = MemoryStore::new();
    let mut updater = Updater::new();
    let state = Session::new(None)
        .create(&mut store, rec(7, Expiry::OnSessionEnd), &mut updater)
        .unwrap();
    let a = bound_id(&updater);

    let state = state.cycle(&mut store, &mut updater).unwrap().unwrap();
    let b = bound_id(&updater);
    assert_ne!(a, b);
    assert_eq!(state.data().count, 7);
    assert!(Session::new(Some(a)).load(&mut store).unwrap().is_none());
    let reloaded = Session::new(Some(b)).load(&mut store).unwrap().unwrap();
    assert_eq!(reloaded.data().count, 7);
}

#[test]
fn cycle_on_vanished_record_returns_none_and_leaves_updater() {
    let mut store: MemoryStore<Record> = MemoryStore::new();
    let mut updater = Updater::new();
    let state = Session::new(None)
        .create(&mut store, rec(7, Expiry::OnSessionEnd), &mut updater)
        .unwrap();
    let a = bound_id(&updater);
    let before = updater.get();

    assert!(store.delete(&a).unwrap());
    assert!(state.cycle(&mut store, &mut updater).unwrap().is_none());
    assert_eq!(updater.get(), before);
}

#[test]
fn lifecycle_runs_through_the_caching_composition() {
    let mut tiers = CachingSessionStore::new(
        MemoryStore::<Record>::new(),
        MemoryStore::<Record>::new(),
    );
    let mut updater = Updater::new();

    let state = Session::new(None)
        .create(&mut tiers, rec(0, Expiry::OnSessionEnd), &mut updater)
        .unwrap();
    let a = bound_id(&updater);
    drop(state);

    let state = Session::new(Some(a)).load(&mut tiers).unwrap().unwrap();
    let mut guard = state.data_mut();
    guard.set_data(rec(2, Expiry::OnSessionEnd));
    let state = guard.save(&mut tiers).unwrap().unwrap();
    assert_eq!(state.data().count, 2);

    // The read was answered by the cache; the back store was never consulted.
    assert_eq!(tiers.store.loads(), 0);

    assert!(state.delete(&mut tiers, &mut updater).unwrap());
    assert_eq!(updater.get(), Some(SessionUpdate::Delete));
    assert!(Session::new(Some(a)).load(&mut tiers).unwrap().is_none());
}

#[test]
fn no_middleware_rejection_describes_itself() {
    let rejection = NoMiddleware;
    assert_eq!(
        rejection.message(),
        "Missing session middleware. Is it added to the app?"
    );
}

#[test]
fn expired_session_is_absent_to_the_lifecycle() {
    let mut store: MemoryStore<Record> = MemoryStore::new();
    let mut updater = Updater::new();
    Session::new(None)
        .create(&mut store, rec(1, Expiry::AtDateTime(50)), &mut updater)
        .unwrap();
    let a = bound_id(&updater);
    store.set_now(50);
    assert!(Session::new(Some(a)).load(&mut store).unwrap().is_none());
}
