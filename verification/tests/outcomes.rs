use dht_store::ActionWrapper;
use dht_store::Address;
use dht_store::ContentStorage;
use dht_store::DhtError;
use dht_store::DhtStore;
use dht_store::EavStorage;
use dht_store::Link;

fn addr(s: &str) -> Address {
    Address::new(s.to_string())
}

fn link(base: &str, target: &str, tag: &str) -> Link {
    Link::new(addr(base), addr(target), tag.to_string())
}

fn fresh_slice() -> DhtStore {
    DhtStore::new(ContentStorage::new(1), EavStorage::new())
}

#[test]
fn recorded_outcome_is_stable_under_unrelated_activity() {
    let mut store = fresh_slice();
    let first = ActionWrapper::new(7);
    let second = ActionWrapper::new(8);

    store.record_add_link_action(&first, Ok(()));
    assert!(matches!(store.add_link_action_outcome(&first), Some(Ok(()))));

    store.record_add_link_action(&first, Err(DhtError::NotImplemented));
    assert!(matches!(store.add_link_action_outcome(&first), Some(Ok(()))));

    store.record_add_link_action(&second, Err(DhtError::NotFound));
    store.add_link(&link("A", "B", "friend")).unwrap();
    store.remove_link(&link("A", "B", "friend")).unwrap();
    assert!(matches!(store.add_link_action_outcome(&first), Some(Ok(()))));
    assert!(matches!(store.add_link_action_outcome(&second), Some(Err(DhtError::NotFound))));
    assert_eq!(store.add_link_actions().len(), 2);
}

#[test]
fn unprocessed_action_has_no_outcome() {
    let store = fresh_slice();
    let action = ActionWrapper::new(1);
    assert!(store.add_link_action_outcome(&action).is_none());
    assert!(!store.contains_add_link_action(&action));
    assert_eq!(store.add_link_actions().len(), 0);
}

#[test]
fn dispatching_the_same_action_twice_applies_it_once() {
    let mut store = fresh_slice();
    let action = ActionWrapper::new(42);
    store.reduce_add_link(&action, &link("A", "B", "friend"));
    store.reduce_add_link(&action, &link("A", "B", "friend"));

    assert_eq!(store.add_link_actions().len(), 1);
    assert!(matches!(store.add_link_action_outcome(&action), Some(Ok(()))));
    let all = store.meta_storage().fetch_eav(None, None, None).unwrap();
    assert_eq!(all.len(), 1);
    let found = store.get_links(addr("A"), "friend".to_string()).unwrap();
    assert_eq!(found.len(), 1);
}

#[test]
fn distinct_actions_record_distinct_outcomes() {
    let mut store = fresh_slice();
    store.reduce_add_link(&ActionWrapper::new(1), &link("A", "B", "friend"));
    store.reduce_add_link(&ActionWrapper::new(2), &link("A", "B", "friend"));

    assert_eq!(store.add_link_actions().len(), 2);
    let all = store.meta_storage().fetch_eav(None, None, None).unwrap();
    assert_eq!(all.len(), 1);
}

#[test]
fn slices_over_identical_contents_compare_equal() {
    let mut first = fresh_slice();
    first.add_link(&link("A", "B", "friend")).unwrap();
    first.add_link(&link("A", "C", "friend")).unwrap();
    first.record_add_link_action(&ActionWrapper::new(5), Ok(()));

    let mut second = fresh_slice();
    second.add_link(&link("A", "C", "friend")).unwrap();
    second.add_link(&link("A", "B", "friend")).unwrap();
    second.record_add_link_action(&ActionWrapper::new(5), Ok(()));

    assert_eq!(first, second);

    second.add_link(&link("A", "D", "friend")).unwrap();
    assert_ne!(first, second);
}

#[test]
fn slices_over_different_stores_compare_unequal() {
    let first = DhtStore::new(ContentStorage::new(1), EavStorage::new());
    let other_store = DhtStore::new(ContentStorage::new(2), EavStorage::new());
    assert_ne!(first, other_store);

    let mut cached = DhtStore::new(ContentStorage::new(1), EavStorage::new());
    cached.record_add_link_action(&ActionWrapper::new(9), Err(DhtError::NotImplemented));
    assert_ne!(first, cached);
}

#[test]
fn cloned_slice_is_an_equal_snapshot() {
    let mut store = fresh_slice();
    store.add_link(&link("A", "B", "friend")).unwrap();
    store.record_add_link_action(&ActionWrapper::new(3), Ok(()));

    let mut snapshot = store.clone();
    assert_eq!(store, snapshot);
    assert_eq!(store.content_storage().get_id(), snapshot.content_storage().get_id());

    snapshot.add_link(&link("A", "C", "friend")).unwrap();
    assert_ne!(store, snapshot);
}

#[test]
fn error_kinds_are_distinguishable() {
    assert_eq!(DhtError::NotImplemented, DhtError::NotImplemented);
    assert_ne!(DhtError::NotImplemented, DhtError::NotFound);
    assert_ne!(DhtError::NotFound, DhtError::StorageError("boom".to_string()));
    assert_eq!(
        DhtError::StorageError("boom".to_string()),
        DhtError::StorageError("boom".to_string())
    );
    assert_ne!(
        DhtError::StorageError("boom".to_string()),
        DhtError::StorageError("bust".to_string())
    );

    assert_eq!(DhtError::NotImplemented.message().as_str(), "not implemented");
    assert_eq!(DhtError::NotFound.message().as_str(), "not found");
    assert_eq!(DhtError::StorageError("disk failed".to_string()).message().as_str(), "disk failed");
}
