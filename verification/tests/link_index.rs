use dht_store::Address;
use dht_store::ContentStorage;
use dht_store::DhtStore;
use dht_store::EavStorage;
use dht_store::EntityAttributeValue;
use dht_store::Link;
use dht_store::link::link_attribute;

fn addr(s: &str) -> Address {
    Address::new(s.to_string())
}

fn link(base: &str, target: &str, tag: &str) -> Link {
    Link::new(addr(base), addr(target), tag.to_string())
}

fn fresh_slice() -> DhtStore {
    DhtStore::new(ContentStorage::new(1), EavStorage::new())
}

fn triple(base: &str, attribute: &str, target: &str) -> EntityAttributeValue {
    EntityAttributeValue::new(addr(base), attribute.to_string(), addr(target))
}

fn all_triples(store: &DhtStore) -> Vec<EntityAttributeValue> {
    store.meta_storage().fetch_eav(None, None, None).unwrap()
}

#[test]
fn link_attribute_uses_reserved_prefix() {
    assert_eq!(link_attribute(&"friend".to_string()).as_str(), "link__friend");
    assert_eq!(link_attribute(&String::new()).as_str(), "link__");
}

#[test]
fn added_link_is_returned_by_get_links() {
    let mut store = fresh_slice();
    store.add_link(&link("A", "B", "friend")).unwrap();
    let found = store.get_links(addr("A"), "friend".to_string()).unwrap();
    assert_eq!(found.len(), 1);
    assert_eq!(found[0], triple("A", "link__friend", "B"));
    assert_eq!(found[0].entity().as_str(), "A");
    assert_eq!(found[0].attribute().as_str(), "link__friend");
    assert_eq!(found[0].value().as_str(), "B");
}

#[test]
fn second_link_under_same_tag_is_added_alongside() {
    let mut store = fresh_slice();
    store.add_link(&link("A", "B", "friend")).unwrap();
    store.add_link(&link("A", "C", "friend")).unwrap();
    let found = store.get_links(addr("A"), "friend".to_string()).unwrap();
    assert_eq!(found.len(), 2);
    assert!(found.contains(&triple("A", "link__friend", "B")));
    assert!(found.contains(&triple("A", "link__friend", "C")));
}

#[test]
fn unrelated_tag_yields_empty_set() {
    let mut store = fresh_slice();
    store.add_link(&link("A", "B", "friend")).unwrap();
    let found = store.get_links(addr("A"), "enemy".to_string()).unwrap();
    assert!(found.is_empty());
}

#[test]
fn fresh_slice_has_no_links() {
    let store = fresh_slice();
    let found = store.get_links(addr("A"), "friend".to_string()).unwrap();
    assert!(found.is_empty());
    assert!(all_triples(&store).is_empty());
}

#[test]
fn remove_link_removes_exactly_the_targeted_edge() {
    let mut store = fresh_slice();
    store.add_link(&link("A", "B", "friend")).unwrap();
    store.add_link(&link("A", "C", "friend")).unwrap();
    store.add_link(&link("A", "B", "enemy")).unwrap();
    store.remove_link(&link("A", "B", "friend")).unwrap();
    let friends = store.get_links(addr("A"), "friend".to_string()).unwrap();
    assert_eq!(friends.len(), 1);
    assert_eq!(friends[0], triple("A", "link__friend", "C"));
    let enemies = store.get_links(addr("A"), "enemy".to_string()).unwrap();
    assert_eq!(enemies.len(), 1);
    assert_eq!(enemies[0], triple("A", "link__enemy", "B"));
}

#[test]
fn adding_the_same_link_twice_indexes_one_triple() {
    let mut store = fresh_slice();
    store.add_link(&link("A", "B", "friend")).unwrap();
    store.add_link(&link("A", "B", "friend")).unwrap();
    assert_eq!(all_triples(&store).len(), 1);
}

#[test]
fn eav_storage_answers_wildcard_queries() {
    let mut meta = EavStorage::new();
    meta.add_eav(&triple("A", "link__friend", "B")).unwrap();
    meta.add_eav(&triple("A", "link__enemy", "C")).unwrap();
    meta.add_eav(&triple("D", "link__friend", "B")).unwrap();

    let all = meta.fetch_eav(None, None, None).unwrap();
    assert_eq!(all.len(), 3);

    let from_a = meta.fetch_eav(Some(addr("A")), None, None).unwrap();
    assert_eq!(from_a.len(), 2);

    let to_b = meta.fetch_eav(None, None, Some(addr("B"))).unwrap();
    assert_eq!(to_b.len(), 2);

    let exact = meta
        .fetch_eav(Some(addr("D")), Some("link__friend".to_string()), Some(addr("B")))
        .unwrap();
    assert_eq!(exact.len(), 1);
    assert_eq!(exact[0], triple("D", "link__friend", "B"));

    let none = meta.fetch_eav(Some(addr("X")), None, None).unwrap();
    assert!(none.is_empty());
}

#[test]
fn eav_storage_equality_ignores_insertion_order() {
    let mut first = EavStorage::new();
    first.add_eav(&triple("A", "link__friend", "B")).unwrap();
    first.add_eav(&triple("A", "link__friend", "C")).unwrap();

    let mut second = EavStorage::new();
    second.add_eav(&triple("A", "link__friend", "C")).unwrap();
    second.add_eav(&triple("A", "link__friend", "B")).unwrap();

    assert_eq!(first, second);

    second.add_eav(&triple("A", "link__enemy", "B")).unwrap();
    assert_ne!(first, second);
}

#[test]
fn link_accessors_return_what_was_given() {
    let l = link("base-hash", "target-hash", "tag");
    assert_eq!(l.base().as_str(), "base-hash");
    assert_eq!(l.target().as_str(), "target-hash");
    assert_eq!(l.tag().as_str(), "tag");
    assert_eq!(l, l.clone());
}
