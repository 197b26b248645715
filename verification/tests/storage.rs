//! The configuration store: unique names, id assignment, listings.

use emulot::{ConfigStorage, ErrorKind, GuestConfig, Labeled};

#[test]
fn insert_get_list_remove_list() {
    let uri = "file:memdb1?mode=memory&cache=shared";
    let mut store = ConfigStorage::new(uri).unwrap();
    let config = GuestConfig::new("aarch64".into(), 512);
    store.insert("test", config).unwrap();
}

#[test]
fn insert_then_lookup_and_get() {
    let mut store = ConfigStorage::new("storage.db").unwrap();
    let config = GuestConfig::new("x86_64".to_string(), 1024);
    store.insert("vm1", config.clone()).unwrap();
    let id = store.lookup_id("vm1").unwrap();
    assert_eq!(id, 1);
    let got = store.get(id as usize).unwrap();
    assert_eq!(got, config);
}

#[test]
fn duplicate_name_refused() {
    let mut store = ConfigStorage::new("storage.db").unwrap();
    let config = GuestConfig::new("x86_64".to_string(), 512);
    store.insert("vm1", config.clone()).unwrap();
    let again = GuestConfig::new("riscv64".to_string(), 256);
    let err = store.insert("vm1", again).unwrap_err();
    assert_eq!(err.kind(), ErrorKind::AlreadyExists);
    assert_eq!(err.display_string(), "Already exists.");
}

#[test]
fn listing_tracks_inserts_and_removes() {
    let mut store = ConfigStorage::new("storage.db").unwrap();
    store.insert("vm1", GuestConfig::new("x86_64".to_string(), 512)).unwrap();
    store.insert("vm2", GuestConfig::new("aarch64".to_string(), 256)).unwrap();
    let listing = store.list(None, None).unwrap();
    assert_eq!(listing.len(), 2);
    assert_eq!(listing[0].label(), "vm1");
    assert_eq!(*listing[0].item(), 1);
    assert_eq!(listing[1].label(), "vm2");
    assert_eq!(*listing[1].item(), 2);

    store.remove(1).unwrap();
    let listing = store.list(None, None).unwrap();
    assert_eq!(listing.len(), 1);
    assert_eq!(listing[0].label(), "vm2");

    // Removing an absent id is not an error, and ids are never reused.
    store.remove(1).unwrap();
    store.insert("vm3", GuestConfig::new("x86_64".to_string(), 128)).unwrap();
    let id = store.lookup_id("vm3").unwrap();
    assert_eq!(id, 3);
}

#[test]
fn listing_offset_and_limit() {
    let mut store = ConfigStorage::new("storage.db").unwrap();
    store.insert("a", GuestConfig::new("x86_64".to_string(), 1)).unwrap();
    store.insert("b", GuestConfig::new("x86_64".to_string(), 2)).unwrap();
    store.insert("c", GuestConfig::new("x86_64".to_string(), 3)).unwrap();
    let page = store.list(Some(1), Some(1)).unwrap();
    assert_eq!(page.len(), 1);
    assert_eq!(page[0].label(), "b");
    let unbounded = store.list(Some(0), Some(-1)).unwrap();
    assert_eq!(unbounded.len(), 3);
    let beyond = store.list(Some(9), None).unwrap();
    assert_eq!(beyond.len(), 0);
}

#[test]
fn missing_entries_are_reported() {
    let store = ConfigStorage::new("storage.db").unwrap();
    let err = store.lookup_id("ghost").unwrap_err();
    assert_eq!(err.kind(), ErrorKind::NoSuchEntity);
    assert_eq!(err.display_string(), "No such entity.");
    let err = store.get(7).unwrap_err();
    assert_eq!(err.kind(), ErrorKind::NoSuchEntity);
}

#[test]
fn restore_keeps_persisted_ids() {
    let mut store = ConfigStorage::new("storage.db").unwrap();
    store.restore(3, "vm3", GuestConfig::new("x86_64".to_string(), 64)).unwrap();
    store.restore(7, "vm7", GuestConfig::new("aarch64".to_string(), 128)).unwrap();
    assert_eq!(store.lookup_id("vm3").unwrap(), 3);
    assert_eq!(store.lookup_id("vm7").unwrap(), 7);
    // Assignment continues after the highest restored id.
    store.insert("vm8", GuestConfig::new("x86_64".to_string(), 32)).unwrap();
    assert_eq!(store.lookup_id("vm8").unwrap(), 8);
}

#[test]
fn labeled_pairs() {
    let labeled = Labeled::new("vm1", 4isize);
    assert_eq!(labeled.label(), "vm1");
    assert_eq!(*labeled.item(), 4);
}
