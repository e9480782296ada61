use bluekey::address::Address;
use bluekey::registry::{BridgeRecord, BridgeRegistry, DestroyError, Id, IdSource};

fn record(id: u64, owner: &str, target: u8, name: &'static str) -> BridgeRecord<&'static str> {
    BridgeRecord { id: Id(id), owner: owner.to_string(), target: Address([target; 6]), bridge: name }
}

#[test]
fn ids_count_up() {
    let mut ids = IdSource::new();
    assert_eq!(ids.next(), Id(0));
    assert_eq!(ids.next(), Id(1));
    assert_eq!(ids.id, 2);
}

#[test]
fn owner_can_destroy() {
    let mut r = BridgeRegistry::new();
    assert!(r.insert(record(0, ":1.5", 1, "kbd")).is_none());
    assert!(r.insert(record(1, ":1.6", 2, "mouse")).is_none());
    let destroyed = r.destroy(Id(0), &":1.5".to_string()).ok().unwrap();
    assert_eq!(destroyed.bridge, "kbd");
    assert_eq!(r.len(), 1);
    assert!(!r.contains(Id(0)));
}

#[test]
fn others_cannot_destroy() {
    let mut r = BridgeRegistry::new();
    r.insert(record(3, ":1.5", 1, "kbd"));
    assert!(matches!(r.destroy(Id(3), &":1.9".to_string()), Err(DestroyError::AccessDenied)));
    assert!(r.contains(Id(3)));
    assert!(matches!(r.destroy(Id(4), &":1.5".to_string()), Err(DestroyError::NoSuchHandle)));
    assert_eq!(r.len(), 1);
}

#[test]
fn insert_replaces_same_handle() {
    let mut r = BridgeRegistry::new();
    r.insert(record(1, ":1.5", 1, "first"));
    let old = r.insert(record(1, ":1.5", 1, "second")).unwrap();
    assert_eq!(old.bridge, "first");
    assert_eq!(r.len(), 1);
    assert_eq!(r.remove(Id(1)).unwrap().bridge, "second");
    assert!(r.remove(Id(1)).is_none());
}

#[test]
fn client_exit_removes_its_bridges() {
    let mut r = BridgeRegistry::new();
    r.insert(record(0, ":1.5", 1, "a"));
    r.insert(record(1, ":1.6", 1, "b"));
    r.insert(record(2, ":1.5", 2, "c"));
    let gone = r.remove_owned_by(&":1.5".to_string());
    assert_eq!(gone.iter().map(|g| g.bridge).collect::<Vec<_>>(), vec!["a", "c"]);
    assert_eq!(r.len(), 1);
    assert!(r.contains(Id(1)));
}

#[test]
fn host_loss_removes_its_bridges() {
    let mut r = BridgeRegistry::new();
    r.insert(record(0, ":1.5", 1, "a"));
    r.insert(record(1, ":1.6", 2, "b"));
    r.insert(record(2, ":1.7", 1, "c"));
    let gone = r.remove_targeting(Address([1; 6]));
    assert_eq!(gone.iter().map(|g| g.id).collect::<Vec<_>>(), vec![Id(0), Id(2)]);
    assert_eq!(r.len(), 1);
    assert!(r.contains(Id(1)));
    assert!(r.remove_targeting(Address([9; 6])).is_empty());
}
