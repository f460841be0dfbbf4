use erc20::keys::{derive_key, key_in_scope, AgentId};
use erc20::maps::{
    ImmutableAllowancesForAgent, MapAgentIDToImmutableInt64, MapAgentIDToMutableInt64,
    MutableAllowancesForAgent,
};
use erc20::proxy::{ScImmutableInt64, ScMutableInt64};
use erc20::registry::ObjectRegistry;
use erc20::store::HostStore;

fn agent(bytes: &[u8]) -> AgentId {
    AgentId::from_bytes(bytes.to_vec())
}

#[test]
fn derive_key_prefixes_little_endian_object_id() {
    assert_eq!(derive_key(1, &agent(&[0xaa, 0xbb])), vec![1, 0, 0, 0, 0xaa, 0xbb]);
    assert_eq!(derive_key(0x01020304, &agent(&[7])), vec![4, 3, 2, 1, 7]);
    assert_eq!(derive_key(-1, &agent(&[])), vec![255, 255, 255, 255]);
}

#[test]
fn derive_key_distinct_keys_differ() {
    let a = derive_key(5, &agent(&[1, 2, 3]));
    let b = derive_key(5, &agent(&[1, 2, 4]));
    let c = derive_key(5, &agent(&[1, 2]));
    assert_ne!(a, b);
    assert_ne!(a, c);
    assert_ne!(b, c);
}

#[test]
fn derive_key_distinct_containers_differ() {
    let k = agent(&[9, 9, 9]);
    assert_ne!(derive_key(1, &k), derive_key(2, &k));
    assert_ne!(derive_key(256, &k), derive_key(1, &k));
    assert_ne!(derive_key(-1, &k), derive_key(i32::MAX, &k));
}

#[test]
fn derive_key_is_deterministic() {
    let k = agent(&[3, 1, 4]);
    assert_eq!(derive_key(42, &k), derive_key(42, &k));
}

#[test]
fn key_in_scope_checks_prefix() {
    let k = derive_key(7, &agent(&[1]));
    assert!(key_in_scope(&k, 7));
    assert!(!key_in_scope(&k, 8));
    assert!(!key_in_scope(&vec![7, 0, 0], 7));
}

#[test]
fn agent_id_keeps_bytes() {
    assert_eq!(agent(&[1, 2, 3]).to_bytes(), vec![1, 2, 3]);
}

#[test]
fn absent_key_reads_zero() {
    let store = HostStore::new();
    let map = MapAgentIDToImmutableInt64::new(3);
    let slot = map.get_int64(&agent(&[1, 2]));
    assert_eq!(slot.value(&store), 0);
    assert!(!slot.is_set(&store));
}

#[test]
fn write_then_read_round_trips() {
    let mut store = HostStore::new();
    let map = MapAgentIDToMutableInt64::new(3);
    let slot = map.get_int64(&agent(&[1, 2]));
    for v in [0i64, 1, -1, 500, i64::MIN, i64::MAX] {
        slot.set_value(&mut store, v);
        assert_eq!(slot.value(&store), v);
        assert!(slot.is_set(&store));
    }
}

#[test]
fn value_is_stored_little_endian() {
    let mut store = HostStore::new();
    let map = MapAgentIDToMutableInt64::new(1);
    let key = agent(&[0x10]);
    map.get_int64(&key).set_value(&mut store, 500);
    assert_eq!(store.get(&derive_key(1, &key)), vec![0xf4, 0x01, 0, 0, 0, 0, 0, 0]);
    map.get_int64(&key).set_value(&mut store, -2);
    assert_eq!(store.get(&derive_key(1, &key)), vec![0xfe, 0xff, 0xff, 0xff, 0xff, 0xff, 0xff, 0xff]);
}

#[test]
fn stored_bytes_decode_to_value() {
    let mut store = HostStore::new();
    let key = derive_key(2, &agent(&[5]));
    store.set(&key, &vec![0x01, 0x02, 0, 0, 0, 0, 0, 0]);
    let slot = MapAgentIDToImmutableInt64::new(2).get_int64(&agent(&[5]));
    assert_eq!(slot.value(&store), 0x0201);
}

#[test]
fn write_leaves_other_keys() {
    let mut store = HostStore::new();
    let m1 = MapAgentIDToMutableInt64::new(1);
    let m2 = MapAgentIDToMutableInt64::new(2);
    m1.get_int64(&agent(&[1])).set_value(&mut store, 10);
    m1.get_int64(&agent(&[2])).set_value(&mut store, 20);
    m2.get_int64(&agent(&[1])).set_value(&mut store, 30);
    assert_eq!(m1.get_int64(&agent(&[1])).value(&store), 10);
    assert_eq!(m1.get_int64(&agent(&[2])).value(&store), 20);
    assert_eq!(m2.get_int64(&agent(&[1])).value(&store), 30);
    assert_eq!(m2.get_int64(&agent(&[2])).value(&store), 0);
}

#[test]
fn clear_resets_every_key_of_the_map() {
    let mut store = HostStore::new();
    let map = MapAgentIDToMutableInt64::new(4);
    let other = MapAgentIDToMutableInt64::new(5);
    let keys = [agent(&[1]), agent(&[2, 2]), agent(&[3, 3, 3]), agent(&[])];
    for (i, k) in keys.iter().enumerate() {
        map.get_int64(k).set_value(&mut store, i as i64 + 1);
        other.get_int64(k).set_value(&mut store, -(i as i64) - 1);
    }
    map.clear(&mut store);
    for (i, k) in keys.iter().enumerate() {
        assert_eq!(map.get_int64(k).value(&store), 0);
        assert!(!map.get_int64(k).is_set(&store));
        assert_eq!(other.get_int64(k).value(&store), -(i as i64) - 1);
    }
}

#[test]
fn clear_then_write_again() {
    let mut store = HostStore::new();
    let map = MapAgentIDToMutableInt64::new(4);
    map.get_int64(&agent(&[1])).set_value(&mut store, 7);
    map.clear(&mut store);
    map.clear(&mut store);
    map.get_int64(&agent(&[1])).set_value(&mut store, 8);
    assert_eq!(map.get_int64(&agent(&[1])).value(&store), 8);
}

#[test]
fn allowance_scenario() {
    let mut store = HostStore::new();
    let allowances: MutableAllowancesForAgent = MapAgentIDToMutableInt64::new(1);
    let a = agent(&[0xa]);
    let b = agent(&[0xb]);
    allowances.get_int64(&a).set_value(&mut store, 500);
    let view: ImmutableAllowancesForAgent = allowances.immutable();
    assert_eq!(view.get_int64(&b).value(&store), 0);
    assert_eq!(view.get_int64(&a).value(&store), 500);
    allowances.clear(&mut store);
    assert_eq!(view.get_int64(&a).value(&store), 0);
}

#[test]
fn delete_makes_value_read_zero() {
    let mut store = HostStore::new();
    let slot = ScMutableInt64::new(9, &agent(&[1]));
    slot.set_value(&mut store, 42);
    slot.delete(&mut store);
    assert_eq!(slot.value(&store), 0);
    assert!(!slot.is_set(&store));
}

#[test]
fn immutable_and_mutable_handles_agree() {
    let mut store = HostStore::new();
    let slot = ScMutableInt64::new(9, &agent(&[1]));
    let read_only = ScImmutableInt64::new(9, &agent(&[1]));
    slot.set_value(&mut store, -77);
    assert_eq!(read_only.value(&store), -77);
    assert_eq!(slot.immutable().value(&store), -77);
    assert!(read_only.is_set(&store));
}

#[test]
fn store_raw_operations() {
    let mut store = HostStore::new();
    let k = vec![1, 0, 0, 0, 5];
    assert_eq!(store.get(&k), Vec::<u8>::new());
    assert!(!store.contains_key(&k));
    store.set(&k, &vec![1, 2, 3, 4, 5, 6, 7, 8]);
    assert!(store.contains_key(&k));
    assert_eq!(store.get(&k), vec![1, 2, 3, 4, 5, 6, 7, 8]);
    store.delete(&k);
    assert!(!store.contains_key(&k));
}

#[test]
fn clear_scope_keeps_short_keys() {
    let mut store = HostStore::new();
    let short = vec![1, 0];
    let scoped = vec![1, 0, 0, 0];
    store.set(&short, &vec![0; 8]);
    store.set(&scoped, &vec![0; 8]);
    store.clear_scope(1);
    assert!(store.contains_key(&short));
    assert!(!store.contains_key(&scoped));
}

#[test]
fn registry_issues_fresh_ids() {
    let mut reg = ObjectRegistry::new(1);
    assert!(reg.has_capacity());
    let a = reg.issue();
    let b = reg.issue();
    let c = reg.issue();
    assert_eq!((a, b, c), (1, 2, 3));
}

#[test]
fn registry_exhaustion() {
    let mut reg = ObjectRegistry::new(i32::MAX - 1);
    assert!(reg.has_capacity());
    assert_eq!(reg.issue(), i32::MAX - 1);
    assert!(!reg.has_capacity());
    assert!(!ObjectRegistry::new(i32::MAX).has_capacity());
}
