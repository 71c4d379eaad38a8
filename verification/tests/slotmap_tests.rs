use ale_core::slotmap::{EntityKey, SlotMap};

#[test]
fn empty_map_finds_nothing() {
    let m: SlotMap<String> = SlotMap::new();
    assert_eq!(m.get(EntityKey { index: 0, generation: 0 }), None);
    assert_eq!(m.get(EntityKey { index: 7, generation: 3 }), None);
}

#[test]
fn insert_then_get_returns_value() {
    let mut m: SlotMap<String> = SlotMap::new();
    let k = m.insert(String::from("hello"));
    assert_eq!(k, EntityKey { index: 0, generation: 0 });
    assert_eq!(m.get(k), Some(&String::from("hello")));
}

#[test]
fn remove_invalidates_key() {
    let mut m: SlotMap<u64> = SlotMap::new();
    let k = m.insert(42);
    assert!(m.remove(k));
    assert_eq!(m.get(k), None);
}

#[test]
fn remove_stale_key_is_noop() {
    let mut m: SlotMap<u64> = SlotMap::new();
    let k = m.insert(42);
    assert!(m.remove(k));
    assert!(!m.remove(k));
    let stale = EntityKey { index: 0, generation: 99 };
    assert!(!m.remove(stale));
    let out_of_range = EntityKey { index: 12, generation: 0 };
    assert!(!m.remove(out_of_range));
}

#[test]
fn scenario_reuse_bumps_generation() {
    // Start empty; "a" and "b" take the first two slots at generation 0;
    // freeing "a" and inserting "c" reuses index 0 one generation up, so
    // the stale key misses while the others still hit.
    let mut m: SlotMap<String> = SlotMap::new();
    let ka = m.insert(String::from("a"));
    assert_eq!(ka, EntityKey { index: 0, generation: 0 });
    let kb = m.insert(String::from("b"));
    assert_eq!(kb, EntityKey { index: 1, generation: 0 });
    assert!(m.remove(ka));
    let kc = m.insert(String::from("c"));
    assert_eq!(kc, EntityKey { index: 0, generation: 1 });
    assert_eq!(m.get(EntityKey { index: 0, generation: 0 }), None);
    assert_eq!(m.get(EntityKey { index: 0, generation: 1 }), Some(&String::from("c")));
    assert_eq!(m.get(EntityKey { index: 1, generation: 0 }), Some(&String::from("b")));
}

#[test]
fn reuse_prefers_most_recently_freed_slot() {
    let mut m: SlotMap<u64> = SlotMap::new();
    let k0 = m.insert(10);
    let k1 = m.insert(11);
    let _k2 = m.insert(12);
    assert!(m.remove(k0));
    assert!(m.remove(k1));
    let k3 = m.insert(13);
    assert_eq!(k3, EntityKey { index: 1, generation: 1 });
    let k4 = m.insert(14);
    assert_eq!(k4, EntityKey { index: 0, generation: 1 });
    let k5 = m.insert(15);
    assert_eq!(k5, EntityKey { index: 3, generation: 0 });
}

#[test]
fn get_mut_updates_in_place() {
    let mut m: SlotMap<String> = SlotMap::new();
    let k = m.insert(String::from("before"));
    match m.get_mut(k) {
        Some(v) => *v = String::from("after"),
        None => panic!("key should be valid"),
    }
    assert_eq!(m.get(k), Some(&String::from("after")));
    assert_eq!(m.get_mut(EntityKey { index: 0, generation: 5 }), None);
}

#[test]
fn keys_lists_occupied_slots_in_index_order() {
    let mut m: SlotMap<u64> = SlotMap::new();
    let k0 = m.insert(0);
    let k1 = m.insert(1);
    let k2 = m.insert(2);
    assert_eq!(m.keys(), vec![k0, k1, k2]);
    assert!(m.remove(k1));
    assert_eq!(m.keys(), vec![k0, k2]);
    let k3 = m.insert(3);
    assert_eq!(m.keys(), vec![k0, k3, k2]);
}
