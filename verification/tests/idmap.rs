use dmesh::h2::idmap::{mix, new_map, IdHasher, IdMap};
use std::collections::HashSet;

#[test]
fn behaves_like_a_map() {
    let mut m: IdMap<u32> = new_map();
    for i in (1..200).step_by(2) {
        m.insert(i, i as u32 * 3);
    }
    for i in (1..200).step_by(2) {
        assert_eq!(m.get(&i), Some(&(i as u32 * 3)));
    }
    assert_eq!(m.remove(&51), Some(153));
    assert_eq!(m.get(&51), None);
    assert_eq!(m.len(), 99);
}

#[test]
fn adversarial_ids_spread() {
    let buckets = 1024u64;
    let mut seen = HashSet::new();
    for k in 0..64u64 {
        let id = (k * buckets * 2 + 1) as i32; // same bucket under identity
        let mut h = IdHasher::default();
        h.write_i32(id);
        seen.insert(h.finish() % buckets);
    }
    assert!(seen.len() > 32, "ids collapsed into {} buckets", seen.len());
}

#[test]
fn an_id_is_mixed_by_one_multiplication() {
    let h = 5u64.wrapping_mul(0x517c_c1b7_2722_0a95);
    assert_eq!(mix(5), h ^ (h >> 32));
    let mut hasher = IdHasher::default();
    hasher.write_u32(5);
    assert_eq!(hasher.finish(), mix(5));
}

#[test]
fn an_id_replaces_its_value() {
    let mut m: IdMap<&str> = new_map();
    assert_eq!(m.insert(7, "a"), None);
    assert_eq!(m.insert(7, "b"), Some("a"));
    assert_eq!(m.len(), 1);
    assert!(m.contains_key(&7));
    assert!(!m.contains_key(&8));
    assert_eq!(m.remove(&8), None);
}

#[test]
fn ids_are_counted_once() {
    let mut m: IdMap<u8> = new_map();
    for id in [-1, 0, i32::MIN, i32::MAX, 0, -1] {
        m.insert(id, 1);
    }
    assert_eq!(m.len(), 4);
    m.remove(&i32::MIN);
    m.remove(&i32::MIN);
    assert_eq!(m.len(), 3);
}
