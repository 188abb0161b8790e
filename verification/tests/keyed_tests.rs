use presence::keyed::{Pushi, Swappi, Vecci};
use std::collections::BTreeMap;

#[test]
fn push_into_empty_map_uses_key_zero() {
    let mut m: BTreeMap<usize, &str> = BTreeMap::new();
    Pushi::push(&mut m, "a");
    assert_eq!(m.len(), 1);
    assert_eq!(m[&0], "a");
}

#[test]
fn push_uses_one_past_the_largest_key() {
    let mut m: BTreeMap<usize, &str> = BTreeMap::new();
    m.insert(5, "five");
    m.insert(2, "two");
    Pushi::push(&mut m, "next");
    assert_eq!(m.len(), 3);
    assert_eq!(m[&6], "next");
    assert_eq!(m[&5], "five");
    assert_eq!(m[&2], "two");
}

#[test]
fn pushed_items_come_out_in_push_order() {
    let mut m: BTreeMap<usize, u32> = BTreeMap::new();
    for x in [10u32, 20, 30] {
        Pushi::push(&mut m, x);
    }
    let values: Vec<u32> = m.values().copied().collect();
    assert_eq!(values, vec![10, 20, 30]);
    let keys: Vec<usize> = m.keys().copied().collect();
    assert_eq!(keys, vec![0, 1, 2]);
}

#[test]
fn swap_exchanges_two_items() {
    let mut m: BTreeMap<u64, &str> = BTreeMap::new();
    m.insert(1, "one");
    m.insert(2, "two");
    m.insert(3, "three");
    Swappi::swap(&mut m, 1, 3);
    assert_eq!(m[&1], "three");
    assert_eq!(m[&3], "one");
    assert_eq!(m[&2], "two");
    assert_eq!(m.len(), 3);
}

#[test]
fn swap_twice_restores() {
    let mut m: BTreeMap<u64, &str> = BTreeMap::new();
    m.insert(1, "one");
    m.insert(2, "two");
    let before = m.clone();
    Swappi::swap(&mut m, 1, 2);
    Swappi::swap(&mut m, 2, 1);
    assert_eq!(m, before);
}

#[test]
fn option_to_vec() {
    assert_eq!(Some(3).to_vec(), vec![3]);
    assert_eq!(None::<u8>.to_vec(), Vec::<u8>::new());
}
