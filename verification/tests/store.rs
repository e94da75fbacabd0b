use token_ledger::store::{page_of, StableBTreeMap, StableCell, StoreError, StoreMemory};
use token_ledger::types::Holder;

fn owner(n: u128) -> Holder {
    Holder { hi: n, lo: 0 }
}

#[test]
fn map_reads_its_writes() {
    let mut mem = StoreMemory::new();
    let mut m = StableBTreeMap::new();
    assert_eq!(m.get(owner(1), 7), None);
    assert_eq!(m.insert(&mut mem, owner(1), 7, 70), Ok(()));
    assert_eq!(m.get(owner(1), 7), Some(70));
    assert_eq!(m.get(owner(1), 8), None);
    assert_eq!(m.list(owner(1), 0, 10), vec![(7, 70)]);
    assert_eq!(m.insert(&mut mem, owner(1), 7, 71), Ok(()));
    assert_eq!(m.get(owner(1), 7), Some(71));
    assert_eq!(m.list(owner(1), 0, 10), vec![(7, 71)]);
    assert_eq!(mem.regions_left(), 254);
}

#[test]
fn map_keeps_owners_apart() {
    let mut mem = StoreMemory::new();
    let mut m = StableBTreeMap::new();
    assert_eq!(m.insert(&mut mem, owner(1), 7, 70), Ok(()));
    assert_eq!(m.insert(&mut mem, owner(2), 7, 700), Ok(()));
    assert_eq!(m.insert(&mut mem, owner(2), 8, 800), Ok(()));
    assert_eq!(m.get(owner(1), 7), Some(70));
    assert_eq!(m.get(owner(2), 7), Some(700));
    assert_eq!(m.get(owner(1), 8), None);
    assert_eq!(m.get(owner(3), 7), None);
    assert_eq!(m.remove(owner(1), 8), None);
    assert_eq!(m.remove(owner(3), 7), None);
    assert_eq!(m.remove(owner(2), 7), Some(700));
    assert_eq!(m.get(owner(2), 7), None);
    assert_eq!(m.get(owner(1), 7), Some(70));
    assert_eq!(m.get(owner(2), 8), Some(800));
    assert_eq!(m.list(owner(1), 0, 10), vec![(7, 70)]);
    assert_eq!(m.list(owner(2), 0, 10), vec![(8, 800)]);
}

#[test]
fn stores_share_one_memory() {
    let mut mem = StoreMemory::new();
    let mut m = StableBTreeMap::new();
    let mut n = StableBTreeMap::new();
    let mut c = StableCell::new(5);
    assert_eq!(m.insert(&mut mem, owner(1), 1, 10), Ok(()));
    assert_eq!(c.set(&mut mem, owner(1), 99), Ok(()));
    assert_eq!(n.insert(&mut mem, owner(1), 1, 20), Ok(()));
    assert_eq!(m.insert(&mut mem, owner(1), 2, 11), Ok(()));
    assert_eq!(m.list(owner(1), 0, 10), vec![(1, 10), (2, 11)]);
    assert_eq!(n.list(owner(1), 0, 10), vec![(1, 20)]);
    assert_eq!(c.get(owner(1)), 99);
    assert_eq!(mem.regions_left(), 252);
}

#[test]
fn map_lists_by_key() {
    let mut mem = StoreMemory::new();
    let mut m = StableBTreeMap::new();
    for k in [5u64, 1, 9, 3, 7] {
        assert_eq!(m.insert(&mut mem, owner(1), k, (k as u128) * 10), Ok(()));
    }
    assert_eq!(m.list(owner(1), 0, 10), vec![(1, 10), (3, 30), (5, 50), (7, 70), (9, 90)]);
    assert_eq!(m.list(owner(1), 1, 2), vec![(3, 30), (5, 50)]);
    assert_eq!(m.list(owner(1), 4, 5), vec![(9, 90)]);
    assert!(m.list(owner(1), 5, 5).is_empty());
    assert!(m.list(owner(1), usize::MAX, usize::MAX).is_empty());
    assert!(m.list(owner(2), 0, 10).is_empty());
}

#[test]
fn regions_run_out() {
    let mut mem = StoreMemory::new();
    let mut c = StableCell::new(0);
    for i in 0..255u128 {
        assert_eq!(c.set(&mut mem, owner(i), i), Ok(()));
    }
    assert_eq!(mem.regions_left(), 0);
    assert_eq!(c.set(&mut mem, owner(255), 1), Err(StoreError::NoRegionLeft));
    assert_eq!(c.get(owner(255)), 0);
    assert_eq!(c.set(&mut mem, owner(3), 33), Ok(()));
    assert_eq!(c.get(owner(3)), 33);
    assert_eq!(c.get(owner(254)), 254);
    let mut m = StableBTreeMap::new();
    assert_eq!(m.insert(&mut mem, owner(1), 1, 1), Err(StoreError::NoRegionLeft));
    assert_eq!(m.get(owner(1), 1), None);
}

#[test]
fn page_is_clipped() {
    let v = vec![(1u64, 1u128), (2, 2), (3, 3)];
    assert_eq!(page_of(&v, 0, 2), vec![(1, 1), (2, 2)]);
    assert_eq!(page_of(&v, 2, 2), vec![(3, 3)]);
    assert!(page_of(&v, 3, 2).is_empty());
    assert!(page_of(&v, 1, 0).is_empty());
}

#[test]
fn cell_defaults_then_keeps_value() {
    let mut mem = StoreMemory::new();
    let mut c = StableCell::new(42);
    assert_eq!(c.get(owner(1)), 42);
    assert_eq!(c.set(&mut mem, owner(1), 7), Ok(()));
    assert_eq!(c.get(owner(1)), 7);
    assert_eq!(c.get(owner(2)), 42);
    assert_eq!(c.set(&mut mem, owner(2), 8), Ok(()));
    assert_eq!(c.set(&mut mem, owner(1), 9), Ok(()));
    assert_eq!(c.get(owner(1)), 9);
    assert_eq!(c.get(owner(2)), 8);
}
