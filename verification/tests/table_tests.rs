use fdisk::errors::FdiskError;
use fdisk::{Partition, Table};

fn part(no: usize, start: u64, size: u64) -> Partition {
    let mut p = Partition::new();
    p.set_partno(no).unwrap();
    p.set_start(start).unwrap();
    p.set_size(size).unwrap();
    p
}

#[test]
fn new_table_is_empty() {
    let t = Table::new();
    assert_eq!(t.nents(), 0);
    assert!(t.is_empty());
    assert!(t.partition(0).is_none());
}

#[test]
fn add_then_lookup_by_partno() {
    let mut t = Table::new();
    assert_eq!(t.nents(), 0);
    let mut p = Partition::new();
    p.set_partno(0).unwrap();
    assert!(t.add_partition(&p).is_ok());
    assert_eq!(t.nents(), 1);
    let got = t.partition_by_partno(0).expect("entry with partno 0");
    assert_eq!(got.partno(), Some(0));
}

#[test]
fn nents_counts_adds_and_removes() {
    let mut t = Table::new();
    let a = part(0, 100, 10);
    let b = part(1, 200, 10);
    t.add_partition(&a).unwrap();
    t.add_partition(&b).unwrap();
    t.add_partition(&a).unwrap();
    assert_eq!(t.nents(), 3);
    t.remove_partition(&a).unwrap();
    assert_eq!(t.nents(), 2);
    t.remove_partition(&a).unwrap();
    assert_eq!(t.nents(), 1);
    t.reset_table().unwrap();
    assert_eq!(t.nents(), 0);
}

#[test]
fn reset_table_twice_is_idempotent() {
    let mut t = Table::new();
    t.add_partition(&part(0, 10, 5)).unwrap();
    assert!(t.reset_table().is_ok());
    assert_eq!(t.nents(), 0);
    assert!(t.is_empty());
    assert!(t.reset_table().is_ok());
    assert_eq!(t.nents(), 0);
    assert!(t.is_empty());
}

#[test]
fn remove_missing_entry_is_not_found() {
    let mut t = Table::new();
    t.add_partition(&part(0, 10, 5)).unwrap();
    let other = part(1, 50, 5);
    assert_eq!(t.remove_partition(&other), Err(FdiskError::NotFound));
    assert_eq!(t.nents(), 1);
}

#[test]
fn remove_takes_the_first_equal_entry() {
    let mut t = Table::new();
    let a = part(0, 10, 5);
    let b = part(1, 50, 5);
    t.add_partition(&a).unwrap();
    t.add_partition(&b).unwrap();
    t.add_partition(&a).unwrap();
    t.remove_partition(&a).unwrap();
    assert_eq!(t.nents(), 2);
    let first = t.partition(0).unwrap();
    assert_eq!(first.partno(), Some(1));
    let second = t.partition(1).unwrap();
    assert_eq!(second.partno(), Some(0));
}

#[test]
fn indexed_access_is_in_insertion_order() {
    let mut t = Table::new();
    t.add_partition(&part(2, 300, 10)).unwrap();
    t.add_partition(&part(0, 100, 10)).unwrap();
    assert_eq!(t.partition(0).unwrap().partno(), Some(2));
    assert_eq!(t.partition(1).unwrap().partno(), Some(0));
    assert!(t.partition(2).is_none());
}

#[test]
fn ascending_starts_are_in_disk_order() {
    let mut t = Table::new();
    t.add_partition(&part(0, 100, 10)).unwrap();
    t.add_partition(&part(1, 200, 10)).unwrap();
    t.add_partition(&part(2, 300, 10)).unwrap();
    assert!(!t.is_wrong_order());
}

#[test]
fn non_ascending_starts_are_wrong_order() {
    let mut t = Table::new();
    t.add_partition(&part(0, 300, 10)).unwrap();
    t.add_partition(&part(1, 100, 10)).unwrap();
    assert!(t.is_wrong_order());
}

#[test]
fn entries_without_start_do_not_affect_order() {
    let mut t = Table::new();
    let mut bare = Partition::new();
    bare.set_partno(9).unwrap();
    t.add_partition(&part(0, 100, 10)).unwrap();
    t.add_partition(&bare).unwrap();
    t.add_partition(&part(1, 200, 10)).unwrap();
    assert!(!t.is_wrong_order());
}

#[test]
fn iterator_walks_all_entries_forward() {
    let mut t = Table::new();
    t.add_partition(&part(0, 100, 10)).unwrap();
    t.add_partition(&part(1, 200, 10)).unwrap();
    let mut it = t.iter();
    let first = it.next().expect("first entry");
    assert_eq!(first.start(), Some(100));
    let second = it.next().expect("second entry");
    assert_eq!(second.start(), Some(200));
    assert!(it.next().is_none());
    assert!(it.next().is_none());
}

#[test]
fn iterator_on_empty_table_is_done() {
    let t = Table::default();
    let mut it = t.iter();
    assert!(it.next().is_none());
}
