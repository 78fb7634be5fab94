use fdisk::errors::FdiskError;
use fdisk::Partition;

#[test]
fn fresh_partition_reports_absent_fields() {
    let p = Partition::new();
    assert_eq!(p.start(), None);
    assert_eq!(p.size(), None);
    assert_eq!(p.partno(), None);
    assert_eq!(p.end(), None);
    assert!(!p.is_used());
    assert!(!p.is_bootable());
    assert!(!p.is_container());
    assert!(!p.is_freespace());
    assert!(!p.is_nested());
    assert!(!p.is_wholedisk());
    assert!(!p.start_is_default());
    assert_eq!(p.attrs(), None);
    assert_eq!(p.name(), Err(FdiskError::NoData));
    assert_eq!(p.uuid(), Err(FdiskError::NoData));
    assert_eq!(p.parent(), Err(FdiskError::NoData));
}

#[test]
fn default_is_fresh() {
    let p = Partition::default();
    assert_eq!(p.partno(), None);
    assert_eq!(p.start(), None);
    assert_eq!(p.size(), None);
}

#[test]
fn setters_store_values() {
    let mut p = Partition::new();
    assert!(p.set_partno(3).is_ok());
    assert!(p.set_start(2048).is_ok());
    assert!(p.set_size(4096).is_ok());
    assert!(p.set_name("root").is_ok());
    assert!(p.set_uuid("0fc63daf-8483-4772-8e79-3d69d8477de4").is_ok());
    assert!(p.set_attrs("GUID:63").is_ok());
    assert_eq!(p.partno(), Some(3));
    assert_eq!(p.start(), Some(2048));
    assert_eq!(p.size(), Some(4096));
    assert_eq!(p.name().unwrap(), "root");
    assert_eq!(p.uuid().unwrap(), "0fc63daf-8483-4772-8e79-3d69d8477de4");
    assert_eq!(p.attrs().unwrap(), "GUID:63");
}

#[test]
fn end_is_derived_from_start_and_size() {
    let mut p = Partition::new();
    assert!(p.set_start(2048).is_ok());
    assert_eq!(p.end(), None);
    assert!(p.set_size(1000).is_ok());
    assert_eq!(p.end(), Some(3047));
}

#[test]
fn end_of_zero_sized_partition_is_its_start() {
    let mut p = Partition::new();
    p.set_start(10).unwrap();
    p.set_size(0).unwrap();
    assert_eq!(p.end(), Some(10));
}

#[test]
fn end_is_absent_when_not_representable() {
    let mut p = Partition::new();
    p.set_start(u64::MAX).unwrap();
    p.set_size(2).unwrap();
    assert_eq!(p.end(), None);
}

#[test]
fn unset_marks_fields_undefined_again() {
    let mut p = Partition::new();
    p.set_partno(0).unwrap();
    p.set_start(0).unwrap();
    p.set_size(0).unwrap();
    assert_eq!(p.partno(), Some(0));
    assert_eq!(p.start(), Some(0));
    assert_eq!(p.size(), Some(0));
    p.unset_partno().unwrap();
    p.unset_start().unwrap();
    p.unset_size().unwrap();
    assert_eq!(p.partno(), None);
    assert_eq!(p.start(), None);
    assert_eq!(p.size(), None);
}

#[test]
fn nul_in_string_fields_is_an_encoding_error() {
    let mut p = Partition::new();
    assert_eq!(p.set_name("bad\0name"), Err(FdiskError::Encoding));
    assert_eq!(p.set_uuid("\0"), Err(FdiskError::Encoding));
    assert_eq!(p.set_attrs("a\0b"), Err(FdiskError::Encoding));
    assert_eq!(p.name(), Err(FdiskError::NoData));
    assert_eq!(p.uuid(), Err(FdiskError::NoData));
    assert_eq!(p.attrs(), None);
}

#[test]
fn explicit_start_switches_off_default_placement() {
    let mut p = Partition::new();
    p.start_follow_default(true).unwrap();
    assert!(p.start_is_default());
    p.set_start(2048).unwrap();
    assert!(!p.start_is_default());
    p.start_follow_default(true).unwrap();
    assert!(p.start_is_default());
}

#[test]
fn size_explicit_flag_toggles() {
    let mut p = Partition::new();
    p.size_explicit(true).unwrap();
    p.size_explicit(false).unwrap();
    assert_eq!(p.size(), None);
}

#[test]
fn reset_partition_restores_fresh_state() {
    let mut p = Partition::new();
    p.set_partno(1).unwrap();
    p.set_start(100).unwrap();
    p.set_name("data").unwrap();
    p.reset_partition();
    assert_eq!(p.partno(), None);
    assert_eq!(p.start(), None);
    assert_eq!(p.name(), Err(FdiskError::NoData));
}

#[test]
fn partitions_compare_structurally() {
    let mut a = Partition::new();
    let mut b = Partition::new();
    assert!(a == b);
    a.set_start(7).unwrap();
    assert!(a != b);
    b.set_start(7).unwrap();
    assert!(a == b);
    a.set_name("x").unwrap();
    assert!(a != b);
    b.set_name("x").unwrap();
    assert!(a == b);
    let c = a.clone();
    assert!(c == a);
}

#[test]
fn error_kinds_have_names() {
    assert_eq!(FdiskError::NoData.kind_name(), "no data");
    assert_eq!(FdiskError::Device { code: 9 }.kind_name(), "device error");
}
