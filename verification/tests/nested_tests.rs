use fdisk::context::{DetectedLabel, DeviceProbe};
use fdisk::errors::FdiskError;
use fdisk::label::DiskLabel;
use fdisk::{Context, Partition};

fn probe(name: &str, fd: i32, nsectors: u64) -> DeviceProbe {
    DeviceProbe {
        name: String::from(name),
        fd,
        sector_size: 512,
        phy_sector_size: 512,
        min_io: 512,
        optimal_io: 0,
        alignment_offset: 0,
        nsectors,
        heads: 16,
        sectors: 63,
        detected: None,
    }
}

#[test]
fn nested_context_inherits_device_and_geometry() {
    let mut parent = Context::new();
    parent.assign_device(&probe("/dev/sda", 3, 1_000_000), false).unwrap();
    let child = parent.new_nested("bsd").expect("nested session");
    assert_eq!(child.name().unwrap(), "/dev/sda");
    assert_eq!(child.fd(), 3);
    assert_eq!(child.sector_size(), parent.sector_size());
    assert_eq!(child.first_lba(), parent.first_lba());
    assert_eq!(child.last_lba(), parent.last_lba());
    assert!(!child.has_label());
    let snap = child.parent().expect("parent snapshot");
    assert_eq!(snap.name().unwrap(), "/dev/sda");
    assert!(parent.parent().is_none());
}

#[test]
fn child_device_assignment_propagates_to_the_parent() {
    let mut parent = Context::new();
    parent.assign_device(&probe("/dev/sda", 3, 1_000_000), false).unwrap();
    let mut child = parent.new_nested("").unwrap();
    child.assign_device(&probe("/dev/sdb", 5, 2_000_000), false).unwrap();
    assert_eq!(child.name().unwrap(), "/dev/sdb");
    let snap = child.parent().expect("parent snapshot");
    assert_eq!(snap.name().unwrap(), "/dev/sdb");
    assert_eq!(snap.fd(), 5);
    assert_eq!(snap.logical_sectors(), 2_000_000);
}

#[test]
fn parent_reassignment_does_not_reach_an_existing_child() {
    let mut parent = Context::new();
    parent.assign_device(&probe("/dev/sda", 3, 1_000_000), false).unwrap();
    let child = parent.new_nested("").unwrap();
    parent.assign_device(&probe("/dev/sdc", 7, 4_000_000), false).unwrap();
    assert_eq!(child.name().unwrap(), "/dev/sda");
    assert_eq!(child.fd(), 3);
    assert_eq!(child.logical_sectors(), 1_000_000);
    assert_eq!(child.parent().unwrap().name().unwrap(), "/dev/sda");
}

#[test]
fn child_deassignment_is_redirected_to_the_parent_snapshot() {
    let mut parent = Context::new();
    parent.assign_device(&probe("/dev/sda", 3, 1_000_000), false).unwrap();
    let mut child = parent.new_nested("bsd").unwrap();
    assert!(child.deassign_device(false).is_ok());
    assert_eq!(child.fd(), -1);
    let snap = child.parent().expect("parent snapshot");
    assert_eq!(snap.fd(), -1);
    assert_eq!(snap.name(), Err(FdiskError::NoData));
}

#[test]
fn nesting_requests_are_validated() {
    let parent = Context::new();
    assert!(matches!(parent.new_nested("atari"), Err(FdiskError::Allocation)));
    let child = parent.new_nested("bsd").unwrap();
    assert!(matches!(child.new_nested("bsd"), Err(FdiskError::Allocation)));
}

#[test]
fn a_restricted_child_disables_the_other_drivers() {
    let parent = Context::new();
    let child = parent.new_nested("bsd").unwrap();
    let bsd = child.get_label("bsd").unwrap();
    assert!(!bsd.is_disabled());
    let dos = child.get_label("dos").unwrap();
    assert!(dos.is_disabled());
    let unrestricted = parent.new_nested("").unwrap();
    assert!(!unrestricted.get_label("dos").unwrap().is_disabled());
}

#[test]
fn a_child_keeps_its_own_label_state() {
    let mut parent = Context::new();
    parent
        .assign_device(
            &DeviceProbe {
                detected: Some(DetectedLabel { kind: DiskLabel::Dos, entries: Vec::<Partition>::new() }),
                ..probe("/dev/sda", 3, 1_000_000)
            },
            false,
        )
        .unwrap();
    let mut child = parent.new_nested("bsd").unwrap();
    assert!(!child.has_label());
    child.create_disklabel("bsd").unwrap();
    assert!(child.is_labeltype(DiskLabel::Bsd));
    assert!(parent.is_labeltype(DiskLabel::Dos));
    assert!(child.parent().unwrap().is_labeltype(DiskLabel::Dos));
}
