use fdisk::context::{DetectedLabel, DeviceProbe, DiskUnit};
use fdisk::errors::{FdiskError, OS_EBADF, OS_EINVAL};
use fdisk::label::DiskLabel;
use fdisk::{Context, Partition};

fn part(no: usize, start: u64, size: u64) -> Partition {
    let mut p = Partition::new();
    p.set_partno(no).unwrap();
    p.set_start(start).unwrap();
    p.set_size(size).unwrap();
    p
}

fn probe(entries: Vec<Partition>, kind: DiskLabel) -> DeviceProbe {
    DeviceProbe {
        name: String::from("/dev/sda"),
        fd: 3,
        sector_size: 512,
        phy_sector_size: 512,
        min_io: 512,
        optimal_io: 0,
        alignment_offset: 0,
        nsectors: 2_000_000,
        heads: 255,
        sectors: 63,
        detected: Some(DetectedLabel { kind, entries }),
    }
}

fn bare_probe() -> DeviceProbe {
    DeviceProbe {
        name: String::from("/dev/sdb"),
        fd: 4,
        sector_size: 512,
        phy_sector_size: 4096,
        min_io: 4096,
        optimal_io: 0,
        alignment_offset: 0,
        nsectors: 1_000_000,
        heads: 16,
        sectors: 63,
        detected: None,
    }
}

#[test]
fn fresh_context_has_no_device_and_no_label() {
    let c = Context::new();
    assert_eq!(c.fd(), -1);
    assert_eq!(c.name(), Err(FdiskError::NoData));
    assert!(!c.has_label());
    assert!(!c.is_readonly());
    assert_eq!(c.sector_size(), 512);
    assert_eq!(c.units_per_sector(), 1);
    assert_eq!(c.first_lba(), 0);
    assert_eq!(c.last_lba(), 0);
}

#[test]
fn create_gpt_label_and_read_it_back() {
    let mut c = Context::new();
    assert!(c.create_disklabel("gpt").is_ok());
    assert!(c.is_labeltype(DiskLabel::Gpt));
    assert!(!c.is_labeltype(DiskLabel::Dos));
    assert!(c.has_label());
    let label = c.get_label("").expect("active label");
    assert_eq!(label.get_name().unwrap(), "gpt");
    assert!(label.is_changed());
    assert!(!label.is_disabled());
}

#[test]
fn empty_name_creates_the_platform_default_label() {
    let mut c = Context::new();
    assert!(c.create_disklabel("").is_ok());
    assert!(c.is_labeltype(DiskLabel::Dos));
    let label = c.get_label("").unwrap();
    assert_eq!(label.get_name().unwrap(), "dos");
}

#[test]
fn unknown_label_name_is_unsupported() {
    let mut c = Context::new();
    assert_eq!(c.create_disklabel("atari"), Err(FdiskError::UnsupportedLabel));
    assert!(!c.has_label());
}

#[test]
fn get_label_by_name_finds_inactive_drivers() {
    let mut c = Context::new();
    c.create_disklabel("gpt").unwrap();
    let sun = c.get_label("sun").expect("recognized driver");
    assert_eq!(sun.get_name().unwrap(), "sun");
    assert!(!sun.is_changed());
    assert_eq!(c.get_label("amiga").unwrap_err(), FdiskError::NoLabel);
}

#[test]
fn get_label_with_no_active_label_fails() {
    let c = Context::new();
    assert_eq!(c.get_label("").unwrap_err(), FdiskError::NoLabel);
}

#[test]
fn write_disklabel_needs_label_device_and_write_access() {
    let mut c = Context::new();
    assert_eq!(c.write_disklabel(), Err(FdiskError::NoLabel));
    c.create_disklabel("gpt").unwrap();
    assert_eq!(c.write_disklabel(), Err(FdiskError::Device { code: OS_EBADF }));
    c.assign_device(&bare_probe(), true).unwrap();
    c.create_disklabel("gpt").unwrap();
    assert_eq!(c.write_disklabel(), Err(FdiskError::ReadOnly));
    c.assign_device(&bare_probe(), false).unwrap();
    c.create_disklabel("gpt").unwrap();
    assert!(c.get_label("").unwrap().is_changed());
    assert!(c.write_disklabel().is_ok());
    assert!(!c.get_label("").unwrap().is_changed());
}

#[test]
fn assign_device_installs_geometry_and_detected_label() {
    let mut c = Context::new();
    let entries = vec![part(0, 2048, 1000), part(1, 4096, 1000)];
    assert!(c.assign_device(&probe(entries, DiskLabel::Gpt), false).is_ok());
    assert_eq!(c.name().unwrap(), "/dev/sda");
    assert_eq!(c.fd(), 3);
    assert_eq!(c.sector_size(), 512);
    assert_eq!(c.grain(), 1_048_576);
    assert_eq!(c.first_lba(), 2048);
    assert_eq!(c.last_lba(), 1_999_999);
    assert_eq!(c.logical_sectors(), 2_000_000);
    assert_eq!(c.cylinders(), 2_000_000 / (255 * 63));
    assert!(c.is_labeltype(DiskLabel::Gpt));
    assert!(!c.get_label("").unwrap().is_changed());
    let t = c.get_partitions().unwrap();
    assert_eq!(t.nents(), 2);
}

#[test]
fn assign_device_rejects_an_inconsistent_probe() {
    let mut c = Context::new();
    let mut bad = bare_probe();
    bad.nsectors = 0;
    assert_eq!(c.assign_device(&bad, false), Err(FdiskError::Device { code: OS_EINVAL }));
    assert_eq!(c.name(), Err(FdiskError::NoData));
    let mut dup = bare_probe();
    dup.detected = Some(DetectedLabel {
        kind: DiskLabel::Dos,
        entries: vec![part(0, 10, 5), part(0, 100, 5)],
    });
    assert_eq!(c.assign_device(&dup, false), Err(FdiskError::Device { code: OS_EINVAL }));
}

#[test]
fn optimal_and_minimal_io_sizes_are_never_zero() {
    let mut c = Context::new();
    let mut p = bare_probe();
    p.min_io = 0;
    p.optimal_io = 0;
    c.assign_device(&p, false).unwrap();
    assert_eq!(c.minimal_io_size(), 512);
    assert_eq!(c.optimal_io_size(), 512);
    let mut p2 = bare_probe();
    p2.optimal_io = 8_388_608;
    c.assign_device(&p2, false).unwrap();
    assert_eq!(c.optimal_io_size(), 8_388_608);
    assert_eq!(c.grain(), 8_388_608);
    assert_eq!(c.first_lba(), 8_388_608 / 512);
}

#[test]
fn deassign_device_releases_the_handle() {
    let mut c = Context::new();
    assert_eq!(c.deassign_device(false), Err(FdiskError::Device { code: OS_EBADF }));
    c.assign_device(&bare_probe(), false).unwrap();
    assert!(c.deassign_device(false).is_ok());
    assert_eq!(c.fd(), -1);
    assert_eq!(c.name(), Err(FdiskError::NoData));
    assert_eq!(c.logical_sectors(), 0);
}

#[test]
fn saved_user_sector_sizes_apply_on_the_next_assignment() {
    let mut c = Context::new();
    assert_eq!(c.save_user_sector_size(4096, 513), Err(FdiskError::InvalidArgument));
    assert_eq!(c.save_user_sector_size(0, 512), Err(FdiskError::InvalidArgument));
    assert!(c.save_user_sector_size(4096, 4096).is_ok());
    c.assign_device(&bare_probe(), false).unwrap();
    assert_eq!(c.sector_size(), 4096);
    assert_eq!(c.phy_sector_size(), 4096);
    assert_eq!(c.first_lba(), 1_048_576 / 4096);
}

#[test]
fn lba_overrides_are_validated() {
    let mut c = Context::new();
    assert_eq!(c.set_first_lba(1), Err(FdiskError::InvalidArgument));
    c.assign_device(&bare_probe(), false).unwrap();
    assert!(c.set_first_lba(34).is_ok());
    assert_eq!(c.first_lba(), 34);
    assert_eq!(c.set_last_lba(33), Err(FdiskError::InvalidArgument));
    assert_eq!(c.set_last_lba(1_000_000), Err(FdiskError::InvalidArgument));
    assert!(c.set_last_lba(999_999).is_ok());
    assert_eq!(c.set_first_lba(1_000_000), Err(FdiskError::InvalidArgument));
}

#[test]
fn display_units_follow_the_unit_setting() {
    let mut c = Context::new();
    assert_eq!(c.use_cylinders(), 0);
    assert_eq!(c.unit(true).unwrap(), "sector");
    assert_eq!(c.unit(false).unwrap(), "sectors");
    c.assign_device(&bare_probe(), false).unwrap();
    assert!(c.set_unit(true).is_ok());
    assert_eq!(c.use_cylinders(), 1);
    assert_eq!(c.units_per_sector(), 16 * 63);
    assert_eq!(c.unit(true).unwrap(), "cylinder");
    assert_eq!(c.unit(false).unwrap(), "cylinders");
    assert!(c.set_unit(false).is_ok());
    assert_eq!(c.units_per_sector(), 1);
}

#[test]
fn size_unit_codes_are_stable() {
    let mut c = Context::new();
    assert_eq!(c.unit_size(), 0);
    c.set_size_unit(DiskUnit::Bytes).unwrap();
    assert_eq!(c.unit_size(), 1);
    c.set_size_unit(DiskUnit::Human).unwrap();
    assert_eq!(c.unit_size(), 0);
}

#[test]
fn mode_flags_toggle() {
    let mut c = Context::new();
    assert!(!c.has_protected_bootbits());
    assert!(!c.is_details());
    assert!(!c.is_listonly());
    c.enable_bootbits_protection(true).unwrap();
    c.enable_details(true).unwrap();
    c.enable_listonly(true).unwrap();
    assert!(c.has_protected_bootbits());
    assert!(c.is_details());
    assert!(c.is_listonly());
}
