//! Device session: geometry, alignment, and the active label.

use crate::errors::FdiskError;
use crate::label::{parse_label, spec_max_entries, spec_parse_label, Label, LabelV};
use crate::partition::{merge_part, parts_view, PartV, Partition};
use crate::table::Table;
use vstd::prelude::*;
use vstd::string::StringExecFns;

pub use crate::label::DiskLabel;

verus! {

/// Unit used for the SIZE output field.
#[derive(Clone, Copy, Debug, PartialEq, Eq, Structural)]
pub enum DiskUnit {
    Human,
    Bytes,
}

/// The abstract value of an assigned device: its path, descriptor, and
/// access mode.
#[verifier::ext_equal]
pub ghost struct DeviceV {
    pub name: Seq<char>,
    pub fd: i32,
    pub readonly: bool,
}

/// The abstract value of the active label: driver identity, dirty flag, and
/// live entries.
#[verifier::ext_equal]
pub ghost struct LabelStateV {
    pub kind: DiskLabel,
    pub changed: bool,
    pub entries: Seq<PartV>,
}

/// The live state of the active label.
pub(crate) struct LabelState {
    pub(crate) kind: DiskLabel,
    pub(crate) changed: bool,
    pub(crate) entries: Vec<Partition>,
}

impl View for LabelState {
    type V = LabelStateV;

    closed spec fn view(&self) -> LabelStateV {
        LabelStateV { kind: self.kind, changed: self.changed, entries: parts_view(self.entries@) }
    }
}

/// The abstract value of a [`Context`].
#[verifier::ext_equal]
pub ghost struct ContextV {
    pub dev: Option<DeviceV>,
    pub sector_size: u64,
    pub phy_sector_size: u64,
    pub min_io: u64,
    pub optimal_io: u64,
    pub grain: u64,
    pub alignment_offset: u64,
    pub first_lba: u64,
    pub last_lba: u64,
    pub nsectors: u64,
    pub heads: u32,
    pub sectors: u64,
    pub cylinders: u64,
    pub size_unit: DiskUnit,
    pub display_cylinders: bool,
    pub units_per_sector: u32,
    pub protect_bootbits: bool,
    pub details: bool,
    pub listonly: bool,
    pub user_phy_sector: Option<u32>,
    pub user_log_sector: Option<u32>,
    pub label: Option<LabelStateV>,
    pub only_kind: Option<DiskLabel>,
    pub nested: bool,
    pub parent: Option<Box<ContextV>>,
}

/// A 32-bit value is a power of two.
pub open spec fn is_pow2_u32(x: u32) -> bool {
    x > 0 && (x & ((x - 1) as u32)) == 0
}

/// The number of display units per sector: `heads * sectors` when
/// displaying in cylinders and the geometry is known, 1 otherwise.
pub open spec fn ups_spec(display_cylinders: bool, heads: u32, sectors: u64) -> u32 {
    if display_cylinders && heads * sectors > 0 {
        (heads * sectors) as u32
    } else {
        1
    }
}

/// Well-formedness of live label state: every entry carries a partition
/// number, the numbers are unique, and the entry count respects the label
/// kind's maximum.
pub open spec fn label_state_wf(l: LabelStateV) -> bool {
    &&& l.entries.len() <= spec_max_entries(l.kind)
    &&& forall|i: int| 0 <= i < l.entries.len() ==> (#[trigger] l.entries[i]).partno is Some
    &&& forall|i: int, j: int|
        0 <= i < j < l.entries.len() ==> (#[trigger] l.entries[i]).partno != (
        #[trigger] l.entries[j]).partno
}

/// Well-formedness of one session: positive sector sizes, a bounded
/// classical geometry, usable-LBA range inside the device, display units
/// consistent with the display setting, validated user sector sizes, and
/// well-formed label state.
pub open spec fn core_wf(v: ContextV) -> bool {
    &&& v.sector_size > 0
    &&& v.phy_sector_size > 0
    &&& v.heads <= 255
    &&& v.sectors <= 63
    &&& v.first_lba <= v.last_lba
    &&& (v.dev is None ==> v.nsectors == 0 && v.first_lba == 0 && v.last_lba == 0)
    &&& (v.dev is Some ==> v.nsectors > 0 && v.last_lba < v.nsectors && v.dev->0.fd >= 0)
    &&& v.units_per_sector == ups_spec(v.display_cylinders, v.heads, v.sectors)
    &&& (match v.user_phy_sector {
        Some(s) => is_pow2_u32(s),
        None => true,
    })
    &&& (match v.user_log_sector {
        Some(s) => is_pow2_u32(s),
        None => true,
    })
    &&& (match v.label {
        Some(l) => label_state_wf(l),
        None => true,
    })
}

/// Well-formedness of a context: its own session is well-formed, and a
/// nested context carries a well-formed, non-nested parent snapshot.
pub open spec fn ctx_wf(v: ContextV) -> bool {
    &&& core_wf(v)
    &&& (v.nested <==> v.parent is Some)
    &&& (match v.parent {
        Some(p) => core_wf(*p) && !p.nested && p.parent is None,
        None => true,
    })
}

/// The label state with its dirty flag raised, when one is active.
pub open spec fn dirty_label(l: Option<LabelStateV>) -> Option<LabelStateV> {
    match l {
        Some(s) => Some(LabelStateV { changed: true, ..s }),
        None => None,
    }
}

/// The top-level device/session object: owns the device snapshot, geometry,
/// alignment parameters, and the active label; a nested context additionally
/// carries a snapshot of its parent session.
pub struct Context {
    dev_name: Option<String>,
    dev_fd: i32,
    readonly: bool,
    sector_size: u64,
    phy_sector_size: u64,
    min_io: u64,
    optimal_io: u64,
    grain: u64,
    alignment_offset: u64,
    first_lba: u64,
    last_lba: u64,
    nsectors: u64,
    heads: u32,
    sectors: u64,
    cylinders: u64,
    size_unit: DiskUnit,
    display_cylinders: bool,
    units_per_sector: u32,
    protect_bootbits: bool,
    details: bool,
    listonly: bool,
    user_phy_sector: Option<u32>,
    user_log_sector: Option<u32>,
    label: Option<LabelState>,
    only_kind: Option<DiskLabel>,
    nested: bool,
    parent: Option<Box<Context>>,
}

impl View for Context {
    type V = ContextV;

    closed spec fn view(&self) -> ContextV
        decreases self,
    {
        ContextV {
            dev: match self.dev_name {
                Some(n) => Some(
                    DeviceV { name: n@, fd: self.dev_fd, readonly: self.readonly },
                ),
                None => None,
            },
            sector_size: self.sector_size,
            phy_sector_size: self.phy_sector_size,
            min_io: self.min_io,
            optimal_io: self.optimal_io,
            grain: self.grain,
            alignment_offset: self.alignment_offset,
            first_lba: self.first_lba,
            last_lba: self.last_lba,
            nsectors: self.nsectors,
            heads: self.heads,
            sectors: self.sectors,
            cylinders: self.cylinders,
            size_unit: self.size_unit,
            display_cylinders: self.display_cylinders,
            units_per_sector: self.units_per_sector,
            protect_bootbits: self.protect_bootbits,
            details: self.details,
            listonly: self.listonly,
            user_phy_sector: self.user_phy_sector,
            user_log_sector: self.user_log_sector,
            label: match self.label {
                Some(l) => Some(l@),
                None => None,
            },
            only_kind: self.only_kind,
            nested: self.nested,
            parent: match self.parent {
                Some(b) => Some(Box::new((*b)@)),
                None => None,
            },
        }
    }
}

/// The value of a freshly created context: no device, default 512-byte
/// sectors, sector display units, no label.
pub open spec fn fresh_context() -> ContextV {
    ContextV {
        dev: None,
        sector_size: 512,
        phy_sector_size: 512,
        min_io: 512,
        optimal_io: 0,
        grain: 1048576,
        alignment_offset: 0,
        first_lba: 0,
        last_lba: 0,
        nsectors: 0,
        heads: 0,
        sectors: 0,
        cylinders: 0,
        size_unit: DiskUnit::Human,
        display_cylinders: false,
        units_per_sector: 1,
        protect_bootbits: false,
        details: false,
        listonly: false,
        user_phy_sector: None,
        user_log_sector: None,
        label: None,
        only_kind: None,
        nested: false,
        parent: None,
    }
}

impl Context {
    /// Returns a new, empty context.
    pub fn new() -> (r: Context)
        ensures
            r@ == fresh_context(),
    {
        let r = Context {
            dev_name: None,
            dev_fd: -1,
            readonly: false,
            sector_size: 512,
            phy_sector_size: 512,
            min_io: 512,
            optimal_io: 0,
            grain: 1048576,
            alignment_offset: 0,
            first_lba: 0,
            last_lba: 0,
            nsectors: 0,
            heads: 0,
            sectors: 0,
            cylinders: 0,
            size_unit: DiskUnit::Human,
            display_cylinders: false,
            units_per_sector: 1,
            protect_bootbits: false,
            details: false,
            listonly: false,
            user_phy_sector: None,
            user_log_sector: None,
            label: None,
            only_kind: None,
            nested: false,
            parent: None,
        };
        proof {
            assert(r@ =~= fresh_context());
        }
        r
    }

    /// The context's abstract value is well-formed.
    pub open spec fn wf(&self) -> bool {
        ctx_wf(self@)
    }

    /// Returns the offset between logical and physical sectors.
    pub fn alignment_offset(&self) -> (r: u64)
        ensures
            r == self@.alignment_offset,
    {
        self.alignment_offset
    }

    /// Returns the device file descriptor, or -1 when no device is
    /// assigned.
    pub fn fd(&self) -> (r: i32)
        ensures
            r == (match self@.dev {
                Some(d) => d.fd,
                None => -1i32,
            }),
    {
        match &self.dev_name {
            Some(_) => self.dev_fd,
            None => -1,
        }
    }

    /// Returns the assigned device's path; fails with `NoData` when no
    /// device is assigned.
    pub fn name(&self) -> (r: Result<String, FdiskError>)
        ensures
            match self@.dev {
                Some(d) => r matches Ok(s) && s@ == d.name,
                None => r == Err::<String, FdiskError>(FdiskError::NoData),
            },
    {
        match &self.dev_name {
            Some(n) => Ok(n.clone()),
            None => Err(FdiskError::NoData),
        }
    }

    /// Returns the first possible LBA for data partitions.
    pub fn first_lba(&self) -> (r: u64)
        ensures
            r == self@.first_lba,
    {
        self.first_lba
    }

    /// Returns the number of geometry cylinders.
    pub fn cylinders(&self) -> (r: u64)
        ensures
            r == self@.cylinders,
    {
        self.cylinders
    }

    /// Returns the number of geometry heads.
    pub fn heads(&self) -> (r: u32)
        ensures
            r == self@.heads,
    {
        self.heads
    }

    /// Returns the number of geometry sectors per track.
    pub fn sectors(&self) -> (r: u64)
        ensures
            r == self@.sectors,
    {
        self.sectors
    }

    /// Returns the grain in bytes used to align partitions (usually 1 MiB).
    pub fn grain(&self) -> (r: u64)
        ensures
            r == self@.grain,
    {
        self.grain
    }

    /// Returns the last possible LBA on the device.
    pub fn last_lba(&self) -> (r: u64)
        ensures
            r == self@.last_lba,
    {
        self.last_lba
    }

    /// Returns the minimal I/O size in bytes; when the device reported
    /// none, the logical sector size stands in.
    pub fn minimal_io_size(&self) -> (r: u64)
        ensures
            r == (if self@.min_io > 0 {
                self@.min_io
            } else {
                self@.sector_size
            }),
    {
        if self.min_io > 0 {
            self.min_io
        } else {
            self.sector_size
        }
    }

    /// Returns the size of the device in logical sectors.
    pub fn logical_sectors(&self) -> (r: u64)
        ensures
            r == self@.nsectors,
    {
        self.nsectors
    }

    /// Returns the optimal I/O size in bytes; never zero — when the device
    /// reported none, the minimal I/O size or sector size stands in.
    pub fn optimal_io_size(&self) -> (r: u64)
        ensures
            r == (if self@.optimal_io > 0 {
                self@.optimal_io
            } else if self@.min_io > 0 {
                self@.min_io
            } else {
                self@.sector_size
            }),
    {
        if self.optimal_io > 0 {
            self.optimal_io
        } else if self.min_io > 0 {
            self.min_io
        } else {
            self.sector_size
        }
    }

    /// Returns the physical sector size in bytes.
    pub fn phy_sector_size(&self) -> (r: u64)
        ensures
            r == self@.phy_sector_size,
    {
        self.phy_sector_size
    }

    /// Returns the logical sector size in bytes.
    pub fn sector_size(&self) -> (r: u64)
        ensures
            r == self@.sector_size,
    {
        self.sector_size
    }

    /// Returns the unit used for the SIZE output field, as its numeric
    /// code: 0 for human-readable, 1 for bytes.
    pub fn unit_size(&self) -> (r: i32)
        ensures
            r == (match self@.size_unit {
                DiskUnit::Human => 0i32,
                DiskUnit::Bytes => 1i32,
            }),
    {
        match self.size_unit {
            DiskUnit::Human => 0,
            DiskUnit::Bytes => 1,
        }
    }

    /// Returns the display unit's name, singular or plural.  The display
    /// unit is always populated, so the lookup never fails here; the
    /// `Result` stays for callers that treat an absent name as `NoData`.
    pub fn unit(&self, singular: bool) -> (r: Result<String, FdiskError>)
        ensures
            r matches Ok(s) && s@ == unit_name(self@.display_cylinders, singular),
    {
        let s = if self.display_cylinders {
            if singular {
                "cylinder"
            } else {
                "cylinders"
            }
        } else {
            if singular {
                "sector"
            } else {
                "sectors"
            }
        };
        Ok(String::from_str(s))
    }

    /// Returns the number of display units per sector: 1 when displaying in
    /// sectors, `heads * sectors` when displaying in cylinders.
    pub fn units_per_sector(&self) -> (r: u32)
        ensures
            r == self@.units_per_sector,
    {
        self.units_per_sector
    }

    /// True when boot-bits protection is enabled.
    pub fn has_protected_bootbits(&self) -> (r: bool)
        ensures
            r == self@.protect_bootbits,
    {
        self.protect_bootbits
    }

    /// True when the "details" display mode is enabled.
    pub fn is_details(&self) -> (r: bool)
        ensures
            r == self@.details,
    {
        self.details
    }

    /// True when list-only mode is enabled.
    pub fn is_listonly(&self) -> (r: bool)
        ensures
            r == self@.listonly,
    {
        self.listonly
    }

    /// True when the device was assigned read-only.
    pub fn is_readonly(&self) -> (r: bool)
        ensures
            r == (match self@.dev {
                Some(d) => d.readonly,
                None => false,
            }),
    {
        match &self.dev_name {
            Some(_) => self.readonly,
            None => false,
        }
    }

    /// Returns 1 when sizes are displayed in cylinders, 0 otherwise.
    pub fn use_cylinders(&self) -> (r: i32)
        ensures
            r == (if self@.display_cylinders {
                1i32
            } else {
                0i32
            }),
    {
        if self.display_cylinders {
            1
        } else {
            0
        }
    }

    /// Enables or disables protection of the first sector's boot bits when
    /// a new label is created.
    pub fn enable_bootbits_protection(&mut self, enable: bool) -> (r: Result<(), FdiskError>)
        ensures
            r is Ok,
            final(self)@ == (ContextV { protect_bootbits: enable, ..old(self)@ }),
    {
        self.protect_bootbits = enable;
        Ok(())
    }

    /// Enables or disables the "details" display mode.
    pub fn enable_details(&mut self, enable: bool) -> (r: Result<(), FdiskError>)
        ensures
            r is Ok,
            final(self)@ == (ContextV { details: enable, ..old(self)@ }),
    {
        self.details = enable;
        Ok(())
    }

    /// Enables or disables list-only mode.
    pub fn enable_listonly(&mut self, enable: bool) -> (r: Result<(), FdiskError>)
        ensures
            r is Ok,
            final(self)@ == (ContextV { listonly: enable, ..old(self)@ }),
    {
        self.listonly = enable;
        Ok(())
    }

    /// Sets the unit for the SIZE output field.
    pub fn set_size_unit(&mut self, unit: DiskUnit) -> (r: Result<(), FdiskError>)
        ensures
            r is Ok,
            final(self)@ == (ContextV { size_unit: unit, ..old(self)@ }),
    {
        self.size_unit = unit;
        Ok(())
    }

    /// Switches the display unit between cylinders and sectors, updating
    /// the number of display units per sector accordingly.
    pub fn set_unit(&mut self, cylinders: bool) -> (r: Result<(), FdiskError>)
        requires
            old(self).wf(),
        ensures
            r is Ok,
            final(self)@ == (ContextV {
                display_cylinders: cylinders,
                units_per_sector: ups_spec(cylinders, old(self)@.heads, old(self)@.sectors),
                ..old(self)@
            }),
            final(self).wf(),
    {
        proof {
            assert(self.heads == self@.heads && self.sectors == self@.sectors);
            assert(self@.heads <= 255 && self@.sectors <= 63);
            lemma_chs_product_bounded(self.heads as int, self.sectors as int);
        }
        let hs: u64 = (self.heads as u64) * self.sectors;
        self.display_cylinders = cylinders;
        if cylinders && hs > 0 {
            self.units_per_sector = hs as u32;
        } else {
            self.units_per_sector = 1;
        }
        Ok(())
    }

    /// Overrides the first possible LBA for data; fails with
    /// `InvalidArgument` when the value lies past the last usable LBA.
    /// Marks the active label dirty on success.
    pub fn set_first_lba(&mut self, lba: u64) -> (r: Result<(), FdiskError>)
        requires
            old(self).wf(),
        ensures
            lba <= old(self)@.last_lba ==> (r is Ok && final(self)@ == (ContextV {
                first_lba: lba,
                label: dirty_label(old(self)@.label),
                ..old(self)@
            })),
            lba > old(self)@.last_lba ==> (r == Err::<(), FdiskError>(FdiskError::InvalidArgument)
                && final(self)@ == old(self)@),
            final(self).wf(),
    {
        if lba > self.last_lba {
            return Err(FdiskError::InvalidArgument);
        }
        self.first_lba = lba;
        self.mark_label_dirty();
        Ok(())
    }

    /// Overrides the last possible LBA for data; fails with
    /// `InvalidArgument` when the value lies before the first usable LBA or
    /// past the end of the device.  Marks the active label dirty on
    /// success.
    pub fn set_last_lba(&mut self, lba: u64) -> (r: Result<(), FdiskError>)
        requires
            old(self).wf(),
        ensures
            last_lba_ok(old(self)@, lba) ==> (r is Ok && final(self)@ == (ContextV {
                last_lba: lba,
                label: dirty_label(old(self)@.label),
                ..old(self)@
            })),
            !last_lba_ok(old(self)@, lba) ==> (r == Err::<(), FdiskError>(
                FdiskError::InvalidArgument,
            ) && final(self)@ == old(self)@),
            final(self).wf(),
    {
        if lba < self.first_lba {
            return Err(FdiskError::InvalidArgument);
        }
        match &self.dev_name {
            Some(_) => {
                if lba >= self.nsectors {
                    return Err(FdiskError::InvalidArgument);
                }
            },
            None => {
                if lba > 0 {
                    return Err(FdiskError::InvalidArgument);
                }
            },
        }
        self.last_lba = lba;
        self.mark_label_dirty();
        Ok(())
    }

    /// Saves user-defined sector sizes to be applied by the next device
    /// assignment; fails with `InvalidArgument` unless both are powers of
    /// two.
    pub fn save_user_sector_size(&mut self, phy: u32, log: u32) -> (r: Result<(), FdiskError>)
        requires
            old(self).wf(),
        ensures
            is_pow2_u32(phy) && is_pow2_u32(log) ==> (r is Ok && final(self)@ == (ContextV {
                user_phy_sector: Some(phy),
                user_log_sector: Some(log),
                ..old(self)@
            })),
            !(is_pow2_u32(phy) && is_pow2_u32(log)) ==> (r == Err::<(), FdiskError>(
                FdiskError::InvalidArgument,
            ) && final(self)@ == old(self)@),
            final(self).wf(),
    {
        if !(phy > 0 && phy & (phy - 1) == 0 && log > 0 && log & (log - 1) == 0) {
            return Err(FdiskError::InvalidArgument);
        }
        self.user_phy_sector = Some(phy);
        self.user_log_sector = Some(log);
        Ok(())
    }

    /// True when a label is active on the context.
    pub fn has_label(&self) -> (r: bool)
        ensures
            r == (self@.label is Some),
    {
        self.label.is_some()
    }

    /// True when the active label is of the given kind.
    pub fn is_labeltype(&self, id: DiskLabel) -> (r: bool)
        ensures
            r == (match self@.label {
                Some(l) => l.kind == id,
                None => false,
            }),
    {
        match &self.label {
            Some(l) => l.kind == id,
            None => false,
        }
    }

    /// Installs a fresh, empty label of the named kind (the platform
    /// default, DOS, when the name is empty), discarding any previous label
    /// state; fails with `UnsupportedLabel` when the name matches no
    /// recognized driver, leaving the context unchanged.
    pub fn create_disklabel(&mut self, name: &str) -> (r: Result<(), FdiskError>)
        requires
            old(self).wf(),
        ensures
            match create_kind(name@) {
                Some(k) => r is Ok && final(self)@ == (ContextV {
                    label: Some(LabelStateV { kind: k, changed: true, entries: Seq::empty() }),
                    ..old(self)@
                }),
                None => r == Err::<(), FdiskError>(FdiskError::UnsupportedLabel) && final(self)@
                    == old(self)@,
            },
            final(self).wf(),
    {
        let kind = if name.is_empty() {
            DiskLabel::Dos
        } else {
            match parse_label(name) {
                Some(k) => k,
                None => {
                    return Err(FdiskError::UnsupportedLabel);
                },
            }
        };
        self.label = Some(LabelState { kind, changed: true, entries: Vec::new() });
        proof {
            assert(self@.label->0.entries =~= Seq::<PartV>::empty());
            assert(self@ =~= (ContextV {
                label: Some(
                    LabelStateV { kind, changed: true, entries: Seq::empty() },
                ),
                ..old(self)@
            }));
        }
        Ok(())
    }

    /// Writes the in-memory label state back through the driver, clearing
    /// the dirty flag.  Fails with `NoLabel` when no label is active, with
    /// a device error when no device is assigned, and with `ReadOnly` when
    /// the device was assigned read-only — each failure leaves the context
    /// unchanged.
    pub fn write_disklabel(&mut self) -> (r: Result<(), FdiskError>)
        requires
            old(self).wf(),
        ensures
            old(self)@.label is None ==> (r == Err::<(), FdiskError>(FdiskError::NoLabel) && final(
                self)@ == old(self)@),
            old(self)@.label is Some && old(self)@.dev is None ==> (r == Err::<(), FdiskError>(
                FdiskError::Device { code: crate::errors::OS_EBADF },
            ) && final(self)@ == old(self)@),
            old(self)@.label is Some && old(self)@.dev is Some && old(self)@.dev->0.readonly ==> (r
                == Err::<(), FdiskError>(FdiskError::ReadOnly) && final(self)@ == old(self)@),
            old(self)@.label is Some && old(self)@.dev is Some && !old(self)@.dev->0.readonly ==> (
            r is Ok && final(self)@ == (ContextV {
                label: Some(
                    LabelStateV { changed: false, ..old(self)@.label->0 },
                ),
                ..old(self)@
            })),
            final(self).wf(),
    {
        if self.label.is_none() {
            return Err(FdiskError::NoLabel);
        }
        if self.dev_name.is_none() {
            return Err(FdiskError::Device { code: crate::errors::OS_EBADF });
        }
        if self.readonly {
            return Err(FdiskError::ReadOnly);
        }
        match &mut self.label {
            Some(l) => {
                l.changed = false;
            },
            None => {},
        }
        Ok(())
    }

    /// Runs the consistency checks on the active label without writing:
    /// every placed entry must have a positive size and lie inside the
    /// usable LBA range, and no two placed entries may overlap.  Fails with
    /// `NoLabel` when no label is active and with `Conflict` when a check
    /// fails; violations are reported, never auto-corrected.
    pub fn verify_disklabel(&self) -> (r: Result<(), FdiskError>)
        ensures
            match self@.label {
                Some(l) => if label_clean(l.entries, self@.first_lba, self@.last_lba) {
                    r is Ok
                } else {
                    r == Err::<(), FdiskError>(FdiskError::Conflict)
                },
                None => r == Err::<(), FdiskError>(FdiskError::NoLabel),
            },
    {
        let label = match &self.label {
            Some(l) => l,
            None => {
                return Err(FdiskError::NoLabel);
            },
        };
        let ghost entries = self@.label->0.entries;
        let n = label.entries.len();
        let mut i: usize = 0;
        while i < n
            invariant
                self@.label == Some(label@),
                n == entries.len(),
                n == label.entries@.len(),
                entries == parts_view(label.entries@),
                entries == label@.entries,
                0 <= i <= n,
                self@.first_lba == self.first_lba,
                self@.last_lba == self.last_lba,
                forall|p: int|
                    0 <= p < i ==> entry_bounds_ok(#[trigger] entries[p], self.first_lba,
                    self.last_lba),
                forall|p: int, q: int|
                    0 <= p < q < n && p < i ==> !parts_overlap(#[trigger] entries[p],
                    #[trigger] entries[q]),
            decreases n - i,
        {
            proof {
                assert(entries[i as int] == label.entries@[i as int]@);
            }
            let pi = &label.entries[i];
            if !entry_bounds_ok_x(pi, self.first_lba, self.last_lba) {
                proof {
                    assert(!entry_bounds_ok(entries[i as int], self@.first_lba, self@.last_lba));
                    assert(!label_clean(entries, self@.first_lba, self@.last_lba));
                }
                return Err(FdiskError::Conflict);
            }
            let mut j: usize = i + 1;
            while j < n
                invariant
                    self@.label == Some(label@),
                    n == entries.len(),
                    n == label.entries@.len(),
                    entries == parts_view(label.entries@),
                    entries == label@.entries,
                    0 <= i < j <= n,
                    self@.first_lba == self.first_lba,
                    self@.last_lba == self.last_lba,
                    pi@ == entries[i as int],
                    forall|q: int|
                        i < q < j ==> !parts_overlap(entries[i as int], #[trigger] entries[q]),
                decreases n - j,
            {
                proof {
                    assert(entries[j as int] == label.entries@[j as int]@);
                }
                if parts_overlap_x(pi, &label.entries[j]) {
                    proof {
                        assert(parts_overlap(entries[i as int], entries[j as int]));
                        assert(!label_clean(entries, self@.first_lba, self@.last_lba));
                    }
                    return Err(FdiskError::Conflict);
                }
                j += 1;
            }
            i += 1;
        }
        Ok(())
    }

    /// Returns a snapshot of the active label when `name` is empty, or of
    /// the recognized driver named `name`; fails with `NoLabel` when no
    /// label is active or the name matches no driver.
    pub fn get_label(&self, name: &str) -> (r: Result<Label, FdiskError>)
        ensures
            name@.len() == 0 ==> (match self@.label {
                Some(l) => r matches Ok(lab) && lab@ == (LabelV {
                    kind: l.kind,
                    disabled: kind_disabled(self@, l.kind),
                    changed: l.changed,
                }),
                None => r == Err::<Label, FdiskError>(FdiskError::NoLabel),
            }),
            name@.len() > 0 ==> (match spec_parse_label(name@) {
                Some(k) => r matches Ok(lab) && lab@ == (LabelV {
                    kind: k,
                    disabled: kind_disabled(self@, k),
                    changed: kind_changed(self@, k),
                }),
                None => r == Err::<Label, FdiskError>(FdiskError::NoLabel),
            }),
    {
        if name.is_empty() {
            match &self.label {
                Some(l) => Ok(Label::make(l.kind, self.is_kind_disabled(l.kind), l.changed)),
                None => Err(FdiskError::NoLabel),
            }
        } else {
            match parse_label(name) {
                Some(k) => {
                    let changed = match &self.label {
                        Some(l) => l.kind == k && l.changed,
                        None => false,
                    };
                    Ok(Label::make(k, self.is_kind_disabled(k), changed))
                },
                None => Err(FdiskError::NoLabel),
            }
        }
    }

    /// Materializes the active label's current entries into a new table,
    /// bounded by the label kind's maximum entry count; fails with
    /// `NoLabel` when no label is active.
    pub fn get_partitions(&self) -> (r: Result<Table, FdiskError>)
        ensures
            match self@.label {
                Some(l) => r matches Ok(t) && t@ == l.entries && t.spec_capacity() == Some(
                    spec_max_entries(l.kind),
                ),
                None => r == Err::<Table, FdiskError>(FdiskError::NoLabel),
            },
    {
        match &self.label {
            Some(l) => {
                let entries = crate::partition::clone_parts(&l.entries);
                Ok(Table::from_label_entries(entries, l.kind.max_entries()))
            },
            None => Err(FdiskError::NoLabel),
        }
    }

    /// True when the driver of kind `k` is disabled for this context: a
    /// nested context restricted to one label kind disables the others.
    fn is_kind_disabled(&self, k: DiskLabel) -> (r: bool)
        ensures
            r == kind_disabled(self@, k),
    {
        match self.only_kind {
            Some(ok) => ok != k,
            None => false,
        }
    }

    /// Applies the defined fields of the template `pt` onto live partition
    /// number `no` of the active label, leaving the template's unset fields
    /// unchanged in the live state, and marks the label dirty.  Fails with
    /// `NoLabel` when no label is active, with `NoSuchPartition` when no
    /// live entry carries the number `no`, and with `Conflict` when the
    /// resulting entry would overlap another entry — each failure leaves
    /// the context unchanged.
    pub fn set_partition(&mut self, no: usize, pt: &Partition) -> (r: Result<(), FdiskError>)
        requires
            old(self).wf(),
        ensures
            match old(self)@.label {
                None => r == Err::<(), FdiskError>(FdiskError::NoLabel) && final(self)@ == old(
                    self)@,
                Some(l) => if !has_partno(l.entries, no) {
                    r == Err::<(), FdiskError>(FdiskError::NoSuchPartition) && final(self)@ == old(
                        self)@
                } else {
                    let i = partno_index(l.entries, no);
                    let m = merge_part(l.entries[i], pt@);
                    if set_conflicts(l.entries, i, m) {
                        r == Err::<(), FdiskError>(FdiskError::Conflict) && final(self)@ == old(
                            self)@
                    } else {
                        r is Ok && final(self)@ == (ContextV {
                            label: Some(
                                LabelStateV {
                                    changed: true,
                                    entries: l.entries.update(i, m),
                                    ..l
                                },
                            ),
                            ..old(self)@
                        })
                    }
                },
            },
            final(self).wf(),
    {
        let ghost ov = self@;
        let f = {
            let label = match &self.label {
                Some(l) => l,
                None => {
                    return Err(FdiskError::NoLabel);
                },
            };
            proof {
                assert(ov.label == Some(label@));
            }
            match find_partno_in(&label.entries, no) {
                Some(f) => f,
                None => {
                    return Err(FdiskError::NoSuchPartition);
                },
            }
        };
        let ghost entries = ov.label->0.entries;
        proof {
            assert(entries[f as int].partno == Some(no));
            assert(has_partno(entries, no));
            let i = partno_index(entries, no);
            assert(0 <= i < entries.len() && entries[i].partno == Some(no));
            if i != f as int {
                assert(label_state_wf(ov.label->0));
                assert(entries[i].partno != entries[f as int].partno);
            }
            assert(partno_index(entries, no) == f as int);
        }
        let mut merged = match &self.label {
            Some(l) => {
                proof {
                    assert(ov.label == Some(l@));
                }
                l.entries[f].clone()
            },
            None => {
                return Err(FdiskError::NoLabel);
            },
        };
        merged.apply_template(pt);
        let conflict = match &self.label {
            Some(l) => {
                proof {
                    assert(ov.label == Some(l@));
                }
                scan_conflict(&l.entries, f, &merged)
            },
            None => {
                return Err(FdiskError::NoLabel);
            },
        };
        if conflict {
            return Err(FdiskError::Conflict);
        }
        proof {
            lemma_label_wf_update(ov.label->0, f as int, merged@);
            assert(ov.label == Some(self.label->0@));
        }
        match &mut self.label {
            Some(l) => {
                proof {
                    crate::partition::lemma_parts_view_update(l.entries@, f as int, merged);
                }
                let slot = vstd::std_specs::vec::vec_index_mut(&mut l.entries, f);
                *slot = merged;
                l.changed = true;
            },
            None => {},
        }
        Ok(())
    }

    /// Deletes live partition number `no` from the active label and marks
    /// the label dirty; fails with `NoLabel` when no label is active and
    /// with `NoSuchPartition` when no live entry carries the number `no`,
    /// leaving the context unchanged.
    pub fn delete_partition(&mut self, no: usize) -> (r: Result<(), FdiskError>)
        requires
            old(self).wf(),
        ensures
            match old(self)@.label {
                None => r == Err::<(), FdiskError>(FdiskError::NoLabel) && final(self)@ == old(
                    self)@,
                Some(l) => if !has_partno(l.entries, no) {
                    r == Err::<(), FdiskError>(FdiskError::NoSuchPartition) && final(self)@ == old(
                        self)@
                } else {
                    r is Ok && final(self)@ == (ContextV {
                        label: Some(
                            LabelStateV {
                                changed: true,
                                entries: l.entries.remove(partno_index(l.entries, no)),
                                ..l
                            },
                        ),
                        ..old(self)@
                    })
                },
            },
            final(self).wf(),
    {
        let ghost ov = self@;
        let f = {
            let label = match &self.label {
                Some(l) => l,
                None => {
                    return Err(FdiskError::NoLabel);
                },
            };
            proof {
                assert(ov.label == Some(label@));
            }
            match find_partno_in(&label.entries, no) {
                Some(f) => f,
                None => {
                    return Err(FdiskError::NoSuchPartition);
                },
            }
        };
        let ghost entries = ov.label->0.entries;
        proof {
            assert(entries[f as int].partno == Some(no));
            assert(has_partno(entries, no));
            let i = partno_index(entries, no);
            assert(0 <= i < entries.len() && entries[i].partno == Some(no));
            if i != f as int {
                assert(label_state_wf(ov.label->0));
                assert(entries[i].partno != entries[f as int].partno);
            }
            assert(partno_index(entries, no) == f as int);
            assert(ov.label == Some(self.label->0@));
        }
        proof {
            lemma_label_wf_remove(ov.label->0, f as int);
        }
        match &mut self.label {
            Some(l) => {
                proof {
                    crate::partition::lemma_parts_view_remove(l.entries@, f as int);
                }
                l.entries.remove(f);
                l.changed = true;
            },
            None => {},
        }
        Ok(())
    }

    /// Deletes all live partitions from the active label and marks the
    /// label dirty; fails with `NoLabel` when no label is active, leaving
    /// the context unchanged.
    pub fn delete_all_partitions(&mut self) -> (r: Result<(), FdiskError>)
        requires
            old(self).wf(),
        ensures
            old(self)@.label is None ==> (r == Err::<(), FdiskError>(FdiskError::NoLabel) && final(
                self)@ == old(self)@),
            old(self)@.label matches Some(l) ==> (r is Ok && final(self)@ == (ContextV {
                label: Some(LabelStateV { changed: true, entries: Seq::empty(), ..l }),
                ..old(self)@
            })),
            final(self).wf(),
    {
        match &mut self.label {
            Some(l) => {
                l.entries.clear();
                l.changed = true;
                proof {
                    assert(parts_view(l.entries@) =~= Seq::<PartV>::empty());
                }
                Ok(())
            },
            None => Err(FdiskError::NoLabel),
        }
    }

    /// Installs an opened, probed device on the context: stores the device
    /// snapshot, applies saved user sector sizes over the probed ones,
    /// resets grain, alignment and the usable-LBA range to computed
    /// defaults, and activates the detected label.  A nested context
    /// propagates the new device and geometry to its parent snapshot.
    /// Fails with a device error when the probe result is not acceptable,
    /// leaving the context unchanged.
    #[verifier::rlimit(80)]
    #[verifier::spinoff_prover]
    pub fn assign_device(&mut self, probe: &DeviceProbe, readonly: bool) -> (r: Result<
        (),
        FdiskError,
    >)
        requires
            old(self).wf(),
        ensures
            probe_ok(*probe) ==> (r is Ok && final(self)@ == after_assign(
                old(self)@,
                *probe,
                readonly,
            )),
            !probe_ok(*probe) ==> (r == Err::<(), FdiskError>(
                FdiskError::Device { code: crate::errors::OS_EINVAL },
            ) && final(self)@ == old(self)@),
            final(self).wf(),
    {
        let ghost ov = self@;
        let det_ok = match &probe.detected {
            Some(d) => check_label_entries(d.kind, &d.entries),
            None => true,
        };
        if !(probe.fd >= 0 && !probe.name.as_str().is_empty() && probe.sector_size > 0
            && probe.phy_sector_size > 0 && probe.nsectors > 0 && probe.heads <= 255
            && probe.sectors <= 63 && det_ok) {
            return Err(FdiskError::Device { code: crate::errors::OS_EINVAL });
        }
        let log: u64 = match self.user_log_sector {
            Some(u) => u as u64,
            None => probe.sector_size,
        };
        let phy: u64 = match self.user_phy_sector {
            Some(u) => u as u64,
            None => probe.phy_sector_size,
        };
        let io: u64 = if probe.optimal_io > 0 {
            probe.optimal_io
        } else if probe.min_io > 0 {
            probe.min_io
        } else {
            log
        };
        let g: u64 = if io > 1048576 {
            io
        } else {
            1048576
        };
        proof {
            assert(log > 0);
        }
        let ft: u64 = g / log;
        let last: u64 = probe.nsectors - 1;
        let first: u64 = if ft <= last {
            ft
        } else {
            last
        };
        proof {
            lemma_chs_product_bounded(probe.heads as int, probe.sectors as int);
        }
        let hs: u64 = (probe.heads as u64) * probe.sectors;
        let cyl: u64 = if hs > 0 {
            probe.nsectors / hs
        } else {
            0
        };
        let ups: u32 = if self.display_cylinders && hs > 0 {
            hs as u32
        } else {
            1
        };
        let new_label: Option<LabelState> = match &probe.detected {
            Some(d) => Some(
                LabelState {
                    kind: d.kind,
                    changed: false,
                    entries: crate::partition::clone_parts(&d.entries),
                },
            ),
            None => None,
        };
        self.dev_name = Some(probe.name.clone());
        self.dev_fd = probe.fd;
        self.readonly = readonly;
        self.sector_size = log;
        self.phy_sector_size = phy;
        self.min_io = probe.min_io;
        self.optimal_io = probe.optimal_io;
        self.grain = g;
        self.alignment_offset = probe.alignment_offset;
        self.first_lba = first;
        self.last_lba = last;
        self.nsectors = probe.nsectors;
        self.heads = probe.heads;
        self.sectors = probe.sectors;
        self.cylinders = cyl;
        self.units_per_sector = ups;
        self.label = new_label;
        match self.parent.take() {
            Some(b) => {
                let ghost pv = (*b)@;
                let mut par = *b;
                par.dev_name = Some(probe.name.clone());
                par.dev_fd = probe.fd;
                par.readonly = readonly;
                par.sector_size = log;
                par.phy_sector_size = phy;
                par.min_io = probe.min_io;
                par.optimal_io = probe.optimal_io;
                par.grain = g;
                par.alignment_offset = probe.alignment_offset;
                par.first_lba = first;
                par.last_lba = last;
                par.nsectors = probe.nsectors;
                par.heads = probe.heads;
                par.sectors = probe.sectors;
                par.cylinders = cyl;
                let pups: u32 = if par.display_cylinders && hs > 0 {
                    hs as u32
                } else {
                    1
                };
                par.units_per_sector = pups;
                proof {
                    assert(ov.parent == Some(Box::new(pv)));
                    assert(par@ =~~= (ContextV {
                        dev: Some(DeviceV { name: probe.name@, fd: probe.fd, readonly }),
                        sector_size: log,
                        phy_sector_size: phy,
                        min_io: probe.min_io,
                        optimal_io: probe.optimal_io,
                        grain: g,
                        alignment_offset: probe.alignment_offset,
                        first_lba: first,
                        last_lba: last,
                        nsectors: probe.nsectors,
                        heads: probe.heads,
                        sectors: probe.sectors,
                        cylinders: cyl,
                        units_per_sector: ups_spec(pv.display_cylinders, probe.heads,
                        probe.sectors),
                        ..pv
                    }));
                }
                self.parent = Some(Box::new(par));
            },
            None => {},
        }
        proof {
            assert(self@ =~~= after_assign(ov, *probe, readonly));
        }
        Ok(())
    }

    /// Releases the device: clears the device snapshot and the
    /// device-derived usable range, on this context and, for a nested
    /// context, on its parent snapshot, to which the request is redirected.
    /// The flush itself, skipped when `nosync` is set, belongs to the
    /// device layer that owns the descriptor; the state transition here is
    /// the same either way.  Fails with a device error when no device is
    /// assigned, leaving the context unchanged.
    pub fn deassign_device(&mut self, nosync: bool) -> (r: Result<(), FdiskError>)
        requires
            old(self).wf(),
        ensures
            old(self)@.dev is None ==> (r == Err::<(), FdiskError>(
                FdiskError::Device { code: crate::errors::OS_EBADF },
            ) && final(self)@ == old(self)@),
            old(self)@.dev is Some ==> (r is Ok && final(self)@ == after_deassign(old(self)@)),
            final(self).wf(),
    {
        let ghost ov = self@;
        let _ = nosync;
        if self.dev_name.is_none() {
            return Err(FdiskError::Device { code: crate::errors::OS_EBADF });
        }
        self.dev_name = None;
        self.dev_fd = -1;
        self.readonly = false;
        self.nsectors = 0;
        self.first_lba = 0;
        self.last_lba = 0;
        match self.parent.take() {
            Some(b) => {
                let ghost pv = (*b)@;
                let mut par = *b;
                par.dev_name = None;
                par.dev_fd = -1;
                par.readonly = false;
                par.nsectors = 0;
                par.first_lba = 0;
                par.last_lba = 0;
                proof {
                    assert(ov.parent == Some(Box::new(pv)));
                    assert(par@ =~~= (ContextV {
                        dev: None,
                        nsectors: 0,
                        first_lba: 0,
                        last_lba: 0,
                        ..pv
                    }));
                }
                self.parent = Some(Box::new(par));
            },
            None => {},
        }
        proof {
            assert(self@ =~~= after_deassign(ov));
        }
        Ok(())
    }

    /// Creates a child context for a nested disklabel (for example a BSD
    /// slice under a DOS entry): the child inherits the parent's device,
    /// geometry and preferences, starts with no active label, restricts
    /// its drivers to the named kind (no restriction for an empty name),
    /// and carries a snapshot of the parent session, to which its device
    /// operations propagate.  Fails with `Allocation` when this context is
    /// itself nested or the name matches no recognized driver.
    pub fn new_nested(&self, name: &str) -> (r: Result<Context, FdiskError>)
        requires
            self.wf(),
        ensures
            self@.nested ==> r == Err::<Context, FdiskError>(FdiskError::Allocation),
            !self@.nested ==> (match nested_request(name@) {
                Some(only) => r matches Ok(c) && c@ == nested_child(self@, only) && c.wf(),
                None => r == Err::<Context, FdiskError>(FdiskError::Allocation),
            }),
    {
        if self.nested {
            return Err(FdiskError::Allocation);
        }
        let only = if name.is_empty() {
            None
        } else {
            match parse_label(name) {
                Some(k) => Some(k),
                None => {
                    return Err(FdiskError::Allocation);
                },
            }
        };
        proof {
            assert(self@.parent is None);
        }
        let snapshot = self.duplicate_flat();
        let mut child = self.duplicate_flat();
        child.label = None;
        child.only_kind = only;
        child.nested = true;
        child.parent = Some(Box::new(snapshot));
        proof {
            assert(child@ =~= nested_child(self@, only));
        }
        Ok(child)
    }

    /// Returns a copy of the parent session snapshot of a nested context,
    /// or absence for a top-level context.
    pub fn parent(&self) -> (r: Option<Context>)
        requires
            self.wf(),
        ensures
            match self@.parent {
                Some(p) => r matches Some(c) && c@ == *p,
                None => r is None,
            },
    {
        match &self.parent {
            Some(b) => {
                proof {
                    assert(self@.parent == Some(Box::new((**b)@)));
                }
                Some(b.duplicate_flat())
            },
            None => None,
        }
    }

    /// Copies a context that carries no parent snapshot.
    fn duplicate_flat(&self) -> (r: Context)
        requires
            self@.parent is None,
        ensures
            r@ == self@,
    {
        let r = Context {
            dev_name: crate::partition::clone_opt_string(&self.dev_name),
            dev_fd: self.dev_fd,
            readonly: self.readonly,
            sector_size: self.sector_size,
            phy_sector_size: self.phy_sector_size,
            min_io: self.min_io,
            optimal_io: self.optimal_io,
            grain: self.grain,
            alignment_offset: self.alignment_offset,
            first_lba: self.first_lba,
            last_lba: self.last_lba,
            nsectors: self.nsectors,
            heads: self.heads,
            sectors: self.sectors,
            cylinders: self.cylinders,
            size_unit: self.size_unit,
            display_cylinders: self.display_cylinders,
            units_per_sector: self.units_per_sector,
            protect_bootbits: self.protect_bootbits,
            details: self.details,
            listonly: self.listonly,
            user_phy_sector: self.user_phy_sector,
            user_log_sector: self.user_log_sector,
            label: match &self.label {
                Some(l) => Some(
                    LabelState {
                        kind: l.kind,
                        changed: l.changed,
                        entries: crate::partition::clone_parts(&l.entries),
                    },
                ),
                None => None,
            },
            only_kind: self.only_kind,
            nested: self.nested,
            parent: None,
        };
        proof {
            assert(r@ =~= self@);
        }
        r
    }

    /// Raises the active label's dirty flag, when one is active.
    fn mark_label_dirty(&mut self)
        ensures
            final(self)@ == (ContextV { label: dirty_label(old(self)@.label), ..old(self)@ }),
    {
        match &mut self.label {
            Some(l) => {
                l.changed = true;
            },
            None => {},
        }
    }
}

/// The product of a classical disk geometry's head and sector-per-track
/// counts stays below 2^16.
pub proof fn lemma_chs_product_bounded(h: int, s: int)
    requires
        0 <= h <= 255,
        0 <= s <= 63,
    ensures
        0 <= h * s <= 16065,
{
    assert(h * s <= 16065) by (nonlinear_arith)
        requires
            0 <= h <= 255,
            0 <= s <= 63,
    ;
    assert(h * s >= 0) by (nonlinear_arith)
        requires
            0 <= h,
            0 <= s,
    ;
}

/// The label kind installed for a creation request: the platform default,
/// DOS, for an empty name, else the kind the name denotes.
pub open spec fn create_kind(s: Seq<char>) -> Option<DiskLabel> {
    if s.len() == 0 {
        Some(DiskLabel::Dos)
    } else {
        spec_parse_label(s)
    }
}

/// The driver of kind `k` is disabled for the session `v`: a nested
/// session restricted to one label kind disables the others.
pub open spec fn kind_disabled(v: ContextV, k: DiskLabel) -> bool {
    match v.only_kind {
        Some(ok) => ok != k,
        None => false,
    }
}

/// The driver of kind `k` has unsaved changes in the session `v`: only the
/// active label can be dirty.
pub open spec fn kind_changed(v: ContextV, k: DiskLabel) -> bool {
    match v.label {
        Some(l) => l.kind == k && l.changed,
        None => false,
    }
}

/// A placed entry (one with both start and size defined) has a positive
/// size and lies inside the usable LBA range; an unplaced entry passes.
pub open spec fn entry_bounds_ok(p: PartV, first: u64, last: u64) -> bool {
    match (p.start, p.size) {
        (Some(s), Some(z)) => z > 0 && s >= first && s + z - 1 <= last,
        _ => true,
    }
}

/// Two placed entries overlap: both ranges are non-empty and intersect.
pub open spec fn parts_overlap(a: PartV, b: PartV) -> bool {
    match (a.start, a.size, b.start, b.size) {
        (Some(sa), Some(za), Some(sb), Some(zb)) => za > 0 && zb > 0 && sa < sb + zb && sb < sa
            + za,
        _ => false,
    }
}

/// The label state verifies clean: every placed entry is in bounds and no
/// two entries overlap.
pub open spec fn label_clean(entries: Seq<PartV>, first: u64, last: u64) -> bool {
    &&& forall|i: int|
        0 <= i < entries.len() ==> entry_bounds_ok(#[trigger] entries[i], first, last)
    &&& forall|i: int, j: int|
        0 <= i < j < entries.len() ==> !parts_overlap(
            #[trigger] entries[i],
            #[trigger] entries[j],
        )
}

/// Checks [`entry_bounds_ok`] on a concrete partition.
fn entry_bounds_ok_x(p: &Partition, first: u64, last: u64) -> (r: bool)
    ensures
        r == entry_bounds_ok(p@, first, last),
{
    match (p.start(), p.size()) {
        (Some(s), Some(z)) => z > 0 && s >= first && (s as u128) + (z as u128) - 1 <= (
        last as u128),
        _ => true,
    }
}

/// Checks [`parts_overlap`] on two concrete partitions.
fn parts_overlap_x(a: &Partition, b: &Partition) -> (r: bool)
    ensures
        r == parts_overlap(a@, b@),
{
    match (a.start(), a.size(), b.start(), b.size()) {
        (Some(sa), Some(za), Some(sb), Some(zb)) => za > 0 && zb > 0 && (sa as u128) < (sb as u128)
            + (zb as u128) && (sb as u128) < (sa as u128) + (za as u128),
        _ => false,
    }
}

/// Some live entry carries the partition number `no`.
pub open spec fn has_partno(entries: Seq<PartV>, no: usize) -> bool {
    exists|i: int| 0 <= i < entries.len() && (#[trigger] entries[i]).partno == Some(no)
}

/// The index of the live entry carrying the partition number `no`;
/// well-formed label state makes it unique.
pub open spec fn partno_index(entries: Seq<PartV>, no: usize) -> int {
    choose|i: int| 0 <= i < entries.len() && (#[trigger] entries[i]).partno == Some(no)
}

/// Placing `m` at index `i` would overlap some other live entry.
pub open spec fn set_conflicts(entries: Seq<PartV>, i: int, m: PartV) -> bool {
    exists|j: int| 0 <= j < entries.len() && j != i && parts_overlap(m, #[trigger] entries[j])
}

/// The topology and label probe result that a device layer hands to
/// [`Context::assign_device`]: the opened device's path and descriptor, the
/// sizes the hardware reported, the classical geometry, and the label the
/// probe detected, if any.
pub struct DeviceProbe {
    pub name: String,
    pub fd: i32,
    pub sector_size: u64,
    pub phy_sector_size: u64,
    pub min_io: u64,
    pub optimal_io: u64,
    pub alignment_offset: u64,
    pub nsectors: u64,
    pub heads: u32,
    pub sectors: u64,
    pub detected: Option<DetectedLabel>,
}

/// A label found on the device during probing, already decoded by its
/// driver into label-independent entries.
pub struct DetectedLabel {
    pub kind: DiskLabel,
    pub entries: Vec<Partition>,
}

/// The label state a detected label turns into.
pub open spec fn detected_state(d: DetectedLabel) -> LabelStateV {
    LabelStateV { kind: d.kind, changed: false, entries: parts_view(d.entries@) }
}

/// A probe result is acceptable: an open descriptor, a named device,
/// positive sizes and sector count, a bounded classical geometry, and
/// well-formed detected label state.
pub open spec fn probe_ok(p: DeviceProbe) -> bool {
    &&& p.fd >= 0
    &&& p.name@.len() > 0
    &&& p.sector_size > 0
    &&& p.phy_sector_size > 0
    &&& p.nsectors > 0
    &&& p.heads <= 255
    &&& p.sectors <= 63
    &&& (match p.detected {
        Some(d) => label_state_wf(detected_state(d)),
        None => true,
    })
}

/// The effective logical sector size: a saved user override wins over the
/// probed value.
pub open spec fn eff_log_sector(v: ContextV, p: DeviceProbe) -> u64 {
    match v.user_log_sector {
        Some(u) => u as u64,
        None => p.sector_size,
    }
}

/// The effective physical sector size: a saved user override wins over the
/// probed value.
pub open spec fn eff_phy_sector(v: ContextV, p: DeviceProbe) -> u64 {
    match v.user_phy_sector {
        Some(u) => u as u64,
        None => p.phy_sector_size,
    }
}

/// The I/O size that drives alignment: the optimal I/O size when the
/// device reports one, else the minimal I/O size, else the sector size.
pub open spec fn io_size_of(optimal: u64, min: u64, log: u64) -> u64 {
    if optimal > 0 {
        optimal
    } else if min > 0 {
        min
    } else {
        log
    }
}

/// The grain used to align partitions: 1 MiB, or the driving I/O size when
/// that is larger.
pub open spec fn grain_of(io: u64) -> u64 {
    if io > 1048576 {
        io
    } else {
        1048576
    }
}

/// The default first usable LBA: one grain of sectors in from the start,
/// clamped to the device.
pub open spec fn first_lba_of(grain: u64, log: u64, nsectors: u64) -> u64 {
    if grain / log <= nsectors - 1 {
        (grain / log) as u64
    } else {
        (nsectors - 1) as u64
    }
}

/// The cylinder count the geometry yields, 0 when no geometry was
/// reported.
pub open spec fn cylinders_of(nsectors: u64, heads: u32, sectors: u64) -> u64 {
    if heads * sectors > 0 {
        ((nsectors as int) / (heads * sectors)) as u64
    } else {
        0
    }
}

/// One session's state after a device assignment: the device snapshot and
/// geometry are installed, alignment and the usable-LBA range are reset to
/// computed defaults, and the detected label replaces the active one.
/// Display preferences, flags and user overrides are kept.
pub open spec fn session_after_assign(v: ContextV, p: DeviceProbe, readonly: bool) -> ContextV {
    let log = eff_log_sector(v, p);
    let io = io_size_of(p.optimal_io, p.min_io, log);
    let g = grain_of(io);
    ContextV {
        dev: Some(DeviceV { name: p.name@, fd: p.fd, readonly }),
        sector_size: log,
        phy_sector_size: eff_phy_sector(v, p),
        min_io: p.min_io,
        optimal_io: p.optimal_io,
        grain: g,
        alignment_offset: p.alignment_offset,
        first_lba: first_lba_of(g, log, p.nsectors),
        last_lba: (p.nsectors - 1) as u64,
        nsectors: p.nsectors,
        heads: p.heads,
        sectors: p.sectors,
        cylinders: cylinders_of(p.nsectors, p.heads, p.sectors),
        units_per_sector: ups_spec(v.display_cylinders, p.heads, p.sectors),
        label: match p.detected {
            Some(d) => Some(detected_state(d)),
            None => None,
        },
        ..v
    }
}

/// A whole context after a device assignment: the session is updated, and
/// a nested context propagates the new device and geometry to its parent
/// snapshot, whose own label and preferences are untouched.
pub open spec fn after_assign(v: ContextV, p: DeviceProbe, readonly: bool) -> ContextV {
    let core = session_after_assign(v, p, readonly);
    ContextV {
        parent: match v.parent {
            Some(par) => Some(
                Box::new(
                    ContextV {
                        dev: core.dev,
                        sector_size: core.sector_size,
                        phy_sector_size: core.phy_sector_size,
                        min_io: core.min_io,
                        optimal_io: core.optimal_io,
                        grain: core.grain,
                        alignment_offset: core.alignment_offset,
                        first_lba: core.first_lba,
                        last_lba: core.last_lba,
                        nsectors: core.nsectors,
                        heads: core.heads,
                        sectors: core.sectors,
                        cylinders: core.cylinders,
                        units_per_sector: ups_spec(par.display_cylinders, p.heads, p.sectors),
                        ..(*par)
                    },
                ),
            ),
            None => None,
        },
        ..core
    }
}

/// A whole context after releasing its device: the device snapshot and the
/// device-derived ranges are cleared, on the session and on a nested
/// context's parent snapshot alike.
pub open spec fn after_deassign(v: ContextV) -> ContextV {
    ContextV {
        dev: None,
        nsectors: 0,
        first_lba: 0,
        last_lba: 0,
        parent: match v.parent {
            Some(par) => Some(
                Box::new(
                    ContextV { dev: None, nsectors: 0, first_lba: 0, last_lba: 0, ..(*par) },
                ),
            ),
            None => None,
        },
        ..v
    }
}

/// The child context that a nested-session request creates: it inherits
/// the parent's device, geometry and preferences, starts with no active
/// label, is restricted to the requested label kind, and carries a
/// snapshot of the parent session.
pub open spec fn nested_child(v: ContextV, only: Option<DiskLabel>) -> ContextV {
    ContextV { label: None, only_kind: only, nested: true, parent: Some(Box::new(v)), ..v }
}

/// What a nested-session request for the name `s` asks for: no driver
/// restriction for an empty name, a restriction to the named kind for a
/// recognized name, and nothing for an unrecognized one.
pub open spec fn nested_request(s: Seq<char>) -> Option<Option<DiskLabel>> {
    if s.len() == 0 {
        Some(None)
    } else {
        match spec_parse_label(s) {
            Some(k) => Some(Some(k)),
            None => None,
        }
    }
}

/// Checks that decoded entries form well-formed label state for `kind`:
/// within the kind's maximum count, every entry numbered, numbers unique.
fn check_label_entries(kind: DiskLabel, entries: &Vec<Partition>) -> (r: bool)
    ensures
        r == label_state_wf(LabelStateV { kind, changed: false, entries: parts_view(entries@) }),
{
    let ghost ev = parts_view(entries@);
    let n = entries.len();
    if n > kind.max_entries() {
        return false;
    }
    let mut i: usize = 0;
    while i < n
        invariant
            ev == parts_view(entries@),
            n == ev.len(),
            n == entries@.len(),
            n <= spec_max_entries(kind),
            0 <= i <= n,
            forall|p: int| 0 <= p < i ==> (#[trigger] ev[p]).partno is Some,
            forall|p: int, q: int|
                0 <= p < q < n && p < i ==> (#[trigger] ev[p]).partno != (#[trigger] ev[q]).partno,
        decreases n - i,
    {
        proof {
            assert(ev[i as int] == entries@[i as int]@);
        }
        let pno = match entries[i].partno() {
            Some(p) => p,
            None => {
                return false;
            },
        };
        let mut j: usize = i + 1;
        while j < n
            invariant
                ev == parts_view(entries@),
                n == ev.len(),
                n == entries@.len(),
                0 <= i < j <= n,
                ev[i as int].partno == Some(pno),
                forall|q: int| i < q < j ==> ev[i as int].partno != (#[trigger] ev[q]).partno,
            decreases n - j,
        {
            proof {
                assert(ev[j as int] == entries@[j as int]@);
            }
            let same = match entries[j].partno() {
                Some(p) => p == pno,
                None => false,
            };
            if same {
                return false;
            }
            j += 1;
        }
        i += 1;
    }
    true
}

/// Finds the first live entry carrying the partition number `no`.
fn find_partno_in(entries: &Vec<Partition>, no: usize) -> (r: Option<usize>)
    ensures
        match r {
            Some(f) => f < parts_view(entries@).len() && parts_view(entries@)[f as int].partno
                == Some(no),
            None => !has_partno(parts_view(entries@), no),
        },
{
    let ghost ev = parts_view(entries@);
    let n = entries.len();
    let mut f: usize = 0;
    while f < n
        invariant
            ev == parts_view(entries@),
            n == ev.len(),
            n == entries@.len(),
            0 <= f <= n,
            forall|j: int| 0 <= j < f ==> (#[trigger] ev[j]).partno != Some(no),
        decreases n - f,
    {
        proof {
            assert(ev[f as int] == entries@[f as int]@);
        }
        let is_match = match entries[f].partno() {
            Some(p) => p == no,
            None => false,
        };
        if is_match {
            return Some(f);
        }
        f += 1;
    }
    proof {
        assert(!has_partno(ev, no));
    }
    None
}

/// Scans the live entries for one that would overlap `m`, ignoring the
/// entry at index `skip`.
fn scan_conflict(entries: &Vec<Partition>, skip: usize, m: &Partition) -> (r: bool)
    ensures
        r == set_conflicts(parts_view(entries@), skip as int, m@),
{
    let ghost ev = parts_view(entries@);
    let n = entries.len();
    let mut j: usize = 0;
    while j < n
        invariant
            ev == parts_view(entries@),
            n == ev.len(),
            n == entries@.len(),
            0 <= j <= n,
            forall|q: int| 0 <= q < j && q != skip ==> !parts_overlap(m@, #[trigger] ev[q]),
        decreases n - j,
    {
        proof {
            assert(ev[j as int] == entries@[j as int]@);
        }
        if j != skip && parts_overlap_x(m, &entries[j]) {
            proof {
                assert(set_conflicts(ev, skip as int, m@));
            }
            return true;
        }
        j += 1;
    }
    proof {
        assert(!set_conflicts(ev, skip as int, m@));
    }
    false
}

/// Replacing an entry with one carrying the same partition number
/// preserves well-formed label state.
proof fn lemma_label_wf_update(l: LabelStateV, i: int, m: PartV)
    requires
        label_state_wf(l),
        0 <= i < l.entries.len(),
        m.partno == l.entries[i].partno,
    ensures
        label_state_wf(LabelStateV { changed: true, entries: l.entries.update(i, m), ..l }),
{
    let e = l.entries.update(i, m);
    assert forall|p: int| 0 <= p < e.len() implies (#[trigger] e[p]).partno is Some by {
        assert(l.entries[p].partno is Some);
    }
    assert forall|p: int, q: int| 0 <= p < q < e.len() implies (#[trigger] e[p]).partno != (
    #[trigger] e[q]).partno by {
        assert(l.entries[p].partno != l.entries[q].partno);
    }
}

/// Removing an entry preserves well-formed label state.
proof fn lemma_label_wf_remove(l: LabelStateV, i: int)
    requires
        label_state_wf(l),
        0 <= i < l.entries.len(),
    ensures
        label_state_wf(LabelStateV { changed: true, entries: l.entries.remove(i), ..l }),
{
    let e = l.entries.remove(i);
    assert forall|p: int| 0 <= p < e.len() implies (#[trigger] e[p]).partno is Some by {
        if p < i {
            assert(e[p] == l.entries[p]);
        } else {
            assert(e[p] == l.entries[p + 1]);
        }
        assert(label_state_wf(l));
    }
    assert forall|p: int, q: int| 0 <= p < q < e.len() implies (#[trigger] e[p]).partno != (
    #[trigger] e[q]).partno by {
        let p0 = if p < i {
            p
        } else {
            p + 1
        };
        let q0 = if q < i {
            q
        } else {
            q + 1
        };
        assert(e[p] == l.entries[p0]);
        assert(e[q] == l.entries[q0]);
        assert(l.entries[p0].partno != l.entries[q0].partno);
    }
}

/// Round trip: on a well-formed label state that verifies clean, applying
/// any live entry back onto its own partition number succeeds and leaves
/// the label state's entries unchanged — so the state still verifies
/// clean.  Together with the contracts of `get_partitions`,
/// `set_partition` and `verify_disklabel`, this says that reading the
/// current label into a table and applying each entry's fields back at its
/// own number keeps the label clean.
pub proof fn lemma_set_partition_roundtrip(l: LabelStateV, first: u64, last: u64, i: int)
    requires
        label_state_wf(l),
        label_clean(l.entries, first, last),
        0 <= i < l.entries.len(),
    ensures
        l.entries[i].partno is Some,
        has_partno(l.entries, l.entries[i].partno->0),
        partno_index(l.entries, l.entries[i].partno->0) == i,
        merge_part(l.entries[i], l.entries[i]) == l.entries[i],
        !set_conflicts(l.entries, i, merge_part(l.entries[i], l.entries[i])),
        l.entries.update(i, merge_part(l.entries[i], l.entries[i])) == l.entries,
        label_clean(
            l.entries.update(i, merge_part(l.entries[i], l.entries[i])),
            first,
            last,
        ),
{
    let e = l.entries[i];
    let no = e.partno->0;
    assert(e.partno == Some(no));
    assert(has_partno(l.entries, no));
    let j = partno_index(l.entries, no);
    assert(0 <= j < l.entries.len() && l.entries[j].partno == Some(no));
    if j != i {
        assert(l.entries[j].partno != l.entries[i].partno);
    }
    assert(merge_part(e, e) =~= e);
    assert forall|q: int| 0 <= q < l.entries.len() && q != i implies !parts_overlap(
        merge_part(e, e),
        l.entries[q],
    ) by {
        if q < i {
            assert(!parts_overlap(l.entries[q], l.entries[i]));
        } else {
            assert(!parts_overlap(l.entries[i], l.entries[q]));
        }
    }
    assert(l.entries.update(i, merge_part(e, e)) =~= l.entries);
}

/// The last usable LBA `lba` is acceptable for the session `v`: not before
/// the first usable LBA, and inside the device when one is assigned (a
/// device-less context keeps both at zero).
pub open spec fn last_lba_ok(v: ContextV, lba: u64) -> bool {
    &&& lba >= v.first_lba
    &&& (match v.dev {
        Some(_) => lba < v.nsectors,
        None => lba == 0,
    })
}

/// The display unit's name for each display setting and number.
pub open spec fn unit_name(display_cylinders: bool, singular: bool) -> Seq<char> {
    if display_cylinders {
        if singular {
            "cylinder"@
        } else {
            "cylinders"@
        }
    } else {
        if singular {
            "sector"@
        } else {
            "sectors"@
        }
    }
}

impl Default for Context {
    /// The default context is freshly created, with no device assigned.
    fn default() -> (r: Self)
        ensures
            r@ == fresh_context(),
    {
        Context::new()
    }
}

} // verus!
