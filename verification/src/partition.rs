//! Generic label-independent partition abstraction.
//!
//! A [`Partition`] is a detached value object: a template for a table entry
//! or a snapshot of one, never connected to live label state.  Every numeric
//! field is explicitly optional — "unset" is distinct from zero, and an
//! accessor reports absence rather than a sentinel value.

use crate::errors::FdiskError;
use vstd::prelude::*;
use vstd::string::StrSliceExecFns;

verus! {

/// The abstract value of a [`Partition`]: its fields with strings taken as
/// character sequences.
#[verifier::ext_equal]
pub ghost struct PartV {
    pub partno: Option<usize>,
    pub start: Option<u64>,
    pub size: Option<u64>,
    pub name: Option<Seq<char>>,
    pub uuid: Option<Seq<char>>,
    pub attrs: Option<Seq<char>>,
    pub parent_partno: Option<usize>,
    pub bootable: bool,
    pub container: bool,
    pub freespace: bool,
    pub nested: bool,
    pub wholedisk: bool,
    pub used: bool,
    pub explicit_size: bool,
    pub follow_default: bool,
}

/// The value of a freshly constructed partition: every field absent, every
/// flag off.
pub open spec fn fresh_part() -> PartV {
    PartV {
        partno: None,
        start: None,
        size: None,
        name: None,
        uuid: None,
        attrs: None,
        parent_partno: None,
        bootable: false,
        container: false,
        freespace: false,
        nested: false,
        wholedisk: false,
        used: false,
        explicit_size: false,
        follow_default: false,
    }
}

/// A string is representable in the drivers' native text encoding exactly
/// when it carries no NUL character.
pub open spec fn encodable(s: Seq<char>) -> bool {
    forall|i: int| 0 <= i < s.len() ==> s[i] != '\0'
}

/// The last sector of a partition, derived from `start` and `size`: present
/// only when both are defined and the sector is representable.
pub open spec fn end_spec(p: PartV) -> Option<u64> {
    match (p.start, p.size) {
        (Some(s), Some(z)) => if z == 0 {
            Some(s)
        } else if s + z - 1 <= u64::MAX {
            Some((s + z - 1) as u64)
        } else {
            None
        },
        _ => None,
    }
}

/// The result of applying the defined fields of the template `tpl` onto
/// `base`, leaving every undefined field of the template unchanged.  The
/// entry's own number, classification flags and placement policy are kept.
pub open spec fn merge_part(base: PartV, tpl: PartV) -> PartV {
    PartV {
        start: if tpl.start is Some {
            tpl.start
        } else {
            base.start
        },
        size: if tpl.size is Some {
            tpl.size
        } else {
            base.size
        },
        name: if tpl.name is Some {
            tpl.name
        } else {
            base.name
        },
        uuid: if tpl.uuid is Some {
            tpl.uuid
        } else {
            base.uuid
        },
        attrs: if tpl.attrs is Some {
            tpl.attrs
        } else {
            base.attrs
        },
        ..base
    }
}

/// The abstract values of a sequence of partitions.
pub open spec fn parts_view(s: Seq<Partition>) -> Seq<PartV> {
    s.map_values(|p: Partition| p@)
}

/// Appending a partition appends its abstract value.
pub proof fn lemma_parts_view_push(s: Seq<Partition>, p: Partition)
    ensures
        parts_view(s.push(p)) == parts_view(s).push(p@),
{
    assert(parts_view(s.push(p)) =~= parts_view(s).push(p@));
}

/// Removing a partition removes its abstract value.
pub proof fn lemma_parts_view_remove(s: Seq<Partition>, i: int)
    requires
        0 <= i < s.len(),
    ensures
        parts_view(s.remove(i)) == parts_view(s).remove(i),
{
    assert forall|j: int| 0 <= j < s.remove(i).len() implies parts_view(s.remove(i))[j]
        == parts_view(s).remove(i)[j] by {
        if j < i {
            assert(s.remove(i)[j] == s[j]);
        } else {
            assert(s.remove(i)[j] == s[j + 1]);
        }
    }
    assert(parts_view(s.remove(i)) =~= parts_view(s).remove(i));
}

/// Replacing a partition replaces its abstract value.
pub proof fn lemma_parts_view_update(s: Seq<Partition>, i: int, p: Partition)
    requires
        0 <= i < s.len(),
    ensures
        parts_view(s.update(i, p)) == parts_view(s).update(i, p@),
{
    assert(parts_view(s.update(i, p)) =~= parts_view(s).update(i, p@));
}

/// Clones a vector of partitions, preserving the abstract values.
pub(crate) fn clone_parts(v: &Vec<Partition>) -> (r: Vec<Partition>)
    ensures
        parts_view(r@) == parts_view(v@),
{
    let n = v.len();
    let mut r: Vec<Partition> = Vec::new();
    let mut i: usize = 0;
    while i < n
        invariant
            n == v@.len(),
            0 <= i <= n,
            r@.len() == i,
            parts_view(r@) == parts_view(v@).take(i as int),
        decreases n - i,
    {
        let entry = v[i].clone();
        proof {
            lemma_parts_view_push(r@, entry);
            assert(parts_view(v@).take(i as int).push(v@[i as int]@) =~= parts_view(v@).take(
                i + 1,
            ));
        }
        r.push(entry);
        i += 1;
    }
    proof {
        assert(parts_view(v@).take(n as int) =~= parts_view(v@));
    }
    r
}

/// Generic label-independent partition abstraction.
#[derive(Debug)]
pub struct Partition {
    partno: Option<usize>,
    start: Option<u64>,
    size: Option<u64>,
    name: Option<String>,
    uuid: Option<String>,
    attrs: Option<String>,
    parent_partno: Option<usize>,
    bootable: bool,
    container: bool,
    freespace: bool,
    nested: bool,
    wholedisk: bool,
    used: bool,
    explicit_size: bool,
    follow_default: bool,
}

impl View for Partition {
    type V = PartV;

    closed spec fn view(&self) -> PartV {
        PartV {
            partno: self.partno,
            start: self.start,
            size: self.size,
            name: self.name.deep_view(),
            uuid: self.uuid.deep_view(),
            attrs: self.attrs.deep_view(),
            parent_partno: self.parent_partno,
            bootable: self.bootable,
            container: self.container,
            freespace: self.freespace,
            nested: self.nested,
            wholedisk: self.wholedisk,
            used: self.used,
            explicit_size: self.explicit_size,
            follow_default: self.follow_default,
        }
    }
}

/// True when the string holds no NUL character, so that it can be handed to
/// a driver's native text encoding.
fn str_encodable(s: &str) -> (r: bool)
    ensures
        r == encodable(s@),
{
    let n = s.unicode_len();
    let mut i: usize = 0;
    while i < n
        invariant
            n == s@.len(),
            0 <= i <= n,
            forall|j: int| 0 <= j < i ==> s@[j] != '\0',
        decreases n - i,
    {
        if s.get_char(i) == '\0' {
            return false;
        }
        i += 1;
    }
    true
}

/// Clones an optional string, preserving its abstract value.
pub(crate) fn clone_opt_string(s: &Option<String>) -> (r: Option<String>)
    ensures
        r.deep_view() == s.deep_view(),
{
    match s {
        Some(v) => Some(v.clone()),
        None => None,
    }
}

/// Compares two optional strings by their abstract values.
fn opt_string_eq(a: &Option<String>, b: &Option<String>) -> (r: bool)
    ensures
        r == (a.deep_view() == b.deep_view()),
{
    match (a, b) {
        (Some(x), Some(y)) => x.eq(y),
        (None, None) => true,
        _ => false,
    }
}

impl Partition {
    /// Returns a new partition with every field unset.
    pub fn new() -> (r: Partition)
        ensures
            r@ == fresh_part(),
    {
        Partition {
            partno: None,
            start: None,
            size: None,
            name: None,
            uuid: None,
            attrs: None,
            parent_partno: None,
            bootable: false,
            container: false,
            freespace: false,
            nested: false,
            wholedisk: false,
            used: false,
            explicit_size: false,
            follow_default: false,
        }
    }

    /// Resets the partition to the freshly-constructed state.
    pub fn reset_partition(&mut self)
        ensures
            final(self)@ == fresh_part(),
    {
        *self = Partition::new();
    }

    /// Returns the partition's attribute string, or absence.
    pub fn attrs(&self) -> (r: Option<String>)
        ensures
            r.deep_view() == self@.attrs,
    {
        clone_opt_string(&self.attrs)
    }

    /// Returns the last sector of the partition, derived from its start and
    /// size; absent unless both are defined and the sector is representable.
    pub fn end(&self) -> (r: Option<u64>)
        ensures
            r == end_spec(self@),
    {
        match (self.start, self.size) {
            (Some(s), Some(z)) => {
                if z == 0 {
                    Some(s)
                } else if s <= u64::MAX - (z - 1) {
                    Some(s + (z - 1))
                } else {
                    None
                }
            },
            _ => None,
        }
    }

    /// Returns the partition's name; fails with `NoData` when absent.
    pub fn name(&self) -> (r: Result<String, FdiskError>)
        ensures
            match self@.name {
                Some(n) => r matches Ok(s) && s@ == n,
                None => r == Err::<String, FdiskError>(FdiskError::NoData),
            },
    {
        match &self.name {
            Some(v) => Ok(v.clone()),
            None => Err(FdiskError::NoData),
        }
    }

    /// Returns the partition number of the parent entry; fails with `NoData`
    /// when no parent is recorded.
    pub fn parent(&self) -> (r: Result<usize, FdiskError>)
        ensures
            match self@.parent_partno {
                Some(p) => r == Ok::<usize, FdiskError>(p),
                None => r == Err::<usize, FdiskError>(FdiskError::NoData),
            },
    {
        match self.parent_partno {
            Some(p) => Ok(p),
            None => Err(FdiskError::NoData),
        }
    }

    /// Returns the partition number (0 is the first partition), or absence.
    pub fn partno(&self) -> (r: Option<usize>)
        ensures
            r == self@.partno,
    {
        self.partno
    }

    /// Returns the size in sectors, or absence.
    pub fn size(&self) -> (r: Option<u64>)
        ensures
            r == self@.size,
    {
        self.size
    }

    /// Returns the start offset in sectors, or absence.
    pub fn start(&self) -> (r: Option<u64>)
        ensures
            r == self@.start,
    {
        self.start
    }

    /// Returns the partition's UUID string; fails with `NoData` when absent.
    pub fn uuid(&self) -> (r: Result<String, FdiskError>)
        ensures
            match self@.uuid {
                Some(n) => r matches Ok(s) && s@ == n,
                None => r == Err::<String, FdiskError>(FdiskError::NoData),
            },
    {
        match &self.uuid {
            Some(v) => Ok(v.clone()),
            None => Err(FdiskError::NoData),
        }
    }

    /// True when the boot flag is enabled.
    pub fn is_bootable(&self) -> (r: bool)
        ensures
            r == self@.bootable,
    {
        self.bootable
    }

    /// True when the partition is a container (e.g. an extended partition).
    pub fn is_container(&self) -> (r: bool)
        ensures
            r == self@.container,
    {
        self.container
    }

    /// True when the entry points to free space.
    pub fn is_freespace(&self) -> (r: bool)
        ensures
            r == self@.freespace,
    {
        self.freespace
    }

    /// True when the partition is nested (e.g. a logical partition).
    pub fn is_nested(&self) -> (r: bool)
        ensures
            r == self@.nested,
    {
        self.nested
    }

    /// True when the partition points to some area of the disk.
    pub fn is_used(&self) -> (r: bool)
        ensures
            r == self@.used,
    {
        self.used
    }

    /// True when the entry is a special whole-disk partition.
    pub fn is_wholedisk(&self) -> (r: bool)
        ensures
            r == self@.wholedisk,
    {
        self.wholedisk
    }

    /// Sets the partition number.
    pub fn set_partno(&mut self, partno: usize) -> (r: Result<(), FdiskError>)
        ensures
            r is Ok,
            final(self)@ == (PartV { partno: Some(partno), ..old(self)@ }),
    {
        self.partno = Some(partno);
        Ok(())
    }

    /// Sets the size in sectors.  Range checking is deferred to the point of
    /// application against a real context.
    pub fn set_size(&mut self, size: u64) -> (r: Result<(), FdiskError>)
        ensures
            r is Ok,
            final(self)@ == (PartV { size: Some(size), ..old(self)@ }),
    {
        self.size = Some(size);
        Ok(())
    }

    /// Sets the start offset in sectors and switches off following the
    /// driver's default placement.  Range checking is deferred to the point
    /// of application against a real context.
    pub fn set_start(&mut self, start: u64) -> (r: Result<(), FdiskError>)
        ensures
            r is Ok,
            final(self)@ == (PartV { start: Some(start), follow_default: false, ..old(self)@ }),
    {
        self.start = Some(start);
        self.follow_default = false;
        Ok(())
    }

    /// Sets the attribute string; fails with `Encoding` when the string is
    /// not representable, leaving the partition unchanged.
    pub fn set_attrs(&mut self, attrs: &str) -> (r: Result<(), FdiskError>)
        ensures
            encodable(attrs@) ==> r is Ok && final(self)@ == (PartV {
                attrs: Some(attrs@),
                ..old(self)@
            }),
            !encodable(attrs@) ==> r == Err::<(), FdiskError>(FdiskError::Encoding) && final(self)@
                == old(self)@,
    {
        if !str_encodable(attrs) {
            return Err(FdiskError::Encoding);
        }
        self.attrs = Some(attrs.to_owned());
        Ok(())
    }

    /// Sets the name; fails with `Encoding` when the string is not
    /// representable, leaving the partition unchanged.
    pub fn set_name(&mut self, name: &str) -> (r: Result<(), FdiskError>)
        ensures
            encodable(name@) ==> r is Ok && final(self)@ == (PartV {
                name: Some(name@),
                ..old(self)@
            }),
            !encodable(name@) ==> r == Err::<(), FdiskError>(FdiskError::Encoding) && final(self)@
                == old(self)@,
    {
        if !str_encodable(name) {
            return Err(FdiskError::Encoding);
        }
        self.name = Some(name.to_owned());
        Ok(())
    }

    /// Sets the UUID string; fails with `Encoding` when the string is not
    /// representable, leaving the partition unchanged.
    pub fn set_uuid(&mut self, uuid: &str) -> (r: Result<(), FdiskError>)
        ensures
            encodable(uuid@) ==> r is Ok && final(self)@ == (PartV {
                uuid: Some(uuid@),
                ..old(self)@
            }),
            !encodable(uuid@) ==> r == Err::<(), FdiskError>(FdiskError::Encoding) && final(self)@
                == old(self)@,
    {
        if !str_encodable(uuid) {
            return Err(FdiskError::Encoding);
        }
        self.uuid = Some(uuid.to_owned());
        Ok(())
    }

    /// Controls whether the size is taken exactly as given when this
    /// partition is used as a template, instead of being aligned to the
    /// grain (aligning is the default).
    pub fn size_explicit(&mut self, enable: bool) -> (r: Result<(), FdiskError>)
        ensures
            r is Ok,
            final(self)@ == (PartV { explicit_size: enable, ..old(self)@ }),
    {
        self.explicit_size = enable;
        Ok(())
    }

    /// Controls whether a template without an explicit start follows the
    /// driver's default placement policy.
    pub fn start_follow_default(&mut self, enable: bool) -> (r: Result<(), FdiskError>)
        ensures
            r is Ok,
            final(self)@ == (PartV { follow_default: enable, ..old(self)@ }),
    {
        self.follow_default = enable;
        Ok(())
    }

    /// True when the start follows the driver's default placement policy.
    pub fn start_is_default(&self) -> (r: bool)
        ensures
            r == self@.follow_default,
    {
        self.follow_default
    }

    /// Marks the partition number as undefined.
    pub fn unset_partno(&mut self) -> (r: Result<(), FdiskError>)
        ensures
            r is Ok,
            final(self)@ == (PartV { partno: None, ..old(self)@ }),
    {
        self.partno = None;
        Ok(())
    }

    /// Marks the size as undefined.
    pub fn unset_size(&mut self) -> (r: Result<(), FdiskError>)
        ensures
            r is Ok,
            final(self)@ == (PartV { size: None, ..old(self)@ }),
    {
        self.size = None;
        Ok(())
    }

    /// Marks the start as undefined.
    pub fn unset_start(&mut self) -> (r: Result<(), FdiskError>)
        ensures
            r is Ok,
            final(self)@ == (PartV { start: None, ..old(self)@ }),
    {
        self.start = None;
        Ok(())
    }

    /// Applies the defined fields of the template `tpl` onto this partition,
    /// leaving every undefined field of the template unchanged.
    #[verifier::rlimit(30)]
    pub(crate) fn apply_template(&mut self, tpl: &Partition)
        ensures
            final(self)@ == merge_part(old(self)@, tpl@),
    {
        if tpl.start.is_some() {
            self.start = tpl.start;
        }
        if tpl.size.is_some() {
            self.size = tpl.size;
        }
        if tpl.name.is_some() {
            self.name = clone_opt_string(&tpl.name);
        }
        if tpl.uuid.is_some() {
            self.uuid = clone_opt_string(&tpl.uuid);
        }
        if tpl.attrs.is_some() {
            self.attrs = clone_opt_string(&tpl.attrs);
        }
    }

}

impl Clone for Partition {
    /// The clone carries the same abstract value.
    fn clone(&self) -> (r: Self)
        ensures
            r@ == self@,
    {
        Partition {
            partno: self.partno,
            start: self.start,
            size: self.size,
            name: clone_opt_string(&self.name),
            uuid: clone_opt_string(&self.uuid),
            attrs: clone_opt_string(&self.attrs),
            parent_partno: self.parent_partno,
            bootable: self.bootable,
            container: self.container,
            freespace: self.freespace,
            nested: self.nested,
            wholedisk: self.wholedisk,
            used: self.used,
            explicit_size: self.explicit_size,
            follow_default: self.follow_default,
        }
    }
}

impl PartialEq for Partition {
    /// Structural equality: two partitions are equal exactly when their
    /// abstract values coincide.
    fn eq(&self, other: &Self) -> (r: bool) {
        let r = self.partno == other.partno && self.start == other.start && self.size == other.size
            && opt_string_eq(&self.name, &other.name) && opt_string_eq(&self.uuid, &other.uuid)
            && opt_string_eq(&self.attrs, &other.attrs) && self.parent_partno
            == other.parent_partno && self.bootable == other.bootable && self.container
            == other.container && self.freespace == other.freespace && self.nested == other.nested
            && self.wholedisk == other.wholedisk && self.used == other.used && self.explicit_size
            == other.explicit_size && self.follow_default == other.follow_default;
        proof {
            if r {
                assert(self@ =~= other@);
            }
        }
        r
    }
}

impl vstd::std_specs::cmp::PartialEqSpecImpl for Partition {
    open spec fn obeys_eq_spec() -> bool {
        true
    }

    open spec fn eq_spec(&self, other: &Partition) -> bool {
        self@ == other@
    }
}

impl Default for Partition {
    /// The default partition has every field unset.
    fn default() -> (r: Self)
        ensures
            r@ == fresh_part(),
    {
        Partition::new()
    }
}

} // verus!
