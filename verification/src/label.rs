//! Disklabel driver identity and metadata.
//!
//! The five supported label kinds form a closed, exhaustively-matchable set;
//! each kind's on-disk encoding belongs to an external driver and is out of
//! scope here.  A [`Label`] is a snapshot of one driver's identity and
//! dirty/disabled flags, handed out by a context.

use vstd::prelude::*;
use vstd::string::{StrSliceExecFns, StringExecFns};

verus! {

/// The closed set of recognized disklabel kinds.
#[derive(Clone, Copy, Debug, PartialEq, Eq, Structural)]
pub enum DiskLabel {
    Dos,
    Sun,
    Sgi,
    Bsd,
    Gpt,
}

/// The canonical name of each label kind.
pub open spec fn label_name(k: DiskLabel) -> Seq<char> {
    match k {
        DiskLabel::Dos => "dos"@,
        DiskLabel::Sun => "sun"@,
        DiskLabel::Sgi => "sgi"@,
        DiskLabel::Bsd => "bsd"@,
        DiskLabel::Gpt => "gpt"@,
    }
}

/// The label kind whose canonical name is `s`, or absence when none
/// matches.
pub open spec fn spec_parse_label(s: Seq<char>) -> Option<DiskLabel> {
    if s == label_name(DiskLabel::Dos) {
        Some(DiskLabel::Dos)
    } else if s == label_name(DiskLabel::Sun) {
        Some(DiskLabel::Sun)
    } else if s == label_name(DiskLabel::Sgi) {
        Some(DiskLabel::Sgi)
    } else if s == label_name(DiskLabel::Bsd) {
        Some(DiskLabel::Bsd)
    } else if s == label_name(DiskLabel::Gpt) {
        Some(DiskLabel::Gpt)
    } else {
        None
    }
}

/// The driver-imposed maximum number of entries for each label kind.
pub open spec fn spec_max_entries(k: DiskLabel) -> usize {
    match k {
        DiskLabel::Dos => 4usize,
        DiskLabel::Sun => 8usize,
        DiskLabel::Sgi => 16usize,
        DiskLabel::Bsd => 16usize,
        DiskLabel::Gpt => 128usize,
    }
}

/// Compares two strings by their character sequences.
pub(crate) fn str_eq(a: &str, b: &str) -> (r: bool)
    ensures
        r == (a@ == b@),
{
    let na = a.unicode_len();
    let nb = b.unicode_len();
    if na != nb {
        return false;
    }
    let mut i: usize = 0;
    while i < na
        invariant
            na == a@.len(),
            nb == b@.len(),
            na == nb,
            0 <= i <= na,
            forall|j: int| 0 <= j < i ==> a@[j] == b@[j],
        decreases na - i,
    {
        if a.get_char(i) != b.get_char(i) {
            return false;
        }
        i += 1;
    }
    proof {
        assert(a@ =~= b@);
    }
    true
}

/// Parses a label kind from its canonical name.
pub(crate) fn parse_label(name: &str) -> (r: Option<DiskLabel>)
    ensures
        r == spec_parse_label(name@),
{
    if str_eq(name, "dos") {
        Some(DiskLabel::Dos)
    } else if str_eq(name, "sun") {
        Some(DiskLabel::Sun)
    } else if str_eq(name, "sgi") {
        Some(DiskLabel::Sgi)
    } else if str_eq(name, "bsd") {
        Some(DiskLabel::Bsd)
    } else if str_eq(name, "gpt") {
        Some(DiskLabel::Gpt)
    } else {
        None
    }
}

impl DiskLabel {
    /// The canonical name of this label kind.
    pub fn as_ref(&self) -> (r: &'static str)
        ensures
            r@ == label_name(*self),
    {
        match self {
            DiskLabel::Dos => "dos",
            DiskLabel::Sun => "sun",
            DiskLabel::Sgi => "sgi",
            DiskLabel::Bsd => "bsd",
            DiskLabel::Gpt => "gpt",
        }
    }

    /// The canonical name of this label kind, as an owned string.
    pub fn to_string(&self) -> (r: String)
        ensures
            r@ == label_name(*self),
    {
        String::from_str(self.as_ref())
    }

    /// The driver-imposed maximum number of entries for this label kind.
    pub fn max_entries(&self) -> (r: usize)
        ensures
            r == spec_max_entries(*self),
    {
        match self {
            DiskLabel::Dos => 4,
            DiskLabel::Sun => 8,
            DiskLabel::Sgi => 16,
            DiskLabel::Bsd => 16,
            DiskLabel::Gpt => 128,
        }
    }
}

/// The abstract value of a [`Label`]: driver identity and flags.
#[verifier::ext_equal]
pub ghost struct LabelV {
    pub kind: DiskLabel,
    pub disabled: bool,
    pub changed: bool,
}

/// A snapshot of one disklabel driver's identity and flags.
#[derive(Debug)]
pub struct Label {
    kind: DiskLabel,
    disabled: bool,
    changed: bool,
}

impl View for Label {
    type V = LabelV;

    closed spec fn view(&self) -> LabelV {
        LabelV { kind: self.kind, disabled: self.disabled, changed: self.changed }
    }
}

impl Label {
    /// Builds a label snapshot.
    pub(crate) fn make(kind: DiskLabel, disabled: bool, changed: bool) -> (r: Label)
        ensures
            r@ == (LabelV { kind, disabled, changed }),
    {
        Label { kind, disabled, changed }
    }

    /// Returns the driver's name; a recognized driver always reports one.
    pub fn get_name(&self) -> (r: Result<String, crate::errors::FdiskError>)
        ensures
            r matches Ok(s) && s@ == label_name(self@.kind),
    {
        Ok(self.kind.to_string())
    }

    /// True when the driver was disabled for its context.
    pub fn is_disabled(&self) -> (r: bool)
        ensures
            r == self@.disabled,
    {
        self.disabled
    }

    /// True when the in-memory label data has been changed since it was
    /// read or created.
    pub fn is_changed(&self) -> (r: bool)
        ensures
            r == self@.changed,
    {
        self.changed
    }
}

} // verus!
