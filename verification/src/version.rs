use vstd::prelude::*;
use vstd::string::StringExecFns;
use std::cmp::Ordering;
use crate::text::{decimal, decimal_digits};

verus! {

/// Where a version counter stands relative to a set of migrations.
#[derive(Debug, PartialEq, Eq, Clone, Copy, Structural)]
pub enum SchemaVersion {
    /// The counter is 0: no step has been applied.
    NoneSet,
    /// The counter is the number of one of the known steps.
    Inside(usize),
    /// The counter is beyond the last known step.
    Outside(usize),
}

impl SchemaVersion {
    /// The counter value that this version stands for.
    pub open spec fn raw(self) -> usize {
        match self {
            SchemaVersion::NoneSet => 0,
            SchemaVersion::Inside(v) => v,
            SchemaVersion::Outside(v) => v,
        }
    }

    /// The version that a counter value is, given the number of known steps.
    pub open spec fn classify(raw: usize, highest: usize) -> SchemaVersion {
        if raw == 0 {
            SchemaVersion::NoneSet
        } else if raw <= highest {
            SchemaVersion::Inside(raw)
        } else {
            SchemaVersion::Outside(raw)
        }
    }

    /// The version in words: the counter value and where it stands.
    pub open spec fn text(self) -> Seq<char> {
        match self {
            SchemaVersion::NoneSet => "0 (no version set)"@,
            SchemaVersion::Inside(v) => decimal_digits(v as nat) + " (inside)"@,
            SchemaVersion::Outside(v) => decimal_digits(v as nat) + " (outside)"@,
        }
    }

    /// The version in words, for people to read.
    pub fn to_string(&self) -> (s: String)
        ensures
            s@ == self.text(),
    {
        match self {
            SchemaVersion::NoneSet => "0 (no version set)".to_owned(),
            SchemaVersion::Inside(v) => decimal(*v).concat(" (inside)"),
            SchemaVersion::Outside(v) => decimal(*v).concat(" (outside)"),
        }
    }

    /// A version is well formed for `highest` known steps if it is what its
    /// own counter value classifies as: `Inside` holds 1 to `highest`,
    /// `Outside` more than `highest`.
    pub open spec fn well_formed(self, highest: usize) -> bool {
        self == Self::classify(self.raw(), highest)
    }
}

impl<'a> From<&'a SchemaVersion> for usize {
    /// The counter value of a version.
    fn from(schema_version: &'a SchemaVersion) -> (raw: usize) {
        match schema_version {
            SchemaVersion::NoneSet => 0,
            SchemaVersion::Inside(v) => *v,
            SchemaVersion::Outside(v) => *v,
        }
    }
}

impl<'a> vstd::std_specs::convert::FromSpecImpl<&'a SchemaVersion> for usize {
    open spec fn obeys_from_spec() -> bool {
        true
    }

    open spec fn from_spec(v: &'a SchemaVersion) -> usize {
        v.raw()
    }
}

impl From<SchemaVersion> for usize {
    fn from(schema_version: SchemaVersion) -> (raw: usize) {
        match schema_version {
            SchemaVersion::NoneSet => 0,
            SchemaVersion::Inside(v) => v,
            SchemaVersion::Outside(v) => v,
        }
    }
}

impl vstd::std_specs::convert::FromSpecImpl<SchemaVersion> for usize {
    open spec fn obeys_from_spec() -> bool {
        true
    }

    open spec fn from_spec(v: SchemaVersion) -> usize {
        v.raw()
    }
}

impl PartialOrd for SchemaVersion {
    /// Versions are ordered by their counter values alone.
    fn partial_cmp(&self, other: &Self) -> (r: Option<Ordering>) {
        let self_usize: usize = usize::from(self);
        let other_usize: usize = usize::from(other);
        if self_usize < other_usize {
            Some(Ordering::Less)
        } else if self_usize == other_usize {
            Some(Ordering::Equal)
        } else {
            Some(Ordering::Greater)
        }
    }
}

impl vstd::std_specs::cmp::PartialOrdSpecImpl for SchemaVersion {
    open spec fn obeys_partial_cmp_spec() -> bool {
        true
    }

    open spec fn partial_cmp_spec(&self, other: &SchemaVersion) -> Option<Ordering> {
        if self.raw() < other.raw() {
            Some(Ordering::Less)
        } else if self.raw() == other.raw() {
            Some(Ordering::Equal)
        } else {
            Some(Ordering::Greater)
        }
    }
}

} // verus!
