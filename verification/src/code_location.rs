//! Source positions: a file path together with an optional character range,
//! and a helper to attach a position to any value.

use vstd::prelude::*;

verus! {

/// A character range within one file.
#[derive(Debug, Clone, PartialEq, Eq, Structural)]
pub struct Section {
    pub location_begin: u64,
    pub location_end: u64,
}

/// A place in the sources: a file path and, when known, a section of it.
#[derive(Debug, Clone, PartialEq, Eq)]
pub struct CodeLocation {
    pub path: String,
    pub section: Option<Section>,
}

impl CodeLocation {
    /// The span from the start of `self` to the end of `end`, in the same
    /// file. Both locations must either carry a section or carry none.
    pub fn to(&self, end: &Self) -> (r: Self)
        requires
            self.section is Some <==> end.section is Some,
        ensures
            r.path@ == self.path@,
            r.section is Some <==> self.section is Some,
            self.section is Some ==> r.section == Some(
                Section {
                    location_begin: self.section->Some_0.location_begin,
                    location_end: end.section->Some_0.location_end,
                },
            ),
    {
        Self::section(self, end)
    }

    /// The span from the start of `beginning` to the end of `end`.
    pub fn section(beginning: &Self, end: &Self) -> (r: Self)
        requires
            beginning.section is Some <==> end.section is Some,
        ensures
            r.path@ == beginning.path@,
            r.section is Some <==> beginning.section is Some,
            beginning.section is Some ==> r.section == Some(
                Section {
                    location_begin: beginning.section->Some_0.location_begin,
                    location_end: end.section->Some_0.location_end,
                },
            ),
    {
        let section = match (&beginning.section, &end.section) {
            (Some(b), Some(e)) => Some(
                Section { location_begin: b.location_begin, location_end: e.location_end },
            ),
            _ => None,
        };
        CodeLocation { path: beginning.path.clone(), section }
    }

    /// A location that names a file without a section.
    pub fn new(path: String) -> (r: Self)
        ensures
            r.path@ == path@,
            r.section is None,
    {
        Self { path, section: None }
    }

    /// A location with an explicit character range.
    pub fn with_section(path: String, location_begin: u64, location_end: u64) -> (r: Self)
        ensures
            r.path@ == path@,
            r.section == Some(Section { location_begin, location_end }),
    {
        Self { path, section: Some(Section { location_begin, location_end }) }
    }
}

/// A value paired with the source location it came from, when one is known.
#[derive(Debug, Clone)]
pub struct LocationValue<T> {
    pub location: Option<CodeLocation>,
    pub value: T,
}

impl<T> LocationValue<T> {
    pub fn new(location: Option<CodeLocation>, value: T) -> (r: Self)
        ensures
            r.location == location,
            r.value == value,
    {
        Self { location, value }
    }
}

} // verus!
