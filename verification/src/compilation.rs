//! The diagnostic sink of a compilation run: diagnostics are accumulated,
//! never thrown; whether a compilation is still viable is a query on the
//! accumulated records.

use vstd::prelude::*;

use crate::code_location::CodeLocation;
use crate::diagnostic::{Diagnostic, DiagnosticPipelineLocation, DiagnosticType};
use crate::settings::Settings;

verus! {

/// The accumulated diagnostics and the settings of one compilation run.
pub struct Compilation {
    pub diagnostics: Vec<Diagnostic>,
    pub settings: Settings,
}

impl Compilation {
    /// The sequence of diagnostic records collected so far.
    pub open spec fn diags(&self) -> Seq<Diagnostic> {
        self.diagnostics@
    }

    pub fn new(settings: Settings) -> (r: Self)
        ensures
            r.diags() == Seq::<Diagnostic>::empty(),
            r.settings == settings,
    {
        Self { diagnostics: Vec::new(), settings }
    }

    /// Appends one record.
    pub fn add_diagnostic(&mut self, diagnostic: Diagnostic)
        ensures
            final(self).diags() == old(self).diags().push(diagnostic),
            final(self).settings == old(self).settings,
    {
        self.diagnostics.push(diagnostic);
    }

    /// Appends an error with the given message.
    pub fn add_error(&mut self, message: &str, location: Option<CodeLocation>)
        ensures
            final(self).diags().len() == old(self).diags().len() + 1,
            final(self).diags().drop_last() == old(self).diags(),
            final(self).diags().last().diagnostic_type == DiagnosticType::Error,
            final(self).diags().last().description@ == message@,
            final(self).settings == old(self).settings,
    {
        let d = Diagnostic::new(
            DiagnosticType::Error,
            message.to_owned(),
            location,
            DiagnosticPipelineLocation::Access,
        );
        proof {
            assert(self.diags().push(d).drop_last() =~= self.diags());
        }
        self.add_diagnostic(d);
    }

    /// Appends a warning with the given message.
    pub fn add_warning(&mut self, message: &str, location: Option<CodeLocation>)
        ensures
            final(self).diags().len() == old(self).diags().len() + 1,
            final(self).diags().drop_last() == old(self).diags(),
            final(self).diags().last().diagnostic_type == DiagnosticType::Warning,
            final(self).diags().last().description@ == message@,
            final(self).settings == old(self).settings,
    {
        let d = Diagnostic::new(
            DiagnosticType::Warning,
            message.to_owned(),
            location,
            DiagnosticPipelineLocation::Access,
        );
        proof {
            assert(self.diags().push(d).drop_last() =~= self.diags());
        }
        self.add_diagnostic(d);
    }

    /// Appends an informational note with the given message.
    pub fn add_info(&mut self, message: &str, location: Option<CodeLocation>)
        ensures
            final(self).diags().len() == old(self).diags().len() + 1,
            final(self).diags().drop_last() == old(self).diags(),
            final(self).diags().last().diagnostic_type == DiagnosticType::Info,
            final(self).diags().last().description@ == message@,
            final(self).settings == old(self).settings,
    {
        let d = Diagnostic::new(
            DiagnosticType::Info,
            message.to_owned(),
            location,
            DiagnosticPipelineLocation::Access,
        );
        proof {
            assert(self.diags().push(d).drop_last() =~= self.diags());
        }
        self.add_diagnostic(d);
    }

    /// True when no record reaches `Error` severity.
    pub fn is_error_free(&self) -> (r: bool)
        ensures
            r == (forall|i: int|
                0 <= i < self.diags().len() ==> (#[trigger] self.diags()[i]).diagnostic_type
                    != DiagnosticType::Error),
    {
        let mut i: usize = 0;
        while i < self.diagnostics.len()
            invariant
                0 <= i <= self.diagnostics@.len(),
                forall|k: int|
                    0 <= k < i ==> (#[trigger] self.diagnostics@[k]).diagnostic_type
                        != DiagnosticType::Error,
            decreases self.diagnostics@.len() - i,
        {
            if !self.diagnostics[i].type_lower_than(DiagnosticType::Error) {
                return false;
            }
            i = i + 1;
        }
        true
    }

    /// Read access to the collected diagnostics.
    pub fn diagnostics(&self) -> (r: &Vec<Diagnostic>)
        ensures
            r@ == self.diags(),
    {
        &self.diagnostics
    }

    /// Read access to the settings of this run.
    pub fn settings(&self) -> (r: &Settings)
        ensures
            *r == self.settings,
    {
        &self.settings
    }
}

} // verus!
