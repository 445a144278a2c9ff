//! Structured diagnostics: severity, message, optional source location, and
//! the pipeline stage that raised the record.

use vstd::prelude::*;

use crate::code_location::CodeLocation;

verus! {

/// Severity of a diagnostic, from least to most severe.
#[derive(Debug, Clone, Copy, PartialEq, Eq, Structural)]
pub enum DiagnosticType {
    Info,
    Warning,
    Error,
}

impl DiagnosticType {
    /// A numeric rank: `Info` is lowest, `Error` highest.
    pub open spec fn rank(self) -> int {
        match self {
            DiagnosticType::Info => 0,
            DiagnosticType::Warning => 1,
            DiagnosticType::Error => 2,
        }
    }
}

/// The pipeline stage a diagnostic was raised in.
#[derive(Debug, Clone, Copy, PartialEq, Eq, Structural)]
pub enum DiagnosticPipelineLocation {
    IO,
    Lexing,
    Parsing,
    Translation,
    Access,
    GraphCompilation,
}

/// One diagnostic record.
#[derive(Debug, Clone)]
pub struct Diagnostic {
    pub diagnostic_type: DiagnosticType,
    pub description: String,
    pub location: Option<CodeLocation>,
    pub pipeline_location: DiagnosticPipelineLocation,
}

impl Diagnostic {
    pub fn new(
        diagnostic_type: DiagnosticType,
        description: String,
        location: Option<CodeLocation>,
        pipeline_location: DiagnosticPipelineLocation,
    ) -> (r: Self)
        ensures
            r.diagnostic_type == diagnostic_type,
            r.description@ == description@,
            r.location == location,
            r.pipeline_location == pipeline_location,
    {
        Self { diagnostic_type, description, location, pipeline_location }
    }

    /// Whether this record's severity is strictly below `t`.
    pub fn type_lower_than(&self, t: DiagnosticType) -> (r: bool)
        ensures
            r == (self.diagnostic_type.rank() < t.rank()),
    {
        let own: u8 = match self.diagnostic_type {
            DiagnosticType::Info => 0,
            DiagnosticType::Warning => 1,
            DiagnosticType::Error => 2,
        };
        let other: u8 = match t {
            DiagnosticType::Info => 0,
            DiagnosticType::Warning => 1,
            DiagnosticType::Error => 2,
        };
        own < other
    }
}

} // verus!
