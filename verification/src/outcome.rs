//! Results that carry warnings beside their data.
use vstd::prelude::*;

use crate::text::owned;

verus! {

/// A warning attached to a successful result.
#[derive(Debug, Clone)]
pub struct Warning {
    pub code: String,
    pub message: String,
    pub details: WarningDetails,
}

/// What a warning reports.
#[derive(Debug, Clone)]
pub enum WarningDetails {
    /// A path whose permission bits let other users in, with the bits in octal.
    Mode { path: String, mode: String },
    /// A path whose permissions could not be verified, and why.
    Reason { path: String, reason: String },
    /// A custom database whose parent directory is not managed here.
    Custom { path: Option<String>, reason: String },
    /// Content with this digest is already stored for the session.
    DuplicateImport { session_id: String, sha256: String },
    /// The file content was imported from.
    ImportedSource { source_path: String },
    /// A session record path that does not exist on this machine.
    RecordPath { session_id: String, record_path: Option<String> },
}

/// A successful result with the warnings that go with it.
#[derive(Debug, Clone)]
pub struct Outcome<T> {
    pub data: T,
    pub warnings: Vec<Warning>,
}

impl<T> Outcome<T> {
    /// A result without warnings.
    pub fn new(data: T) -> (o: Self)
        ensures
            o.data == data,
            o.warnings@.len() == 0,
    {
        Outcome { data, warnings: Vec::new() }
    }

    /// The same result with one more warning at the end.
    pub fn with_warning(self, warning: Warning) -> (o: Self)
        ensures
            o.data == self.data,
            o.warnings@ == self.warnings@.push(warning),
    {
        let mut warnings = self.warnings;
        warnings.push(warning);
        Outcome { data: self.data, warnings }
    }
}

/// Assembles a warning.
pub fn warning(code: &str, message: &str, details: WarningDetails) -> (w: Warning)
    ensures
        w.code@ == code@,
        w.message@ == message@,
        w.details == details,
{
    Warning { code: owned(code), message: owned(message), details }
}

} // verus!
