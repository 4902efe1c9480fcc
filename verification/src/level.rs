//! Diagnostic severity levels and per-file run modes.
use vstd::prelude::*;
use vstd::string::StringSliceAdditionalSpecFns;
use crate::bytes::bytes_eq_str;

verus! {

/// Severity of an expected diagnostic.
#[derive(Debug, Clone, Copy, PartialEq, Eq, Structural)]
pub enum Level {
    Error,
    Warn,
    Help,
    Note,
}

/// How the test file is to be run once built.
#[derive(Debug, Clone, Copy, PartialEq, Eq, Structural)]
pub enum Mode {
    /// The build must pass.
    Pass,
    /// Run the binary and require this exit code.
    Run { exit_code: i32 },
    /// Apply the machine-applicable fixes and check the result.
    Fix,
}

impl DeepView for Level {
    type V = Level;

    open spec fn deep_view(&self) -> Level {
        *self
    }
}

impl DeepView for Mode {
    type V = Mode;

    open spec fn deep_view(&self) -> Mode {
        *self
    }
}

/// The fixed severity vocabulary: the annotation labels and their lowercase
/// forms used by diagnostic output, matched exactly (no case folding).
pub open spec fn spec_parse_level(s: Seq<u8>) -> Option<Level> {
    if s == "ERROR".spec_bytes() || s == "error".spec_bytes() {
        Some(Level::Error)
    } else if s == "WARN".spec_bytes() || s == "warning".spec_bytes() {
        Some(Level::Warn)
    } else if s == "HELP".spec_bytes() || s == "help".spec_bytes() {
        Some(Level::Help)
    } else if s == "NOTE".spec_bytes() || s == "note".spec_bytes() {
        Some(Level::Note)
    } else {
        None
    }
}

impl Level {
    /// Parses a severity label; `None` exactly on text outside the vocabulary.
    pub fn parse(s: &[u8]) -> (r: Option<Level>)
        ensures
            r == spec_parse_level(s@),
    {
        if bytes_eq_str(s, "ERROR") || bytes_eq_str(s, "error") {
            Some(Level::Error)
        } else if bytes_eq_str(s, "WARN") || bytes_eq_str(s, "warning") {
            Some(Level::Warn)
        } else if bytes_eq_str(s, "HELP") || bytes_eq_str(s, "help") {
            Some(Level::Help)
        } else if bytes_eq_str(s, "NOTE") || bytes_eq_str(s, "note") {
            Some(Level::Note)
        } else {
            None
        }
    }
}

} // verus!
