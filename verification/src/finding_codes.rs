//! Severity levels shared by findings.
use vstd::prelude::*;

verus! {

/// How serious a finding is.
#[derive(Debug, Clone, Copy, PartialEq, Eq, Structural)]
pub enum FindingSeverity {
    Critical,
    High,
    Medium,
    Low,
    Info,
}

/// The severity a custom rule assigns to its matches.
pub type RuleSeverity = FindingSeverity;

} // verus!
