//! Static analysis of Soroban smart-contract sources.
//!
//! Sources are parsed with `syn` (see [`bridge`]) into the library's own
//! syntax model ([`syntax`]); every analysis is a verified function over that
//! model, with a contract that states exactly what it reports.
use vstd::prelude::*;

pub mod syntax;
pub mod seqs;
pub mod text;
pub mod events;
pub mod bridge;
pub mod patterns;
pub mod finding_codes;
pub mod custom_rules;
pub mod rules;
pub mod smt;
pub mod sep41;
pub mod analyzer;
pub mod input_validation;
pub mod parser;
pub mod contract_discovery;
pub mod constant_folding;
pub mod cfg;
pub mod taint_engine;
pub mod vulndb;
pub mod logging;
pub mod serve;

pub use finding_codes::{FindingSeverity, RuleSeverity};
pub use custom_rules::{CustomRule, CustomRuleMatch, CustomRuleValidationError};

verus! {

// ── Configuration ───────────────────────────────────────────────────────────

/// What an analysis run looks at and how strictly.
#[derive(Debug, Clone)]
pub struct SanctifyConfig {
    pub ignore_paths: Vec<String>,
    pub enabled_rules: Vec<String>,
    pub ledger_limit: usize,
    pub strict_mode: bool,
}

impl Default for SanctifyConfig {
    /// Ignores `target` and `.git`, enables the four built-in analyses, with
    /// a ledger entry limit of 64000 bytes and strict mode off.
    fn default() -> (r: Self)
        ensures
            crate::text::strings_view(r.ignore_paths@) == seq!["target"@, ".git"@],
            crate::text::strings_view(r.enabled_rules@) == seq![
                "auth_gaps"@,
                "panics"@,
                "arithmetic"@,
                "ledger_size"@,
            ],
            r.ledger_limit == 64000,
            !r.strict_mode,
    {
        let mut ignore_paths: Vec<String> = Vec::new();
        ignore_paths.push("target".to_owned());
        ignore_paths.push(".git".to_owned());
        let mut enabled_rules: Vec<String> = Vec::new();
        enabled_rules.push("auth_gaps".to_owned());
        enabled_rules.push("panics".to_owned());
        enabled_rules.push("arithmetic".to_owned());
        enabled_rules.push("ledger_size".to_owned());
        assert(crate::text::strings_view(ignore_paths@) =~= seq!["target"@, ".git"@]);
        assert(crate::text::strings_view(enabled_rules@) =~= seq![
            "auth_gaps"@,
            "panics"@,
            "arithmetic"@,
            "ledger_size"@,
        ]);
        SanctifyConfig { ignore_paths, enabled_rules, ledger_limit: 64000, strict_mode: false }
    }
}

// ── Findings ────────────────────────────────────────────────────────────────

/// A `#[contracttype]` struct whose estimated size passes the ledger limit.
#[derive(Debug, Clone)]
pub struct SizeWarning {
    pub struct_name: String,
    pub estimated_size: usize,
    pub limit: usize,
}

/// A construct that can panic at run time.
#[derive(Debug, Clone, Copy, PartialEq, Eq, Structural)]
pub enum PatternType {
    Panic,
    Unwrap,
    Expect,
}

/// A panicking construct and the line it stands on.
#[derive(Debug, Clone)]
pub struct UnsafePattern {
    pub pattern_type: PatternType,
    pub line: usize,
    pub snippet: String,
}

/// A panicking construct inside a method of an `impl` block.
#[derive(Debug, Clone)]
pub struct PanicIssue {
    pub function_name: String,
    /// `"panic!"`, `"unwrap"` or `"expect"`.
    pub issue_type: String,
    pub location: String,
}

/// An error raised by a contract's invariant check.
#[derive(Debug)]
pub enum Error {
    InvariantViolation(String),
    Internal(String),
}

impl Error {
    /// The error's human-readable message.
    pub fn message(&self) -> (r: String)
        ensures
            r@ == match self {
                Error::InvariantViolation(m) => "invariant violation: "@ + m@,
                Error::Internal(m) => "internal error: "@ + m@,
            },
    {
        match self {
            Error::InvariantViolation(m) => crate::text::concat("invariant violation: ", m.as_str()),
            Error::Internal(m) => crate::text::concat("internal error: ", m.as_str()),
        }
    }
}

/// An unchecked arithmetic operation found in a function.
#[derive(Debug, Clone)]
pub struct ArithmeticIssue {
    pub function_name: String,
    pub operation: String,
    pub suggestion: String,
    pub location: String,
}

/// A finding located in a file.
#[derive(Debug, Clone)]
pub struct Finding {
    pub severity: String,
    pub file: String,
    pub line: usize,
    pub message: String,
}

// ── Analyzer ────────────────────────────────────────────────────────────────

/// Runs the analyses under a configuration.
pub struct Analyzer {
    pub config: SanctifyConfig,
}

impl Analyzer {
    /// An analyzer with `config`.
    pub fn new(config: SanctifyConfig) -> (r: Self)
        ensures
            r.config == config,
    {
        Analyzer { config }
    }

    /// Storage-key collisions among `keys`; this check never reports one.
    pub fn check_storage_collisions(&self, keys: Vec<String>) -> (r: bool)
        ensures
            !r,
    {
        false
    }
}

} // verus!
