//! The rule interface shared by the rule-based checks, and their findings.
use vstd::prelude::*;

pub mod arithmetic_overflow;
pub mod gas_exhaustion;
pub mod taint_propagation;

verus! {

/// How serious a rule violation is.
#[derive(PartialEq, Eq, Structural, Clone, Copy, Debug)]
pub enum Severity {
    Error,
    Warning,
    Info,
}

/// A finding reported by a rule.
#[derive(Debug)]
pub struct RuleViolation {
    pub rule_name: String,
    pub severity: Severity,
    pub message: String,
    pub location: String,
    pub suggestion: Option<String>,
}

/// The plain values of a violation: rule name, severity, message, location, suggestion.
pub type ViolationView = (Seq<char>, Severity, Seq<char>, Seq<char>, Option<Seq<char>>);

/// The characters of an optional string.
pub open spec fn opt_chars(o: Option<String>) -> Option<Seq<char>> {
    match o {
        Some(s) => Some(s@),
        None => None,
    }
}

impl RuleViolation {
    /// The violation as plain values.
    pub open spec fn view_of(&self) -> ViolationView {
        (self.rule_name@, self.severity, self.message@, self.location@, opt_chars(self.suggestion))
    }

    /// A violation of `rule_name` with no suggestion.
    pub fn new(rule_name: &str, severity: Severity, message: String, location: String) -> (r: Self)
        ensures
            r.view_of() == (rule_name@, severity, message@, location@, None::<Seq<char>>),
    {
        RuleViolation {
            rule_name: rule_name.to_owned(),
            severity,
            message,
            location,
            suggestion: None,
        }
    }

    /// The same violation, carrying `suggestion`.
    pub fn with_suggestion(self, suggestion: String) -> (r: Self)
        ensures
            r.view_of() == (
                self.rule_name@,
                self.severity,
                self.message@,
                self.location@,
                Some(suggestion@),
            ),
    {
        RuleViolation { suggestion: Some(suggestion), ..self }
    }
}

/// The views of a sequence of violations.
pub open spec fn violations_view(v: Seq<RuleViolation>) -> Seq<ViolationView> {
    v.map_values(|x: RuleViolation| x.view_of())
}

/// A check run over the source text of one file.
pub trait Rule {
    /// The rule's identifier.
    fn name(&self) -> &str;

    /// A one-line description of what the rule detects.
    fn description(&self) -> &str;

    /// The rule's findings on `source`.
    fn check(&self, source: &str) -> Vec<RuleViolation>;
}

} // verus!
