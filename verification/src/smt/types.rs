//! Data types shared by the SMT-backed checks.
use vstd::prelude::*;

verus! {

/// An arithmetic issue proved reachable by the solver.
#[derive(Debug, Clone)]
pub struct SmtInvariantIssue {
    pub function_name: String,
    pub description: String,
    pub location: String,
}

/// Solver settings.
#[derive(Debug, Clone)]
pub struct SmtConfig {
    /// Time the solver may spend on one query, in milliseconds.
    pub timeout_ms: u64,
}

impl Default for SmtConfig {
    /// A timeout of ten seconds.
    fn default() -> (r: Self)
        ensures
            r.timeout_ms == 10_000,
    {
        SmtConfig { timeout_ms: 10_000 }
    }
}

/// The outcome of checking one `#[invariant = "..."]` annotation that could
/// not be proved.
#[derive(Debug, Clone)]
pub struct SmtFinding {
    /// The invariant's expression, verbatim.
    pub invariant_name: String,
    /// The function carrying the annotation.
    pub location: String,
    /// A violating assignment, when the solver found one.
    pub counterexample: Option<String>,
    /// Whether the solver gave up before reaching a verdict.
    pub is_timeout: bool,
}

/// An `#[invariant = "..."]` annotation found on a method.
#[derive(Debug, Clone, PartialEq, Eq)]
pub struct InvariantSpec {
    pub expression: String,
    pub location: String,
}

/// The solver a proof is requested from.
#[derive(Debug, Clone, Copy, PartialEq, Eq, Structural)]
#[non_exhaustive]
pub enum SmtBackend {
    Z3,
    Cvc5,
}

/// Bounds under which `multiplicand * multiplier / divisor` is to be proved
/// free of overflow.
#[derive(Debug, Clone)]
pub struct FixedPointMulDivSpec {
    pub function_name: String,
    pub multiplicand_max: u128,
    pub multiplier_max: u128,
    pub divisor_min: u128,
    pub divisor_max: u128,
    /// An upper bound the final quotient must respect, if any.
    pub result_max: Option<u128>,
}

/// Values within the bounds that break a fixed-point property, in decimal.
#[derive(Debug, Clone)]
pub struct FixedPointCounterexample {
    pub multiplicand: String,
    pub multiplier: String,
    pub divisor: String,
    pub intermediate_product: String,
    pub quotient: String,
}

/// The verdict on a fixed-point specification.
#[derive(Debug, Clone)]
pub struct FixedPointProofReport {
    pub function_name: String,
    pub backend: SmtBackend,
    pub proven_safe: bool,
    pub checked_properties: Vec<String>,
    pub message: String,
    pub counterexample: Option<FixedPointCounterexample>,
}

/// Why a fixed-point proof could not be run.
#[derive(Debug, Clone, PartialEq, Eq)]
pub enum FixedPointProofError {
    InvalidSpec(&'static str),
    UnsupportedBackend(SmtBackend),
    SolverFailure(&'static str),
}

/// A query shape timed by the latency benchmark.
#[derive(Debug, Clone, Copy, PartialEq, Eq, Structural)]
#[non_exhaustive]
pub enum SmtProofStrategy {
    UnconstrainedOverflow,
    BoundedDomainOverflow,
    SmallDomainOverflow,
}

/// Latency statistics of one strategy, in microseconds.
#[derive(Debug, Clone, Copy)]
pub struct SmtStrategyLatency {
    pub strategy: SmtProofStrategy,
    pub runs: usize,
    pub min_micros: u128,
    pub max_micros: u128,
    pub avg_micros: u128,
    pub p95_micros: u128,
}

/// The result of a latency benchmark run.
#[derive(Debug, Clone)]
pub struct SmtLatencyBenchmarkReport {
    pub timestamp: String,
    pub iterations_per_strategy: usize,
    pub strategies: Vec<SmtStrategyLatency>,
}

} // verus!
