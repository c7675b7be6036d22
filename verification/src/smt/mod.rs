//! Formally stated arithmetic checks (S011).
//!
//! | Sub-module | Responsibility |
//! |---|---|
//! | [`types`] | Shared data types and error enums |
//! | [`invariants`] | `#[invariant = "..."]` extraction and overflow/underflow checks |
//! | [`backend`] | Fixed-point `a * b / d` bound proofs and backend dispatch |
//! | [`benchmark`] | Latency statistics of solver strategies |

pub mod types;
pub mod backend;
pub mod invariants;
pub mod benchmark;

pub use types::{
    FixedPointCounterexample, FixedPointMulDivSpec, FixedPointProofError, FixedPointProofReport,
    InvariantSpec, SmtBackend, SmtConfig, SmtFinding, SmtInvariantIssue, SmtLatencyBenchmarkReport,
    SmtProofStrategy, SmtStrategyLatency,
};
pub use backend::{
    prove_fixed_point_mul_div_bounds, prove_fixed_point_mul_div_bounds_with_backend,
    validate_fixed_point_spec,
};
pub use invariants::{parse_invariants, verify_invariants};
