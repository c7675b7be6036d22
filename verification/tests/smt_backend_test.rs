//! Fixed-point bound proofs and backend dispatch.
use sanctifier_core::smt::{
    prove_fixed_point_mul_div_bounds, prove_fixed_point_mul_div_bounds_with_backend,
    FixedPointMulDivSpec, FixedPointProofError, SmtBackend,
};

#[test]
fn prove_fixed_point_reports_safe_ranges() {
    let spec = FixedPointMulDivSpec {
        function_name: "mul_div_floor".to_string(),
        multiplicand_max: 1_000_000_000_000_000_000,
        multiplier_max: 1_000_000_000_000_000_000,
        divisor_min: 1,
        divisor_max: 10_000_000,
        result_max: Some(u128::MAX),
    };
    let report = prove_fixed_point_mul_div_bounds(&spec).unwrap();
    assert!(report.proven_safe);
    assert!(report.counterexample.is_none());
}

#[test]
fn prove_fixed_point_reports_counterexample_for_unsafe_ranges() {
    let spec = FixedPointMulDivSpec {
        function_name: "mul_div_floor".to_string(),
        multiplicand_max: u128::MAX,
        multiplier_max: 2,
        divisor_min: 1,
        divisor_max: 1,
        result_max: None,
    };
    let report = prove_fixed_point_mul_div_bounds(&spec).unwrap();
    assert!(!report.proven_safe);
    let witness = report.counterexample.unwrap();
    assert!(!witness.intermediate_product.is_empty());
}

#[test]
fn prove_fixed_point_rejects_zero_divisor() {
    let spec = FixedPointMulDivSpec {
        function_name: "invalid".to_string(),
        multiplicand_max: 10,
        multiplier_max: 10,
        divisor_min: 0,
        divisor_max: 10,
        result_max: None,
    };
    let error = prove_fixed_point_mul_div_bounds(&spec).unwrap_err();
    assert_eq!(
        error,
        FixedPointProofError::InvalidSpec("divisor_min must be greater than zero")
    );
}

#[test]
fn prove_fixed_point_rejects_inverted_divisor_range() {
    let spec = FixedPointMulDivSpec {
        function_name: "invalid".to_string(),
        multiplicand_max: 10,
        multiplier_max: 10,
        divisor_min: 10,
        divisor_max: 1,
        result_max: None,
    };
    let error = prove_fixed_point_mul_div_bounds(&spec).unwrap_err();
    assert_eq!(
        error,
        FixedPointProofError::InvalidSpec(
            "divisor_max must be greater than or equal to divisor_min"
        )
    );
}

#[test]
fn prove_fixed_point_returns_unsupported_for_cvc5_backend() {
    let spec = FixedPointMulDivSpec {
        function_name: "mul_div_floor".to_string(),
        multiplicand_max: 10,
        multiplier_max: 10,
        divisor_min: 1,
        divisor_max: 10,
        result_max: None,
    };
    let error =
        prove_fixed_point_mul_div_bounds_with_backend(SmtBackend::Cvc5, &spec).unwrap_err();
    assert_eq!(
        error,
        FixedPointProofError::UnsupportedBackend(SmtBackend::Cvc5)
    );
}
