//! `#[invariant = "..."]` extraction and checks.
use sanctifier_core::smt::{parse_invariants, verify_invariants, SmtConfig};

#[test]
fn verify_invariants_empty_source_returns_no_findings() {
    let findings = verify_invariants("", &SmtConfig::default());
    assert!(findings.is_empty(), "empty source must produce no findings");
}

#[test]
fn verify_invariants_parse_error_returns_no_findings() {
    let findings = verify_invariants("this is not valid rust }{{{", &SmtConfig::default());
    assert!(
        findings.is_empty(),
        "unparseable source must produce no findings"
    );
}

#[test]
fn parse_invariants_extracts_attribute_from_ast() {
    let source = r#"
        impl Vault {
            #[invariant = "balance + deposit <= u64::MAX"]
            pub fn deposit(&self, deposit: u64) {}
        }
    "#;
    let specs = parse_invariants(source);
    assert_eq!(specs.len(), 1);
    assert_eq!(specs[0].expression, "balance + deposit <= u64::MAX");
    assert_eq!(specs[0].location, "deposit");
}

#[test]
fn verify_invariants_addition_overflow_flagged() {
    let source = r#"
        impl Vault {
            #[invariant = "a + b is safe"]
            pub fn credit(&self, a: u64, b: u64) {}
        }
    "#;
    let findings = verify_invariants(source, &SmtConfig::default());
    assert_eq!(findings.len(), 1);
    assert!(
        !findings[0].is_timeout,
        "should be a SAT result, not timeout"
    );
    assert!(
        findings[0].counterexample.is_some(),
        "counterexample must be populated for an unsafe invariant"
    );
    assert!(
        findings[0]
            .counterexample
            .as_ref()
            .unwrap()
            .contains("overflow"),
        "counterexample should mention overflow"
    );
}

#[test]
fn verify_invariants_non_arithmetic_expression_is_safe() {
    let source = r#"
        impl Token {
            #[invariant = "admin_only"]
            pub fn burn(&self) {}
        }
    "#;
    let findings = verify_invariants(source, &SmtConfig::default());
    assert!(
        findings.is_empty(),
        "non-arithmetic invariant must not produce a finding"
    );
}

#[test]
fn verify_invariants_timeout_produces_is_timeout_true() {
    let source = r#"
        impl Vault {
            #[invariant = "a + b is safe"]
            pub fn credit(&self, a: u64, b: u64) {}
        }
    "#;
    let config = SmtConfig { timeout_ms: 1 };
    let findings = verify_invariants(source, &config);
    for f in &findings {
        if f.is_timeout {
            assert!(
                f.counterexample.is_none(),
                "timed-out findings must have no counterexample"
            );
        }
    }
}
