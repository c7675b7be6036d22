//! S031 gas exhaustion rule.
use sanctifier_core::parser::parse_source;
use sanctifier_core::rules::gas_exhaustion::{unbounded_param_names, GasExhaustionRiskRule};
use sanctifier_core::syntax::AstItem;
use sanctifier_core::rules::Rule;

#[test]
fn flags_for_loop_over_full_vec_param() {
    let rule = GasExhaustionRiskRule::new();
    let source = r#"
        impl Batch {
            pub fn process(env: Env, recipients: Vec<Address>) {
                for r in recipients.iter() {
                    do_transfer(&env, r);
                }
            }
        }
    "#;
    let violations = rule.check(source);
    assert!(!violations.is_empty(), "unbounded Vec parameter loop must be flagged");
    assert!(violations[0].message.contains("process"));
}

#[test]
fn flags_range_loop_bound_by_integer_param() {
    let rule = GasExhaustionRiskRule::new();
    let source = r#"
        impl Counter {
            pub fn bump_many(env: Env, count: u32) {
                for i in 0..count {
                    bump(&env, i);
                }
            }
        }
    "#;
    let violations = rule.check(source);
    assert!(!violations.is_empty(), "range bound by raw integer parameter must be flagged");
}

#[test]
fn flags_while_loop_bound_by_param_len() {
    let rule = GasExhaustionRiskRule::new();
    let source = r#"
        impl Batch {
            pub fn process(env: Env, items: Vec<u32>) {
                let mut i = 0;
                while i < items.len() {
                    i += 1;
                }
            }
        }
    "#;
    let violations = rule.check(source);
    assert!(!violations.is_empty(), "while loop bound by param.len() must be flagged");
}

#[test]
fn does_not_flag_when_take_clamp_applied() {
    let rule = GasExhaustionRiskRule::new();
    let source = r#"
        impl Batch {
            pub fn process(env: Env, recipients: Vec<Address>) {
                for r in recipients.iter().take(MAX_BATCH) {
                    do_transfer(&env, r);
                }
            }
        }
    "#;
    let violations = rule.check(source);
    assert!(violations.is_empty(), ".take(...) clamp must suppress the finding");
}

#[test]
fn does_not_flag_when_min_clamp_applied_to_range() {
    let rule = GasExhaustionRiskRule::new();
    let source = r#"
        impl Counter {
            pub fn bump_many(env: Env, count: u32) {
                for i in 0..count.min(MAX_COUNT) {
                    bump(&env, i);
                }
            }
        }
    "#;
    let violations = rule.check(source);
    assert!(violations.is_empty(), ".min(...) clamp on the range bound must suppress the finding");
}

#[test]
fn does_not_flag_loop_over_fixed_constant() {
    let rule = GasExhaustionRiskRule::new();
    let source = r#"
        impl Counter {
            pub fn bump_fixed(env: Env) {
                for i in 0..10 {
                    bump(&env, i);
                }
            }
        }
    "#;
    let violations = rule.check(source);
    assert!(violations.is_empty(), "loop bound by a fixed literal must not be flagged");
}

#[test]
fn does_not_flag_function_without_unbounded_params() {
    let rule = GasExhaustionRiskRule::new();
    let source = r#"
        impl Vault {
            pub fn admin(&self, env: Env, admin: Address) {
                for i in 0..5 {
                    log(&env, i);
                }
            }
        }
    "#;
    let violations = rule.check(source);
    assert!(violations.is_empty());
}

#[test]
fn empty_source_produces_no_findings() {
    let rule = GasExhaustionRiskRule::new();
    assert!(rule.check("").is_empty());
}

#[test]
fn invalid_source_produces_no_panic() {
    let rule = GasExhaustionRiskRule::new();
    assert!(rule.check("not valid rust {{{{").is_empty());
}

#[test]
fn default_rule_is_the_gas_rule() {
    let rule = GasExhaustionRiskRule::default();
    assert_eq!(rule.name(), "gas_exhaustion_risk");
    assert!(rule.description().contains("S031"));
}

#[test]
fn signed_integers_are_not_caller_sized() {
    let file = parse_source("fn f(env: Env, amount: i128, items: Vec<u32>) {}").unwrap().file;
    match &file.items[0] {
        AstItem::Fn { sig, .. } => assert_eq!(unbounded_param_names(&sig.inputs), vec!["items".to_string()]),
        _ => panic!("expected a function item"),
    }
}

#[test]
fn does_not_flag_range_bound_by_signed_param() {
    let rule = GasExhaustionRiskRule::new();
    let source = r#"
        impl Pool {
            pub fn spread(env: Env, amount: i128) {
                for i in 0..amount {
                    bump(&env, i);
                }
            }
        }
    "#;
    assert!(rule.check(source).is_empty());
}
