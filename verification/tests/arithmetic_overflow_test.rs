//! S003 arithmetic overflow rule.
use sanctifier_core::rules::arithmetic_overflow::ArithmeticOverflowRule;
use sanctifier_core::rules::Rule;

#[test]
fn test_flag_standard_arithmetic() {
    let rule = ArithmeticOverflowRule::new();
    let source = r#"
        fn transfer() {
            let a = 1;
            let b = 2;
            let c = a + b;
            let d = a - b;
            let e = a * b;
            let f = a / b;
            let g = a % b;
        }
    "#;
    let violations = rule.check(source);
    assert_eq!(violations.len(), 5);
}

#[test]
fn test_flag_custom_math_methods() {
    let rule = ArithmeticOverflowRule::new();
    let source = r#"
        fn transfer() {
            let a = 1;
            let b = 2;
            let c = a.mul_div(5, 10);
            let d = a.fixed_point_mul(b);
        }
    "#;
    let violations = rule.check(source);
    assert!(violations.iter().any(|v| v.message.contains("mul_div")));
    assert!(violations
        .iter()
        .any(|v| v.message.contains("fixed_point_mul")));
}

#[test]
fn test_flag_custom_math_calls() {
    let rule = ArithmeticOverflowRule::new();
    let source = r#"
        fn transfer() {
            let a = mul_div(1, 2, 3);
            let b = fixed_point_div(10, 2);
        }
    "#;
    let violations = rule.check(source);
    assert!(violations.iter().any(|v| v.message.contains("mul_div")));
    assert!(violations
        .iter()
        .any(|v| v.message.contains("fixed_point_div")));
}

#[test]
fn test_ignore_checked_methods() {
    let rule = ArithmeticOverflowRule::new();
    let source = r#"
        fn transfer() {
            let a = 1;
            let b = a.checked_add(2);
            let c = a.checked_mul_div(5, 10);
        }
    "#;
    let violations = rule.check(source);
    assert_eq!(violations.len(), 0);
}

#[test]
fn test_skip_test_attribute_functions() {
    let rule = ArithmeticOverflowRule::new();
    // A #[test] fn with arithmetic should produce zero violations.
    let source = r#"
        #[test]
        fn my_unit_test() {
            let a = 1u64;
            let b = 2u64;
            let c = a + b;
            let d = a - b;
            let e = a * b;
        }
    "#;
    let violations = rule.check(source);
    assert_eq!(violations.len(), 0, "#[test] fns must be skipped");
}

#[test]
fn test_skip_cfg_test_module() {
    let rule = ArithmeticOverflowRule::new();
    // All arithmetic inside #[cfg(test)] mod must be ignored.
    let source = r#"
        fn mint(amount: u64) {
            let total = amount + 1;
        }

        #[cfg(test)]
        mod tests {
            fn helper() {
                let x = 1u64 + 2u64;
                let y = x * 10u64;
            }
        }
    "#;
    let violations = rule.check(source);
    // Only `mint` should fire (1 finding for `+`), not the cfg(test) helper.
    assert_eq!(
        violations.len(),
        1,
        "cfg(test) module arithmetic must be skipped"
    );
}

#[test]
fn test_skip_index_subscript_arithmetic() {
    let rule = ArithmeticOverflowRule::new();
    // i + 1 as an array subscript is idiomatic and should not trigger.
    let source = r#"
        fn read_next(buf: &[u8], i: usize) -> u8 {
            buf[i + 1]
        }
    "#;
    let violations = rule.check(source);
    assert_eq!(
        violations.len(),
        0,
        "index subscript arithmetic must be skipped"
    );
}

#[test]
fn default_rule_is_the_arithmetic_rule() {
    let rule = ArithmeticOverflowRule::default();
    assert_eq!(rule.name(), "arithmetic_overflow");
}

#[test]
fn arithmetic_in_array_length_types_is_flagged() {
    let rule = ArithmeticOverflowRule::new();
    let source = r#"
        fn fill(buf: [u8; N * 2]) {
            let x: [u8; A + B] = [0; 4];
        }
    "#;
    let violations = rule.check(source);
    assert_eq!(violations.len(), 2);
}
