//! The analyses an `Analyzer` runs.
use sanctifier_core::{Analyzer, PatternType, SanctifyConfig};

#[test]
fn test_analyze_with_limit() {
    let mut config = SanctifyConfig::default();
    config.ledger_limit = 50;
    let analyzer = Analyzer::new(config);
    let source = r#"
        #[contracttype]
        pub struct ExceedsLimit {
            pub buffer: Bytes, // 64 bytes estimated
        }
    "#;
    let warnings = analyzer.analyze_ledger_size(source);
    assert_eq!(warnings.len(), 1);
    assert_eq!(warnings[0].struct_name, "ExceedsLimit");
    assert_eq!(warnings[0].estimated_size, 64);
}

#[test]
fn test_scan_auth_gaps() {
    let analyzer = Analyzer::new(SanctifyConfig::default());
    let source = r#"
        #[contractimpl]
        impl MyContract {
            pub fn set_data(env: Env, val: u32) {
                env.storage().instance().set(&DataKey::Val, &val);
            }
        }
    "#;
    let gaps = analyzer.scan_auth_gaps(source);
    assert_eq!(gaps.len(), 1);
    assert_eq!(gaps[0], "set_data");
}

#[test]
fn arithmetic_scan_reports_each_function_and_operator_once() {
    let analyzer = Analyzer::new(SanctifyConfig::default());
    let source = "fn f(a: u64, b: u64) -> u64 {\n    let x = a + b;\n    let y = a + 1;\n    let z = a - b;\n    x + y + z\n}\nfn g(a: u64) -> u64 { a + a }\n";
    let issues = analyzer.scan_arithmetic_overflow(source);
    let pairs: Vec<(&str, &str)> = issues.iter().map(|i| (i.function_name.as_str(), i.operation.as_str())).collect();
    assert_eq!(pairs, vec![("f", "+"), ("f", "-"), ("g", "+")]);
    assert_eq!(issues[0].location, "f:2");
    assert_eq!(issues[0].suggestion, "Use `.checked_add()`");
    assert_eq!(issues[1].location, "f:4");
}

#[test]
fn string_concatenation_is_not_arithmetic() {
    let analyzer = Analyzer::new(SanctifyConfig::default());
    let issues = analyzer.scan_arithmetic_overflow("fn f(s: String) -> String { s + \"x\" }");
    assert!(issues.is_empty());
}

#[test]
fn arithmetic_scan_reports_division_and_remainder() {
    let analyzer = Analyzer::new(SanctifyConfig::default());
    let source = "impl C {\n    pub fn f(a: u64, b: u64) -> u64 {\n        let q = a / b;\n        let mut r = a % b;\n        r /= b;\n        r %= b;\n        q + r\n    }\n}\n";
    let issues = analyzer.scan_arithmetic_overflow(source);
    let ops: Vec<&str> = issues.iter().map(|i| i.operation.as_str()).collect();
    assert_eq!(ops, vec!["/", "%", "/=", "%=", "+"]);
    assert_eq!(issues[0].function_name, "f");
    assert_eq!(issues[0].location, "f:3");
    assert_eq!(issues[0].suggestion, "Use `.checked_div()`");
    assert_eq!(issues[1].suggestion, "Use `.checked_rem()`");
    assert_eq!(issues[2].suggestion, "Replace with checked_div");
    assert_eq!(issues[3].suggestion, "Replace with checked_rem");
}

#[test]
fn arithmetic_in_a_parameter_type_is_reported() {
    let analyzer = Analyzer::new(SanctifyConfig::default());
    let source = "fn f(buf: [u8; N * 2]) -> u8 {\n    buf[0]\n}\n";
    let issues = analyzer.scan_arithmetic_overflow(source);
    let pairs: Vec<(&str, &str)> = issues.iter().map(|i| (i.function_name.as_str(), i.operation.as_str())).collect();
    assert_eq!(pairs, vec![("f", "*")]);
    assert_eq!(issues[0].location, "f:1");
}

#[test]
fn arithmetic_in_a_let_type_and_a_cast_is_reported() {
    let analyzer = Analyzer::new(SanctifyConfig::default());
    let source = "fn g(v: &[u8]) {\n    let x: [u8; A + B] = [0; 4];\n    let y = v as [u8; N - 1];\n}\n";
    let issues = analyzer.scan_arithmetic_overflow(source);
    let pairs: Vec<(&str, &str)> = issues.iter().map(|i| (i.function_name.as_str(), i.operation.as_str())).collect();
    assert_eq!(pairs, vec![("g", "+"), ("g", "-")]);
    assert_eq!(issues[0].location, "g:2");
    assert_eq!(issues[1].location, "g:3");
}

#[test]
fn arithmetic_in_nested_enum_trait_and_impl_types_is_reported() {
    let analyzer = Analyzer::new(SanctifyConfig::default());
    let source = "fn outer() {\n    enum E { A([u8; N * 2]) }\n    trait T { fn m(x: [u8; N + 1]); }\n    impl C { const K: [u8; N - 1] = [0; 3]; }\n}\n";
    let issues = analyzer.scan_arithmetic_overflow(source);
    let pairs: Vec<(&str, &str)> = issues.iter().map(|i| (i.function_name.as_str(), i.operation.as_str())).collect();
    assert_eq!(pairs, vec![("outer", "*"), ("outer", "+"), ("outer", "-")]);
    assert_eq!(issues[0].location, "outer:2");
    assert_eq!(issues[1].location, "outer:3");
    assert_eq!(issues[2].location, "outer:4");
}

#[test]
fn unwrap_inside_an_array_length_is_an_unsafe_pattern() {
    let analyzer = Analyzer::new(SanctifyConfig::default());
    let source = "enum E {\n    A([u8; n().unwrap()]),\n}\n";
    let patterns = analyzer.analyze_unsafe_patterns(source);
    assert_eq!(patterns.len(), 1);
    assert_eq!(patterns[0].pattern_type, PatternType::Unwrap);
    assert_eq!(patterns[0].line, 2);
}
