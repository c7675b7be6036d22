//! SEP-41 compliance checks on small contracts.
use sanctifier_core::sep41::{self, Sep41IssueKind};

#[test]
fn verifies_exact_sep41_interface() {
    let source = r#"
        use soroban_sdk::{Address, Env, MuxedAddress, String};

        #[contractimpl]
        impl Token {
            pub fn allowance(env: Env, from: Address, spender: Address) -> i128 { 0 }
            pub fn approve(env: Env, from: Address, spender: Address, amount: i128, expiration_ledger: u32) {
                from.require_auth();
            }
            pub fn balance(env: Env, id: Address) -> i128 { 0 }
            pub fn transfer(env: Env, from: Address, to: MuxedAddress, amount: i128) {
                from.require_auth();
            }
            pub fn transfer_from(env: Env, spender: Address, from: Address, to: Address, amount: i128) {
                spender.require_auth();
            }
            pub fn burn(env: Env, from: Address, amount: i128) {
                from.require_auth();
            }
            pub fn burn_from(env: Env, spender: Address, from: Address, amount: i128) {
                spender.require_auth();
            }
            pub fn decimals(env: Env) -> u32 { 7 }
            pub fn name(env: Env) -> String { String::from_str(&env, "Token") }
            pub fn symbol(env: Env) -> String { String::from_str(&env, "TOK") }
        }
    "#;

    let report = sep41::verify(source);
    assert!(report.candidate);
    assert!(report.compliant);
    assert!(report.issues.is_empty());
    assert_eq!(report.verified_functions.len(), 10);
}

#[test]
fn reports_missing_sep41_functions() {
    let source = r#"
        use soroban_sdk::{Address, Env, String};

        #[contractimpl]
        impl Token {
            pub fn balance(env: Env, id: Address) -> i128 { 0 }
            pub fn transfer(env: Env, from: Address, to: Address, amount: i128) {}
            pub fn name(env: Env) -> String { String::from_str(&env, "Token") }
        }
    "#;

    let report = sep41::verify(source);
    assert!(report.candidate);
    assert!(!report.compliant);
    assert!(report
        .issues
        .iter()
        .any(|issue| issue.kind == Sep41IssueKind::MissingFunction
            && issue.function_name == "allowance"));
}

#[test]
fn reports_signature_mismatches() {
    let source = r#"
        use soroban_sdk::{Address, Env, String};

        #[contractimpl]
        impl Token {
            pub fn allowance(env: Env, from: Address, spender: Address) -> i128 { 0 }
            pub fn approve(env: Env, from: Address, spender: Address, amount: i128, expiration_ledger: u32) {
                from.require_auth();
            }
            pub fn balance(env: Env, id: Address) -> i128 { 0 }
            pub fn transfer(env: Env, from: Address, to: Address, amount: i128) {
                from.require_auth();
            }
            pub fn transfer_from(env: Env, spender: Address, from: Address, to: Address, amount: i128) {
                spender.require_auth();
            }
            pub fn burn(env: Env, from: Address, amount: i128) {
                from.require_auth();
            }
            pub fn burn_from(env: Env, spender: Address, from: Address, amount: i128) {
                spender.require_auth();
            }
            pub fn decimals(env: Env) -> u32 { 7 }
            pub fn name(env: Env) -> String { String::from_str(&env, "Token") }
            pub fn symbol(env: Env) -> String { String::from_str(&env, "TOK") }
        }
    "#;

    let report = sep41::verify(source);
    assert!(report
        .issues
        .iter()
        .any(|issue| issue.kind == Sep41IssueKind::SignatureMismatch
            && issue.function_name == "transfer"));
}

#[test]
fn reports_authorization_mismatches() {
    let source = r#"
        use soroban_sdk::{Address, Env, MuxedAddress, String};

        #[contractimpl]
        impl Token {
            pub fn allowance(env: Env, from: Address, spender: Address) -> i128 { 0 }
            pub fn approve(env: Env, from: Address, spender: Address, amount: i128, expiration_ledger: u32) {}
            pub fn balance(env: Env, id: Address) -> i128 { 0 }
            pub fn transfer(env: Env, from: Address, to: MuxedAddress, amount: i128) {
                from.require_auth();
            }
            pub fn transfer_from(env: Env, spender: Address, from: Address, to: Address, amount: i128) {
                spender.require_auth();
            }
            pub fn burn(env: Env, from: Address, amount: i128) {
                from.require_auth();
            }
            pub fn burn_from(env: Env, spender: Address, from: Address, amount: i128) {
                spender.require_auth();
            }
            pub fn decimals(env: Env) -> u32 { 7 }
            pub fn name(env: Env) -> String { String::from_str(&env, "Token") }
            pub fn symbol(env: Env) -> String { String::from_str(&env, "TOK") }
        }
    "#;

    let report = sep41::verify(source);
    assert!(report.issues.iter().any(|issue| {
        issue.kind == Sep41IssueKind::AuthorizationMismatch && issue.function_name == "approve"
    }));
}

#[test]
fn ignores_non_token_contracts() {
    let source = r#"
        #[contractimpl]
        impl Counter {
            pub fn increment(env: Env) {}
            pub fn get(env: Env) -> u32 { 0 }
        }
    "#;

    let report = sep41::verify(source);
    assert!(!report.candidate);
    assert!(!report.compliant);
    assert!(report.issues.is_empty());
}
