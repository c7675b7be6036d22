//! Integration tests for `parser` + `contract_discovery`.
//!
//! These tests run against the canonical fixture files in `tests/fixtures/`
//! and verify end-to-end behaviour: read raw source → validate → parse → discover.

use sanctifier_core::{contract_discovery, parser};

// ── Fixtures (the files of `tests/fixtures/`, inlined) ──────────────────────────

const MINIMAL_CONTRACT: &str = r##"#![no_std]

use soroban_sdk::{contract, contractimpl, Env};

/// The smallest valid Soroban contract — one public function, no storage, no auth.
#[contract]
pub struct MinimalContract;

#[contractimpl]
impl MinimalContract {
    pub fn ping(_env: Env) -> u32 {
        42
    }
}
"##;

const MULTI_CONTRACT: &str = r##"#![no_std]

use soroban_sdk::{contract, contractimpl, contracttype, Address, Env};

// ── Shared storage types ───────────────────────────────────────────────────────

#[contracttype]
pub enum TokenKey {
    Balance(Address),
    Admin,
}

#[contracttype]
pub enum VaultKey {
    Depositor(Address),
    TotalDeposits,
}

// ── Contract A: simple token ──────────────────────────────────────────────────

#[contract]
pub struct TokenA;

#[contractimpl]
impl TokenA {
    pub fn initialize(env: Env, admin: Address) {
        admin.require_auth();
        env.storage().instance().set(&TokenKey::Admin, &admin);
    }

    pub fn balance(env: Env, user: Address) -> i128 {
        env.storage().persistent().get(&TokenKey::Balance(user)).unwrap_or(0)
    }

    pub fn transfer(env: Env, from: Address, to: Address, amount: i128) {
        from.require_auth();
        let from_bal: i128 =
            env.storage().persistent().get(&TokenKey::Balance(from.clone())).unwrap_or(0);
        let to_bal: i128 =
            env.storage().persistent().get(&TokenKey::Balance(to.clone())).unwrap_or(0);
        env.storage().persistent().set(&TokenKey::Balance(from), &(from_bal - amount));
        env.storage().persistent().set(&TokenKey::Balance(to), &(to_bal + amount));
    }
}

// ── Contract B: vault ─────────────────────────────────────────────────────────

#[contract]
pub struct VaultB;

#[contractimpl]
impl VaultB {
    pub fn deposit(env: Env, user: Address, amount: i128) {
        user.require_auth();
        let current: i128 = env
            .storage()
            .persistent()
            .get(&VaultKey::Depositor(user.clone()))
            .unwrap_or(0);
        env.storage()
            .persistent()
            .set(&VaultKey::Depositor(user), &(current + amount));
    }

    pub fn total(env: Env) -> i128 {
        env.storage().persistent().get(&VaultKey::TotalDeposits).unwrap_or(0)
    }
}
"##;

const CONTRACT_WITH_STORAGE_TYPES: &str = r##"#![no_std]

use soroban_sdk::{contract, contractimpl, contracttype, Address, Env};

// ── Storage layout ─────────────────────────────────────────────────────────────

#[contracttype]
pub enum DataKey {
    Admin,
    Counter,
    User(Address),
}

#[contracttype]
pub struct Config {
    pub max_value: u64,
    pub owner: Address,
}

// ── Contract ───────────────────────────────────────────────────────────────────

#[contract]
pub struct Registry;

#[contractimpl]
impl Registry {
    /// Reserved constructor — sets up initial state.
    pub fn __constructor(env: Env, admin: Address, max_value: u64) {
        env.storage().instance().set(&DataKey::Admin, &admin);
        env.storage().instance().set(&DataKey::Counter, &0u64);
        env.storage().instance().set(
            &DataKey::Admin,
            &Config {
                max_value,
                owner: admin,
            },
        );
    }

    pub fn increment(env: Env, caller: Address) -> u64 {
        caller.require_auth();
        let count: u64 = env.storage().instance().get(&DataKey::Counter).unwrap_or(0);
        let new_count = count.checked_add(1).expect("counter overflow");
        env.storage().instance().set(&DataKey::Counter, &new_count);
        new_count
    }

    pub fn get_count(env: Env) -> u64 {
        env.storage().instance().get(&DataKey::Counter).unwrap_or(0)
    }

    pub fn admin(env: Env) -> Address {
        env.storage().instance().get(&DataKey::Admin).unwrap()
    }
}
"##;

fn read_fixture(name: &str) -> String {
    match name {
        "minimal_contract.rs" => MINIMAL_CONTRACT.to_string(),
        "multi_contract.rs" => MULTI_CONTRACT.to_string(),
        "contract_with_storage_types.rs" => CONTRACT_WITH_STORAGE_TYPES.to_string(),
        _ => panic!("fixture '{name}' should be readable"),
    }
}

// ── parser::parse_source ───────────────────────────────────────────────────────

#[test]
fn parse_source_rejects_empty_string() {
    let result = parser::parse_source("");
    assert!(
        matches!(result, Err(parser::ParseError::Validation(_))),
        "expected Validation error for empty string"
    );
}

#[test]
fn parse_source_rejects_null_bytes() {
    let result = parser::parse_source("fn foo() { let _ = \0; }");
    assert!(
        matches!(result, Err(parser::ParseError::Validation(_))),
        "expected Validation error for null-byte input"
    );
}

#[test]
fn parse_source_rejects_invalid_rust_syntax() {
    let result = parser::parse_source("this {{ is not rust");
    assert!(
        matches!(result, Err(parser::ParseError::Syntax(_))),
        "expected Syntax error for malformed input"
    );
}

#[test]
fn parse_error_has_non_empty_display() {
    let e = parser::parse_source("").unwrap_err();
    assert!(!e.message().is_empty());
}

// ── contract_discovery — minimal_contract.rs ──────────────────────────────────

#[test]
fn minimal_contract_fixture_discovers_one_contract() {
    let source = read_fixture("minimal_contract.rs");
    let file = parser::parse_source(&source).unwrap().file;
    let contracts = contract_discovery::discover_contracts(&file);

    assert_eq!(contracts.len(), 1);
    let c = &contracts[0];
    assert_eq!(c.struct_name, "MinimalContract");
    assert!(c.has_contract_attr, "MinimalContract must carry #[contract]");
    assert!(c.has_contractimpl, "MinimalContract must have a #[contractimpl] block");
}

#[test]
fn minimal_contract_exposes_exactly_one_public_function() {
    let source = read_fixture("minimal_contract.rs");
    let file = parser::parse_source(&source).unwrap().file;
    let contracts = contract_discovery::discover_contracts(&file);

    let fns: Vec<_> = contracts[0].public_functions().into_iter().collect();
    assert_eq!(fns.len(), 1, "expected exactly one non-reserved public function");
    assert_eq!(fns[0].name, "ping");
    assert!(!fns[0].is_reserved);
}

// ── contract_discovery — auth_gap_contract.rs ─────────────────────────────────

#[test]
fn multi_contract_fixture_discovers_two_contracts() {
    let source = read_fixture("multi_contract.rs");
    let file = parser::parse_source(&source).unwrap().file;
    let contracts = contract_discovery::discover_contracts(&file);

    assert_eq!(contracts.len(), 2);
    let names: Vec<&str> = contracts.iter().map(|c| c.struct_name.as_str()).collect();
    assert!(names.contains(&"TokenA"), "TokenA not found in {names:?}");
    assert!(names.contains(&"VaultB"), "VaultB not found in {names:?}");
}

#[test]
fn multi_contract_fixture_storage_types_on_each_contract() {
    let source = read_fixture("multi_contract.rs");
    let file = parser::parse_source(&source).unwrap().file;
    let contracts = contract_discovery::discover_contracts(&file);

    for c in &contracts {
        assert_eq!(
            c.storage_types.len(),
            2,
            "contract {} should see both contracttype items",
            c.struct_name
        );
        let type_names: Vec<&str> = c.storage_types.iter().map(|t| t.name.as_str()).collect();
        assert!(type_names.contains(&"TokenKey"));
        assert!(type_names.contains(&"VaultKey"));
    }
}

#[test]
fn multi_contract_token_a_has_three_public_functions() {
    let source = read_fixture("multi_contract.rs");
    let file = parser::parse_source(&source).unwrap().file;
    let contracts = contract_discovery::discover_contracts(&file);

    let token_a = contracts.iter().find(|c| c.struct_name == "TokenA").unwrap();
    let fns: Vec<_> = token_a.public_functions().into_iter().collect();
    assert_eq!(fns.len(), 3, "expected initialize, balance, transfer");
}

#[test]
fn multi_contract_vault_b_has_two_public_functions() {
    let source = read_fixture("multi_contract.rs");
    let file = parser::parse_source(&source).unwrap().file;
    let contracts = contract_discovery::discover_contracts(&file);

    let vault = contracts.iter().find(|c| c.struct_name == "VaultB").unwrap();
    let fns: Vec<_> = vault.public_functions().into_iter().collect();
    assert_eq!(fns.len(), 2, "expected deposit and total");
}

// ── contract_discovery — contract_with_storage_types.rs ──────────────────────

#[test]
fn storage_types_fixture_discovers_one_contract() {
    let source = read_fixture("contract_with_storage_types.rs");
    let file = parser::parse_source(&source).unwrap().file;
    let contracts = contract_discovery::discover_contracts(&file);

    assert_eq!(contracts.len(), 1);
    assert_eq!(contracts[0].struct_name, "Registry");
}

#[test]
fn storage_types_fixture_collects_both_contracttype_items() {
    let source = read_fixture("contract_with_storage_types.rs");
    let file = parser::parse_source(&source).unwrap().file;
    let contracts = contract_discovery::discover_contracts(&file);

    assert_eq!(contracts[0].storage_types.len(), 2);
    let type_names: Vec<&str> =
        contracts[0].storage_types.iter().map(|t| t.name.as_str()).collect();
    assert!(type_names.contains(&"DataKey"), "DataKey missing from {type_names:?}");
    assert!(type_names.contains(&"Config"), "Config missing from {type_names:?}");
}

#[test]
fn storage_types_fixture_constructor_is_reserved() {
    let source = read_fixture("contract_with_storage_types.rs");
    let file = parser::parse_source(&source).unwrap().file;
    let contracts = contract_discovery::discover_contracts(&file);

    let all = contracts[0].all_public_functions();
    let ctor = all.iter().find(|f| f.name == "__constructor").unwrap();
    assert!(ctor.is_reserved, "__constructor must be marked reserved");
}

#[test]
fn storage_types_fixture_non_reserved_public_functions() {
    let source = read_fixture("contract_with_storage_types.rs");
    let file = parser::parse_source(&source).unwrap().file;
    let contracts = contract_discovery::discover_contracts(&file);

    let fns: Vec<_> = contracts[0].public_functions().into_iter().collect();
    assert_eq!(fns.len(), 3, "expected increment, get_count, admin");
    let names: Vec<&str> = fns.iter().map(|f| f.name.as_str()).collect();
    assert!(names.contains(&"increment"));
    assert!(names.contains(&"get_count"));
    assert!(names.contains(&"admin"));
}
