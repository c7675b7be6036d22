//! Contract discovery on small sources.
use sanctifier_core::contract_discovery::discover_contracts;
use sanctifier_core::parser::parse_source;
use sanctifier_core::syntax::AstFile;

fn file_from(src: &str) -> AstFile {
    parse_source(src).expect("test source must parse").file
}

// ── No Soroban attributes ─────────────────────────────────────────────────

#[test]
fn empty_file_yields_no_contracts() {
    let file = file_from("   ");
    assert!(discover_contracts(&file).is_empty());
}

#[test]
fn plain_impl_without_contractimpl_yields_no_contracts() {
    let file = file_from(
        r#"
        impl Foo {
            pub fn bar(_env: Env) {}
        }
    "#,
    );
    assert!(discover_contracts(&file).is_empty());
}

#[test]
fn only_contracttype_without_contract_yields_no_contracts() {
    let file = file_from(
        r#"
        #[contracttype]
        pub enum DataKey { A, B }
    "#,
    );
    assert!(discover_contracts(&file).is_empty());
}

// ── #[contract] struct only ───────────────────────────────────────────────

#[test]
fn contract_struct_without_impl_is_discovered() {
    let file = file_from(
        r#"
        #[contract]
        pub struct MyContract;
    "#,
    );
    let contracts = discover_contracts(&file);
    assert_eq!(contracts.len(), 1);
    assert_eq!(contracts[0].struct_name, "MyContract");
    assert!(contracts[0].has_contract_attr);
    assert!(!contracts[0].has_contractimpl);
    assert!(contracts[0].fns.is_empty());
}

// ── #[contractimpl] only (orphan) ─────────────────────────────────────────

#[test]
fn contractimpl_without_contract_attr_is_discovered_as_orphan() {
    let file = file_from(
        r#"
        #[contractimpl]
        impl Orphan {
            pub fn hello(_env: Env) -> u32 { 42 }
        }
    "#,
    );
    let contracts = discover_contracts(&file);
    assert_eq!(contracts.len(), 1);
    let c = &contracts[0];
    assert_eq!(c.struct_name, "Orphan");
    assert!(!c.has_contract_attr, "no #[contract] struct in source");
    assert!(c.has_contractimpl);
    assert_eq!(c.fns.len(), 1);
    assert_eq!(c.fns[0].name, "hello");
}

// ── Full contract (struct + impl) ─────────────────────────────────────────

#[test]
fn full_contract_collects_public_functions() {
    let file = file_from(
        r#"
        #[contract]
        pub struct Token;
        #[contractimpl]
        impl Token {
            pub fn transfer(_env: Env, _from: Address, _to: Address, _amount: i128) {}
            fn internal_helper() {}
            pub fn balance(_env: Env, _id: Address) -> i128 { 0 }
        }
    "#,
    );
    let contracts = discover_contracts(&file);
    assert_eq!(contracts.len(), 1);
    let c = &contracts[0];
    assert!(c.has_contract_attr);
    assert!(c.has_contractimpl);
    assert_eq!(c.fns.len(), 2, "only public functions are collected");
    let names: Vec<&str> = c.fns.iter().map(|f| f.name.as_str()).collect();
    assert!(names.contains(&"transfer"));
    assert!(names.contains(&"balance"));
    assert!(!names.contains(&"internal_helper"));
}

#[test]
fn private_functions_are_excluded() {
    let file = file_from(
        r#"
        #[contract]
        pub struct Vault;
        #[contractimpl]
        impl Vault {
            pub fn deposit(_env: Env) {}
            fn _internal() {}
            pub(crate) fn semi_private() {}
        }
    "#,
    );
    let contracts = discover_contracts(&file);
    assert_eq!(contracts[0].fns.len(), 1);
    assert_eq!(contracts[0].fns[0].name, "deposit");
}

// ── Reserved entry-points ─────────────────────────────────────────────────

#[test]
fn reserved_entrypoints_are_flagged_but_still_collected() {
    let file = file_from(
        r#"
        #[contract]
        pub struct MyContract;
        #[contractimpl]
        impl MyContract {
            pub fn __constructor(_env: Env) {}
            pub fn __check_auth(_env: Env) {}
            pub fn work(_env: Env) {}
        }
    "#,
    );
    let contracts = discover_contracts(&file);
    let fns = contracts[0].all_public_functions();
    assert_eq!(fns.len(), 3);

    let constructor = fns.iter().find(|f| f.name == "__constructor").unwrap();
    assert!(constructor.is_reserved);

    let check_auth = fns.iter().find(|f| f.name == "__check_auth").unwrap();
    assert!(check_auth.is_reserved);

    let work = fns.iter().find(|f| f.name == "work").unwrap();
    assert!(!work.is_reserved);
}

#[test]
fn public_functions_iterator_excludes_reserved() {
    let file = file_from(
        r#"
        #[contract]
        pub struct MyContract;
        #[contractimpl]
        impl MyContract {
            pub fn __constructor(_env: Env) {}
            pub fn do_work(_env: Env) {}
        }
    "#,
    );
    let contracts = discover_contracts(&file);
    let names: Vec<&str> = contracts[0].public_functions().into_iter().map(|f| f.name.as_str()).collect();
    assert_eq!(names, vec!["do_work"]);
}

// ── Storage types ─────────────────────────────────────────────────────────

#[test]
fn contracttype_enum_is_collected_as_storage_type() {
    let file = file_from(
        r#"
        #[contracttype]
        pub enum DataKey { Admin, Balance }
        #[contract]
        pub struct Token;
    "#,
    );
    let contracts = discover_contracts(&file);
    assert_eq!(contracts[0].storage_types.len(), 1);
    assert_eq!(contracts[0].storage_types[0].name, "DataKey");
    assert_eq!(contracts[0].storage_types[0].kind, "enum");
}

#[test]
fn contracttype_struct_is_collected_as_storage_type() {
    let file = file_from(
        r#"
        #[contracttype]
        pub struct Config { pub limit: u32 }
        #[contract]
        pub struct Token;
    "#,
    );
    let contracts = discover_contracts(&file);
    let st = &contracts[0].storage_types[0];
    assert_eq!(st.name, "Config");
    assert_eq!(st.kind, "struct");
}

#[test]
fn multiple_contracttype_items_are_all_collected() {
    let file = file_from(
        r#"
        #[contracttype]
        pub enum DataKey { Admin, Balance }
        #[contracttype]
        pub struct Config { pub limit: u32 }
        #[contract]
        pub struct Token;
    "#,
    );
    let contracts = discover_contracts(&file);
    assert_eq!(contracts[0].storage_types.len(), 2);
    let names: Vec<&str> = contracts[0].storage_types.iter().map(|t| t.name.as_str()).collect();
    assert!(names.contains(&"DataKey"));
    assert!(names.contains(&"Config"));
}

#[test]
fn storage_types_are_shared_across_all_contracts() {
    let file = file_from(
        r#"
        #[contracttype]
        pub enum SharedKey { X }
        #[contract]
        pub struct A;
        #[contractimpl]
        impl A { pub fn a(_env: Env) {} }
        #[contract]
        pub struct B;
        #[contractimpl]
        impl B { pub fn b(_env: Env) {} }
    "#,
    );
    let contracts = discover_contracts(&file);
    assert_eq!(contracts.len(), 2);
    for c in &contracts {
        assert_eq!(c.storage_types.len(), 1, "contract {} missing storage type", c.struct_name);
    }
}

// ── Multiple contracts ────────────────────────────────────────────────────

#[test]
fn two_contracts_in_one_file_are_each_discovered() {
    let file = file_from(
        r#"
        #[contract]
        pub struct TokenA;
        #[contractimpl]
        impl TokenA {
            pub fn name_a(_env: Env) -> u32 { 1 }
        }
        #[contract]
        pub struct TokenB;
        #[contractimpl]
        impl TokenB {
            pub fn name_b(_env: Env) -> u32 { 2 }
        }
    "#,
    );
    let contracts = discover_contracts(&file);
    assert_eq!(contracts.len(), 2);
    let names: Vec<&str> = contracts.iter().map(|c| c.struct_name.as_str()).collect();
    assert!(names.contains(&"TokenA"));
    assert!(names.contains(&"TokenB"));
}

#[test]
fn results_are_in_deterministic_order() {
    let file = file_from(
        r#"
        #[contract] pub struct Zebra;
        #[contractimpl] impl Zebra { pub fn z(_env: Env) {} }
        #[contract] pub struct Apple;
        #[contractimpl] impl Apple { pub fn a(_env: Env) {} }
    "#,
    );
    let contracts = discover_contracts(&file);
    // BTreeMap guarantees lexicographic order.
    assert_eq!(contracts[0].struct_name, "Apple");
    assert_eq!(contracts[1].struct_name, "Zebra");
}

// ── Line numbers ──────────────────────────────────────────────────────────

#[test]
fn function_line_numbers_are_positive() {
    let file = file_from(
        r#"
        #[contract]
        pub struct MyContract;
        #[contractimpl]
        impl MyContract {
            pub fn entry(_env: Env) {}
        }
    "#,
    );
    let contracts = discover_contracts(&file);
    let f = &contracts[0].fns[0];
    assert!(f.line > 0, "line must be > 0, got {}", f.line);
}
