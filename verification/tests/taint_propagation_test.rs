//! S026 taint propagation rule.
use sanctifier_core::rules::taint_propagation::TaintPropagationRule;
use sanctifier_core::rules::{Rule, Severity};

fn rule() -> TaintPropagationRule {
    TaintPropagationRule::new()
}

#[test]
fn detects_taint_through_tuple_destructure() {
    let source = r#"
        impl MyContract {
            pub fn store_pair(env: Env, user_data: (Symbol, i128)) {
                let (key, val) = user_data;
                env.storage().persistent().set(&key, &val);
            }
        }
    "#;
    let v = rule().check(source);
    assert!(!v.is_empty(), "taint through tuple destructure must be flagged");
    assert!(v[0].message.contains("store_pair"));
}

#[test]
fn detects_taint_through_struct_destructure() {
    let source = r#"
        impl MyContract {
            pub fn store_record(env: Env, record: MyRecord) {
                let MyRecord { key, value } = record;
                env.storage().persistent().set(&key, &value);
            }
        }
    "#;
    let v = rule().check(source);
    assert!(!v.is_empty(), "taint through struct destructure must be flagged");
}

#[test]
fn no_violation_when_require_auth_present() {
    let source = r#"
        impl MyContract {
            pub fn store_pair(env: Env, caller: Address, user_data: (Symbol, i128)) {
                caller.require_auth();
                let (key, val) = user_data;
                env.storage().persistent().set(&key, &val);
            }
        }
    "#;
    let v = rule().check(source);
    assert!(v.is_empty(), "function with require_auth must not be flagged");
}

#[test]
fn no_violation_for_private_function() {
    let source = r#"
        impl MyContract {
            fn internal_store(env: Env, key: Symbol, val: i128) {
                env.storage().persistent().set(&key, &val);
            }
        }
    "#;
    let v = rule().check(source);
    assert!(v.is_empty(), "private functions are not entry points and must not be flagged");
}

#[test]
fn direct_param_taint_to_storage() {
    let source = r#"
        impl MyContract {
            pub fn bad_set(env: Env, key: Symbol, val: i128) {
                env.storage().persistent().set(&key, &val);
            }
        }
    "#;
    let v = rule().check(source);
    assert!(!v.is_empty(), "direct taint to storage must be flagged");
}

#[test]
fn empty_source_no_panic() {
    assert!(rule().check("").is_empty());
}

#[test]
fn detects_taint_introduced_inside_for_loop_body() {
    let source = r#"
        impl Batch {
            pub fn process(env: Env, recipients: Vec<Symbol>) {
                let mut key = default_key;
                for r in recipients.iter() {
                    key = r;
                    env.storage().persistent().set(&key, &1);
                }
            }
        }
    "#;
    let v = rule().check(source);
    assert!(!v.is_empty(), "taint introduced inside a for-loop body must be flagged");
}

#[test]
fn detects_taint_from_one_if_branch_after_join() {
    let source = r#"
        impl MyContract {
            pub fn store(env: Env, user_input: Symbol) {
                let mut key = default_key;
                if some_cond {
                    key = user_input;
                }
                env.storage().persistent().set(&key, &1);
            }
        }
    "#;
    let v = rule().check(source);
    assert!(!v.is_empty(), "taint introduced in only one if-branch must still be flagged after the join");
}

#[test]
fn violation_carries_message_location_and_suggestion() {
    let source = "impl C {\n    pub fn put(env: Env, key: Symbol) {\n        env.storage().persistent().set(&key, &1);\n    }\n}\n";
    let v = rule().check(source);
    assert_eq!(v.len(), 1);
    assert_eq!(v[0].rule_name, "taint_propagation");
    assert_eq!(v[0].severity, Severity::Warning);
    assert_eq!(
        v[0].message,
        "Function 'put': tainted variable 'key' reaches 'set' sink without prior require_auth"
    );
    assert_eq!(v[0].location, "put:3");
    assert_eq!(
        v[0].suggestion.as_deref(),
        Some("Call require_auth() on any address parameter before using user-controlled data in storage or external calls.")
    );
}

#[test]
fn env_parameters_are_not_sources() {
    let source = r#"
        impl C {
            pub fn put(env: Env) {
                env.storage().persistent().set(&env, &1);
            }
        }
    "#;
    assert!(rule().check(source).is_empty());
}

#[test]
fn invalid_source_reports_nothing() {
    assert!(rule().check("impl {{{ not rust").is_empty());
}

#[test]
fn rule_identity() {
    assert_eq!(rule().name(), "taint_propagation");
    assert!(rule().description().contains("control-flow graph"));
}

#[test]
fn default_rule_is_the_taint_rule() {
    assert_eq!(TaintPropagationRule::default().name(), "taint_propagation");
}
