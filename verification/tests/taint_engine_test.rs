//! Intra-procedural taint analysis over the control-flow graph.
use sanctifier_core::parser::parse_source;
use sanctifier_core::syntax::AstItem;
use sanctifier_core::taint_engine::{analyze, is_external_call, TaintFinding};

fn analyze_src(src: &str, sources: &[&str]) -> Vec<TaintFinding> {
    let file = parse_source(&format!("fn body() {{ {src} }}")).unwrap().file;
    match &file.items[0] {
        AstItem::Fn { block, .. } => analyze(block, sources.iter().map(|s| s.to_string()).collect()),
        _ => panic!("expected a function item"),
    }
}

#[test]
fn flags_direct_taint_to_sink() {
    let findings = analyze_src("env.storage().persistent().set(&key, &val);", &["key", "val"]);
    assert!(!findings.is_empty());
    assert_eq!(findings[0].sink, "set");
}

#[test]
fn require_auth_suppresses_finding() {
    let findings = analyze_src(
        "caller.require_auth(); env.storage().persistent().set(&key, &val);",
        &["key", "val", "caller"],
    );
    assert!(findings.is_empty());
}

#[test]
fn taint_survives_aliasing_through_intermediate_variable() {
    let findings = analyze_src(
        "let alias = key; env.storage().persistent().set(&alias, &val);",
        &["key", "val"],
    );
    assert!(!findings.is_empty(), "taint must propagate through an intermediate alias variable");
}

#[test]
fn reassignment_to_clean_value_kills_taint() {
    let findings = analyze_src(
        "let mut x = key; x = 0; env.storage().persistent().set(&x, &fixed_val);",
        &["key"],
    );
    assert!(findings.is_empty(), "reassigning x to a constant must clear its taint");
}

#[test]
fn taint_introduced_inside_loop_body_is_caught() {
    let findings = analyze_src(
        "let mut key = clean_key; for item in items.iter() { key = item; env.storage().persistent().set(&key, &val); }",
        &["items", "val"],
    );
    assert!(
        !findings.is_empty(),
        "taint flowing from a tainted iterator into the loop variable must be caught"
    );
}

#[test]
fn taint_from_one_if_branch_is_visible_after_join() {
    let findings = analyze_src(
        "let mut key = clean_key; if cond { key = tainted_input; } env.storage().persistent().set(&key, &val);",
        &["tainted_input", "val"],
    );
    assert!(
        !findings.is_empty(),
        "taint introduced in only one branch must still be visible after the if/else joins"
    );
}

#[test]
fn no_finding_when_no_source_reaches_sink() {
    let findings = analyze_src(
        "env.storage().persistent().set(&safe_key, &safe_val);",
        &["unrelated_param"],
    );
    assert!(findings.is_empty());
}

#[test]
fn external_call_sink_is_detected() {
    let findings = analyze_src("env.invoke_contract(&target, &fn_name, args);", &["args"]);
    assert!(!findings.is_empty());
    assert_eq!(findings[0].sink, "invoke_contract");
}

#[test]
fn each_tainted_argument_is_reported_in_order_with_its_line() {
    let findings = analyze_src("env.storage().persistent().set(&key, &val);", &["key", "val"]);
    assert_eq!(
        findings,
        vec![
            TaintFinding { var: "key".to_string(), sink: "set".to_string(), line: 1 },
            TaintFinding { var: "val".to_string(), sink: "set".to_string(), line: 1 },
        ]
    );
}

#[test]
fn taint_carried_around_a_loop_back_edge_reaches_an_earlier_sink() {
    // `key` is tainted only at the bottom of the body; the sink at the top
    // sees it on the next iteration.
    let findings = analyze_src(
        "let mut key = clean; while cond { env.storage().persistent().set(&key, &one); key = user; }",
        &["user"],
    );
    assert_eq!(findings.len(), 1);
    assert_eq!(findings[0].var, "key");
}

#[test]
fn a_clean_body_reports_nothing_even_with_loops() {
    let findings = analyze_src(
        "let mut key = clean; while cond { env.storage().persistent().set(&key, &one); key = other; }",
        &["user"],
    );
    assert!(findings.is_empty());
}

#[test]
fn writes_to_non_storage_receivers_are_not_sinks() {
    let findings = analyze_src("cache.set(&key, &val); map.remove(&key);", &["key", "val"]);
    assert!(findings.is_empty());
}

#[test]
fn storage_remove_and_update_are_sinks() {
    let findings = analyze_src(
        "env.storage().temporary().remove(&key); env.storage().instance().update(&key, f);",
        &["key"],
    );
    let sinks: Vec<&str> = findings.iter().map(|f| f.sink.as_str()).collect();
    assert_eq!(sinks, vec!["remove", "update"]);
}

#[test]
fn tuple_destructure_taints_every_bound_name() {
    let findings = analyze_src("let (a, b) = pair; env.try_invoke_contract(&a, &b);", &["pair"]);
    let vars: Vec<&str> = findings.iter().map(|f| f.var.as_str()).collect();
    assert_eq!(vars, vec!["a", "b"]);
    assert!(findings.iter().all(|f| f.sink == "try_invoke_contract"));
}

#[test]
fn external_call_names_are_recognised() {
    assert!(is_external_call("invoke_contract"));
    assert!(is_external_call("try_invoke_contract"));
    assert!(is_external_call("invoke_contract_check"));
    assert!(!is_external_call("set"));
    assert!(!is_external_call("invoke"));
}

#[test]
fn authorization_in_one_branch_covers_the_join() {
    // The authorization marker is joined like any fact: one authorizing
    // branch suppresses sinks after the join.
    let findings = analyze_src(
        "if cond { caller.require_auth(); } env.storage().persistent().set(&key, &val);",
        &["key", "val", "caller"],
    );
    assert!(findings.is_empty());
}

#[test]
fn more_sources_taint_more_names() {
    let src = "let copy = a; env.storage().persistent().set(&copy, &b);";
    let fewer = analyze_src(src, &["a"]);
    let more = analyze_src(src, &["a", "b"]);
    assert_eq!(fewer.len(), 1);
    assert_eq!(more.len(), 2);
    assert!(fewer.iter().all(|f| more.contains(f)));
}

#[test]
fn analysis_is_deterministic() {
    let src = "let mut k = x; while c { k = y; env.invoke_contract(&k, &z, w); }";
    assert_eq!(analyze_src(src, &["y", "w"]), analyze_src(src, &["w", "y"]));
}
