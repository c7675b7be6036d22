//! Log filter construction.
use sanctifier_core::logging::{make_filter, LogOutput};
use std::time::Instant;

/// Budget for building a single filter.
const FILTER_BUILD_BUDGET_MS: u128 = 50;

#[test]
fn make_filter_accepts_standard_levels() {
    for level in &["error", "warn", "info", "debug", "trace"] {
        assert!(make_filter(level).is_ok(), "make_filter('{}') should succeed", level);
    }
}

#[test]
fn make_filter_accepts_crate_qualified_directives() {
    assert!(make_filter("sanctifier=debug,warn").is_ok());
    assert!(make_filter("sanctifier_cli=trace").is_ok());
}

#[test]
fn make_filter_builds_within_budget_for_all_modes() {
    let cases = [
        ("error", "quiet/error mode"),
        ("warn", "default mode"),
        ("info", "info mode"),
        ("debug", "verbose mode"),
        ("sanctifier=debug,warn", "crate-scoped verbose"),
    ];
    for (directive, label) in cases {
        let start = Instant::now();
        let _ = make_filter(directive).expect("filter must build");
        let elapsed = start.elapsed().as_millis();
        assert!(
            elapsed < FILTER_BUILD_BUDGET_MS,
            "make_filter for {label} took {elapsed}ms, budget {FILTER_BUILD_BUDGET_MS}ms"
        );
    }
}

#[test]
fn make_filter_json_log_mode_builds_within_budget() {
    let start = Instant::now();
    let _ = make_filter("debug").expect("filter must build");
    let elapsed = start.elapsed().as_millis();
    assert!(
        elapsed < FILTER_BUILD_BUDGET_MS,
        "JSON-mode filter build took {elapsed}ms, budget {FILTER_BUILD_BUDGET_MS}ms"
    );
}

#[test]
fn invalid_directive_is_rejected_with_its_text() {
    let err = make_filter("sanctifier=notalevel").unwrap_err();
    assert!(err.starts_with("invalid log filter 'sanctifier=notalevel': "), "got {err}");
    assert!(err.len() > "invalid log filter 'sanctifier=notalevel': ".len());
}

#[test]
fn log_outputs_are_distinct() {
    assert_ne!(LogOutput::Text, LogOutput::Json);
}
