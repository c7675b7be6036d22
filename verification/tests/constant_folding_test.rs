//! Constant folding of integer expressions.
use sanctifier_core::parser::parse_source;
use sanctifier_core::constant_folding::{fold_to_i128, is_foldable_constant};
use sanctifier_core::syntax::{AstExpr, AstItem};

fn expr(src: &str) -> AstExpr {
    let mut file = parse_source(&format!("const C: i128 = {src};")).unwrap().file;
    match file.items.remove(0) {
        AstItem::Other { mut exprs } => exprs.remove(0),
        _ => panic!("expected a constant item"),
    }
}

fn fold(src: &str) -> Option<i128> {
    fold_to_i128(&expr(src))
}

#[test]
fn folds_simple_addition() {
    assert_eq!(fold("1000 + 500"), Some(1500));
}

#[test]
fn folds_nested_arithmetic() {
    assert_eq!(fold("(1 + 2) * 3 - 4"), Some(5));
}

#[test]
fn folds_negative_literal() {
    assert_eq!(fold("-5 + 10"), Some(5));
}

#[test]
fn folds_through_cast() {
    assert_eq!(fold("(1 + 2) as i128"), Some(3));
}

#[test]
fn returns_none_for_variable_operand() {
    assert_eq!(fold("a + 2"), None);
}

#[test]
fn returns_none_for_function_call_operand() {
    assert_eq!(fold("foo() + 2"), None);
}

#[test]
fn returns_none_on_overflow() {
    assert_eq!(fold("170141183460469231731687303715884105727 + 1"), None);
}

#[test]
fn returns_none_on_division_by_zero() {
    assert_eq!(fold("1 / 0"), None);
}

#[test]
fn is_foldable_constant_matches_fold_result() {
    assert!(is_foldable_constant(&expr("1000 + 500")));
    assert!(!is_foldable_constant(&expr("a + 500")));
}

#[test]
fn folds_division_and_remainder_towards_zero() {
    assert_eq!(fold("-7 / 2"), Some(-3));
    assert_eq!(fold("-7 % 2"), Some(-1));
}

#[test]
fn folds_the_largest_literal() {
    assert_eq!(fold("170141183460469231731687303715884105727"), Some(i128::MAX));
}

#[test]
fn folds_the_smallest_literal_written_negated() {
    assert_eq!(fold("-170141183460469231731687303715884105728"), Some(i128::MIN));
    assert_eq!(fold("-170141183460469231731687303715884105728 + 1"), Some(i128::MIN + 1));
}

#[test]
fn negated_literal_out_of_range_does_not_fold() {
    assert_eq!(fold("-170141183460469231731687303715884105729"), None);
    assert_eq!(fold("-(170141183460469231731687303715884105728)"), None);
}
