//! Constant folding of integer arithmetic.
//!
//! An expression built only from integer literals (optionally negated,
//! parenthesized or cast) with `+ - * / %` is a compile-time constant that
//! `rustc` evaluates and bounds-checks itself; [`fold_to_i128`] evaluates
//! such expressions in `i128`, failing on any other operand and on overflow
//! or division by zero.
use vstd::prelude::*;
use crate::syntax::{AstBinOp, AstExpr, AstLit, AstUnOp};
use crate::text::chars_of;

verus! {

/// The value of a decimal digit character.
pub open spec fn digit_value(c: char) -> Option<nat> {
    if '0' <= c && c <= '9' {
        Some((c as u32 - '0' as u32) as nat)
    } else {
        None
    }
}

/// The value of a string of decimal digits; `None` when it is empty or
/// holds anything but digits.
pub open spec fn digits_value(s: Seq<char>) -> Option<nat>
    decreases s.len(),
{
    if s.len() == 0 {
        None
    } else {
        match digit_value(s.last()) {
            None => None,
            Some(d) => if s.len() == 1 {
                Some(d)
            } else {
                match digits_value(s.drop_last()) {
                    Some(v) => Some(v * 10 + d),
                    None => None,
                }
            },
        }
    }
}

/// A decimal literal's value as an `i128`, when it fits.
pub open spec fn parse_i128(s: Seq<char>) -> Option<i128> {
    match digits_value(s) {
        Some(v) => if v <= i128::MAX {
            Some(v as i128)
        } else {
            None
        },
        None => None,
    }
}

/// The value of a decimal literal negated, as an `i128`, when it fits:
/// magnitudes up to `2^127`, so that `-170141183460469231731687303715884105728`
/// is `i128::MIN`.
pub open spec fn parse_neg_i128(s: Seq<char>) -> Option<i128> {
    match digits_value(s) {
        Some(v) => if v <= cap() {
            Some((-(v as int)) as i128)
        } else {
            None
        },
        None => None,
    }
}

/// The magnitude of `i128::MIN`: one past `i128::MAX`.
pub open spec fn cap() -> nat {
    i128::MAX as nat + 1
}

/// The value of a string of decimal digits, saturated at `limit`; `None`
/// when it is empty or holds anything but digits.
fn digits_capped(digits: &str, limit: u128) -> (r: Option<u128>)
    requires
        10 <= limit,
    ensures
        match digits_value(digits@) {
            Some(v) => r == Some(if v < limit { v as u128 } else { limit }),
            None => r is None,
        },
{
    let c = chars_of(digits);
    if c.len() == 0 {
        return None;
    }
    let mut acc: u128 = 0;
    let mut i: usize = 0;
    while i < c.len()
        invariant
            i <= c@.len(),
            c@ == digits@,
            c@.len() > 0,
            10 <= limit,
            i == 0 ==> acc == 0,
            i > 0 ==> digits_value(c@.take(i as int)) is Some && acc == if digits_value(c@.take(i as int))->0 < limit {
                digits_value(c@.take(i as int))->0
            } else {
                limit as nat
            },
        decreases c.len() - i,
    {
        let ch = c[i];
        assert(c@.take(i + 1).drop_last() =~= c@.take(i as int));
        assert(c@.take(i + 1).last() == ch);
        if !('0' <= ch && ch <= '9') {
            assert(digits_value(c@.take(i + 1)) is None);
            proof {
                lemma_digits_prefix_none(c@, i as int + 1);
            }
            assert(c@.take(c@.len() as int) =~= c@);
            return None;
        }
        let d = (ch as u32 - '0' as u32) as u128;
        if i == 0 {
            acc = d;
        } else if acc > (limit - d) / 10 {
            acc = limit;
        } else {
            acc = acc * 10 + d;
        }
        i = i + 1;
    }
    assert(c@.take(c@.len() as int) =~= c@);
    Some(acc)
}

/// Parses a literal's decimal digits as an `i128`.
pub fn parse_i128_exec(digits: &str) -> (r: Option<i128>)
    ensures
        r == parse_i128(digits@),
{
    let limit: u128 = 0x8000_0000_0000_0000_0000_0000_0000_0000;
    match digits_capped(digits, limit) {
        Some(v) => if v < limit {
            Some(v as i128)
        } else {
            None
        },
        None => None,
    }
}

/// Parses a literal's decimal digits as the `i128` of its negation.
pub fn parse_neg_i128_exec(digits: &str) -> (r: Option<i128>)
    ensures
        r == parse_neg_i128(digits@),
{
    let limit: u128 = 0x8000_0000_0000_0000_0000_0000_0000_0001;
    match digits_capped(digits, limit) {
        Some(v) => if v < limit - 1 {
            Some(-(v as i128))
        } else if v == limit - 1 {
            Some(i128::MIN)
        } else {
            None
        },
        None => None,
    }
}

/// Once a prefix holds a non-digit, the whole has no value.
proof fn lemma_digits_prefix_none(s: Seq<char>, k: int)
    requires
        0 < k <= s.len(),
        digits_value(s.take(k)) is None,
    ensures
        digits_value(s) is None,
    decreases s.len() - k,
{
    if k < s.len() {
        assert(s.take(k + 1).drop_last() =~= s.take(k));
        lemma_digits_prefix_none(s, k + 1);
    } else {
        assert(s.take(k) =~= s);
    }
}

/// `-v`, unless that overflows (`i128::MIN`).
pub open spec fn checked_neg(v: i128) -> Option<i128> {
    if v == i128::MIN {
        None
    } else {
        Some((-v) as i128)
    }
}

/// The constant value of an expression built from integer literals with
/// `+ - * / %`, negation, parentheses and casts; `None` for any other
/// operand, on overflow and on division by zero.  A negated literal is read
/// as one negative value, as `rustc` reads it, so `i128::MIN` can be written.
pub open spec fn fold_value(e: AstExpr) -> Option<i128>
    decreases e,
{
    match e {
        AstExpr::Lit { lit: AstLit::Int(d), .. } => parse_i128(d@),
        AstExpr::Unary { op: AstUnOp::Neg, expr, .. } => match *expr {
            AstExpr::Lit { lit: AstLit::Int(d), .. } => parse_neg_i128(d@),
            _ => match fold_value(*expr) {
                Some(v) => checked_neg(v),
                None => None,
            },
        },
        AstExpr::Paren { expr, .. } => fold_value(*expr),
        AstExpr::Group { expr, .. } => fold_value(*expr),
        AstExpr::Cast { expr, .. } => fold_value(*expr),
        AstExpr::Binary { left, op, right, .. } => match (fold_value(*left), fold_value(*right)) {
            (Some(l), Some(r)) => match op {
                AstBinOp::Add => l.checked_add(r),
                AstBinOp::Sub => l.checked_sub(r),
                AstBinOp::Mul => l.checked_mul(r),
                AstBinOp::Div => l.checked_div(r),
                AstBinOp::Rem => l.checked_rem(r),
                _ => None,
            },
            _ => None,
        },
        _ => None,
    }
}

/// Evaluates `expr` as a compile-time integer constant.
pub fn fold_to_i128(expr: &AstExpr) -> (r: Option<i128>)
    ensures
        r == fold_value(*expr),
    decreases expr,
{
    match expr {
        AstExpr::Lit { lit: AstLit::Int(d), .. } => parse_i128_exec(d.as_str()),
        AstExpr::Unary { op: AstUnOp::Neg, expr, .. } => match &**expr {
            AstExpr::Lit { lit: AstLit::Int(d), .. } => parse_neg_i128_exec(d.as_str()),
            _ => match fold_to_i128(expr) {
                Some(v) => if v == i128::MIN {
                    None
                } else {
                    Some(-v)
                },
                None => None,
            },
        },
        AstExpr::Paren { expr, .. } => fold_to_i128(expr),
        AstExpr::Group { expr, .. } => fold_to_i128(expr),
        AstExpr::Cast { expr, .. } => fold_to_i128(expr),
        AstExpr::Binary { left, op, right, .. } => {
            let l = match fold_to_i128(left) {
                Some(v) => v,
                None => {
                    return None;
                },
            };
            let r = match fold_to_i128(right) {
                Some(v) => v,
                None => {
                    return None;
                },
            };
            match op {
                AstBinOp::Add => l.checked_add(r),
                AstBinOp::Sub => l.checked_sub(r),
                AstBinOp::Mul => l.checked_mul(r),
                AstBinOp::Div => l.checked_div(r),
                AstBinOp::Rem => l.checked_rem(r),
                _ => None,
            }
        },
        _ => None,
    }
}

/// Whether `expr` is entirely made of compile-time integer constants.
pub fn is_foldable_constant(expr: &AstExpr) -> (r: bool)
    ensures
        r == (fold_value(*expr) is Some),
{
    fold_to_i128(expr).is_some()
}

} // verus!
