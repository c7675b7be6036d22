//! Fixed-point `a * b / d` bound proofs and backend dispatch.
//!
//! A [`FixedPointMulDivSpec`] bounds the multiplicand, the multiplier and the
//! divisor of a fixed-point `a * b / d`.  The question put to the backend is
//! whether some inputs within those bounds make the intermediate product
//! exceed `u128::MAX`, or, when a result bound is given, make the quotient
//! exceed it.  Over bounded non-negative ranges the question has an exact
//! answer, which is computed here and proved equal to that statement.
use vstd::prelude::*;
use vstd::arithmetic::div_mod::{
    lemma_div_is_ordered, lemma_div_is_ordered_by_denominator, lemma_fundamental_div_mod,
    lemma_fundamental_div_mod_converse,
};
use vstd::arithmetic::mul::{lemma_mul_inequality, lemma_mul_upper_bound};
use crate::smt::types::{
    FixedPointCounterexample, FixedPointMulDivSpec, FixedPointProofError, FixedPointProofReport,
    SmtBackend,
};
use crate::text::{concat, decimal, strings_view, two_pow_128, u128_to_string, wide_to_string};

verus! {

/// Whether the inputs `a`, `b`, `d` lie within the specified bounds.
pub open spec fn within_bounds(s: FixedPointMulDivSpec, a: nat, b: nat, d: nat) -> bool {
    a <= s.multiplicand_max && b <= s.multiplier_max && s.divisor_min <= d <= s.divisor_max
}

/// Whether `a * b / d` breaks a checked property: the product exceeds
/// `u128::MAX`, or the quotient exceeds the result bound.
pub open spec fn breaks_bounds(s: FixedPointMulDivSpec, a: nat, b: nat, d: nat) -> bool {
    a * b > u128::MAX || match s.result_max {
        Some(r) => (a * b) / d > r,
        None => false,
    }
}

/// Whether some inputs within the bounds break a checked property.
pub open spec fn has_counterexample(s: FixedPointMulDivSpec) -> bool {
    exists|a: nat, b: nat, d: nat| #[trigger] within_bounds(s, a, b, d) && breaks_bounds(s, a, b, d)
}

/// Whether `c` states, in decimal, inputs within the bounds that break a
/// checked property, with their product and quotient.
pub open spec fn is_counterexample_of(s: FixedPointMulDivSpec, c: FixedPointCounterexample) -> bool {
    exists|a: nat, b: nat, d: nat|
        #[trigger] within_bounds(s, a, b, d) && breaks_bounds(s, a, b, d) && c.multiplicand@
            == decimal(a) && c.multiplier@ == decimal(b) && c.divisor@ == decimal(d)
            && c.intermediate_product@ == decimal(a * b) && c.quotient@ == decimal(
            (a * b) / d,
        )
}

/// The reason a specification is rejected, if it is.
pub open spec fn validation_error(s: FixedPointMulDivSpec) -> Option<Seq<char>> {
    if s.divisor_min == 0 {
        Some("divisor_min must be greater than zero"@)
    } else if s.divisor_max < s.divisor_min {
        Some("divisor_max must be greater than or equal to divisor_min"@)
    } else {
        None
    }
}

/// Whether `r` is the rejection of a specification with `reason`.
pub open spec fn is_invalid_spec(r: FixedPointProofError, reason: Seq<char>) -> bool {
    r matches FixedPointProofError::InvalidSpec(m) && m@ == reason
}

/// The properties a proof checks, as listed in its report.
pub open spec fn checked_properties_of(s: FixedPointMulDivSpec) -> Seq<Seq<char>> {
    seq!["intermediate multiplication fits in u128"@] + match s.result_max {
        Some(r) => seq!["final quotient <= "@ + decimal(r as nat)],
        None => Seq::<Seq<char>>::empty(),
    }
}

/// The report's message for a verdict.
pub open spec fn proof_message(safe: bool) -> Seq<char> {
    if safe {
        "Z3 proved the fixed-point calculation stays within the configured bounds."@
    } else {
        "Z3 found a counterexample within the configured input ranges."@
    }
}

/// Whether `rep` is the report on a valid specification `s`.
pub open spec fn is_report_on(s: FixedPointMulDivSpec, rep: FixedPointProofReport) -> bool {
    &&& rep.function_name@ == s.function_name@
    &&& rep.backend == SmtBackend::Z3
    &&& rep.proven_safe == !has_counterexample(s)
    &&& strings_view(rep.checked_properties@) == checked_properties_of(s)
    &&& rep.message@ == proof_message(rep.proven_safe)
    &&& (rep.counterexample is None) == rep.proven_safe
    &&& (rep.counterexample matches Some(c) ==> is_counterexample_of(s, c))
}

/// Rejects a specification whose divisor range is empty or includes zero.
pub fn validate_fixed_point_spec(spec: &FixedPointMulDivSpec) -> (r: Result<(), FixedPointProofError>)
    ensures
        match validation_error(*spec) {
            Some(reason) => r matches Err(e) && is_invalid_spec(e, reason),
            None => r is Ok,
        },
{
    if spec.divisor_min == 0 {
        return Err(FixedPointProofError::InvalidSpec("divisor_min must be greater than zero"));
    }
    if spec.divisor_max < spec.divisor_min {
        return Err(
            FixedPointProofError::InvalidSpec(
                "divisor_max must be greater than or equal to divisor_min",
            ),
        );
    }
    Ok(())
}

/// `(2^128 + r) / d` for `d >= 2`, which fits in a `u128`.
fn wide_div(r: u128, d: u128) -> (q: u128)
    requires
        2 <= d,
    ensures
        q == (two_pow_128() + r) / (d as int),
{
    let qm = u128::MAX / d;
    let mm = u128::MAX % d;
    let s = r / d;
    let t = r % d;
    let ghost v: int = two_pow_128() + r;
    proof {
        lemma_fundamental_div_mod(u128::MAX as int, d as int);
        lemma_fundamental_div_mod(r as int, d as int);
        assert(v == d * (qm + s) + (mm + 1 + t)) by (nonlinear_arith)
            requires
                v == two_pow_128() + r,
                u128::MAX == d * qm + mm,
                r == d * s + t,
                two_pow_128() == u128::MAX + 1,
        ;
    }
    let extra: u128 = if t >= d - 1 - mm { 1 } else { 0 };
    proof {
        let qv: int = qm + s + extra;
        if extra == 1 {
            assert(v == qv * d + (mm + 1 + t - d)) by (nonlinear_arith)
                requires
                    v == d * (qm + s) + (mm + 1 + t),
                    qv == qm + s + 1,
            ;
            lemma_fundamental_div_mod_converse(v, d as int, qv, mm + 1 + t - d);
        } else {
            assert(v == qv * d + (mm + 1 + t)) by (nonlinear_arith)
                requires
                    v == d * (qm + s) + (mm + 1 + t),
                    qv == qm + s,
            ;
            lemma_fundamental_div_mod_converse(v, d as int, qv, mm + 1 + t);
        }
        assert(qv <= u128::MAX) by (nonlinear_arith)
            requires
                v == qv * d + (v % (d as int)),
                0 <= v % (d as int),
                2 <= d,
                0 <= qv,
                v < 2 * two_pow_128(),
                two_pow_128() == u128::MAX + 1,
        ;
    }
    qm + s + extra
}

/// A counterexample to the specification's bounds, if there is one.
fn find_counterexample(spec: &FixedPointMulDivSpec) -> (r: Option<FixedPointCounterexample>)
    requires
        validation_error(*spec) is None,
    ensures
        r is None <==> !has_counterexample(*spec),
        r matches Some(c) ==> is_counterexample_of(*spec, c),
{
    let mm = spec.multiplicand_max;
    let nm = spec.multiplier_max;
    let d = spec.divisor_min;
    match mm.checked_mul(nm) {
        None => {
            // The product bound overflows: the smallest multiplicand that
            // overflows against `nm` is `u128::MAX / nm + 1`.
            proof {
                if nm <= 1 {
                    assert(mm * nm <= u128::MAX) by (nonlinear_arith)
                        requires
                            nm <= 1,
                            mm <= u128::MAX,
                    ;
                }
                lemma_div_is_ordered_by_denominator(u128::MAX as int, 2, nm as int);
            }
            let a = u128::MAX / nm + 1;
            let rest = nm - u128::MAX % nm - 1;
            proof {
                lemma_fundamental_div_mod(u128::MAX as int, nm as int);
                let q: int = u128::MAX as int / nm as int;
                if mm < a {
                    lemma_mul_inequality(mm as int, q, nm as int);
                }
                assert(a * nm == two_pow_128() + rest) by (nonlinear_arith)
                    requires
                        a == q + 1,
                        u128::MAX == nm * q + (u128::MAX as int) % (nm as int),
                        rest == nm - (u128::MAX as int) % (nm as int) - 1,
                        two_pow_128() == u128::MAX + 1,
                ;
                assert(within_bounds(*spec, a as nat, nm as nat, d as nat));
                assert(breaks_bounds(*spec, a as nat, nm as nat, d as nat));
            }
            let quotient = if d == 1 {
                wide_to_string(rest)
            } else {
                u128_to_string(wide_div(rest, d))
            };
            let c = FixedPointCounterexample {
                multiplicand: u128_to_string(a),
                multiplier: u128_to_string(nm),
                divisor: u128_to_string(d),
                intermediate_product: wide_to_string(rest),
                quotient,
            };
            proof {
                assert(c.multiplicand@ == decimal(a as nat));
                assert(c.intermediate_product@ == decimal((a as nat) * (nm as nat)));
                assert(c.quotient@ == decimal(((a as nat) * (nm as nat)) / (d as nat)));
                assert(within_bounds(*spec, a as nat, nm as nat, d as nat));
            }
            Some(c)
        },
        Some(p) => {
            let over = match spec.result_max {
                Some(rmax) => p / d > rmax,
                None => false,
            };
            if over {
                let c = FixedPointCounterexample {
                    multiplicand: u128_to_string(mm),
                    multiplier: u128_to_string(nm),
                    divisor: u128_to_string(d),
                    intermediate_product: u128_to_string(p),
                    quotient: u128_to_string(p / d),
                };
                proof {
                    assert(within_bounds(*spec, mm as nat, nm as nat, d as nat));
                    assert(breaks_bounds(*spec, mm as nat, nm as nat, d as nat));
                }
                Some(c)
            } else {
                proof {
                    assert forall|a: nat, b: nat, e: nat| #[trigger]
                        within_bounds(*spec, a, b, e) implies !breaks_bounds(*spec, a, b, e) by {
                        lemma_mul_upper_bound(a as int, mm as int, b as int, nm as int);
                        if let Some(rmax) = spec.result_max {
                            lemma_div_is_ordered_by_denominator((a * b) as int, d as int, e as int);
                            lemma_div_is_ordered((a * b) as int, p as int, d as int);
                        }
                    }
                }
                None
            }
        },
    }
}

/// Proves, for the default backend (Z3), that `a * b / d` stays within the
/// specification's bounds, or finds inputs that break them.  No solver is
/// called: the question has an exact answer over the bounded ranges, which
/// is computed here; the report names Z3 as the backend it answers for.
pub fn prove_fixed_point_mul_div_bounds(spec: &FixedPointMulDivSpec) -> (r: Result<
    FixedPointProofReport,
    FixedPointProofError,
>)
    ensures
        match validation_error(*spec) {
            Some(reason) => r matches Err(e) && is_invalid_spec(e, reason),
            None => r matches Ok(rep) && is_report_on(*spec, rep),
        },
{
    prove_fixed_point_mul_div_bounds_with_backend(SmtBackend::Z3, spec)
}

/// Proves, for the selected backend, that `a * b / d` stays within the
/// specification's bounds, or finds inputs that break them.  Only Z3 is
/// accepted, and no solver is called for it: the answer is computed exactly
/// here.  An invalid specification is rejected before the backend is
/// considered.
pub fn prove_fixed_point_mul_div_bounds_with_backend(
    backend: SmtBackend,
    spec: &FixedPointMulDivSpec,
) -> (r: Result<FixedPointProofReport, FixedPointProofError>)
    ensures
        match validation_error(*spec) {
            Some(reason) => r matches Err(e) && is_invalid_spec(e, reason),
            None => match backend {
                SmtBackend::Z3 => r matches Ok(rep) && is_report_on(*spec, rep),
                SmtBackend::Cvc5 => r == Err::<FixedPointProofReport, FixedPointProofError>(
                    FixedPointProofError::UnsupportedBackend(SmtBackend::Cvc5),
                ),
            },
        },
{
    match validate_fixed_point_spec(spec) {
        Err(e) => {
            return Err(e);
        },
        Ok(()) => {},
    }
    match backend {
        SmtBackend::Z3 => Ok(prove_fixed_point(spec)),
        SmtBackend::Cvc5 => Err(FixedPointProofError::UnsupportedBackend(SmtBackend::Cvc5)),
    }
}

/// The report on a valid specification.
fn prove_fixed_point(spec: &FixedPointMulDivSpec) -> (rep: FixedPointProofReport)
    requires
        validation_error(*spec) is None,
    ensures
        is_report_on(*spec, rep),
{
    let mut checked_properties: Vec<String> = Vec::new();
    checked_properties.push("intermediate multiplication fits in u128".to_owned());
    match spec.result_max {
        Some(result_max) => {
            let bound = u128_to_string(result_max);
            checked_properties.push(concat("final quotient <= ", bound.as_str()));
        },
        None => {},
    }
    assert(strings_view(checked_properties@) =~= checked_properties_of(*spec));
    let counterexample = find_counterexample(spec);
    let proven_safe = counterexample.is_none();
    let message = if proven_safe {
        "Z3 proved the fixed-point calculation stays within the configured bounds.".to_owned()
    } else {
        "Z3 found a counterexample within the configured input ranges.".to_owned()
    };
    FixedPointProofReport {
        function_name: spec.function_name.clone(),
        backend: SmtBackend::Z3,
        proven_safe,
        checked_properties,
        message,
        counterexample,
    }
}

} // verus!
