//! `#[invariant = "..."]` annotations: extraction and overflow/underflow checks.
//!
//! An invariant whose expression mentions addition (`+`, or `add` in any
//! letter case) is checked against `u64` overflow of `a + b`; one that
//! mentions subtraction (`-`, or `sub`) against `u64` underflow of `a - b`,
//! with `a` and `b` ranging over all `u64` values.  Other invariants need
//! manual modelling and are skipped.
use vstd::prelude::*;
use crate::bridge::{parse_file, spec_parse_file};
use crate::events::path_is_ident_exec;
use crate::smt::types::{InvariantSpec, SmtConfig, SmtFinding};
use crate::syntax::{path_is_ident, AstAttribute, AstExpr, AstFile, AstImplItem, AstItem, AstLit, AstMeta};
use crate::text::{concat, contains_folded, decimal, seq_contains, text_contains, text_contains_folded, u128_to_string};

verus! {

broadcast use vstd::std_specs::vec::group_vec_axioms, vstd::seq::group_seq_axioms;

// ── Extraction ──────────────────────────────────────────────────────────────

/// The expression of an `#[invariant = "..."]` attribute, if `a` is one.
pub open spec fn attr_invariant(a: AstAttribute) -> Option<Seq<char>> {
    if path_is_ident(a.path, "invariant"@) {
        match a.meta {
            AstMeta::NameValue(AstExpr::Lit { lit: AstLit::Str(v), .. }) => Some(v@),
            _ => None,
        }
    } else {
        None
    }
}

/// The invariants (expression, function) declared by the attributes of function `loc`.
pub open spec fn attrs_invariants(attrs: Seq<AstAttribute>, loc: Seq<char>) -> Seq<(Seq<char>, Seq<char>)>
    decreases attrs.len(),
{
    if attrs.len() == 0 {
        seq![]
    } else {
        attrs_invariants(attrs.drop_last(), loc) + match attr_invariant(attrs.last()) {
            Some(v) => seq![(v, loc)],
            None => Seq::<(Seq<char>, Seq<char>)>::empty(),
        }
    }
}

/// The invariants declared on the methods of an `impl` block.
pub open spec fn impl_items_invariants(its: Seq<AstImplItem>) -> Seq<(Seq<char>, Seq<char>)>
    decreases its.len(),
{
    if its.len() == 0 {
        seq![]
    } else {
        impl_items_invariants(its.drop_last()) + match its.last() {
            AstImplItem::Fn { attrs, sig, .. } => attrs_invariants(attrs@, sig.ident@),
            _ => Seq::<(Seq<char>, Seq<char>)>::empty(),
        }
    }
}

/// The invariants declared on methods of the top-level `impl` blocks.
pub open spec fn items_invariants(its: Seq<AstItem>) -> Seq<(Seq<char>, Seq<char>)>
    decreases its.len(),
{
    if its.len() == 0 {
        seq![]
    } else {
        items_invariants(its.drop_last()) + match its.last() {
            AstItem::Impl { items, .. } => impl_items_invariants(items@),
            _ => Seq::<(Seq<char>, Seq<char>)>::empty(),
        }
    }
}

/// The plain values of an invariant: its expression and its function.
pub open spec fn invariant_view(s: InvariantSpec) -> (Seq<char>, Seq<char>) {
    (s.expression@, s.location@)
}

/// The views of a sequence of invariants.
pub open spec fn invariants_view(v: Seq<InvariantSpec>) -> Seq<(Seq<char>, Seq<char>)> {
    v.map_values(|s: InvariantSpec| invariant_view(s))
}

fn push_attrs_invariants(attrs: &Vec<AstAttribute>, loc: &String, out: &mut Vec<InvariantSpec>)
    ensures
        invariants_view(final(out)@) == invariants_view(old(out)@) + attrs_invariants(attrs@, loc@),
{
    let ghost start = invariants_view(out@);
    let mut i: usize = 0;
    while i < attrs.len()
        invariant
            i <= attrs@.len(),
            invariants_view(out@) == start + attrs_invariants(attrs@.take(i as int), loc@),
        decreases attrs.len() - i,
    {
        assert(attrs@.take(i + 1).drop_last() =~= attrs@.take(i as int));
        assert(attrs@.take(i + 1).last() == attrs@[i as int]);
        let a = &attrs[i];
        let ghost before = invariants_view(out@);
        if path_is_ident_exec(&a.path, "invariant") {
            match &a.meta {
                AstMeta::NameValue(AstExpr::Lit { lit: AstLit::Str(v), .. }) => {
                    out.push(InvariantSpec { expression: v.clone(), location: loc.clone() });
                    assert(attr_invariant(attrs@[i as int]) == Some(v@));
                    assert(invariants_view(out@) =~= before.push((v@, loc@)));
                },
                _ => {
                    assert(attr_invariant(attrs@[i as int]) is None);
                },
            }
        } else {
            assert(attr_invariant(attrs@[i as int]) is None);
        }
        assert(invariants_view(out@) =~= start + attrs_invariants(attrs@.take(i + 1), loc@));
        i = i + 1;
    }
    assert(attrs@.take(attrs@.len() as int) =~= attrs@);
}

fn push_impl_items_invariants(its: &Vec<AstImplItem>, out: &mut Vec<InvariantSpec>)
    ensures
        invariants_view(final(out)@) == invariants_view(old(out)@) + impl_items_invariants(its@),
{
    let ghost start = invariants_view(out@);
    let mut i: usize = 0;
    while i < its.len()
        invariant
            i <= its@.len(),
            invariants_view(out@) == start + impl_items_invariants(its@.take(i as int)),
        decreases its.len() - i,
    {
        assert(its@.take(i + 1).drop_last() =~= its@.take(i as int));
        assert(its@.take(i + 1).last() == its@[i as int]);
        let ghost before = invariants_view(out@);
        match &its[i] {
            AstImplItem::Fn { attrs, sig, .. } => push_attrs_invariants(attrs, &sig.ident, out),
            _ => {},
        }
        assert(invariants_view(out@) =~= start + impl_items_invariants(its@.take(i + 1)));
        i = i + 1;
    }
    assert(its@.take(its@.len() as int) =~= its@);
}

/// The invariants declared on methods of the file's top-level `impl` blocks,
/// in source order.
pub fn file_invariants(file: &AstFile) -> (r: Vec<InvariantSpec>)
    ensures
        invariants_view(r@) == items_invariants(file.items@),
{
    let mut out: Vec<InvariantSpec> = Vec::new();
    let mut i: usize = 0;
    while i < file.items.len()
        invariant
            i <= file.items@.len(),
            invariants_view(out@) == items_invariants(file.items@.take(i as int)),
        decreases file.items.len() - i,
    {
        assert(file.items@.take(i + 1).drop_last() =~= file.items@.take(i as int));
        assert(file.items@.take(i + 1).last() == file.items@[i as int]);
        match &file.items[i] {
            AstItem::Impl { items, .. } => push_impl_items_invariants(items, &mut out),
            _ => {},
        }
        assert(invariants_view(out@) =~= items_invariants(file.items@.take(i + 1)));
        i = i + 1;
    }
    assert(file.items@.take(file.items@.len() as int) =~= file.items@);
    out
}

/// The `#[invariant = "..."]` annotations of `source`; none when `syn` rejects it.
pub fn parse_invariants(source: &str) -> (r: Vec<InvariantSpec>)
    ensures
        match spec_parse_file(source@) {
            Some(f) => invariants_view(r@) == items_invariants(f.items@),
            None => r@.len() == 0,
        },
{
    match parse_file(source) {
        Ok(file) => file_invariants(&file),
        Err(_) => Vec::new(),
    }
}

// ── Checking ────────────────────────────────────────────────────────────────

/// The property an invariant is checked against.
#[derive(Debug, Clone, Copy, PartialEq, Eq, Structural)]
pub enum ArithmeticCheck {
    /// `a + b` must not exceed `u64::MAX`.
    AdditionOverflow,
    /// `a - b` must not drop below zero.
    SubtractionUnderflow,
}

/// What a solver answers to "can the property be violated?".
#[derive(Debug, Clone, Copy, PartialEq, Eq, Structural)]
pub enum SolverVerdict {
    /// Yes, by these values of `a` and `b`.
    Violated { a: u64, b: u64 },
    /// No.
    Holds,
    /// The solver gave up (ran out of time).
    Unknown,
}

/// The check an invariant's expression calls for, if any.
pub open spec fn check_for(expr: Seq<char>) -> Option<ArithmeticCheck> {
    if seq_contains(expr, "+"@) || contains_folded(expr, "add"@, "ADD"@) {
        Some(ArithmeticCheck::AdditionOverflow)
    } else if seq_contains(expr, "-"@) || contains_folded(expr, "sub"@, "SUB"@) {
        Some(ArithmeticCheck::SubtractionUnderflow)
    } else {
        None
    }
}

/// Whether `a` and `b` violate the property.
pub open spec fn violates(check: ArithmeticCheck, a: int, b: int) -> bool {
    match check {
        ArithmeticCheck::AdditionOverflow => a + b > u64::MAX,
        ArithmeticCheck::SubtractionUnderflow => a - b < 0,
    }
}

/// The text of a counterexample.
pub open spec fn counterexample_text(check: ArithmeticCheck, a: u64, b: u64) -> Seq<char> {
    "a="@ + decimal(a as nat) + ", b="@ + decimal(b as nat) + match check {
        ArithmeticCheck::AdditionOverflow => " — a+b overflows u64"@,
        ArithmeticCheck::SubtractionUnderflow => " — a-b underflows u64"@,
    }
}

/// The plain values of a finding: invariant, location, counterexample, timeout.
pub open spec fn finding_view(f: SmtFinding) -> (Seq<char>, Seq<char>, Option<Seq<char>>, bool) {
    (
        f.invariant_name@,
        f.location@,
        match f.counterexample {
            Some(c) => Some(c@),
            None => None,
        },
        f.is_timeout,
    )
}

/// The finding a verdict on invariant `inv` yields, if any.
pub open spec fn verdict_finding(
    inv: (Seq<char>, Seq<char>),
    check: ArithmeticCheck,
    verdict: SolverVerdict,
) -> Option<(Seq<char>, Seq<char>, Option<Seq<char>>, bool)> {
    match verdict {
        SolverVerdict::Violated { a, b } => Some((inv.0, inv.1, Some(counterexample_text(check, a, b)), false)),
        SolverVerdict::Holds => None,
        SolverVerdict::Unknown => Some((inv.0, inv.1, None, true)),
    }
}

/// The finding for invariant `inv` given the solver's verdict on its check.
pub fn finding_from_verdict(
    inv: &InvariantSpec,
    check: ArithmeticCheck,
    verdict: SolverVerdict,
) -> (r: Option<SmtFinding>)
    ensures
        match r {
            Some(f) => verdict_finding(invariant_view(*inv), check, verdict) == Some(finding_view(f)),
            None => verdict_finding(invariant_view(*inv), check, verdict) is None,
        },
{
    match verdict {
        SolverVerdict::Violated { a, b } => {
            let s1 = concat("a=", u128_to_string(a as u128).as_str());
            let s2 = concat(s1.as_str(), ", b=");
            let s3 = concat(s2.as_str(), u128_to_string(b as u128).as_str());
            let text = match check {
                ArithmeticCheck::AdditionOverflow => concat(s3.as_str(), " — a+b overflows u64"),
                ArithmeticCheck::SubtractionUnderflow => concat(s3.as_str(), " — a-b underflows u64"),
            };
            Some(SmtFinding {
                invariant_name: inv.expression.clone(),
                location: inv.location.clone(),
                counterexample: Some(text),
                is_timeout: false,
            })
        },
        SolverVerdict::Holds => None,
        SolverVerdict::Unknown => Some(SmtFinding {
            invariant_name: inv.expression.clone(),
            location: inv.location.clone(),
            counterexample: None,
            is_timeout: true,
        }),
    }
}

/// The verdict on a check over all `u64` values of `a` and `b`.  Both
/// properties can be violated, so the verdict always names violating values.
pub fn decide(check: ArithmeticCheck) -> (v: SolverVerdict)
    ensures
        v matches SolverVerdict::Violated { a, b } && violates(check, a as int, b as int),
        v == decided_verdict(check),
{
    match check {
        ArithmeticCheck::AdditionOverflow => SolverVerdict::Violated { a: u64::MAX, b: 1 },
        ArithmeticCheck::SubtractionUnderflow => SolverVerdict::Violated { a: 0, b: 1 },
    }
}

/// The verdict [`decide`] gives.
pub open spec fn decided_verdict(check: ArithmeticCheck) -> SolverVerdict {
    match check {
        ArithmeticCheck::AdditionOverflow => SolverVerdict::Violated { a: u64::MAX, b: 1 },
        ArithmeticCheck::SubtractionUnderflow => SolverVerdict::Violated { a: 0, b: 1 },
    }
}

/// The check an invariant's expression calls for, if any.
pub fn check_for_exec(expr: &str) -> (r: Option<ArithmeticCheck>)
    ensures
        r == check_for(expr@),
{
    proof {
        reveal_strlit("add");
        reveal_strlit("ADD");
        reveal_strlit("sub");
        reveal_strlit("SUB");
    }
    if text_contains(expr, "+") || text_contains_folded(expr, "add", "ADD") {
        Some(ArithmeticCheck::AdditionOverflow)
    } else if text_contains(expr, "-") || text_contains_folded(expr, "sub", "SUB") {
        Some(ArithmeticCheck::SubtractionUnderflow)
    } else {
        None
    }
}

/// The finding for one invariant, if it cannot be proved.
pub open spec fn invariant_finding(inv: (Seq<char>, Seq<char>)) -> Option<(Seq<char>, Seq<char>, Option<Seq<char>>, bool)> {
    match check_for(inv.0) {
        Some(c) => verdict_finding(inv, c, decided_verdict(c)),
        None => None,
    }
}

/// The findings for a sequence of invariants, in order.
pub open spec fn invariants_findings(invs: Seq<(Seq<char>, Seq<char>)>) -> Seq<(Seq<char>, Seq<char>, Option<Seq<char>>, bool)>
    decreases invs.len(),
{
    if invs.len() == 0 {
        seq![]
    } else {
        invariants_findings(invs.drop_last()) + match invariant_finding(invs.last()) {
            Some(f) => seq![f],
            None => Seq::<(Seq<char>, Seq<char>, Option<Seq<char>>, bool)>::empty(),
        }
    }
}

/// The views of a sequence of findings.
pub open spec fn findings_view(v: Seq<SmtFinding>) -> Seq<(Seq<char>, Seq<char>, Option<Seq<char>>, bool)> {
    v.map_values(|f: SmtFinding| finding_view(f))
}

/// One finding for every `#[invariant = "..."]` annotation of `source` that
/// cannot be proved, in source order.  No solver is called: each check is
/// decided exactly here and always reaches a verdict, so the time bound in
/// `config` is never reached.
pub fn verify_invariants(source: &str, config: &SmtConfig) -> (r: Vec<SmtFinding>)
    ensures
        match spec_parse_file(source@) {
            Some(f) => findings_view(r@) == invariants_findings(items_invariants(f.items@)),
            None => r@.len() == 0,
        },
{
    let specs = parse_invariants(source);
    let ghost invs = invariants_view(specs@);
    let mut out: Vec<SmtFinding> = Vec::new();
    let mut i: usize = 0;
    while i < specs.len()
        invariant
            i <= specs@.len(),
            invs == invariants_view(specs@),
            findings_view(out@) == invariants_findings(invs.take(i as int)),
        decreases specs.len() - i,
    {
        assert(invs.take(i + 1).drop_last() =~= invs.take(i as int));
        assert(invs.take(i + 1).last() == invariant_view(specs@[i as int]));
        match check_for_exec(specs[i].expression.as_str()) {
            Some(check) => {
                let verdict = decide(check);
                match finding_from_verdict(&specs[i], check, verdict) {
                    Some(f) => {
                        out.push(f);
                    },
                    None => {},
                }
            },
            None => {},
        }
        assert(findings_view(out@) =~= invariants_findings(invs.take(i + 1)));
        i = i + 1;
    }
    assert(invs.take(invs.len() as int) =~= invs);
    out
}

} // verus!
