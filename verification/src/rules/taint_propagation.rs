//! S026: user-controlled data reaching a storage write or an external call
//! without a prior `require_auth`.
//!
//! In each public method of the top-level `impl` blocks, the names bound by
//! the parameters (destructuring patterns included) are tainted, except
//! those of a parameter whose text mentions `Env`.  The dataflow itself is
//! [`crate::taint_engine::analyze`], run over the method's control-flow
//! graph, so taint carried across loop iterations and out of one branch of
//! an `if` is seen.
use vstd::prelude::*;
use crate::bridge::{parse_file, spec_parse_file};
use crate::rules::{violations_view, Rule, RuleViolation, Severity, ViolationView};
use crate::syntax::{AstBlock, AstFile, AstFnArg, AstImplItem, AstItem};
use crate::taint_engine::{analyze, collect_pat_idents, facts_view, facts_wf, findings_view, pat_idents, taint_findings, FindingView, TaintFinding};
use crate::cfg::g_build;
use crate::text::{concat, decimal, seq_contains, strings_view, text_contains, usize_to_string};

verus! {

broadcast use vstd::std_specs::vec::group_vec_axioms, vstd::seq::group_seq_axioms, vstd::set::group_set_axioms;

/// S026 rule object.
pub struct TaintPropagationRule;

impl TaintPropagationRule {
    /// A new instance of the rule.
    pub fn new() -> (r: Self)
        ensures
            r == TaintPropagationRule,
    {
        TaintPropagationRule
    }
}

impl Default for TaintPropagationRule {
    fn default() -> (r: Self)
        ensures
            r == TaintPropagationRule,
    {
        TaintPropagationRule::new()
    }
}

// ── Sources ─────────────────────────────────────────────────────────────────

/// The names the parameters bind, leaving out any parameter whose text
/// mentions `Env` and the receiver.
pub open spec fn param_sources(inputs: Seq<AstFnArg>) -> Set<Seq<char>>
    decreases inputs.len(),
{
    if inputs.len() == 0 {
        Set::empty()
    } else {
        param_sources(inputs.drop_last()).union(
            match inputs.last() {
                AstFnArg::Typed { pat, text, .. } => if seq_contains(text@, "Env"@) {
                    Set::empty()
                } else {
                    pat_idents(pat)
                },
                AstFnArg::Receiver => Set::empty(),
            },
        )
    }
}

/// The tainted names at a method's entry, each once.
fn collect_param_names(inputs: &Vec<AstFnArg>) -> (r: Vec<String>)
    ensures
        facts_wf(r@),
        facts_view(r@) == param_sources(inputs@),
{
    let mut names: Vec<String> = Vec::new();
    assert(strings_view(names@) =~= Seq::<Seq<char>>::empty());
    assert(facts_view(names@) =~= param_sources(inputs@.take(0)));
    let mut i: usize = 0;
    while i < inputs.len()
        invariant
            i <= inputs@.len(),
            facts_wf(names@),
            facts_view(names@) == param_sources(inputs@.take(i as int)),
        decreases inputs.len() - i,
    {
        assert(inputs@.take(i + 1).drop_last() =~= inputs@.take(i as int));
        assert(inputs@.take(i + 1).last() == inputs@[i as int]);
        match &inputs[i] {
            AstFnArg::Typed { pat, text, .. } => {
                if !text_contains(text.as_str(), "Env") {
                    collect_pat_idents(pat, &mut names);
                } else {
                    assert(facts_view(names@) =~= facts_view(names@).union(Set::<Seq<char>>::empty()));
                }
            },
            AstFnArg::Receiver => {
                assert(facts_view(names@) =~= facts_view(names@).union(Set::<Seq<char>>::empty()));
            },
        }
        i = i + 1;
    }
    assert(inputs@.take(inputs@.len() as int) =~= inputs@);
    names
}

// ── The rule ────────────────────────────────────────────────────────────────

/// The suggestion attached to every finding.
pub open spec fn taint_suggestion() -> Seq<char> {
    "Call require_auth() on any address parameter before using user-controlled data in storage or external calls."@
}

/// The violation a finding in function `f` becomes.
pub open spec fn taint_violation(f: Seq<char>, x: FindingView) -> ViolationView {
    (
        "taint_propagation"@,
        Severity::Warning,
        "Function '"@ + f + "': tainted variable '"@ + x.0 + "' reaches '"@ + x.1 + "' sink without prior require_auth"@,
        f + ":"@ + decimal(x.2 as nat),
        Some(taint_suggestion()),
    )
}

/// The violations of one method: none unless it is public and some
/// parameter is tainted; else one per finding of the analysis of its body.
pub open spec fn method_taint_violations(is_public: bool, f: Seq<char>, inputs: Seq<AstFnArg>, body: AstBlock) -> Seq<ViolationView> {
    let sources = param_sources(inputs);
    if !is_public || sources == Set::<Seq<char>>::empty() {
        seq![]
    } else {
        taint_findings(g_build(body), sources).map_values(|x: FindingView| taint_violation(f, x))
    }
}

/// The violations of the methods of an `impl` block.
pub open spec fn impl_taint_violations(its: Seq<AstImplItem>) -> Seq<ViolationView>
    decreases its.len(),
{
    if its.len() == 0 {
        seq![]
    } else {
        impl_taint_violations(its.drop_last()) + match its.last() {
            AstImplItem::Fn { is_public, sig, block, .. } => method_taint_violations(is_public, sig.ident@, sig.inputs@, block),
            _ => Seq::<ViolationView>::empty(),
        }
    }
}

/// The violations the rule reports on the top-level items.
pub open spec fn file_taint_violations(items: Seq<AstItem>) -> Seq<ViolationView>
    decreases items.len(),
{
    if items.len() == 0 {
        seq![]
    } else {
        file_taint_violations(items.drop_last()) + match items.last() {
            AstItem::Impl { items: its, .. } => impl_taint_violations(its@),
            _ => Seq::<ViolationView>::empty(),
        }
    }
}

/// Appends the violations of a method's findings.
fn push_taint_violations(out: &mut Vec<RuleViolation>, f: &String, findings: &Vec<TaintFinding>)
    ensures
        violations_view(final(out)@) == violations_view(old(out)@) + findings_view(findings@).map_values(
            |x: FindingView| taint_violation(f@, x),
        ),
{
    let ghost start = violations_view(out@);
    let ghost fv = findings_view(findings@);
    let mut k: usize = 0;
    while k < findings.len()
        invariant
            k <= findings@.len(),
            fv == findings_view(findings@),
            violations_view(out@) == start + fv.take(k as int).map_values(|x: FindingView| taint_violation(f@, x)),
        decreases findings.len() - k,
    {
        let finding = &findings[k];
        let m1 = concat(concat("Function '", f.as_str()).as_str(), "': tainted variable '");
        let m2 = concat(concat(m1.as_str(), finding.var.as_str()).as_str(), "' reaches '");
        let message = concat(concat(m2.as_str(), finding.sink.as_str()).as_str(), "' sink without prior require_auth");
        let location = concat(concat(f.as_str(), ":").as_str(), usize_to_string(finding.line).as_str());
        let v = RuleViolation::new("taint_propagation", Severity::Warning, message, location).with_suggestion(
            "Call require_auth() on any address parameter before using user-controlled data in storage or external calls.".to_owned(),
        );
        let ghost before = violations_view(out@);
        out.push(v);
        assert(fv[k as int] == (finding.var@, finding.sink@, finding.line));
        assert(violations_view(out@) =~= before.push(taint_violation(f@, fv[k as int])));
        assert(fv.take(k + 1).map_values(|x: FindingView| taint_violation(f@, x)) =~= fv.take(k as int).map_values(
            |x: FindingView| taint_violation(f@, x),
        ).push(taint_violation(f@, fv[k as int])));
        k = k + 1;
    }
    assert(fv.take(fv.len() as int) =~= fv);
}

impl TaintPropagationRule {
    /// The violations the rule reports on a parsed file.
    pub fn check_file(&self, file: &AstFile) -> (r: Vec<RuleViolation>)
        ensures
            violations_view(r@) == file_taint_violations(file.items@),
    {
        let mut out: Vec<RuleViolation> = Vec::new();
        let mut i: usize = 0;
        while i < file.items.len()
            invariant
                i <= file.items@.len(),
                violations_view(out@) == file_taint_violations(file.items@.take(i as int)),
            decreases file.items.len() - i,
        {
            assert(file.items@.take(i + 1).drop_last() =~= file.items@.take(i as int));
            assert(file.items@.take(i + 1).last() == file.items@[i as int]);
            match &file.items[i] {
                AstItem::Impl { items: its, .. } => {
                    let ghost start = violations_view(out@);
                    let mut k: usize = 0;
                    while k < its.len()
                        invariant
                            k <= its@.len(),
                            violations_view(out@) == start + impl_taint_violations(its@.take(k as int)),
                        decreases its.len() - k,
                    {
                        assert(its@.take(k + 1).drop_last() =~= its@.take(k as int));
                        assert(its@.take(k + 1).last() == its@[k as int]);
                        match &its[k] {
                            AstImplItem::Fn { is_public, sig, block, .. } => {
                                if *is_public {
                                    let sources = collect_param_names(&sig.inputs);
                                    if sources.len() > 0 {
                                        assert(strings_view(sources@)[0] == sources@[0]@);
                                        assert(facts_view(sources@).contains(sources@[0]@));
                                        let findings = analyze(block, sources);
                                        push_taint_violations(&mut out, &sig.ident, &findings);
                                    } else {
                                        assert(facts_view(sources@) =~= Set::<Seq<char>>::empty()) by {
                                            assert(strings_view(sources@) =~= Seq::<Seq<char>>::empty());
                                        }
                                    }
                                }
                            },
                            _ => {},
                        }
                        assert(violations_view(out@) =~= start + impl_taint_violations(its@.take(k + 1)));
                        k = k + 1;
                    }
                    assert(its@.take(its@.len() as int) =~= its@);
                },
                _ => {},
            }
            assert(violations_view(out@) =~= file_taint_violations(file.items@.take(i + 1)));
            i = i + 1;
        }
        assert(file.items@.take(file.items@.len() as int) =~= file.items@);
        out
    }
}

impl Rule for TaintPropagationRule {
    fn name(&self) -> (r: &str)
        ensures
            r@ == "taint_propagation"@,
    {
        "taint_propagation"
    }

    fn description(&self) -> (r: &str)
        ensures
            r@ == "Tracks user-controlled data through the function's control-flow graph and flags when tainted values reach storage or external-call sinks without auth"@,
    {
        "Tracks user-controlled data through the function's control-flow graph and flags when tainted values reach storage or external-call sinks without auth"
    }

    /// The violations the rule reports on `source`; none when `syn` rejects it.
    fn check(&self, source: &str) -> (r: Vec<RuleViolation>)
        ensures
            match spec_parse_file(source@) {
                Some(f) => violations_view(r@) == file_taint_violations(f.items@),
                None => r@.len() == 0,
            },
    {
        match parse_file(source) {
            Ok(file) => self.check_file(&file),
            Err(_) => Vec::new(),
        }
    }
}

} // verus!
