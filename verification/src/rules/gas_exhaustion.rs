//! S031: loops whose iteration count grows with an unbounded parameter.
//!
//! A parameter is unbounded when it is a plain name whose type is (a
//! reference to) `Vec`, `Map`, `Bytes`, or a raw unsigned `u32`, `u64`,
//! `u128` or `usize`.  In the methods of the top-level `impl` blocks, a `for` loop over
//! such a parameter (or up to a bound derived from it) and a `while` loop
//! whose `<`, `<=` or `!=` condition compares against one are flagged,
//! unless the iterator or condition is clamped with `min`, `take`,
//! `saturating_sub`, `truncate` or `clamp`.
use vstd::prelude::*;
use crate::bridge::{parse_file, spec_parse_file};
use crate::rules::{violations_view, Rule, RuleViolation, Severity, ViolationView};
use crate::syntax::{path_last_ident, AstBinOp, AstExpr, AstPath, AstFile, AstFnArg, AstImplItem, AstItem, AstPat, AstStmt, AstType};
use crate::text::{concat, decimal, strings_view, text_eq, usize_to_string};

verus! {

broadcast use vstd::std_specs::vec::group_vec_axioms, vstd::seq::group_seq_axioms;

/// S031 rule object.
pub struct GasExhaustionRiskRule;

impl GasExhaustionRiskRule {
    /// A new instance of the rule.
    pub fn new() -> (r: Self)
        ensures
            r == GasExhaustionRiskRule,
    {
        GasExhaustionRiskRule
    }
}

impl Default for GasExhaustionRiskRule {
    fn default() -> (r: Self)
        ensures
            r == GasExhaustionRiskRule,
    {
        GasExhaustionRiskRule::new()
    }
}

// ── Unbounded parameters ────────────────────────────────────────────────────

/// Whether a type name denotes a caller-sized collection (`Vec`, `Map`,
/// `Bytes`) or a raw unsigned integer (`u32`, `u64`, `u128`, `usize`).
pub open spec fn is_unbounded_name(n: Seq<char>) -> bool {
    n == "Vec"@ || n == "Map"@ || n == "Bytes"@ || n == "u32"@ || n == "u64"@ || n == "u128"@
        || n == "usize"@
}

/// Whether a type is unbounded, seen through references.
pub open spec fn type_is_unbounded(t: AstType) -> bool
    decreases t,
{
    match t {
        AstType::Path { last, .. } => match last {
            Some(n) => is_unbounded_name(n@),
            None => false,
        },
        AstType::Reference(e) => type_is_unbounded(*e),
        _ => false,
    }
}

fn type_is_unbounded_exec(t: &AstType) -> (r: bool)
    ensures
        r == type_is_unbounded(*t),
    decreases t,
{
    match t {
        AstType::Path { last, .. } => match last {
            Some(n) => {
                let s = n.as_str();
                text_eq(s, "Vec") || text_eq(s, "Map") || text_eq(s, "Bytes") || text_eq(s, "u32")
                    || text_eq(s, "u64") || text_eq(s, "u128") || text_eq(s, "usize")
            },
            None => false,
        },
        AstType::Reference(e) => type_is_unbounded_exec(e),
        _ => false,
    }
}

/// The plainly named parameters of unbounded type, in order.
pub open spec fn unbounded_params(inputs: Seq<AstFnArg>) -> Seq<Seq<char>>
    decreases inputs.len(),
{
    if inputs.len() == 0 {
        seq![]
    } else {
        unbounded_params(inputs.drop_last()) + match inputs.last() {
            AstFnArg::Typed { pat: AstPat::Ident(n), ty, .. } => if type_is_unbounded(ty) {
                seq![n@]
            } else {
                Seq::<Seq<char>>::empty()
            },
            _ => Seq::<Seq<char>>::empty(),
        }
    }
}

/// The plainly named parameters of unbounded type, in order.
pub fn unbounded_param_names(inputs: &Vec<AstFnArg>) -> (r: Vec<String>)
    ensures
        strings_view(r@) == unbounded_params(inputs@),
{
    let mut out: Vec<String> = Vec::new();
    let mut i: usize = 0;
    while i < inputs.len()
        invariant
            i <= inputs@.len(),
            strings_view(out@) == unbounded_params(inputs@.take(i as int)),
        decreases inputs.len() - i,
    {
        assert(inputs@.take(i + 1).drop_last() =~= inputs@.take(i as int));
        assert(inputs@.take(i + 1).last() == inputs@[i as int]);
        let ghost before = strings_view(out@);
        match &inputs[i] {
            AstFnArg::Typed { pat: AstPat::Ident(n), ty, .. } => {
                if type_is_unbounded_exec(ty) {
                    out.push(n.clone());
                    assert(strings_view(out@) =~= before.push(n@));
                }
            },
            _ => {},
        }
        assert(strings_view(out@) =~= unbounded_params(inputs@.take(i + 1)));
        i = i + 1;
    }
    assert(inputs@.take(inputs@.len() as int) =~= inputs@);
    out
}

/// The unbounded type names are exactly the collections `Vec`, `Map`,
/// `Bytes` and the unsigned integers `u32`, `u64`, `u128`, `usize`, written
/// directly or behind a reference; no other named type is unbounded.
pub proof fn law_unbounded_type_names(t: String, text: String)
    ensures
        ({
            let named = t@ == "Vec"@ || t@ == "Map"@ || t@ == "Bytes"@ || t@ == "u32"@ || t@ == "u64"@ || t@
                == "u128"@ || t@ == "usize"@;
            let ty = AstType::Path { last: Some(t), text };
            &&& type_is_unbounded(ty) <==> named
            &&& type_is_unbounded(AstType::Reference(Box::new(ty))) <==> named
        }),
{
}

/// Whether parameter `a` is plainly named `x` and of unbounded type.
pub open spec fn is_unbounded_param_named(a: AstFnArg, x: Seq<char>) -> bool {
    match a {
        AstFnArg::Typed { pat: AstPat::Ident(n), ty, .. } => n@ == x && type_is_unbounded(ty),
        _ => false,
    }
}

/// Every plainly named parameter of unbounded type is reported, and every
/// reported name is such a parameter.
pub proof fn law_unbounded_params_are_the_unbounded_parameters(inputs: Seq<AstFnArg>)
    ensures
        forall|k: int, x: Seq<char>|
            0 <= k < inputs.len() && is_unbounded_param_named(#[trigger] inputs[k], x) ==> #[trigger] unbounded_params(
                inputs,
            ).contains(x),
        forall|x: Seq<char>| #[trigger] unbounded_params(inputs).contains(x) ==> exists|k: int|
            0 <= k < inputs.len() && is_unbounded_param_named(#[trigger] inputs[k], x),
    decreases inputs.len(),
{
    if inputs.len() > 0 {
        let init = inputs.drop_last();
        law_unbounded_params_are_the_unbounded_parameters(init);
        let head = unbounded_params(init);
        let all = unbounded_params(inputs);
        assert(all == head + match inputs.last() {
            AstFnArg::Typed { pat: AstPat::Ident(n), ty, .. } => if type_is_unbounded(ty) {
                seq![n@]
            } else {
                Seq::<Seq<char>>::empty()
            },
            _ => Seq::<Seq<char>>::empty(),
        });
        assert forall|k: int, x: Seq<char>|
            0 <= k < inputs.len() && is_unbounded_param_named(#[trigger] inputs[k], x) implies #[trigger] all.contains(
            x,
        ) by {
            if k < inputs.len() - 1 {
                assert(init[k] == inputs[k]);
                assert(head.contains(x));
                let j = choose|j: int| 0 <= j < head.len() && head[j] == x;
                assert(all[j] == head[j]);
            } else {
                assert(all[head.len() as int] == x);
            }
        }
        assert forall|x: Seq<char>| #[trigger] all.contains(x) implies exists|k: int|
            0 <= k < inputs.len() && is_unbounded_param_named(#[trigger] inputs[k], x) by {
            let i = choose|i: int| 0 <= i < all.len() && all[i] == x;
            if i < head.len() {
                assert(head[i] == x);
                assert(head.contains(x));
                let k = choose|k: int| 0 <= k < init.len() && is_unbounded_param_named(#[trigger] init[k], x);
                assert(inputs[k] == init[k]);
            } else {
                assert(is_unbounded_param_named(inputs[inputs.len() - 1], x));
            }
        }
    }
}

// ── Loop bounds ─────────────────────────────────────────────────────────────

/// Whether a method name clamps an iteration count.
pub open spec fn is_clamp_method(m: Seq<char>) -> bool {
    m == "min"@ || m == "take"@ || m == "saturating_sub"@ || m == "truncate"@ || m == "clamp"@
}

/// Whether an iterator or condition is clamped: a clamping method in its
/// receiver chain, seen through `&`, parentheses and a range's end.
pub open spec fn contains_clamp(e: AstExpr) -> bool
    decreases e,
{
    match e {
        AstExpr::MethodCall { receiver, method, .. } => is_clamp_method(method@) || contains_clamp(*receiver),
        AstExpr::Reference { expr, .. } => contains_clamp(*expr),
        AstExpr::Paren { expr, .. } => contains_clamp(*expr),
        AstExpr::Range { end, .. } => match end {
            Some(x) => contains_clamp(*x),
            None => false,
        },
        _ => false,
    }
}

fn contains_clamp_exec(e: &AstExpr) -> (r: bool)
    ensures
        r == contains_clamp(*e),
    decreases e,
{
    match e {
        AstExpr::MethodCall { receiver, method, .. } => {
            let m = method.as_str();
            text_eq(m, "min") || text_eq(m, "take") || text_eq(m, "saturating_sub") || text_eq(m, "truncate")
                || text_eq(m, "clamp") || contains_clamp_exec(receiver)
        },
        AstExpr::Reference { expr, .. } => contains_clamp_exec(expr),
        AstExpr::Paren { expr, .. } => contains_clamp_exec(expr),
        AstExpr::Range { end, .. } => match end {
            Some(x) => contains_clamp_exec(x),
            None => false,
        },
        _ => false,
    }
}

/// The unbounded parameter a path names, if any.
pub open spec fn path_param(e: AstExpr, params: Seq<Seq<char>>) -> Option<Seq<char>> {
    match e {
        AstExpr::Path { path, .. } => match path_last_ident(path) {
            Some(n) => if params.contains(n) { Some(n) } else { None },
            None => None,
        },
        _ => None,
    }
}

/// The unbounded parameter at the root of a receiver, seen through `&`,
/// unary operators and parentheses.
pub open spec fn root_receiver_param(e: AstExpr, params: Seq<Seq<char>>) -> Option<Seq<char>>
    decreases e,
{
    match e {
        AstExpr::Path { .. } => path_param(e, params),
        AstExpr::Reference { expr, .. } => root_receiver_param(*expr, params),
        AstExpr::Unary { expr, .. } => root_receiver_param(*expr, params),
        AstExpr::Paren { expr, .. } => root_receiver_param(*expr, params),
        _ => None,
    }
}

/// The unbounded parameter a loop bound derives from: the parameter itself,
/// or its `.len()`, seen through parentheses.
pub open spec fn range_bound_param(e: AstExpr, params: Seq<Seq<char>>) -> Option<Seq<char>>
    decreases e,
{
    match e {
        AstExpr::Path { .. } => path_param(e, params),
        AstExpr::MethodCall { receiver, method, .. } => if method@ == "len"@ {
            root_receiver_param(*receiver, params)
        } else {
            None
        },
        AstExpr::Paren { expr, .. } => range_bound_param(*expr, params),
        _ => None,
    }
}

/// Why a `for` loop's iterator is unbounded, if it is.
pub open spec fn unbounded_iterator_reason(e: AstExpr, params: Seq<Seq<char>>) -> Option<Seq<char>>
    decreases e,
{
    if contains_clamp(e) {
        None
    } else {
        match e {
            AstExpr::MethodCall { receiver, .. } => match root_receiver_param(*receiver, params) {
                Some(p) => Some("iterates the full length of parameter '"@ + p + "'"@),
                None => unbounded_iterator_reason(*receiver, params),
            },
            AstExpr::Reference { expr, .. } => unbounded_iterator_reason(*expr, params),
            AstExpr::Paren { expr, .. } => unbounded_iterator_reason(*expr, params),
            AstExpr::Range { end, .. } => match end {
                Some(x) => match range_bound_param(*x, params) {
                    Some(p) => Some("iterates up to bound derived from parameter '"@ + p + "'"@),
                    None => None,
                },
                None => None,
            },
            _ => None,
        }
    }
}

/// A `for` loop over a range whose end is an unbounded parameter `p`, or
/// `p.len()`, is unbounded because of `p`.
pub proof fn law_range_to_unbounded_parameter(
    start: Option<Box<AstExpr>>,
    path: AstPath,
    arg_exprs: Vec<AstExpr>,
    path_line: usize,
    len_call: bool,
    method: String,
    method_line: usize,
    turbofish_exprs: Vec<AstExpr>,
    args: Vec<AstExpr>,
    text: String,
    receiver_text: String,
    line: usize,
    params: Seq<Seq<char>>,
)
    requires
        path.segments@.len() > 0,
        params.contains(path.segments@.last().ident@),
        len_call ==> method@ == "len"@,
    ensures
        ({
            let p = path.segments@.last().ident@;
            let param = AstExpr::Path { path, arg_exprs, line: path_line };
            let end = if len_call {
                AstExpr::MethodCall {
                    receiver: Box::new(param),
                    method,
                    method_line,
                    turbofish_exprs,
                    args,
                    text,
                    receiver_text,
                    line,
                }
            } else {
                param
            };
            unbounded_iterator_reason(AstExpr::Range { start, end: Some(Box::new(end)), line }, params) == Some(
                "iterates up to bound derived from parameter '"@ + p + "'"@,
            )
        }),
{
    reveal_strlit("len");
    reveal_strlit("min");
    reveal_strlit("take");
    reveal_strlit("saturating_sub");
    reveal_strlit("truncate");
    reveal_strlit("clamp");
    let p = path.segments@.last().ident@;
    let param = AstExpr::Path { path, arg_exprs, line: path_line };
    assert(path_last_ident(path) == Some(p));
    assert(path_param(param, params) == Some(p));
    assert(!contains_clamp(param));
    assert(range_bound_param(param, params) == Some(p));
    assert(root_receiver_param(param, params) == Some(p));
    let end = if len_call {
        AstExpr::MethodCall {
            receiver: Box::new(param),
            method,
            method_line,
            turbofish_exprs,
            args,
            text,
            receiver_text,
            line,
        }
    } else {
        param
    };
    assert(!is_clamp_method("len"@)) by {
        assert("len"@[0] != "min"@[0]);
        assert("len"@.len() != "take"@.len());
        assert("len"@.len() != "saturating_sub"@.len());
        assert("len"@.len() != "truncate"@.len());
        assert("len"@.len() != "clamp"@.len());
    }
    assert(!contains_clamp(end));
    assert(range_bound_param(end, params) == Some(p));
    let r = AstExpr::Range { start, end: Some(Box::new(end)), line };
    assert(!contains_clamp(r));
}

/// Why a `while` loop's condition is unbounded, if it is.
pub open spec fn unbounded_condition_reason(e: AstExpr, params: Seq<Seq<char>>) -> Option<Seq<char>> {
    if contains_clamp(e) {
        None
    } else {
        match e {
            AstExpr::Binary { left, op, right, .. } => if op == AstBinOp::Lt || op == AstBinOp::Le || op
                == AstBinOp::Ne {
                let p = match range_bound_param(*right, params) {
                    Some(p) => Some(p),
                    None => range_bound_param(*left, params),
                };
                match p {
                    Some(p) => Some("loop condition is bounded by parameter '"@ + p + "'"@),
                    None => None,
                }
            } else {
                None
            },
            _ => None,
        }
    }
}

/// Whether `x` is one of `names`.
fn contains_name(names: &Vec<String>, x: &str) -> (r: bool)
    ensures
        r == strings_view(names@).contains(x@),
{
    let mut i: usize = 0;
    while i < names.len()
        invariant
            i <= names@.len(),
            forall|j: int| 0 <= j < i ==> names@[j]@ != x@,
        decreases names.len() - i,
    {
        if text_eq(names[i].as_str(), x) {
            assert(strings_view(names@)[i as int] == x@);
            return true;
        }
        i = i + 1;
    }
    assert forall|j: int| 0 <= j < strings_view(names@).len() implies strings_view(names@)[j] != x@ by {
        assert(strings_view(names@)[j] == names@[j]@);
    }
    false
}

fn path_param_exec(e: &AstExpr, params: &Vec<String>) -> (r: Option<String>)
    ensures
        match r {
            Some(s) => path_param(*e, strings_view(params@)) == Some(s@),
            None => path_param(*e, strings_view(params@)) is None,
        },
{
    match e {
        AstExpr::Path { path, .. } => {
            let n = path.segments.len();
            if n == 0 {
                None
            } else {
                let name = &path.segments[n - 1].ident;
                if contains_name(params, name.as_str()) {
                    Some(name.clone())
                } else {
                    None
                }
            }
        },
        _ => None,
    }
}

fn root_receiver_param_exec(e: &AstExpr, params: &Vec<String>) -> (r: Option<String>)
    ensures
        match r {
            Some(s) => root_receiver_param(*e, strings_view(params@)) == Some(s@),
            None => root_receiver_param(*e, strings_view(params@)) is None,
        },
    decreases e,
{
    match e {
        AstExpr::Path { .. } => path_param_exec(e, params),
        AstExpr::Reference { expr, .. } => root_receiver_param_exec(expr, params),
        AstExpr::Unary { expr, .. } => root_receiver_param_exec(expr, params),
        AstExpr::Paren { expr, .. } => root_receiver_param_exec(expr, params),
        _ => None,
    }
}

fn range_bound_param_exec(e: &AstExpr, params: &Vec<String>) -> (r: Option<String>)
    ensures
        match r {
            Some(s) => range_bound_param(*e, strings_view(params@)) == Some(s@),
            None => range_bound_param(*e, strings_view(params@)) is None,
        },
    decreases e,
{
    match e {
        AstExpr::Path { .. } => path_param_exec(e, params),
        AstExpr::MethodCall { receiver, method, .. } => if text_eq(method.as_str(), "len") {
            root_receiver_param_exec(receiver, params)
        } else {
            None
        },
        AstExpr::Paren { expr, .. } => range_bound_param_exec(expr, params),
        _ => None,
    }
}

fn quoted_reason(prefix: &str, p: &String) -> (r: String)
    ensures
        r@ == prefix@ + p@ + "'"@,
{
    concat(concat(prefix, p.as_str()).as_str(), "'")
}

fn unbounded_iterator_reason_exec(e: &AstExpr, params: &Vec<String>) -> (r: Option<String>)
    ensures
        match r {
            Some(s) => unbounded_iterator_reason(*e, strings_view(params@)) == Some(s@),
            None => unbounded_iterator_reason(*e, strings_view(params@)) is None,
        },
    decreases e,
{
    if contains_clamp_exec(e) {
        return None;
    }
    match e {
        AstExpr::MethodCall { receiver, .. } => match root_receiver_param_exec(receiver, params) {
            Some(p) => Some(quoted_reason("iterates the full length of parameter '", &p)),
            None => unbounded_iterator_reason_exec(receiver, params),
        },
        AstExpr::Reference { expr, .. } => unbounded_iterator_reason_exec(expr, params),
        AstExpr::Paren { expr, .. } => unbounded_iterator_reason_exec(expr, params),
        AstExpr::Range { end, .. } => match end {
            Some(x) => match range_bound_param_exec(x, params) {
                Some(p) => Some(quoted_reason("iterates up to bound derived from parameter '", &p)),
                None => None,
            },
            None => None,
        },
        _ => None,
    }
}

fn unbounded_condition_reason_exec(e: &AstExpr, params: &Vec<String>) -> (r: Option<String>)
    ensures
        match r {
            Some(s) => unbounded_condition_reason(*e, strings_view(params@)) == Some(s@),
            None => unbounded_condition_reason(*e, strings_view(params@)) is None,
        },
{
    if contains_clamp_exec(e) {
        return None;
    }
    match e {
        AstExpr::Binary { left, op, right, .. } => {
            let cmp_op = match op {
                AstBinOp::Lt => true,
                AstBinOp::Le => true,
                AstBinOp::Ne => true,
                _ => false,
            };
            if !cmp_op {
                return None;
            }
            let p = match range_bound_param_exec(right, params) {
                Some(p) => Some(p),
                None => range_bound_param_exec(left, params),
            };
            match p {
                Some(p) => Some(quoted_reason("loop condition is bounded by parameter '", &p)),
                None => None,
            }
        },
        _ => None,
    }
}

// ── The scan ────────────────────────────────────────────────────────────────

/// A finding: location (`fn:line N`) and reason.
pub type GasFinding = (Seq<char>, Seq<char>);

/// The location text of a loop in function `f` starting on `line`.
pub open spec fn loop_location(f: Seq<char>, line: usize) -> Seq<char> {
    f + ":line "@ + decimal(line as nat)
}

/// The unbounded loops reached from an expression: `for` and `while`
/// loops (and their bodies), `loop` bodies, blocks, `if` branches and
/// `match` arms.
pub open spec fn scan_expr(e: AstExpr, f: Seq<char>, params: Seq<Seq<char>>) -> Seq<GasFinding>
    decreases e,
{
    match e {
        AstExpr::ForLoop { expr, body, line, .. } => (match unbounded_iterator_reason(*expr, params) {
            Some(r) => seq![(loop_location(f, line), r)],
            None => Seq::<GasFinding>::empty(),
        }) + scan_stmts(body.stmts@, f, params),
        AstExpr::While { cond, body, line } => (match unbounded_condition_reason(*cond, params) {
            Some(r) => seq![(loop_location(f, line), r)],
            None => Seq::<GasFinding>::empty(),
        }) + scan_stmts(body.stmts@, f, params),
        AstExpr::Loop { body, .. } => scan_stmts(body.stmts@, f, params),
        AstExpr::Block { block, .. } => scan_stmts(block.stmts@, f, params),
        AstExpr::If { then_branch, else_branch, .. } => scan_stmts(then_branch.stmts@, f, params)
            + match else_branch {
            Some(x) => scan_expr(*x, f, params),
            None => Seq::<GasFinding>::empty(),
        },
        AstExpr::Match { arms, .. } => scan_arms(arms@, f, params),
        _ => seq![],
    }
}

/// [`scan_expr`] over the bodies of match arms.
pub open spec fn scan_arms(arms: Seq<crate::syntax::AstArm>, f: Seq<char>, params: Seq<Seq<char>>) -> Seq<GasFinding>
    decreases arms,
{
    if arms.len() == 0 {
        seq![]
    } else {
        scan_arms(arms.drop_last(), f, params) + scan_expr(arms.last().body, f, params)
    }
}

/// [`scan_expr`] over statements: expressions and `let` initializers.
pub open spec fn scan_stmts(ss: Seq<AstStmt>, f: Seq<char>, params: Seq<Seq<char>>) -> Seq<GasFinding>
    decreases ss,
{
    if ss.len() == 0 {
        seq![]
    } else {
        scan_stmts(ss.drop_last(), f, params) + match ss.last() {
            AstStmt::Expr(e) => scan_expr(e, f, params),
            AstStmt::Local { init, .. } => match init {
                Some(x) => scan_expr(x, f, params),
                None => Seq::<GasFinding>::empty(),
            },
            _ => Seq::<GasFinding>::empty(),
        }
    }
}

/// The plain values of a list of findings.
pub open spec fn gas_findings_view(v: Seq<(String, String)>) -> Seq<GasFinding> {
    v.map_values(|p: (String, String)| (p.0@, p.1@))
}

fn push_finding(out: &mut Vec<(String, String)>, f: &String, line: usize, reason: String)
    ensures
        gas_findings_view(final(out)@) == gas_findings_view(old(out)@).push((loop_location(f@, line), reason@)),
{
    let loc = concat(concat(f.as_str(), ":line ").as_str(), usize_to_string(line).as_str());
    let ghost rv = reason@;
    out.push((loc, reason));
    assert(gas_findings_view(out@) =~= gas_findings_view(old(out)@).push((loop_location(f@, line), rv)));
}

fn scan_expr_exec(e: &AstExpr, f: &String, params: &Vec<String>, out: &mut Vec<(String, String)>)
    ensures
        gas_findings_view(final(out)@) == gas_findings_view(old(out)@) + scan_expr(*e, f@, strings_view(params@)),
    decreases e,
{
    let ghost start = gas_findings_view(out@);
    let ghost ps = strings_view(params@);
    match e {
        AstExpr::ForLoop { expr, body, line, .. } => {
            match unbounded_iterator_reason_exec(expr, params) {
                Some(r) => push_finding(out, f, *line, r),
                None => {},
            }
            scan_stmts_exec(&body.stmts, f, params, out);
        },
        AstExpr::While { cond, body, line } => {
            match unbounded_condition_reason_exec(cond, params) {
                Some(r) => push_finding(out, f, *line, r),
                None => {},
            }
            scan_stmts_exec(&body.stmts, f, params, out);
        },
        AstExpr::Loop { body, .. } => scan_stmts_exec(&body.stmts, f, params, out),
        AstExpr::Block { block, .. } => scan_stmts_exec(&block.stmts, f, params, out),
        AstExpr::If { then_branch, else_branch, .. } => {
            scan_stmts_exec(&then_branch.stmts, f, params, out);
            match else_branch {
                Some(x) => scan_expr_exec(x, f, params, out),
                None => {},
            }
        },
        AstExpr::Match { arms, .. } => scan_arms_exec(arms, f, params, out),
        _ => {},
    }
    assert(gas_findings_view(out@) =~= start + scan_expr(*e, f@, ps));
}

fn scan_arms_exec(
    arms: &Vec<crate::syntax::AstArm>,
    f: &String,
    params: &Vec<String>,
    out: &mut Vec<(String, String)>,
)
    ensures
        gas_findings_view(final(out)@) == gas_findings_view(old(out)@) + scan_arms(arms@, f@, strings_view(params@)),
    decreases arms,
{
    let ghost start = gas_findings_view(out@);
    let mut i: usize = 0;
    while i < arms.len()
        invariant
            i <= arms@.len(),
            gas_findings_view(out@) == start + scan_arms(arms@.take(i as int), f@, strings_view(params@)),
        decreases arms.len() - i,
    {
        assert(arms@.take(i + 1).drop_last() =~= arms@.take(i as int));
        scan_expr_exec(&arms[i].body, f, params, out);
        assert(gas_findings_view(out@) =~= start + scan_arms(arms@.take(i + 1), f@, strings_view(params@)));
        i = i + 1;
    }
    assert(arms@.take(arms@.len() as int) =~= arms@);
}

fn scan_stmts_exec(ss: &Vec<AstStmt>, f: &String, params: &Vec<String>, out: &mut Vec<(String, String)>)
    ensures
        gas_findings_view(final(out)@) == gas_findings_view(old(out)@) + scan_stmts(ss@, f@, strings_view(params@)),
    decreases ss,
{
    let ghost start = gas_findings_view(out@);
    let mut i: usize = 0;
    while i < ss.len()
        invariant
            i <= ss@.len(),
            gas_findings_view(out@) == start + scan_stmts(ss@.take(i as int), f@, strings_view(params@)),
        decreases ss.len() - i,
    {
        assert(ss@.take(i + 1).drop_last() =~= ss@.take(i as int));
        assert(ss@.take(i + 1).last() == ss@[i as int]);
        let ghost before = gas_findings_view(out@);
        match &ss[i] {
            AstStmt::Expr(e) => scan_expr_exec(e, f, params, out),
            AstStmt::Local { init, .. } => match init {
                Some(x) => scan_expr_exec(x, f, params, out),
                None => {},
            },
            _ => {},
        }
        assert(gas_findings_view(out@) =~= start + scan_stmts(ss@.take(i + 1), f@, strings_view(params@)));
        i = i + 1;
    }
    assert(ss@.take(ss@.len() as int) =~= ss@);
}

// ── The rule ────────────────────────────────────────────────────────────────

/// The suggestion attached to every finding.
pub open spec fn gas_suggestion() -> Seq<char> {
    "Cap the iteration count with a fixed maximum, e.g. `.iter().take(MAX_ITEMS)` or an explicit `if param.len() > MAX_ITEMS { return Err(...) }` check before the loop, so gas cost cannot scale unbounded with caller-supplied input."@
}

/// The violation a finding in function `f` becomes.
pub open spec fn gas_violation(f: Seq<char>, g: GasFinding) -> ViolationView {
    (
        "gas_exhaustion_risk"@,
        Severity::Warning,
        "Loop in '"@ + f + "' "@ + g.1
            + ", which can exhaust the gas budget and cause an out-of-gas revert (S031)."@,
        g.0,
        Some(gas_suggestion()),
    )
}

/// The violations of the methods of an `impl` block.
pub open spec fn impl_gas_violations(its: Seq<AstImplItem>) -> Seq<ViolationView>
    decreases its.len(),
{
    if its.len() == 0 {
        seq![]
    } else {
        impl_gas_violations(its.drop_last()) + match its.last() {
            AstImplItem::Fn { sig, block, .. } => {
                let ps = unbounded_params(sig.inputs@);
                if ps.len() == 0 {
                    Seq::<ViolationView>::empty()
                } else {
                    scan_stmts(block.stmts@, sig.ident@, ps).map_values(|g: GasFinding| gas_violation(sig.ident@, g))
                }
            },
            _ => Seq::<ViolationView>::empty(),
        }
    }
}

/// The violations the rule reports on the top-level items.
pub open spec fn file_gas_violations(items: Seq<AstItem>) -> Seq<ViolationView>
    decreases items.len(),
{
    if items.len() == 0 {
        seq![]
    } else {
        file_gas_violations(items.drop_last()) + match items.last() {
            AstItem::Impl { items: its, .. } => impl_gas_violations(its@),
            _ => Seq::<ViolationView>::empty(),
        }
    }
}

fn push_gas_violations(out: &mut Vec<RuleViolation>, f: &String, findings: &Vec<(String, String)>)
    ensures
        violations_view(final(out)@) == violations_view(old(out)@) + gas_findings_view(findings@).map_values(
            |g: GasFinding| gas_violation(f@, g),
        ),
{
    let ghost start = violations_view(out@);
    let ghost fv = gas_findings_view(findings@);
    let mut k: usize = 0;
    while k < findings.len()
        invariant
            k <= findings@.len(),
            fv == gas_findings_view(findings@),
            violations_view(out@) == start + fv.take(k as int).map_values(|g: GasFinding| gas_violation(f@, g)),
        decreases findings.len() - k,
    {
        let (loc, reason) = &findings[k];
        let m1 = concat(concat("Loop in '", f.as_str()).as_str(), "' ");
        let m2 = concat(m1.as_str(), reason.as_str());
        let message = concat(
            m2.as_str(),
            ", which can exhaust the gas budget and cause an out-of-gas revert (S031).",
        );
        let v = RuleViolation::new("gas_exhaustion_risk", Severity::Warning, message, loc.clone())
            .with_suggestion(
            "Cap the iteration count with a fixed maximum, e.g. `.iter().take(MAX_ITEMS)` or an explicit `if param.len() > MAX_ITEMS { return Err(...) }` check before the loop, so gas cost cannot scale unbounded with caller-supplied input.".to_owned(),
        );
        let ghost before = violations_view(out@);
        out.push(v);
        assert(fv[k as int] == (loc@, reason@));
        assert(violations_view(out@) =~= before.push(gas_violation(f@, fv[k as int])));
        assert(fv.take(k + 1).map_values(|g: GasFinding| gas_violation(f@, g)) =~= fv.take(k as int).map_values(
            |g: GasFinding| gas_violation(f@, g),
        ).push(gas_violation(f@, fv[k as int])));
        k = k + 1;
    }
    assert(fv.take(fv.len() as int) =~= fv);
}

impl GasExhaustionRiskRule {
    /// The violations the rule reports on a parsed file.
    pub fn check_file(&self, file: &AstFile) -> (r: Vec<RuleViolation>)
        ensures
            violations_view(r@) == file_gas_violations(file.items@),
    {
        let mut out: Vec<RuleViolation> = Vec::new();
        let mut i: usize = 0;
        while i < file.items.len()
            invariant
                i <= file.items@.len(),
                violations_view(out@) == file_gas_violations(file.items@.take(i as int)),
            decreases file.items.len() - i,
        {
            assert(file.items@.take(i + 1).drop_last() =~= file.items@.take(i as int));
            assert(file.items@.take(i + 1).last() == file.items@[i as int]);
            match &file.items[i] {
                AstItem::Impl { items: its, .. } => {
                    let ghost start = violations_view(out@);
                    let mut k: usize = 0;
                    while k < its.len()
                        invariant
                            k <= its@.len(),
                            violations_view(out@) == start + impl_gas_violations(its@.take(k as int)),
                        decreases its.len() - k,
                    {
                        assert(its@.take(k + 1).drop_last() =~= its@.take(k as int));
                        assert(its@.take(k + 1).last() == its@[k as int]);
                        let ghost before = violations_view(out@);
                        match &its[k] {
                            AstImplItem::Fn { sig, block, .. } => {
                                let params = unbounded_param_names(&sig.inputs);
                                if params.len() > 0 {
                                    let mut findings: Vec<(String, String)> = Vec::new();
                                    scan_stmts_exec(&block.stmts, &sig.ident, &params, &mut findings);
                                    assert(gas_findings_view(findings@) =~= scan_stmts(
                                        block.stmts@,
                                        sig.ident@,
                                        strings_view(params@),
                                    ));
                                    push_gas_violations(&mut out, &sig.ident, &findings);
                                } else {
                                    assert(strings_view(params@).len() == 0);
                                }
                            },
                            _ => {},
                        }
                        assert(violations_view(out@) =~= start + impl_gas_violations(its@.take(k + 1)));
                        k = k + 1;
                    }
                    assert(its@.take(its@.len() as int) =~= its@);
                },
                _ => {},
            }
            assert(violations_view(out@) =~= file_gas_violations(file.items@.take(i + 1)));
            i = i + 1;
        }
        assert(file.items@.take(file.items@.len() as int) =~= file.items@);
        out
    }
}

impl Rule for GasExhaustionRiskRule {
    fn name(&self) -> (r: &str)
        ensures
            r@ == "gas_exhaustion_risk"@,
    {
        "gas_exhaustion_risk"
    }

    fn description(&self) -> (r: &str)
        ensures
            r@ == "Detects loops whose iteration count derives from an unbounded user-controlled parameter (S031)"@,
    {
        "Detects loops whose iteration count derives from an unbounded user-controlled parameter (S031)"
    }

    /// The violations the rule reports on `source`; none when `syn` rejects it.
    fn check(&self, source: &str) -> (r: Vec<RuleViolation>)
        ensures
            match spec_parse_file(source@) {
                Some(f) => violations_view(r@) == file_gas_violations(f.items@),
                None => r@.len() == 0,
            },
    {
        match parse_file(source) {
            Ok(file) => self.check_file(&file),
            Err(_) => Vec::new(),
        }
    }
}

} // verus!
