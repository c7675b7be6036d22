//! The analyses an [`Analyzer`] runs over a source file: authorization gaps,
//! panicking calls, ledger entry sizes and unchecked arithmetic.
use vstd::prelude::*;
use crate::bridge::{parse_file, spec_parse_file};
use crate::events::{file_events, file_events_exec, Event};
use crate::syntax::{
    path_has_segment, path_is_ident, path_last_ident, AstArm, AstAttribute, AstBinOp, AstExpr,
    AstImplItem, AstItem, AstMacro, AstMeta, AstStmt, AstType,
};
use crate::events::path_is_ident_exec;
use crate::text::{concat, decimal, seq_contains, text_contains, text_eq, usize_to_string};
use crate::{
    Analyzer, ArithmeticIssue, PanicIssue, PatternType, SanctifyConfig, SizeWarning, UnsafePattern,
};

verus! {

broadcast use vstd::std_specs::vec::group_vec_axioms, vstd::seq::group_seq_axioms;

// ── Authorization gaps ──────────────────────────────────────────────────────

/// Whether a name is `require_auth` or `require_auth_for_args`.
pub open spec fn is_auth_name(s: Seq<char>) -> bool {
    s == "require_auth"@ || s == "require_auth_for_args"@
}

/// Whether a method name writes storage: `set`, `update` or `remove`.
pub open spec fn is_write_method(s: Seq<char>) -> bool {
    s == "set"@ || s == "update"@ || s == "remove"@
}

/// Whether a call's token text mentions a storage handle: `storage`,
/// `persistent`, `temporary` or `instance`.
pub open spec fn mentions_storage(text: Seq<char>) -> bool {
    seq_contains(text, "storage"@) || seq_contains(text, "persistent"@) || seq_contains(
        text,
        "temporary"@,
    ) || seq_contains(text, "instance"@)
}

/// Whether a callee is a path whose last segment is an authorization call.
pub open spec fn callee_is_auth(f: AstExpr) -> bool {
    match f {
        AstExpr::Path { path, .. } => match path_last_ident(path) {
            Some(n) => is_auth_name(n),
            None => false,
        },
        _ => false,
    }
}

/// Whether the expression writes storage (first) and whether it calls an
/// authorization (second), looking into calls, method calls, blocks, `if`
/// and `match` arms.
pub open spec fn expr_auth(e: AstExpr) -> (bool, bool)
    decreases e,
{
    match e {
        AstExpr::Call { func, args, .. } => {
            let a = exprs_auth(args@);
            (a.0, a.1 || callee_is_auth(*func))
        },
        AstExpr::MethodCall { receiver, method, args, text, .. } => {
            let r = expr_auth(*receiver);
            let a = exprs_auth(args@);
            (
                r.0 || a.0 || (is_write_method(method@) && mentions_storage(text@)),
                r.1 || a.1 || is_auth_name(method@),
            )
        },
        AstExpr::Block { block, .. } => stmts_auth(block.stmts@),
        AstExpr::If { cond, then_branch, else_branch, .. } => {
            let c = expr_auth(*cond);
            let t = stmts_auth(then_branch.stmts@);
            let o = match else_branch {
                Some(x) => expr_auth(*x),
                None => (false, false),
            };
            (c.0 || t.0 || o.0, c.1 || t.1 || o.1)
        },
        AstExpr::Match { expr, arms, .. } => {
            let x = expr_auth(*expr);
            let a = arms_auth(arms@);
            (x.0 || a.0, x.1 || a.1)
        },
        _ => (false, false),
    }
}

/// [`expr_auth`] over a sequence of expressions.
pub open spec fn exprs_auth(es: Seq<AstExpr>) -> (bool, bool)
    decreases es,
{
    if es.len() == 0 {
        (false, false)
    } else {
        let p = exprs_auth(es.drop_last());
        let l = expr_auth(es.last());
        (p.0 || l.0, p.1 || l.1)
    }
}

/// [`expr_auth`] over the bodies of match arms.
pub open spec fn arms_auth(arms: Seq<AstArm>) -> (bool, bool)
    decreases arms,
{
    if arms.len() == 0 {
        (false, false)
    } else {
        let p = arms_auth(arms.drop_last());
        let l = expr_auth(arms.last().body);
        (p.0 || l.0, p.1 || l.1)
    }
}

/// [`expr_auth`] over statements: expressions, `let` initializers, and
/// `require_auth!`-style macro statements.
pub open spec fn stmts_auth(ss: Seq<AstStmt>) -> (bool, bool)
    decreases ss,
{
    if ss.len() == 0 {
        (false, false)
    } else {
        let p = stmts_auth(ss.drop_last());
        let l = match ss.last() {
            AstStmt::Expr(e) => expr_auth(e),
            AstStmt::Local { init, .. } => match init {
                Some(x) => expr_auth(x),
                None => (false, false),
            },
            AstStmt::Macro(m) => (
                false,
                path_is_ident(m.path, "require_auth"@) || path_is_ident(m.path, "require_auth_for_args"@),
            ),
            AstStmt::Item(_) => (false, false),
        };
        (p.0 || l.0, p.1 || l.1)
    }
}

/// Whether a name is `require_auth` or `require_auth_for_args`.
fn is_auth_name_exec(s: &str) -> (r: bool)
    ensures
        r == is_auth_name(s@),
{
    text_eq(s, "require_auth") || text_eq(s, "require_auth_for_args")
}

fn callee_is_auth_exec(f: &AstExpr) -> (r: bool)
    ensures
        r == callee_is_auth(*f),
{
    match f {
        AstExpr::Path { path, .. } => {
            let n = path.segments.len();
            if n == 0 {
                false
            } else {
                is_auth_name_exec(path.segments[n - 1].ident.as_str())
            }
        },
        _ => false,
    }
}

fn expr_auth_exec(e: &AstExpr) -> (r: (bool, bool))
    ensures
        r == expr_auth(*e),
    decreases e,
{
    match e {
        AstExpr::Call { func, args, .. } => {
            let a = exprs_auth_exec(args);
            (a.0, a.1 || callee_is_auth_exec(func))
        },
        AstExpr::MethodCall { receiver, method, args, text, .. } => {
            let r = expr_auth_exec(receiver);
            let a = exprs_auth_exec(args);
            let write = (text_eq(method.as_str(), "set") || text_eq(method.as_str(), "update")
                || text_eq(method.as_str(), "remove")) && (text_contains(text.as_str(), "storage")
                || text_contains(text.as_str(), "persistent") || text_contains(text.as_str(), "temporary")
                || text_contains(text.as_str(), "instance"));
            (r.0 || a.0 || write, r.1 || a.1 || is_auth_name_exec(method.as_str()))
        },
        AstExpr::Block { block, .. } => stmts_auth_exec(&block.stmts),
        AstExpr::If { cond, then_branch, else_branch, .. } => {
            let c = expr_auth_exec(cond);
            let t = stmts_auth_exec(&then_branch.stmts);
            let o = match else_branch {
                Some(x) => expr_auth_exec(x),
                None => (false, false),
            };
            (c.0 || t.0 || o.0, c.1 || t.1 || o.1)
        },
        AstExpr::Match { expr, arms, .. } => {
            let x = expr_auth_exec(expr);
            let a = arms_auth_exec(arms);
            (x.0 || a.0, x.1 || a.1)
        },
        _ => (false, false),
    }
}

fn exprs_auth_exec(es: &Vec<AstExpr>) -> (r: (bool, bool))
    ensures
        r == exprs_auth(es@),
    decreases es,
{
    let mut acc = (false, false);
    let mut i: usize = 0;
    while i < es.len()
        invariant
            i <= es@.len(),
            acc == exprs_auth(es@.take(i as int)),
        decreases es.len() - i,
    {
        assert(es@.take(i + 1).drop_last() =~= es@.take(i as int));
        let l = expr_auth_exec(&es[i]);
        acc = (acc.0 || l.0, acc.1 || l.1);
        i = i + 1;
    }
    assert(es@.take(es@.len() as int) =~= es@);
    acc
}

fn arms_auth_exec(arms: &Vec<AstArm>) -> (r: (bool, bool))
    ensures
        r == arms_auth(arms@),
    decreases arms,
{
    let mut acc = (false, false);
    let mut i: usize = 0;
    while i < arms.len()
        invariant
            i <= arms@.len(),
            acc == arms_auth(arms@.take(i as int)),
        decreases arms.len() - i,
    {
        assert(arms@.take(i + 1).drop_last() =~= arms@.take(i as int));
        let l = expr_auth_exec(&arms[i].body);
        acc = (acc.0 || l.0, acc.1 || l.1);
        i = i + 1;
    }
    assert(arms@.take(arms@.len() as int) =~= arms@);
    acc
}

fn stmts_auth_exec(ss: &Vec<AstStmt>) -> (r: (bool, bool))
    ensures
        r == stmts_auth(ss@),
    decreases ss,
{
    let mut acc = (false, false);
    let mut i: usize = 0;
    while i < ss.len()
        invariant
            i <= ss@.len(),
            acc == stmts_auth(ss@.take(i as int)),
        decreases ss.len() - i,
    {
        assert(ss@.take(i + 1).drop_last() =~= ss@.take(i as int));
        let l = match &ss[i] {
            AstStmt::Expr(e) => expr_auth_exec(e),
            AstStmt::Local { init, .. } => match init {
                Some(x) => expr_auth_exec(x),
                None => (false, false),
            },
            AstStmt::Macro(m) => (
                false,
                path_is_ident_exec(&m.path, "require_auth") || path_is_ident_exec(
                    &m.path,
                    "require_auth_for_args",
                ),
            ),
            AstStmt::Item(_) => (false, false),
        };
        acc = (acc.0 || l.0, acc.1 || l.1);
        i = i + 1;
    }
    assert(ss@.take(ss@.len() as int) =~= ss@);
    acc
}

/// The public methods of an `impl` block that write storage without authorization.
pub open spec fn impl_auth_gaps(its: Seq<AstImplItem>) -> Seq<Seq<char>>
    decreases its.len(),
{
    if its.len() == 0 {
        seq![]
    } else {
        impl_auth_gaps(its.drop_last()) + match its.last() {
            AstImplItem::Fn { is_public, sig, block, .. } => {
                let a = stmts_auth(block.stmts@);
                if is_public && a.0 && !a.1 {
                    seq![sig.ident@]
                } else {
                    Seq::<Seq<char>>::empty()
                }
            },
            _ => Seq::<Seq<char>>::empty(),
        }
    }
}

/// The authorization gaps of the top-level `impl` blocks, in source order.
pub open spec fn file_auth_gaps(items: Seq<AstItem>) -> Seq<Seq<char>>
    decreases items.len(),
{
    if items.len() == 0 {
        seq![]
    } else {
        file_auth_gaps(items.drop_last()) + match items.last() {
            AstItem::Impl { items: its, .. } => impl_auth_gaps(its@),
            _ => Seq::<Seq<char>>::empty(),
        }
    }
}

/// A `.require_auth()` or `.require_auth_for_args(..)` call authorizes,
/// whatever its receiver and arguments.
pub proof fn law_require_auth_call_authorizes(
    receiver: AstExpr,
    method: String,
    method_line: usize,
    turbofish_exprs: Vec<AstExpr>,
    args: Vec<AstExpr>,
    text: String,
    receiver_text: String,
    line: usize,
)
    requires
        method@ == "require_auth"@ || method@ == "require_auth_for_args"@,
    ensures
        expr_auth(
            AstExpr::MethodCall {
                receiver: Box::new(receiver),
                method,
                method_line,
                turbofish_exprs,
                args,
                text,
                receiver_text,
                line,
            },
        ).1,
{
}

/// A `set`, `update` or `remove` call whose text mentions `storage`,
/// `persistent`, `temporary` or `instance` writes storage, and a call of a
/// function whose path ends in `require_auth` or `require_auth_for_args`
/// authorizes.
pub proof fn law_storage_writes_and_auth_calls(
    receiver: AstExpr,
    method: String,
    method_line: usize,
    turbofish_exprs: Vec<AstExpr>,
    args: Vec<AstExpr>,
    text: String,
    receiver_text: String,
    line: usize,
    func: AstExpr,
)
    ensures
        ((method@ == "set"@ || method@ == "update"@ || method@ == "remove"@) && (seq_contains(text@, "storage"@)
            || seq_contains(text@, "persistent"@) || seq_contains(text@, "temporary"@) || seq_contains(
            text@,
            "instance"@,
        ))) ==> expr_auth(
            AstExpr::MethodCall {
                receiver: Box::new(receiver),
                method,
                method_line,
                turbofish_exprs,
                args,
                text,
                receiver_text,
                line,
            },
        ).0,
        (func matches AstExpr::Path { path, .. } && path.segments@.len() > 0 && (path.segments@.last().ident@
            == "require_auth"@ || path.segments@.last().ident@ == "require_auth_for_args"@)) ==> expr_auth(
            AstExpr::Call { func: Box::new(func), args, line },
        ).1,
{
}

/// A `require_auth!(..)` or `require_auth_for_args!(..)` macro statement
/// makes the body authorize.
pub proof fn law_auth_macro_statement_authorizes(ss: Seq<AstStmt>, j: int, m: AstMacro)
    requires
        0 <= j < ss.len(),
        ss[j] == AstStmt::Macro(m),
        !m.path.leading_colon,
        m.path.segments@.len() == 1,
        !m.path.segments@[0].has_arguments,
        m.path.segments@[0].ident@ == "require_auth"@ || m.path.segments@[0].ident@ == "require_auth_for_args"@,
    ensures
        stmts_auth(ss).1,
    decreases ss.len(),
{
    if j < ss.len() - 1 {
        assert(ss.drop_last()[j] == ss[j]);
        law_auth_macro_statement_authorizes(ss.drop_last(), j, m);
    }
}

/// A statement of a body that authorizes (or writes storage) makes the
/// whole body authorize (or write storage).
pub proof fn law_body_has_what_a_statement_has(ss: Seq<AstStmt>, j: int, e: AstExpr)
    requires
        0 <= j < ss.len(),
        ss[j] == AstStmt::Expr(e),
    ensures
        expr_auth(e).1 ==> stmts_auth(ss).1,
        expr_auth(e).0 ==> stmts_auth(ss).0,
    decreases ss.len(),
{
    if j < ss.len() - 1 {
        assert(ss.drop_last()[j] == ss[j]);
        law_body_has_what_a_statement_has(ss.drop_last(), j, e);
    }
}

/// The gaps of two runs of `impl` items are the gaps of each, in order.
proof fn lemma_impl_auth_gaps_concat(a: Seq<AstImplItem>, b: Seq<AstImplItem>)
    ensures
        impl_auth_gaps(a + b) == impl_auth_gaps(a) + impl_auth_gaps(b),
    decreases b.len(),
{
    if b.len() == 0 {
        assert(a + b =~= a);
    } else {
        lemma_impl_auth_gaps_concat(a, b.drop_last());
        assert((a + b).drop_last() =~= a + b.drop_last());
        assert((a + b).last() == b.last());
    }
}

/// A method whose body authorizes is never an authorization gap: the gaps
/// of an `impl` block are those of its other items.
pub proof fn law_authorizing_method_is_no_gap(its: Seq<AstImplItem>, k: int)
    requires
        0 <= k < its.len(),
        its[k] matches AstImplItem::Fn { block, .. } && stmts_auth(block.stmts@).1,
    ensures
        impl_auth_gaps(its) == impl_auth_gaps(its.take(k)) + impl_auth_gaps(its.skip(k + 1)),
{
    assert(its =~= its.take(k) + seq![its[k]] + its.skip(k + 1));
    lemma_impl_auth_gaps_concat(its.take(k) + seq![its[k]], its.skip(k + 1));
    lemma_impl_auth_gaps_concat(its.take(k), seq![its[k]]);
    let one = seq![its[k]];
    assert(one.drop_last() =~= Seq::<AstImplItem>::empty());
    assert(impl_auth_gaps(one.drop_last()) =~= Seq::<Seq<char>>::empty());
    assert(one.last() == its[k]);
    assert(impl_auth_gaps(one) =~= Seq::<Seq<char>>::empty());
}

// ── Panics ──────────────────────────────────────────────────────────────────

/// The panicking constructs of an expression, as issue types (`panic!`,
/// `unwrap`, `expect`), looking into calls, method calls, blocks, `if` and
/// `match` arms.
pub open spec fn expr_panics(e: AstExpr) -> Seq<Seq<char>>
    decreases e,
{
    match e {
        AstExpr::Macro { mac, .. } => if path_is_ident(mac.path, "panic"@) {
            seq!["panic!"@]
        } else {
            seq![]
        },
        AstExpr::MethodCall { receiver, method, args, .. } => (if method@ == "unwrap"@ || method@
            == "expect"@ {
            seq![method@]
        } else {
            Seq::<Seq<char>>::empty()
        }) + expr_panics(*receiver) + exprs_panics(args@),
        AstExpr::Call { args, .. } => exprs_panics(args@),
        AstExpr::Block { block, .. } => stmts_panics(block.stmts@),
        AstExpr::If { cond, then_branch, else_branch, .. } => expr_panics(*cond) + stmts_panics(
            then_branch.stmts@,
        ) + match else_branch {
            Some(x) => expr_panics(*x),
            None => Seq::<Seq<char>>::empty(),
        },
        AstExpr::Match { expr, arms, .. } => expr_panics(*expr) + arms_panics(arms@),
        _ => seq![],
    }
}

/// [`expr_panics`] over a sequence of expressions.
pub open spec fn exprs_panics(es: Seq<AstExpr>) -> Seq<Seq<char>>
    decreases es,
{
    if es.len() == 0 {
        seq![]
    } else {
        exprs_panics(es.drop_last()) + expr_panics(es.last())
    }
}

/// [`expr_panics`] over the bodies of match arms.
pub open spec fn arms_panics(arms: Seq<AstArm>) -> Seq<Seq<char>>
    decreases arms,
{
    if arms.len() == 0 {
        seq![]
    } else {
        arms_panics(arms.drop_last()) + expr_panics(arms.last().body)
    }
}

/// [`expr_panics`] over statements: expressions, `let` initializers and
/// `panic!` macro statements.
pub open spec fn stmts_panics(ss: Seq<AstStmt>) -> Seq<Seq<char>>
    decreases ss,
{
    if ss.len() == 0 {
        seq![]
    } else {
        stmts_panics(ss.drop_last()) + match ss.last() {
            AstStmt::Expr(e) => expr_panics(e),
            AstStmt::Local { init, .. } => match init {
                Some(x) => expr_panics(x),
                None => Seq::<Seq<char>>::empty(),
            },
            AstStmt::Macro(m) => if path_is_ident(m.path, "panic"@) {
                seq!["panic!"@]
            } else {
                Seq::<Seq<char>>::empty()
            },
            AstStmt::Item(_) => Seq::<Seq<char>>::empty(),
        }
    }
}

/// The plain values of a panic issue: function, issue type, location.
pub open spec fn panic_view(p: PanicIssue) -> (Seq<char>, Seq<char>, Seq<char>) {
    (p.function_name@, p.issue_type@, p.location@)
}

/// The views of a sequence of panic issues.
pub open spec fn panics_view(v: Seq<PanicIssue>) -> Seq<(Seq<char>, Seq<char>, Seq<char>)> {
    v.map_values(|p: PanicIssue| panic_view(p))
}

/// The issues of function `f` with the given issue types.
pub open spec fn panic_issues(f: Seq<char>, kinds: Seq<Seq<char>>) -> Seq<(Seq<char>, Seq<char>, Seq<char>)> {
    kinds.map_values(|k: Seq<char>| (f, k, f))
}

/// The panic issues of the methods of an `impl` block.
pub open spec fn impl_panics(its: Seq<AstImplItem>) -> Seq<(Seq<char>, Seq<char>, Seq<char>)>
    decreases its.len(),
{
    if its.len() == 0 {
        seq![]
    } else {
        impl_panics(its.drop_last()) + match its.last() {
            AstImplItem::Fn { sig, block, .. } => panic_issues(sig.ident@, stmts_panics(block.stmts@)),
            _ => Seq::<(Seq<char>, Seq<char>, Seq<char>)>::empty(),
        }
    }
}

/// The panic issues of the methods of the top-level `impl` blocks, in source order.
pub open spec fn file_panics(items: Seq<AstItem>) -> Seq<(Seq<char>, Seq<char>, Seq<char>)>
    decreases items.len(),
{
    if items.len() == 0 {
        seq![]
    } else {
        file_panics(items.drop_last()) + match items.last() {
            AstItem::Impl { items: its, .. } => impl_panics(its@),
            _ => Seq::<(Seq<char>, Seq<char>, Seq<char>)>::empty(),
        }
    }
}

fn push_panic(out: &mut Vec<PanicIssue>, f: &String, kind: String)
    ensures
        panics_view(final(out)@) == panics_view(old(out)@).push((f@, kind@, f@)),
{
    let ghost k = kind@;
    out.push(PanicIssue { function_name: f.clone(), issue_type: kind, location: f.clone() });
    assert(panics_view(out@) =~= panics_view(old(out)@).push((f@, k, f@)));
}

proof fn lemma_panic_issues_append(f: Seq<char>, a: Seq<Seq<char>>, b: Seq<Seq<char>>)
    ensures
        panic_issues(f, a + b) == panic_issues(f, a) + panic_issues(f, b),
{
    assert(panic_issues(f, a + b) =~= panic_issues(f, a) + panic_issues(f, b));
}

fn expr_panics_exec(e: &AstExpr, f: &String, out: &mut Vec<PanicIssue>)
    ensures
        panics_view(final(out)@) == panics_view(old(out)@) + panic_issues(f@, expr_panics(*e)),
    decreases e,
{
    let ghost start = panics_view(out@);
    match e {
        AstExpr::Macro { mac, .. } => {
            if path_is_ident_exec(&mac.path, "panic") {
                push_panic(out, f, "panic!".to_owned());
            }
            assert(panics_view(out@) =~= start + panic_issues(f@, expr_panics(*e)));
        },
        AstExpr::MethodCall { receiver, method, args, .. } => {
            let is_panicky = text_eq(method.as_str(), "unwrap") || text_eq(method.as_str(), "expect");
            if is_panicky {
                push_panic(out, f, method.clone());
            }
            let ghost mid = panics_view(out@);
            expr_panics_exec(receiver, f, out);
            exprs_panics_exec(args, f, out);
            proof {
                let first = if is_panicky { seq![method@] } else { Seq::<Seq<char>>::empty() };
                assert(mid =~= start + panic_issues(f@, first));
                lemma_panic_issues_append(f@, first, expr_panics(**receiver));
                lemma_panic_issues_append(f@, first + expr_panics(**receiver), exprs_panics(args@));
            }
        },
        AstExpr::Call { args, .. } => exprs_panics_exec(args, f, out),
        AstExpr::Block { block, .. } => stmts_panics_exec(&block.stmts, f, out),
        AstExpr::If { cond, then_branch, else_branch, .. } => {
            expr_panics_exec(cond, f, out);
            stmts_panics_exec(&then_branch.stmts, f, out);
            match else_branch {
                Some(x) => expr_panics_exec(x, f, out),
                None => {},
            }
            proof {
                let o = match else_branch {
                    Some(x) => expr_panics(**x),
                    None => Seq::<Seq<char>>::empty(),
                };
                lemma_panic_issues_append(f@, expr_panics(**cond), stmts_panics(then_branch.stmts@));
                lemma_panic_issues_append(f@, expr_panics(**cond) + stmts_panics(then_branch.stmts@), o);
            }
        },
        AstExpr::Match { expr, arms, .. } => {
            expr_panics_exec(expr, f, out);
            arms_panics_exec(arms, f, out);
            proof {
                lemma_panic_issues_append(f@, expr_panics(**expr), arms_panics(arms@));
            }
        },
        _ => {
            assert(panics_view(out@) =~= start + panic_issues(f@, expr_panics(*e)));
        },
    }
}

fn exprs_panics_exec(es: &Vec<AstExpr>, f: &String, out: &mut Vec<PanicIssue>)
    ensures
        panics_view(final(out)@) == panics_view(old(out)@) + panic_issues(f@, exprs_panics(es@)),
    decreases es,
{
    let ghost start = panics_view(out@);
    let mut i: usize = 0;
    while i < es.len()
        invariant
            i <= es@.len(),
            panics_view(out@) == start + panic_issues(f@, exprs_panics(es@.take(i as int))),
        decreases es.len() - i,
    {
        assert(es@.take(i + 1).drop_last() =~= es@.take(i as int));
        expr_panics_exec(&es[i], f, out);
        proof {
            lemma_panic_issues_append(f@, exprs_panics(es@.take(i as int)), expr_panics(es@[i as int]));
        }
        i = i + 1;
    }
    assert(es@.take(es@.len() as int) =~= es@);
}

fn arms_panics_exec(arms: &Vec<AstArm>, f: &String, out: &mut Vec<PanicIssue>)
    ensures
        panics_view(final(out)@) == panics_view(old(out)@) + panic_issues(f@, arms_panics(arms@)),
    decreases arms,
{
    let ghost start = panics_view(out@);
    let mut i: usize = 0;
    while i < arms.len()
        invariant
            i <= arms@.len(),
            panics_view(out@) == start + panic_issues(f@, arms_panics(arms@.take(i as int))),
        decreases arms.len() - i,
    {
        assert(arms@.take(i + 1).drop_last() =~= arms@.take(i as int));
        expr_panics_exec(&arms[i].body, f, out);
        proof {
            lemma_panic_issues_append(f@, arms_panics(arms@.take(i as int)), expr_panics(arms@[i as int].body));
        }
        i = i + 1;
    }
    assert(arms@.take(arms@.len() as int) =~= arms@);
}

fn stmts_panics_exec(ss: &Vec<AstStmt>, f: &String, out: &mut Vec<PanicIssue>)
    ensures
        panics_view(final(out)@) == panics_view(old(out)@) + panic_issues(f@, stmts_panics(ss@)),
    decreases ss,
{
    let ghost start = panics_view(out@);
    let mut i: usize = 0;
    while i < ss.len()
        invariant
            i <= ss@.len(),
            panics_view(out@) == start + panic_issues(f@, stmts_panics(ss@.take(i as int))),
        decreases ss.len() - i,
    {
        assert(ss@.take(i + 1).drop_last() =~= ss@.take(i as int));
        assert(ss@.take(i + 1).last() == ss@[i as int]);
        let ghost before = panics_view(out@);
        let ghost here = match ss@[i as int] {
            AstStmt::Expr(e) => expr_panics(e),
            AstStmt::Local { init, .. } => match init {
                Some(x) => expr_panics(x),
                None => Seq::<Seq<char>>::empty(),
            },
            AstStmt::Macro(m) => if path_is_ident(m.path, "panic"@) {
                seq!["panic!"@]
            } else {
                Seq::<Seq<char>>::empty()
            },
            AstStmt::Item(_) => Seq::<Seq<char>>::empty(),
        };
        match &ss[i] {
            AstStmt::Expr(e) => expr_panics_exec(e, f, out),
            AstStmt::Local { init, .. } => match init {
                Some(x) => expr_panics_exec(x, f, out),
                None => {
                    assert(panics_view(out@) =~= before + panic_issues(f@, here));
                },
            },
            AstStmt::Macro(m) => {
                if path_is_ident_exec(&m.path, "panic") {
                    push_panic(out, f, "panic!".to_owned());
                }
                assert(panics_view(out@) =~= before + panic_issues(f@, here));
            },
            AstStmt::Item(_) => {
                assert(panics_view(out@) =~= before + panic_issues(f@, here));
            },
        }
        proof {
            lemma_panic_issues_append(f@, stmts_panics(ss@.take(i as int)), here);
        }
        i = i + 1;
    }
    assert(ss@.take(ss@.len() as int) =~= ss@);
}

/// An `.unwrap()` or `.expect(..)` call is reported first, under its own
/// name, before what its receiver and arguments report; any other method
/// call reports only what its receiver and arguments report.
pub proof fn law_unwrap_and_expect_are_reported(
    receiver: AstExpr,
    method: String,
    method_line: usize,
    turbofish_exprs: Vec<AstExpr>,
    args: Vec<AstExpr>,
    text: String,
    receiver_text: String,
    line: usize,
)
    ensures
        ({
            let e = AstExpr::MethodCall {
                receiver: Box::new(receiver),
                method,
                method_line,
                turbofish_exprs,
                args,
                text,
                receiver_text,
                line,
            };
            let parts = expr_panics(receiver) + exprs_panics(args@);
            &&& (method@ == "unwrap"@ || method@ == "expect"@) ==> expr_panics(e) == seq![method@] + parts
            &&& !(method@ == "unwrap"@ || method@ == "expect"@) ==> expr_panics(e) == parts
        }),
{
}

/// A `panic!(..)` invocation is reported as `panic!`, as an expression and
/// as a statement.
pub proof fn law_panic_macro_is_reported(m: AstMacro, line: usize, ss: Seq<AstStmt>, j: int)
    requires
        !m.path.leading_colon,
        m.path.segments@.len() == 1,
        !m.path.segments@[0].has_arguments,
        m.path.segments@[0].ident@ == "panic"@,
    ensures
        expr_panics(AstExpr::Macro { mac: m, line }) == seq!["panic!"@],
        0 <= j < ss.len() && ss[j] == AstStmt::Macro(m) ==> stmts_panics(ss).contains("panic!"@),
    decreases ss.len(),
{
    if 0 <= j < ss.len() && ss[j] == AstStmt::Macro(m) {
        let head = stmts_panics(ss.drop_last());
        if j < ss.len() - 1 {
            assert(ss.drop_last()[j] == ss[j]);
            law_panic_macro_is_reported(m, line, ss.drop_last(), j);
            let i = choose|i: int| 0 <= i < head.len() && head[i] == "panic!"@;
            assert(stmts_panics(ss)[i] == head[i]);
        } else {
            assert(stmts_panics(ss)[head.len() as int] == "panic!"@);
        }
    }
}

/// What a statement of a body reports, the body reports.
pub proof fn law_body_reports_each_statement(ss: Seq<AstStmt>, j: int, e: AstExpr, t: Seq<char>)
    requires
        0 <= j < ss.len(),
        ss[j] == AstStmt::Expr(e),
        expr_panics(e).contains(t),
    ensures
        stmts_panics(ss).contains(t),
    decreases ss.len(),
{
    let head = stmts_panics(ss.drop_last());
    if j < ss.len() - 1 {
        assert(ss.drop_last()[j] == ss[j]);
        law_body_reports_each_statement(ss.drop_last(), j, e, t);
        let i = choose|i: int| 0 <= i < head.len() && head[i] == t;
        assert(stmts_panics(ss)[i] == head[i]);
    } else {
        let i = choose|i: int| 0 <= i < expr_panics(e).len() && expr_panics(e)[i] == t;
        assert(stmts_panics(ss)[head.len() + i] == t);
    }
}

/// Each construct a method's body reports becomes an issue of that method,
/// located at the method.
pub proof fn law_method_issue_for_each_construct(its: Seq<AstImplItem>, k: int, t: Seq<char>)
    requires
        0 <= k < its.len(),
        its[k] matches AstImplItem::Fn { block, .. } && stmts_panics(block.stmts@).contains(t),
    ensures
        its[k] matches AstImplItem::Fn { sig, .. } && impl_panics(its).contains((sig.ident@, t, sig.ident@)),
    decreases its.len(),
{
    let head = impl_panics(its.drop_last());
    if let AstImplItem::Fn { sig, .. } = its[k] {
        let f = (sig.ident@, t, sig.ident@);
        if k < its.len() - 1 {
            assert(its.drop_last()[k] == its[k]);
            law_method_issue_for_each_construct(its.drop_last(), k, t);
            let i = choose|i: int| 0 <= i < head.len() && head[i] == f;
            assert(impl_panics(its)[i] == head[i]);
        } else {
            if let AstImplItem::Fn { block, .. } = its[k] {
                let kinds = stmts_panics(block.stmts@);
                let i = choose|i: int| 0 <= i < kinds.len() && kinds[i] == t;
                assert(panic_issues(sig.ident@, kinds)[i] == f);
                assert(impl_panics(its)[head.len() + i] == f);
            }
        }
    }
}

// ── Ledger entry sizes ──────────────────────────────────────────────────────

/// Whether an attribute is a bare path naming `name` (as the whole path or
/// as one of its segments).
pub open spec fn attr_is_named(a: AstAttribute, name: Seq<char>) -> bool {
    a.meta is Path && (path_is_ident(a.path, name) || path_has_segment(a.path, name))
}

/// Whether some attribute is a bare path naming `name`.
pub open spec fn has_attr_named(attrs: Seq<AstAttribute>, name: Seq<char>) -> bool {
    exists|i: int| 0 <= i < attrs.len() && attr_is_named(#[trigger] attrs[i], name)
}

/// Whether some attribute is a bare path naming `name`.
pub fn has_attr_named_exec(attrs: &Vec<AstAttribute>, name: &str) -> (r: bool)
    ensures
        r == has_attr_named(attrs@, name@),
{
    let mut i: usize = 0;
    while i < attrs.len()
        invariant
            i <= attrs@.len(),
            forall|j: int| 0 <= j < i ==> !attr_is_named(#[trigger] attrs@[j], name@),
        decreases attrs.len() - i,
    {
        let a = &attrs[i];
        let is_path = match a.meta {
            AstMeta::Path => true,
            _ => false,
        };
        if is_path {
            if path_is_ident_exec(&a.path, name) {
                assert(attr_is_named(attrs@[i as int], name@));
                return true;
            }
            let mut k: usize = 0;
            while k < a.path.segments.len()
                invariant
                    k <= a.path.segments@.len(),
                    i < attrs@.len(),
                    *a == attrs@[i as int],
                    a.meta is Path,
                    forall|j: int| 0 <= j < k ==> a.path.segments@[j].ident@ != name@,
                decreases a.path.segments.len() - k,
            {
                if text_eq(a.path.segments[k].ident.as_str(), name) {
                    assert(path_has_segment(a.path, name@));
                    assert(attr_is_named(attrs@[i as int], name@));
                    return true;
                }
                k = k + 1;
            }
        }
        i = i + 1;
    }
    false
}

/// The estimated ledger size of a type, in bytes, by the name of its last
/// path segment.
pub open spec fn type_size(t: AstType) -> nat {
    match t {
        AstType::Path { last, .. } => match last {
            Some(n) => type_name_size(n@),
            None => 8,
        },
        _ => 8,
    }
}

/// The estimated size of a type named `n`.
pub open spec fn type_name_size(n: Seq<char>) -> nat {
    if n == "u32"@ || n == "i32"@ || n == "bool"@ {
        4
    } else if n == "u64"@ || n == "i64"@ {
        8
    } else if n == "u128"@ || n == "i128"@ || n == "I128"@ || n == "U128"@ {
        16
    } else if n == "Address"@ {
        32
    } else if n == "Bytes"@ || n == "BytesN"@ || n == "String"@ || n == "Symbol"@ {
        64
    } else if n == "Vec"@ || n == "Map"@ {
        128
    } else {
        32
    }
}

/// The estimated size of a type.
fn type_size_exec(t: &AstType) -> (r: usize)
    ensures
        r == type_size(*t),
{
    match t {
        AstType::Path { last, .. } => match last {
            Some(n) => {
                let s = n.as_str();
                if text_eq(s, "u32") || text_eq(s, "i32") || text_eq(s, "bool") {
                    4
                } else if text_eq(s, "u64") || text_eq(s, "i64") {
                    8
                } else if text_eq(s, "u128") || text_eq(s, "i128") || text_eq(s, "I128") || text_eq(s, "U128") {
                    16
                } else if text_eq(s, "Address") {
                    32
                } else if text_eq(s, "Bytes") || text_eq(s, "BytesN") || text_eq(s, "String") || text_eq(s, "Symbol") {
                    64
                } else if text_eq(s, "Vec") || text_eq(s, "Map") {
                    128
                } else {
                    32
                }
            },
            None => 8,
        },
        _ => 8,
    }
}

/// The estimated size of a struct: the sum of its fields' sizes.
pub open spec fn fields_size(fields: Seq<AstType>) -> nat
    decreases fields.len(),
{
    if fields.len() == 0 {
        0
    } else {
        fields_size(fields.drop_last()) + type_size(fields.last())
    }
}

/// The reported size of a struct: its estimated size, capped at `usize::MAX`.
pub open spec fn reported_size(fields: Seq<AstType>) -> nat {
    if fields_size(fields) <= usize::MAX { fields_size(fields) } else { usize::MAX as nat }
}

fn fields_size_exec(fields: &Vec<AstType>) -> (r: usize)
    ensures
        r == reported_size(fields@),
{
    let mut total: usize = 0;
    let mut i: usize = 0;
    while i < fields.len()
        invariant
            i <= fields@.len(),
            total == reported_size(fields@.take(i as int)),
        decreases fields.len() - i,
    {
        assert(fields@.take(i + 1).drop_last() =~= fields@.take(i as int));
        total = total.saturating_add(type_size_exec(&fields[i]));
        i = i + 1;
    }
    assert(fields@.take(fields@.len() as int) =~= fields@);
    total
}

/// Whether a size draws a warning: over the limit, or in strict mode over half of it.
pub open spec fn size_warns(size: nat, c: SanctifyConfig) -> bool {
    size > c.ledger_limit || (c.strict_mode && size > c.ledger_limit / 2)
}

/// The size warnings of the `#[contracttype]` structs among the top-level
/// items: (struct, estimated size, limit).
pub open spec fn ledger_warnings(items: Seq<AstItem>, c: SanctifyConfig) -> Seq<(Seq<char>, nat, nat)>
    decreases items.len(),
{
    if items.len() == 0 {
        seq![]
    } else {
        ledger_warnings(items.drop_last(), c) + match items.last() {
            AstItem::Struct { attrs, ident, fields, .. } => if has_attr_named(attrs@, "contracttype"@)
                && size_warns(reported_size(fields@), c) {
                seq![(ident@, reported_size(fields@), c.ledger_limit as nat)]
            } else {
                Seq::<(Seq<char>, nat, nat)>::empty()
            },
            _ => Seq::<(Seq<char>, nat, nat)>::empty(),
        }
    }
}

/// The plain values of a size warning.
pub open spec fn size_warning_view(w: SizeWarning) -> (Seq<char>, nat, nat) {
    (w.struct_name@, w.estimated_size as nat, w.limit as nat)
}

/// The size of each named type: 4 bytes for `u32`, `i32`, `bool`; 8 for
/// `u64`, `i64`; 16 for `u128`, `i128`, `I128`, `U128`; 32 for `Address`;
/// 64 for `Bytes`, `BytesN`, `String`, `Symbol`; 128 for `Vec`, `Map`; 32
/// for any other name, and 8 for a type that is not a plain path.
pub proof fn law_type_sizes(t: String, text: String, other: AstType)
    ensures
        ({
            let n = t@;
            let size = type_size(AstType::Path { last: Some(t), text });
            &&& (n == "u32"@ || n == "i32"@ || n == "bool"@) ==> size == 4
            &&& (n == "u64"@ || n == "i64"@) ==> size == 8
            &&& (n == "u128"@ || n == "i128"@ || n == "I128"@ || n == "U128"@) ==> size == 16
            &&& n == "Address"@ ==> size == 32
            &&& (n == "Bytes"@ || n == "BytesN"@ || n == "String"@ || n == "Symbol"@) ==> size == 64
            &&& (n == "Vec"@ || n == "Map"@) ==> size == 128
            &&& !(n == "u32"@ || n == "i32"@ || n == "bool"@ || n == "u64"@ || n == "i64"@ || n == "u128"@ || n
                == "i128"@ || n == "I128"@ || n == "U128"@ || n == "Address"@ || n == "Bytes"@ || n == "BytesN"@
                || n == "String"@ || n == "Symbol"@ || n == "Vec"@ || n == "Map"@) ==> size == 32
        }),
        !(other is Path) ==> type_size(other) == 8,
{
    reveal_strlit("u32");
    reveal_strlit("i32");
    reveal_strlit("bool");
    reveal_strlit("u64");
    reveal_strlit("i64");
    reveal_strlit("u128");
    reveal_strlit("i128");
    reveal_strlit("I128");
    reveal_strlit("U128");
    reveal_strlit("Address");
    reveal_strlit("Bytes");
    reveal_strlit("BytesN");
    reveal_strlit("String");
    reveal_strlit("Symbol");
    reveal_strlit("Vec");
    reveal_strlit("Map");
    assert("u32"@[0] == 'u' && "u32"@[1] == '3');
    assert("i32"@[0] == 'i' && "i32"@[1] == '3');
    assert("bool"@[0] == 'b' && "bool"@[1] == 'o');
    assert("u64"@[0] == 'u' && "u64"@[1] == '6');
    assert("i64"@[0] == 'i' && "i64"@[1] == '6');
    assert("u128"@[0] == 'u' && "u128"@[1] == '1');
    assert("i128"@[0] == 'i' && "i128"@[1] == '1');
    assert("I128"@[0] == 'I' && "I128"@[1] == '1');
    assert("U128"@[0] == 'U' && "U128"@[1] == '1');
    assert("Address"@[0] == 'A' && "Address"@[1] == 'd');
    assert("Bytes"@[0] == 'B' && "Bytes"@[1] == 'y');
    assert("BytesN"@[0] == 'B' && "BytesN"@[1] == 'y');
    assert("String"@[0] == 'S' && "String"@[1] == 't');
    assert("Symbol"@[0] == 'S' && "Symbol"@[1] == 'y');
    assert("Vec"@[0] == 'V' && "Vec"@[1] == 'e');
    assert("Map"@[0] == 'M' && "Map"@[1] == 'a');
}

/// A struct's estimated size adds up its fields: the size of two runs of
/// fields is the sum of their sizes, and a single field has its type's size.
pub proof fn law_fields_size_is_a_sum(a: Seq<AstType>, b: Seq<AstType>, t: AstType)
    ensures
        fields_size(a + b) == fields_size(a) + fields_size(b),
        fields_size(seq![t]) == type_size(t),
        fields_size(a.push(t)) == fields_size(a) + type_size(t),
    decreases b.len(),
{
    let one = seq![t];
    assert(one.drop_last() =~= Seq::<AstType>::empty());
    assert(fields_size(one.drop_last()) == 0);
    assert(one.last() == t);
    assert(a.push(t).drop_last() =~= a);
    assert(a.push(t).last() == t);
    if b.len() == 0 {
        assert(a + b =~= a);
    } else {
        law_fields_size_is_a_sum(a, b.drop_last(), t);
        assert((a + b).drop_last() =~= a + b.drop_last());
        assert((a + b).last() == b.last());
    }
}

/// The reported size is the estimated size where it fits in a `usize`, and
/// `usize::MAX` otherwise.
pub proof fn law_reported_size_caps_the_sum(fields: Seq<AstType>)
    ensures
        fields_size(fields) <= usize::MAX ==> reported_size(fields) == fields_size(fields),
        fields_size(fields) > usize::MAX ==> reported_size(fields) == usize::MAX,
{
}

// ── Panicking constructs anywhere ───────────────────────────────────────────

/// The plain values of an unsafe pattern.
pub open spec fn pattern_view(p: UnsafePattern) -> (PatternType, usize, Seq<char>) {
    (p.pattern_type, p.line, p.snippet@)
}

/// The pattern an event reveals, if any: a `panic!` invocation, or a call
/// of `.unwrap()` / `.expect()`.
pub open spec fn event_pattern(ev: Event) -> Option<(PatternType, usize, Seq<char>)> {
    match ev {
        Event::Macro { ident } => match ident {
            Some((n, line)) => if n@ == "panic"@ {
                Some((PatternType::Panic, line, "panic!()"@))
            } else {
                None
            },
            None => None,
        },
        Event::MethodCall { method, method_line, .. } => if method@ == "unwrap"@ {
            Some((PatternType::Unwrap, method_line, ".unwrap()"@))
        } else if method@ == "expect"@ {
            Some((PatternType::Expect, method_line, ".expect()"@))
        } else {
            None
        },
        _ => None,
    }
}

/// The patterns of a sequence of events, in order.
pub open spec fn events_patterns(evs: Seq<Event>) -> Seq<(PatternType, usize, Seq<char>)>
    decreases evs.len(),
{
    if evs.len() == 0 {
        seq![]
    } else {
        events_patterns(evs.drop_last()) + match event_pattern(evs.last()) {
            Some(p) => seq![p],
            None => Seq::<(PatternType, usize, Seq<char>)>::empty(),
        }
    }
}

// ── Unchecked arithmetic (per function) ─────────────────────────────────────

/// The operator text and suggestion for the operators this scan flags.
pub open spec fn basic_op_info(op: AstBinOp) -> Option<(Seq<char>, Seq<char>)> {
    match op {
        AstBinOp::Add => Some(("+"@, "Use `.checked_add()`"@)),
        AstBinOp::Sub => Some(("-"@, "Use `.checked_sub()`"@)),
        AstBinOp::Mul => Some(("*"@, "Use `.checked_mul()`"@)),
        AstBinOp::AddAssign => Some(("+="@, "Replace with checked_add"@)),
        AstBinOp::SubAssign => Some(("-="@, "Replace with checked_sub"@)),
        AstBinOp::MulAssign => Some(("*="@, "Replace with checked_mul"@)),
        AstBinOp::Div => Some(("/"@, "Use `.checked_div()`"@)),
        AstBinOp::Rem => Some(("%"@, "Use `.checked_rem()`"@)),
        AstBinOp::DivAssign => Some(("/="@, "Replace with checked_div"@)),
        AstBinOp::RemAssign => Some(("%="@, "Replace with checked_rem"@)),
        _ => None,
    }
}

/// What the arithmetic scan keeps while walking a file's events.
pub struct ArithScan {
    pub current: Option<Seq<char>>,
    pub stack: Seq<Option<Seq<char>>>,
    /// Issues so far: function, operation, suggestion, location.
    pub issues: Seq<(Seq<char>, Seq<char>, Seq<char>, Seq<char>)>,
}

/// Whether an issue for (function, operation) is already recorded.
pub open spec fn already_seen(
    issues: Seq<(Seq<char>, Seq<char>, Seq<char>, Seq<char>)>,
    f: Seq<char>,
    op: Seq<char>,
) -> bool {
    exists|j: int| 0 <= j < issues.len() && (#[trigger] issues[j]).0 == f && issues[j].1 == op
}

/// One step of the scan.
pub open spec fn arith_scan_step(st: ArithScan, ev: Event) -> ArithScan {
    match ev {
        Event::EnterFn { name, .. } => ArithScan {
            current: Some(name@),
            stack: st.stack.push(st.current),
            ..st
        },
        Event::ExitFn => if st.stack.len() > 0 {
            ArithScan { current: st.stack.last(), stack: st.stack.drop_last(), ..st }
        } else {
            ArithScan { current: None, ..st }
        },
        Event::Binary { op, left_is_str, right_is_str, line } => match (st.current, basic_op_info(op)) {
            (Some(f), Some(info)) => if !left_is_str && !right_is_str && !already_seen(
                st.issues,
                f,
                info.0,
            ) {
                ArithScan { issues: st.issues.push((f, info.0, info.1, f + ":"@ + decimal(line as nat))), ..st }
            } else {
                st
            },
            _ => st,
        },
        _ => st,
    }
}

/// The scan's state before any event.
pub open spec fn arith_scan_start() -> ArithScan {
    ArithScan { current: None, stack: seq![], issues: seq![] }
}

/// The scan's state after `evs`.
pub open spec fn arith_scan(evs: Seq<Event>) -> ArithScan
    decreases evs.len(),
{
    if evs.len() == 0 {
        arith_scan_start()
    } else {
        arith_scan_step(arith_scan(evs.drop_last()), evs.last())
    }
}

/// Whether no two issues share a (function, operation) pair.
pub open spec fn distinct_pairs(issues: Seq<(Seq<char>, Seq<char>, Seq<char>, Seq<char>)>) -> bool {
    forall|a: int, b: int|
        0 <= a < b < issues.len() ==> !((#[trigger] issues[a]).0 == (#[trigger] issues[b]).0 && issues[a].1 == issues[b].1)
}

/// The arithmetic scan reports at most one issue per (function, operation)
/// pair, whatever the events.
pub proof fn law_arith_scan_one_issue_per_pair(evs: Seq<Event>)
    ensures
        distinct_pairs(arith_scan(evs).issues),
    decreases evs.len(),
{
    if evs.len() > 0 {
        law_arith_scan_one_issue_per_pair(evs.drop_last());
        let st = arith_scan(evs.drop_last());
        let is = arith_scan(evs).issues;
        if is.len() > st.issues.len() {
            assert forall|a: int, b: int| 0 <= a < b < is.len() implies !((#[trigger] is[a]).0 == (#[trigger] is[b]).0 && is[a].1 == is[b].1) by {
                if b == st.issues.len() {
                    assert(is[a] == st.issues[a]);
                    if is[a].0 == is[b].0 && is[a].1 == is[b].1 {
                        assert(already_seen(st.issues, is[b].0, is[b].1));
                    }
                } else {
                    assert(is[a] == st.issues[a] && is[b] == st.issues[b]);
                }
            }
        }
    }
}

/// The plain values of an arithmetic issue.
pub open spec fn arith_issue_view(i: ArithmeticIssue) -> (Seq<char>, Seq<char>, Seq<char>, Seq<char>) {
    (i.function_name@, i.operation@, i.suggestion@, i.location@)
}

fn basic_op_info_exec(op: AstBinOp) -> (r: Option<(&'static str, &'static str)>)
    ensures
        match r {
            Some(p) => basic_op_info(op) == Some((p.0@, p.1@)),
            None => basic_op_info(op) is None,
        },
{
    match op {
        AstBinOp::Add => Some(("+", "Use `.checked_add()`")),
        AstBinOp::Sub => Some(("-", "Use `.checked_sub()`")),
        AstBinOp::Mul => Some(("*", "Use `.checked_mul()`")),
        AstBinOp::AddAssign => Some(("+=", "Replace with checked_add")),
        AstBinOp::SubAssign => Some(("-=", "Replace with checked_sub")),
        AstBinOp::MulAssign => Some(("*=", "Replace with checked_mul")),
        AstBinOp::Div => Some(("/", "Use `.checked_div()`")),
        AstBinOp::Rem => Some(("%", "Use `.checked_rem()`")),
        AstBinOp::DivAssign => Some(("/=", "Replace with checked_div")),
        AstBinOp::RemAssign => Some(("%=", "Replace with checked_rem")),
        _ => None,
    }
}

/// Whether an issue for (function, operation) is already recorded.
fn already_seen_exec(issues: &Vec<ArithmeticIssue>, f: &str, op: &str) -> (r: bool)
    ensures
        r == already_seen(issues@.map_values(|i: ArithmeticIssue| arith_issue_view(i)), f@, op@),
{
    let ghost v = issues@.map_values(|i: ArithmeticIssue| arith_issue_view(i));
    let mut k: usize = 0;
    while k < issues.len()
        invariant
            k <= issues@.len(),
            v == issues@.map_values(|i: ArithmeticIssue| arith_issue_view(i)),
            forall|j: int| 0 <= j < k ==> !((#[trigger] v[j]).0 == f@ && v[j].1 == op@),
        decreases issues.len() - k,
    {
        assert(v[k as int] == arith_issue_view(issues@[k as int]));
        if text_eq(issues[k].function_name.as_str(), f) && text_eq(issues[k].operation.as_str(), op) {
            return true;
        }
        k = k + 1;
    }
    false
}

/// The characters of the optional strings on a stack.
pub open spec fn opt_stack_view(s: Seq<Option<String>>) -> Seq<Option<Seq<char>>> {
    s.map_values(|o: Option<String>| match o {
        Some(x) => Some(x@),
        None => None,
    })
}

/// The plain value of an optional string.
pub open spec fn opt_view(o: Option<String>) -> Option<Seq<char>> {
    match o {
        Some(x) => Some(x@),
        None => None,
    }
}

impl Analyzer {
    /// The public methods of the top-level `impl` blocks that write storage
    /// (`set`/`update`/`remove` on a storage handle) and never call
    /// `require_auth`/`require_auth_for_args`; none when `syn` rejects the source.
    pub fn scan_auth_gaps(&self, source: &str) -> (r: Vec<String>)
        ensures
            match spec_parse_file(source@) {
                Some(f) => crate::text::strings_view(r@) == file_auth_gaps(f.items@),
                None => r@.len() == 0,
            },
    {
        let file = match parse_file(source) {
            Ok(f) => f,
            Err(_) => {
                return Vec::new();
            },
        };
        let mut gaps: Vec<String> = Vec::new();
        let mut i: usize = 0;
        while i < file.items.len()
            invariant
                i <= file.items@.len(),
                crate::text::strings_view(gaps@) == file_auth_gaps(file.items@.take(i as int)),
            decreases file.items.len() - i,
        {
            assert(file.items@.take(i + 1).drop_last() =~= file.items@.take(i as int));
            assert(file.items@.take(i + 1).last() == file.items@[i as int]);
            match &file.items[i] {
                AstItem::Impl { items: its, .. } => {
                    let ghost start = crate::text::strings_view(gaps@);
                    let mut k: usize = 0;
                    while k < its.len()
                        invariant
                            k <= its@.len(),
                            crate::text::strings_view(gaps@) == start + impl_auth_gaps(its@.take(k as int)),
                        decreases its.len() - k,
                    {
                        assert(its@.take(k + 1).drop_last() =~= its@.take(k as int));
                        assert(its@.take(k + 1).last() == its@[k as int]);
                        let ghost before = crate::text::strings_view(gaps@);
                        match &its[k] {
                            AstImplItem::Fn { is_public, sig, block, .. } => {
                                if *is_public {
                                    let a = stmts_auth_exec(&block.stmts);
                                    if a.0 && !a.1 {
                                        gaps.push(sig.ident.clone());
                                        assert(crate::text::strings_view(gaps@) =~= before.push(sig.ident@));
                                    }
                                }
                            },
                            _ => {},
                        }
                        k = k + 1;
                    }
                    assert(its@.take(its@.len() as int) =~= its@);
                },
                _ => {},
            }
            assert(crate::text::strings_view(gaps@) =~= file_auth_gaps(file.items@.take(i + 1)));
            i = i + 1;
        }
        assert(file.items@.take(file.items@.len() as int) =~= file.items@);
        gaps
    }

    /// The `panic!`, `.unwrap()` and `.expect()` reached from the bodies of
    /// the methods of the top-level `impl` blocks (through calls, method
    /// calls, blocks, `if` and `match`), in source order; none when `syn`
    /// rejects the source.
    pub fn scan_panics(&self, source: &str) -> (r: Vec<PanicIssue>)
        ensures
            match spec_parse_file(source@) {
                Some(f) => panics_view(r@) == file_panics(f.items@),
                None => r@.len() == 0,
            },
    {
        let file = match parse_file(source) {
            Ok(f) => f,
            Err(_) => {
                return Vec::new();
            },
        };
        let mut issues: Vec<PanicIssue> = Vec::new();
        let mut i: usize = 0;
        while i < file.items.len()
            invariant
                i <= file.items@.len(),
                panics_view(issues@) == file_panics(file.items@.take(i as int)),
            decreases file.items.len() - i,
        {
            assert(file.items@.take(i + 1).drop_last() =~= file.items@.take(i as int));
            assert(file.items@.take(i + 1).last() == file.items@[i as int]);
            match &file.items[i] {
                AstItem::Impl { items: its, .. } => {
                    let ghost start = panics_view(issues@);
                    let mut k: usize = 0;
                    while k < its.len()
                        invariant
                            k <= its@.len(),
                            panics_view(issues@) == start + impl_panics(its@.take(k as int)),
                        decreases its.len() - k,
                    {
                        assert(its@.take(k + 1).drop_last() =~= its@.take(k as int));
                        assert(its@.take(k + 1).last() == its@[k as int]);
                        let ghost before = panics_view(issues@);
                        match &its[k] {
                            AstImplItem::Fn { sig, block, .. } => {
                                stmts_panics_exec(&block.stmts, &sig.ident, &mut issues);
                            },
                            _ => {},
                        }
                        assert(panics_view(issues@) =~= start + impl_panics(its@.take(k + 1)));
                        k = k + 1;
                    }
                    assert(its@.take(its@.len() as int) =~= its@);
                },
                _ => {},
            }
            assert(panics_view(issues@) =~= file_panics(file.items@.take(i + 1)));
            i = i + 1;
        }
        assert(file.items@.take(file.items@.len() as int) =~= file.items@);
        issues
    }

    /// The `#[contracttype]` structs among the top-level items whose
    /// estimated size exceeds the ledger limit (or, in strict mode, half of
    /// it); none when `syn` rejects the source.
    pub fn analyze_ledger_size(&self, source: &str) -> (r: Vec<SizeWarning>)
        ensures
            match spec_parse_file(source@) {
                Some(f) => r@.map_values(|w: SizeWarning| size_warning_view(w)) == ledger_warnings(
                    f.items@,
                    self.config,
                ),
                None => r@.len() == 0,
            },
    {
        let file = match parse_file(source) {
            Ok(f) => f,
            Err(_) => {
                return Vec::new();
            },
        };
        let limit = self.config.ledger_limit;
        let strict = self.config.strict_mode;
        let mut warnings: Vec<SizeWarning> = Vec::new();
        let mut i: usize = 0;
        while i < file.items.len()
            invariant
                i <= file.items@.len(),
                limit == self.config.ledger_limit,
                strict == self.config.strict_mode,
                warnings@.map_values(|w: SizeWarning| size_warning_view(w)) == ledger_warnings(
                    file.items@.take(i as int),
                    self.config,
                ),
            decreases file.items.len() - i,
        {
            assert(file.items@.take(i + 1).drop_last() =~= file.items@.take(i as int));
            assert(file.items@.take(i + 1).last() == file.items@[i as int]);
            let ghost before = warnings@.map_values(|w: SizeWarning| size_warning_view(w));
            match &file.items[i] {
                AstItem::Struct { attrs, ident, fields, .. } => {
                    if has_attr_named_exec(attrs, "contracttype") {
                        let size = fields_size_exec(fields);
                        if size > limit || (strict && size > limit / 2) {
                            warnings.push(SizeWarning { struct_name: ident.clone(), estimated_size: size, limit });
                            assert(warnings@.map_values(|w: SizeWarning| size_warning_view(w)) =~= before.push(
                                (ident@, size as nat, limit as nat),
                            ));
                        }
                    }
                },
                _ => {},
            }
            assert(warnings@.map_values(|w: SizeWarning| size_warning_view(w)) =~= ledger_warnings(
                file.items@.take(i + 1),
                self.config,
            ));
            i = i + 1;
        }
        assert(file.items@.take(file.items@.len() as int) =~= file.items@);
        warnings
    }

    /// Every `panic!` invocation and every `.unwrap()` / `.expect()` call in
    /// the file, in source order, with the line of the macro's or method's
    /// name; none when `syn` rejects the source.
    pub fn analyze_unsafe_patterns(&self, source: &str) -> (r: Vec<UnsafePattern>)
        ensures
            match spec_parse_file(source@) {
                Some(f) => r@.map_values(|p: UnsafePattern| pattern_view(p)) == events_patterns(file_events(f)),
                None => r@.len() == 0,
            },
    {
        let file = match parse_file(source) {
            Ok(f) => f,
            Err(_) => {
                return Vec::new();
            },
        };
        let evs = file_events_exec(&file);
        let mut out: Vec<UnsafePattern> = Vec::new();
        let mut i: usize = 0;
        while i < evs.len()
            invariant
                i <= evs@.len(),
                evs@ == file_events(file),
                out@.map_values(|p: UnsafePattern| pattern_view(p)) == events_patterns(evs@.take(i as int)),
            decreases evs.len() - i,
        {
            assert(evs@.take(i + 1).drop_last() =~= evs@.take(i as int));
            assert(evs@.take(i + 1).last() == evs@[i as int]);
            let ghost before = out@.map_values(|p: UnsafePattern| pattern_view(p));
            let found: Option<UnsafePattern> = match &evs[i] {
                Event::Macro { ident } => match ident {
                    Some((n, line)) => if text_eq(n.as_str(), "panic") {
                        Some(UnsafePattern { pattern_type: PatternType::Panic, line: *line, snippet: "panic!()".to_owned() })
                    } else {
                        None
                    },
                    None => None,
                },
                Event::MethodCall { method, method_line, .. } => if text_eq(method.as_str(), "unwrap") {
                    Some(UnsafePattern { pattern_type: PatternType::Unwrap, line: *method_line, snippet: ".unwrap()".to_owned() })
                } else if text_eq(method.as_str(), "expect") {
                    Some(UnsafePattern { pattern_type: PatternType::Expect, line: *method_line, snippet: ".expect()".to_owned() })
                } else {
                    None
                },
                _ => None,
            };
            match found {
                Some(p) => {
                    let ghost pv = pattern_view(p);
                    out.push(p);
                    assert(out@.map_values(|p: UnsafePattern| pattern_view(p)) =~= before.push(pv));
                },
                None => {},
            }
            i = i + 1;
        }
        assert(evs@.take(evs@.len() as int) =~= evs@);
        out
    }

    /// Unchecked `+ - * / %` and `+= -= *= /= %=` inside functions, without a string
    /// literal operand, at most one per (function, operator) pair: the first
    /// in source order, located at the line of its left operand; none when
    /// `syn` rejects the source.
    pub fn scan_arithmetic_overflow(&self, source: &str) -> (r: Vec<ArithmeticIssue>)
        ensures
            match spec_parse_file(source@) {
                Some(f) => r@.map_values(|i: ArithmeticIssue| arith_issue_view(i)) == arith_scan(
                    file_events(f),
                ).issues,
                None => r@.len() == 0,
            },
    {
        let file = match parse_file(source) {
            Ok(f) => f,
            Err(_) => {
                return Vec::new();
            },
        };
        let evs = file_events_exec(&file);
        let mut current: Option<String> = None;
        let mut stack: Vec<Option<String>> = Vec::new();
        let mut issues: Vec<ArithmeticIssue> = Vec::new();
        let mut i: usize = 0;
        while i < evs.len()
            invariant
                i <= evs@.len(),
                evs@ == file_events(file),
                ({
                    let st = arith_scan(evs@.take(i as int));
                    &&& opt_view(current) == st.current
                    &&& opt_stack_view(stack@) == st.stack
                    &&& issues@.map_values(|i: ArithmeticIssue| arith_issue_view(i)) == st.issues
                }),
            decreases evs.len() - i,
        {
            let ghost st = arith_scan(evs@.take(i as int));
            assert(evs@.take(i + 1).drop_last() =~= evs@.take(i as int));
            assert(evs@.take(i + 1).last() == evs@[i as int]);
            match &evs[i] {
                Event::EnterFn { name, .. } => {
                    let prev = current;
                    stack.push(prev);
                    current = Some(name.clone());
                    assert(opt_stack_view(stack@) =~= st.stack.push(st.current));
                },
                Event::ExitFn => {
                    match stack.pop() {
                        Some(prev) => {
                            current = prev;
                            assert(opt_stack_view(stack@) =~= st.stack.drop_last());
                        },
                        None => {
                            current = None;
                        },
                    }
                },
                Event::Binary { op, left_is_str, right_is_str, line } => {
                    match &current {
                        Some(f) => match basic_op_info_exec(*op) {
                            Some((op_str, suggestion)) => {
                                if !*left_is_str && !*right_is_str && !already_seen_exec(
                                    &issues,
                                    f.as_str(),
                                    op_str,
                                ) {
                                    let loc = concat(concat(f.as_str(), ":").as_str(), usize_to_string(*line).as_str());
                                    let ghost before = issues@.map_values(|i: ArithmeticIssue| arith_issue_view(i));
                                    issues.push(ArithmeticIssue {
                                        function_name: f.clone(),
                                        operation: op_str.to_owned(),
                                        suggestion: suggestion.to_owned(),
                                        location: loc,
                                    });
                                    assert(issues@.map_values(|i: ArithmeticIssue| arith_issue_view(i)) =~= before.push(
                                        (f@, op_str@, suggestion@, f@ + ":"@ + decimal(*line as nat)),
                                    ));
                                }
                            },
                            None => {},
                        },
                        None => {},
                    }
                },
                _ => {},
            }
            i = i + 1;
        }
        assert(evs@.take(evs@.len() as int) =~= evs@);
        issues
    }
}

} // verus!
