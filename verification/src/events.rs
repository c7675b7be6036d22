//! A flat, source-ordered account of a syntax tree.
//!
//! Several analyses walk *every* node of a file (or of a function body) in
//! source order, keeping a little context as they go: the enclosing function,
//! whether they are inside a `#[cfg(test)]` module or an index subscript.
//! Rather than repeating that walk, this module turns a tree into the sequence
//! of [`Event`]s met along it; each analysis is then a pass over that
//! sequence.
use vstd::prelude::*;
use crate::syntax::{
    line_of, path_is_ident, AstArm, AstAttribute, AstBinOp, AstBlock, AstExpr, AstFile, AstImplItem, AstItem, AstLit, AstMacro, AstPath,
    AstSignature, AstStmt, AstTraitItem,
};
use crate::text::{seq_contains, text_contains, text_eq};

verus! {

broadcast use vstd::std_specs::vec::group_vec_axioms, vstd::seq::group_seq_axioms;

/// One step of a source-ordered walk over a syntax tree.
#[derive(Debug)]
pub enum Event {
    /// Entering a function (free or in an `impl`), with whether it carries `#[test]`.
    EnterFn { name: String, is_test: bool },
    /// Leaving the function last entered.
    ExitFn,
    /// Entering a module, with whether it carries `#[cfg(test)]`.
    EnterMod { is_cfg_test: bool },
    /// Leaving a module, with whether it carried `#[cfg(test)]`.
    ExitMod { is_cfg_test: bool },
    /// Entering the subscript of an index expression `a[...]`.
    EnterIndex,
    /// Leaving that subscript.
    ExitIndex,
    /// A binary expression: its operator, whether each operand is a string
    /// literal, and the line on which the left operand starts.
    Binary { op: AstBinOp, left_is_str: bool, right_is_str: bool, line: usize },
    /// A method call, with the line of the method's name and of the call.
    /// It is followed by one `Arg` for its receiver and one for each argument.
    MethodCall { method: String, method_line: usize, line: usize },
    /// A call; `func` is the last identifier of the callee when the callee is a path.
    /// It is followed by one `Arg` for each argument.
    Call { func: Option<String>, line: usize },
    /// The identifier an operand names (see [`expr_ident`]), if any.
    Arg { ident: Option<String> },
    /// A macro invocation, with its name and the line of the name when the
    /// macro's path is a single identifier.
    Macro { ident: Option<(String, usize)> },
}

// ── What an expression names ────────────────────────────────────────────────

/// The identifier an expression names: the last segment of a path, seen
/// through `&`, parentheses, invisible groups and unary operators.
pub open spec fn expr_ident(e: AstExpr) -> Option<String>
    decreases e,
{
    match e {
        AstExpr::Path { path, .. } => if path.segments@.len() == 0 {
            None
        } else {
            Some(path.segments@.last().ident)
        },
        AstExpr::Reference { expr, .. } => expr_ident(*expr),
        AstExpr::Paren { expr, .. } => expr_ident(*expr),
        AstExpr::Group { expr, .. } => expr_ident(*expr),
        AstExpr::Unary { expr, .. } => expr_ident(*expr),
        _ => None,
    }
}

/// The identifier an expression names, see [`expr_ident`].
pub fn expr_ident_exec(e: &AstExpr) -> (r: Option<String>)
    ensures
        r == expr_ident(*e),
    decreases e,
{
    match e {
        AstExpr::Path { path, .. } => {
            let n = path.segments.len();
            if n == 0 {
                None
            } else {
                Some(path.segments[n - 1].ident.clone())
            }
        },
        AstExpr::Reference { expr, .. } => expr_ident_exec(expr),
        AstExpr::Paren { expr, .. } => expr_ident_exec(expr),
        AstExpr::Group { expr, .. } => expr_ident_exec(expr),
        AstExpr::Unary { expr, .. } => expr_ident_exec(expr),
        _ => None,
    }
}

/// Whether an expression is a string literal.
pub open spec fn is_str_lit(e: AstExpr) -> bool {
    e matches AstExpr::Lit { lit: AstLit::Str(_), .. }
}

// ── Attributes ──────────────────────────────────────────────────────────────

/// Whether some attribute's path is exactly `test`.
pub open spec fn has_test_attr(attrs: Seq<AstAttribute>) -> bool {
    exists|i: int| 0 <= i < attrs.len() && path_is_ident(#[trigger] attrs[i].path, "test"@)
}

/// Whether some attribute's path is exactly `cfg` and its text mentions `test`.
pub open spec fn is_cfg_test(attrs: Seq<AstAttribute>) -> bool {
    exists|i: int|
        0 <= i < attrs.len() && path_is_ident(#[trigger] attrs[i].path, "cfg"@) && seq_contains(
            attrs[i].text@,
            "test"@,
        )
}

/// Whether the path is exactly the identifier `name`.
pub fn path_is_ident_exec(p: &AstPath, name: &str) -> (r: bool)
    ensures
        r == path_is_ident(*p, name@),
{
    if !p.leading_colon && p.segments.len() == 1 && !p.segments[0].has_arguments {
        text_eq(p.segments[0].ident.as_str(), name)
    } else {
        false
    }
}

/// Whether some attribute's path is exactly `test`.
pub fn has_test_attr_exec(attrs: &Vec<AstAttribute>) -> (r: bool)
    ensures
        r == has_test_attr(attrs@),
{
    let mut i: usize = 0;
    while i < attrs.len()
        invariant
            i <= attrs@.len(),
            forall|j: int| 0 <= j < i ==> !path_is_ident(#[trigger] attrs@[j].path, "test"@),
        decreases attrs.len() - i,
    {
        if path_is_ident_exec(&attrs[i].path, "test") {
            return true;
        }
        i = i + 1;
    }
    false
}

/// Whether some attribute's path is exactly `cfg` and its text mentions `test`.
pub fn is_cfg_test_exec(attrs: &Vec<AstAttribute>) -> (r: bool)
    ensures
        r == is_cfg_test(attrs@),
{
    let mut i: usize = 0;
    while i < attrs.len()
        invariant
            i <= attrs@.len(),
            forall|j: int|
                0 <= j < i ==> !(path_is_ident(#[trigger] attrs@[j].path, "cfg"@) && seq_contains(
                    attrs@[j].text@,
                    "test"@,
                )),
        decreases attrs.len() - i,
    {
        if path_is_ident_exec(&attrs[i].path, "cfg") && text_contains(attrs[i].text.as_str(), "test") {
            return true;
        }
        i = i + 1;
    }
    false
}

// ── The walk, stated ────────────────────────────────────────────────────────

/// The `Arg` events of a sequence of operands.
pub open spec fn arg_events(es: Seq<AstExpr>) -> Seq<Event> {
    es.map_values(|e: AstExpr| Event::Arg { ident: expr_ident(e) })
}

/// The events of an optional expression.
pub open spec fn opt_events(e: Option<Box<AstExpr>>) -> Seq<Event>
    decreases e,
{
    match e {
        Some(x) => expr_events(*x),
        None => seq![],
    }
}

/// The events met walking an expression.
pub open spec fn expr_events(e: AstExpr) -> Seq<Event>
    decreases e,
{
    match e {
        AstExpr::Binary { left, op, right, .. } => seq![
            Event::Binary {
                op,
                left_is_str: is_str_lit(*left),
                right_is_str: is_str_lit(*right),
                line: line_of(*left),
            },
        ] + expr_events(*left) + expr_events(*right),
        AstExpr::MethodCall { receiver, method, method_line, turbofish_exprs, args, line, .. } => seq![
            Event::MethodCall { method, method_line, line },
        ] + arg_events(seq![*receiver] + args@) + expr_events(*receiver) + exprs_events(turbofish_exprs@)
            + exprs_events(args@),
        AstExpr::Call { func, args, line } => seq![
            Event::Call { func: func_ident(*func), line },
        ] + arg_events(args@) + expr_events(*func) + exprs_events(args@),
        AstExpr::Path { arg_exprs, .. } => exprs_events(arg_exprs@),
        AstExpr::Lit { .. } => seq![],
        AstExpr::Unary { expr, .. } => expr_events(*expr),
        AstExpr::Paren { expr, .. } => expr_events(*expr),
        AstExpr::Group { expr, .. } => expr_events(*expr),
        AstExpr::Cast { expr, ty_exprs, .. } => expr_events(*expr) + exprs_events(ty_exprs@),
        AstExpr::Reference { expr, .. } => expr_events(*expr),
        AstExpr::Field { base, .. } => expr_events(*base),
        AstExpr::Try { expr, .. } => expr_events(*expr),
        AstExpr::Index { expr, index, .. } => expr_events(*expr) + seq![Event::EnterIndex]
            + expr_events(*index) + seq![Event::ExitIndex],
        AstExpr::Tuple { elems, .. } => exprs_events(elems@),
        AstExpr::Range { start, end, .. } => opt_events(start) + opt_events(end),
        AstExpr::Block { block, .. } => block_events(block),
        AstExpr::If { cond, then_branch, else_branch, .. } => expr_events(*cond) + block_events(
            then_branch,
        ) + opt_events(else_branch),
        AstExpr::Match { expr, arms, .. } => expr_events(*expr) + arms_events(arms@),
        AstExpr::While { cond, body, .. } => expr_events(*cond) + block_events(body),
        AstExpr::ForLoop { expr, body, .. } => expr_events(*expr) + block_events(body),
        AstExpr::Loop { body, .. } => block_events(body),
        AstExpr::Assign { left, right, .. } => expr_events(*left) + expr_events(*right),
        AstExpr::Return { expr, .. } => opt_events(expr),
        AstExpr::Break { expr, .. } => opt_events(expr),
        AstExpr::Continue { .. } => seq![],
        AstExpr::Macro { mac, .. } => seq![macro_event(mac)],
        AstExpr::Other { children, .. } => exprs_events(children@),
    }
}

/// The last identifier of a callee that is a path.
pub open spec fn func_ident(f: AstExpr) -> Option<String> {
    match f {
        AstExpr::Path { path, .. } => if path.segments@.len() == 0 {
            None
        } else {
            Some(path.segments@.last().ident)
        },
        _ => None,
    }
}

/// The event of a macro invocation.
pub open spec fn macro_event(m: AstMacro) -> Event {
    Event::Macro {
        ident: if !m.path.leading_colon && m.path.segments@.len() == 1
            && !m.path.segments@[0].has_arguments {
            match m.ident_line {
                Some(l) => Some((m.path.segments@[0].ident, l)),
                None => None,
            }
        } else {
            None
        },
    }
}

/// The events of a sequence of expressions, one after the other.
pub open spec fn exprs_events(es: Seq<AstExpr>) -> Seq<Event>
    decreases es,
{
    if es.len() == 0 {
        seq![]
    } else {
        exprs_events(es.drop_last()) + expr_events(es.last())
    }
}

/// The events of a match arm: its guard, then its body.
pub open spec fn arm_events(a: AstArm) -> Seq<Event>
    decreases a,
{
    match a.guard {
        Some(g) => expr_events(g) + expr_events(a.body),
        None => expr_events(a.body),
    }
}

/// The events of the arms of a match.
pub open spec fn arms_events(arms: Seq<AstArm>) -> Seq<Event>
    decreases arms,
{
    if arms.len() == 0 {
        seq![]
    } else {
        arms_events(arms.drop_last()) + arm_events(arms.last())
    }
}

/// The events of a block.
pub open spec fn block_events(b: AstBlock) -> Seq<Event>
    decreases b,
{
    stmts_events(b.stmts@)
}

/// The events of a sequence of statements.
pub open spec fn stmts_events(ss: Seq<AstStmt>) -> Seq<Event>
    decreases ss,
{
    if ss.len() == 0 {
        seq![]
    } else {
        stmts_events(ss.drop_last()) + stmt_events(ss.last())
    }
}

/// The events of an optional (unboxed) expression.
pub open spec fn opt_expr_events(e: Option<AstExpr>) -> Seq<Event>
    decreases e,
{
    match e {
        Some(x) => expr_events(x),
        None => seq![],
    }
}

/// The events of a statement.
pub open spec fn stmt_events(s: AstStmt) -> Seq<Event>
    decreases s,
{
    match s {
        AstStmt::Local { pat_exprs, init, diverge, .. } => exprs_events(pat_exprs@) + opt_expr_events(init)
            + opt_expr_events(diverge),
        AstStmt::Item(it) => item_events(it),
        AstStmt::Expr(e) => expr_events(e),
        AstStmt::Macro(m) => seq![macro_event(m)],
    }
}

/// The events of a function: entering it, the expressions of its signature,
/// its body, leaving it.
pub open spec fn fn_events(attrs: Seq<AstAttribute>, sig: AstSignature, body: Seq<Event>) -> Seq<Event> {
    seq![Event::EnterFn { name: sig.ident, is_test: has_test_attr(attrs) }] + body + seq![Event::ExitFn]
}

/// The events of an item of an `impl` block.
pub open spec fn impl_item_events(it: AstImplItem) -> Seq<Event>
    decreases it,
{
    match it {
        AstImplItem::Fn { attrs, sig, block, .. } => fn_events(
            attrs@,
            sig,
            exprs_events(sig.type_exprs@) + block_events(block),
        ),
        AstImplItem::Const { type_exprs, expr } => exprs_events(type_exprs@) + expr_events(expr),
        AstImplItem::Macro(m) => seq![macro_event(m)],
        AstImplItem::Other { exprs } => exprs_events(exprs@),
    }
}

/// The events of the items of an `impl` block.
pub open spec fn impl_items_events(its: Seq<AstImplItem>) -> Seq<Event>
    decreases its,
{
    if its.len() == 0 {
        seq![]
    } else {
        impl_items_events(its.drop_last()) + impl_item_events(its.last())
    }
}

/// The events of an item of a trait.
pub open spec fn trait_item_events(it: AstTraitItem) -> Seq<Event>
    decreases it,
{
    match it {
        AstTraitItem::Fn { type_exprs, default } => exprs_events(type_exprs@) + match default {
            Some(b) => block_events(b),
            None => Seq::<Event>::empty(),
        },
        AstTraitItem::Const { type_exprs, default } => exprs_events(type_exprs@) + opt_expr_events(default),
        AstTraitItem::Macro(m) => seq![macro_event(m)],
        AstTraitItem::Other { exprs } => exprs_events(exprs@),
    }
}

/// The events of the items of a trait.
pub open spec fn trait_items_events(its: Seq<AstTraitItem>) -> Seq<Event>
    decreases its,
{
    if its.len() == 0 {
        seq![]
    } else {
        trait_items_events(its.drop_last()) + trait_item_events(its.last())
    }
}

/// The events of an item.
pub open spec fn item_events(it: AstItem) -> Seq<Event>
    decreases it,
{
    match it {
        AstItem::Fn { attrs, sig, block, .. } => fn_events(
            attrs@,
            sig,
            exprs_events(sig.type_exprs@) + block_events(block),
        ),
        AstItem::Impl { type_exprs, items, .. } => exprs_events(type_exprs@) + impl_items_events(items@),
        AstItem::Struct { type_exprs, .. } => exprs_events(type_exprs@),
        AstItem::Enum { exprs, .. } => exprs_events(exprs@),
        AstItem::Mod { attrs, items } => seq![Event::EnterMod { is_cfg_test: is_cfg_test(attrs@) }]
            + items_events(items@) + seq![Event::ExitMod { is_cfg_test: is_cfg_test(attrs@) }],
        AstItem::Trait { type_exprs, items } => exprs_events(type_exprs@) + trait_items_events(items@),
        AstItem::Macro(m) => seq![macro_event(m)],
        AstItem::Other { exprs } => exprs_events(exprs@),
    }
}

/// The events of a sequence of items.
pub open spec fn items_events(its: Seq<AstItem>) -> Seq<Event>
    decreases its,
{
    if its.len() == 0 {
        seq![]
    } else {
        items_events(its.drop_last()) + item_events(its.last())
    }
}

/// The events of a file.
pub open spec fn file_events(f: AstFile) -> Seq<Event> {
    items_events(f.items@)
}


// ── The walk, performed ─────────────────────────────────────────────────────

fn push_arg_events(es: &Vec<AstExpr>, out: &mut Vec<Event>)
    ensures
        final(out)@ == old(out)@ + arg_events(es@),
{
    let ghost start = out@;
    let mut i: usize = 0;
    while i < es.len()
        invariant
            i <= es@.len(),
            out@ == start + arg_events(es@.take(i as int)),
        decreases es.len() - i,
    {
        let ident = expr_ident_exec(&es[i]);
        out.push(Event::Arg { ident });
        assert(arg_events(es@.take(i + 1)) =~= arg_events(es@.take(i as int)).push(
            Event::Arg { ident: expr_ident(es@[i as int]) },
        ));
        i = i + 1;
    }
    assert(es@.take(es@.len() as int) =~= es@);
}

fn macro_event_exec(m: &AstMacro) -> (r: Event)
    ensures
        r == macro_event(*m),
{
    let ident = if !m.path.leading_colon && m.path.segments.len() == 1
        && !m.path.segments[0].has_arguments {
        match m.ident_line {
            Some(l) => Some((m.path.segments[0].ident.clone(), l)),
            None => None,
        }
    } else {
        None
    };
    Event::Macro { ident }
}

fn func_ident_exec(f: &AstExpr) -> (r: Option<String>)
    ensures
        r == func_ident(*f),
{
    match f {
        AstExpr::Path { path, .. } => {
            let n = path.segments.len();
            if n == 0 {
                None
            } else {
                Some(path.segments[n - 1].ident.clone())
            }
        },
        _ => None,
    }
}

fn collect_opt(e: &Option<Box<AstExpr>>, out: &mut Vec<Event>)
    ensures
        final(out)@ == old(out)@ + opt_events(*e),
    decreases e,
{
    match e {
        Some(x) => collect_expr(x, out),
        None => {
            assert(old(out)@ + opt_events(*e) =~= old(out)@);
        },
    }
}

fn collect_opt_expr(e: &Option<AstExpr>, out: &mut Vec<Event>)
    ensures
        final(out)@ == old(out)@ + opt_expr_events(*e),
    decreases e,
{
    match e {
        Some(x) => collect_expr(x, out),
        None => {
            assert(old(out)@ + opt_expr_events(*e) =~= old(out)@);
        },
    }
}

fn collect_exprs(es: &Vec<AstExpr>, out: &mut Vec<Event>)
    ensures
        final(out)@ == old(out)@ + exprs_events(es@),
    decreases es,
{
    let ghost start = out@;
    let mut i: usize = 0;
    while i < es.len()
        invariant
            i <= es@.len(),
            out@ == start + exprs_events(es@.take(i as int)),
        decreases es.len() - i,
    {
        assert(es@.take(i + 1).drop_last() =~= es@.take(i as int));
        collect_expr(&es[i], out);
        i = i + 1;
    }
    assert(es@.take(es@.len() as int) =~= es@);
}

fn collect_arm(a: &AstArm, out: &mut Vec<Event>)
    ensures
        final(out)@ == old(out)@ + arm_events(*a),
    decreases a,
{
    match &a.guard {
        Some(g) => {
            collect_expr(g, out);
            collect_expr(&a.body, out);
        },
        None => collect_expr(&a.body, out),
    }
}

fn collect_arms(arms: &Vec<AstArm>, out: &mut Vec<Event>)
    ensures
        final(out)@ == old(out)@ + arms_events(arms@),
    decreases arms,
{
    let ghost start = out@;
    let mut i: usize = 0;
    while i < arms.len()
        invariant
            i <= arms@.len(),
            out@ == start + arms_events(arms@.take(i as int)),
        decreases arms.len() - i,
    {
        assert(arms@.take(i + 1).drop_last() =~= arms@.take(i as int));
        collect_arm(&arms[i], out);
        i = i + 1;
    }
    assert(arms@.take(arms@.len() as int) =~= arms@);
}

fn collect_block(b: &AstBlock, out: &mut Vec<Event>)
    ensures
        final(out)@ == old(out)@ + block_events(*b),
    decreases b,
{
    collect_stmts(&b.stmts, out);
}

fn collect_stmts(ss: &Vec<AstStmt>, out: &mut Vec<Event>)
    ensures
        final(out)@ == old(out)@ + stmts_events(ss@),
    decreases ss,
{
    let ghost start = out@;
    let mut i: usize = 0;
    while i < ss.len()
        invariant
            i <= ss@.len(),
            out@ == start + stmts_events(ss@.take(i as int)),
        decreases ss.len() - i,
    {
        assert(ss@.take(i + 1).drop_last() =~= ss@.take(i as int));
        collect_stmt(&ss[i], out);
        i = i + 1;
    }
    assert(ss@.take(ss@.len() as int) =~= ss@);
}

fn collect_stmt(s: &AstStmt, out: &mut Vec<Event>)
    ensures
        final(out)@ == old(out)@ + stmt_events(*s),
    decreases s,
{
    match s {
        AstStmt::Local { pat_exprs, init, diverge, .. } => {
            collect_exprs(pat_exprs, out);
            collect_opt_expr(init, out);
            collect_opt_expr(diverge, out);
        },
        AstStmt::Item(it) => collect_item(it, out),
        AstStmt::Expr(e) => collect_expr(e, out),
        AstStmt::Macro(m) => {
            out.push(macro_event_exec(m));
        },
    }
}

fn push_enter_fn(attrs: &Vec<AstAttribute>, sig: &AstSignature, out: &mut Vec<Event>)
    ensures
        final(out)@ == old(out)@.push(Event::EnterFn { name: sig.ident, is_test: has_test_attr(attrs@) }),
{
    let is_test = has_test_attr_exec(attrs);
    out.push(Event::EnterFn { name: sig.ident.clone(), is_test });
}

fn collect_impl_item(it: &AstImplItem, out: &mut Vec<Event>)
    ensures
        final(out)@ == old(out)@ + impl_item_events(*it),
    decreases it,
{
    let ghost start = out@;
    match it {
        AstImplItem::Fn { attrs, sig, block, .. } => {
            push_enter_fn(attrs, sig, out);
            collect_exprs(&sig.type_exprs, out);
            collect_block(block, out);
            out.push(Event::ExitFn);
        },
        AstImplItem::Const { type_exprs, expr } => {
            collect_exprs(type_exprs, out);
            collect_expr(expr, out);
        },
        AstImplItem::Macro(m) => {
            out.push(macro_event_exec(m));
        },
        AstImplItem::Other { exprs } => collect_exprs(exprs, out),
    }
    assert(out@ =~= start + impl_item_events(*it));
}

fn collect_impl_items(its: &Vec<AstImplItem>, out: &mut Vec<Event>)
    ensures
        final(out)@ == old(out)@ + impl_items_events(its@),
    decreases its,
{
    let ghost start = out@;
    let mut i: usize = 0;
    while i < its.len()
        invariant
            i <= its@.len(),
            out@ == start + impl_items_events(its@.take(i as int)),
        decreases its.len() - i,
    {
        assert(its@.take(i + 1).drop_last() =~= its@.take(i as int));
        collect_impl_item(&its[i], out);
        i = i + 1;
    }
    assert(its@.take(its@.len() as int) =~= its@);
}

fn collect_trait_item(it: &AstTraitItem, out: &mut Vec<Event>)
    ensures
        final(out)@ == old(out)@ + trait_item_events(*it),
    decreases it,
{
    let ghost start = out@;
    match it {
        AstTraitItem::Fn { type_exprs, default } => {
            collect_exprs(type_exprs, out);
            match default {
                Some(b) => collect_block(b, out),
                None => {},
            }
        },
        AstTraitItem::Const { type_exprs, default } => {
            collect_exprs(type_exprs, out);
            collect_opt_expr(default, out);
        },
        AstTraitItem::Macro(m) => {
            out.push(macro_event_exec(m));
        },
        AstTraitItem::Other { exprs } => collect_exprs(exprs, out),
    }
    assert(out@ =~= start + trait_item_events(*it));
}

fn collect_trait_items(its: &Vec<AstTraitItem>, out: &mut Vec<Event>)
    ensures
        final(out)@ == old(out)@ + trait_items_events(its@),
    decreases its,
{
    let ghost start = out@;
    let mut i: usize = 0;
    while i < its.len()
        invariant
            i <= its@.len(),
            out@ == start + trait_items_events(its@.take(i as int)),
        decreases its.len() - i,
    {
        assert(its@.take(i + 1).drop_last() =~= its@.take(i as int));
        collect_trait_item(&its[i], out);
        i = i + 1;
    }
    assert(its@.take(its@.len() as int) =~= its@);
}

fn collect_item(it: &AstItem, out: &mut Vec<Event>)
    ensures
        final(out)@ == old(out)@ + item_events(*it),
    decreases it,
{
    let ghost start = out@;
    match it {
        AstItem::Fn { attrs, sig, block, .. } => {
            push_enter_fn(attrs, sig, out);
            collect_exprs(&sig.type_exprs, out);
            collect_block(block, out);
            out.push(Event::ExitFn);
        },
        AstItem::Impl { type_exprs, items, .. } => {
            collect_exprs(type_exprs, out);
            collect_impl_items(items, out);
        },
        AstItem::Struct { type_exprs, .. } => collect_exprs(type_exprs, out),
        AstItem::Enum { exprs, .. } => collect_exprs(exprs, out),
        AstItem::Mod { attrs, items } => {
            let is_cfg_test = is_cfg_test_exec(attrs);
            out.push(Event::EnterMod { is_cfg_test });
            collect_items(items, out);
            out.push(Event::ExitMod { is_cfg_test });
        },
        AstItem::Trait { type_exprs, items } => {
            collect_exprs(type_exprs, out);
            collect_trait_items(items, out);
        },
        AstItem::Macro(m) => {
            out.push(macro_event_exec(m));
        },
        AstItem::Other { exprs } => collect_exprs(exprs, out),
    }
    assert(out@ =~= start + item_events(*it));
}

fn collect_items(its: &Vec<AstItem>, out: &mut Vec<Event>)
    ensures
        final(out)@ == old(out)@ + items_events(its@),
    decreases its,
{
    let ghost start = out@;
    let mut i: usize = 0;
    while i < its.len()
        invariant
            i <= its@.len(),
            out@ == start + items_events(its@.take(i as int)),
        decreases its.len() - i,
    {
        assert(its@.take(i + 1).drop_last() =~= its@.take(i as int));
        collect_item(&its[i], out);
        i = i + 1;
    }
    assert(its@.take(its@.len() as int) =~= its@);
}

fn collect_expr(e: &AstExpr, out: &mut Vec<Event>)
    ensures
        final(out)@ == old(out)@ + expr_events(*e),
    decreases e,
{
    let ghost start = out@;
    match e {
        AstExpr::Binary { left, op, right, .. } => {
            let ev = Event::Binary {
                op: *op,
                left_is_str: matches!(**left, AstExpr::Lit { lit: AstLit::Str(_), .. }),
                right_is_str: matches!(**right, AstExpr::Lit { lit: AstLit::Str(_), .. }),
                line: line_of_exec(left),
            };
            out.push(ev);
            collect_expr(left, out);
            collect_expr(right, out);
            assert(out@ =~= start + expr_events(*e));
        },
        AstExpr::MethodCall { receiver, method, method_line, turbofish_exprs, args, line, .. } => {
            out.push(Event::MethodCall { method: method.clone(), method_line: *method_line, line: *line });
            let ident = expr_ident_exec(receiver);
            out.push(Event::Arg { ident });
            push_arg_events(args, out);
            assert(arg_events(seq![**receiver] + args@) =~= seq![Event::Arg { ident: expr_ident(**receiver) }] + arg_events(args@));
            collect_expr(receiver, out);
            collect_exprs(turbofish_exprs, out);
            collect_exprs(args, out);
            assert(out@ =~= start + expr_events(*e));
        },
        AstExpr::Call { func, args, line } => {
            out.push(Event::Call { func: func_ident_exec(func), line: *line });
            push_arg_events(args, out);
            collect_expr(func, out);
            collect_exprs(args, out);
            assert(out@ =~= start + expr_events(*e));
        },
        AstExpr::Path { arg_exprs, .. } => collect_exprs(arg_exprs, out),
        AstExpr::Lit { .. } => {},
        AstExpr::Unary { expr, .. } => collect_expr(expr, out),
        AstExpr::Paren { expr, .. } => collect_expr(expr, out),
        AstExpr::Group { expr, .. } => collect_expr(expr, out),
        AstExpr::Cast { expr, ty_exprs, .. } => {
            collect_expr(expr, out);
            collect_exprs(ty_exprs, out);
        },
        AstExpr::Reference { expr, .. } => collect_expr(expr, out),
        AstExpr::Field { base, .. } => collect_expr(base, out),
        AstExpr::Try { expr, .. } => collect_expr(expr, out),
        AstExpr::Index { expr, index, .. } => {
            collect_expr(expr, out);
            out.push(Event::EnterIndex);
            collect_expr(index, out);
            out.push(Event::ExitIndex);
            assert(out@ =~= start + expr_events(*e));
        },
        AstExpr::Tuple { elems, .. } => collect_exprs(elems, out),
        AstExpr::Range { start: lo, end: hi, .. } => {
            collect_opt(lo, out);
            collect_opt(hi, out);
        },
        AstExpr::Block { block, .. } => collect_block(block, out),
        AstExpr::If { cond, then_branch, else_branch, .. } => {
            collect_expr(cond, out);
            collect_block(then_branch, out);
            collect_opt(else_branch, out);
            assert(out@ =~= start + expr_events(*e));
        },
        AstExpr::Match { expr, arms, .. } => {
            collect_expr(expr, out);
            collect_arms(arms, out);
        },
        AstExpr::While { cond, body, .. } => {
            collect_expr(cond, out);
            collect_block(body, out);
        },
        AstExpr::ForLoop { expr, body, .. } => {
            collect_expr(expr, out);
            collect_block(body, out);
        },
        AstExpr::Loop { body, .. } => collect_block(body, out),
        AstExpr::Assign { left, right, .. } => {
            collect_expr(left, out);
            collect_expr(right, out);
        },
        AstExpr::Return { expr, .. } => collect_opt(expr, out),
        AstExpr::Break { expr, .. } => collect_opt(expr, out),
        AstExpr::Continue { .. } => {},
        AstExpr::Macro { mac, .. } => {
            out.push(macro_event_exec(mac));
        },
        AstExpr::Other { children, .. } => collect_exprs(children, out),
    }
    assert(out@ =~= start + expr_events(*e));
}

/// The line on which an expression starts.
pub fn line_of_exec(e: &AstExpr) -> (r: usize)
    ensures
        r == line_of(*e),
{
    match e {
        AstExpr::Binary { line, .. } => *line,
        AstExpr::MethodCall { line, .. } => *line,
        AstExpr::Call { line, .. } => *line,
        AstExpr::Path { line, .. } => *line,
        AstExpr::Lit { line, .. } => *line,
        AstExpr::Unary { line, .. } => *line,
        AstExpr::Paren { line, .. } => *line,
        AstExpr::Group { line, .. } => *line,
        AstExpr::Cast { line, .. } => *line,
        AstExpr::Reference { line, .. } => *line,
        AstExpr::Field { line, .. } => *line,
        AstExpr::Try { line, .. } => *line,
        AstExpr::Index { line, .. } => *line,
        AstExpr::Tuple { line, .. } => *line,
        AstExpr::Range { line, .. } => *line,
        AstExpr::Block { line, .. } => *line,
        AstExpr::If { line, .. } => *line,
        AstExpr::Match { line, .. } => *line,
        AstExpr::While { line, .. } => *line,
        AstExpr::ForLoop { line, .. } => *line,
        AstExpr::Loop { line, .. } => *line,
        AstExpr::Assign { line, .. } => *line,
        AstExpr::Return { line, .. } => *line,
        AstExpr::Break { line, .. } => *line,
        AstExpr::Continue { line } => *line,
        AstExpr::Macro { line, .. } => *line,
        AstExpr::Other { line, .. } => *line,
    }
}

/// The events met walking a file, in source order.
pub fn file_events_exec(f: &AstFile) -> (r: Vec<Event>)
    ensures
        r@ == file_events(*f),
{
    let mut out: Vec<Event> = Vec::new();
    collect_items(&f.items, &mut out);
    assert(out@ =~= file_events(*f));
    out
}

/// The events met walking a block, in source order.
pub fn block_events_exec(b: &AstBlock) -> (r: Vec<Event>)
    ensures
        r@ == block_events(*b),
{
    let mut out: Vec<Event> = Vec::new();
    collect_stmts(&b.stmts, &mut out);
    assert(out@ =~= block_events(*b));
    out
}

} // verus!
