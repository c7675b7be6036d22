//! Intra-procedural taint analysis over a [`crate::cfg`] graph.
//!
//! *Sources* are the names of untrusted parameters; *sinks* are storage
//! writes (`set`/`update`/`remove` on a storage handle) and external contract
//! calls (`invoke_contract`, `try_invoke_contract`, `invoke_contract_check`).
//! Facts are sets of tainted names, plus a marker name once
//! `require_auth`/`require_auth_for_args` has been called.  Each block's
//! statements transform the facts at its entry; `let x = clean` and
//! `x = clean` clear `x`.  The facts at each block's entry are the least
//! solution of the dataflow equations (sources at the entry block, each
//! block's exit facts flowing into its successors), computed by a worklist;
//! findings are reported by one final pass over the blocks in order.
use vstd::prelude::*;
use crate::cfg::{cfg_view, g_build, graph_ok, ids_ok, law_cfg_well_formed, BasicBlock, BlockStmt, Cfg, GraphView, StmtView, stmt_view};
use crate::rules::opt_chars;
use crate::syntax::{path_last_ident, AstArm, AstBinOp, AstUnOp, AstBlock, AstExpr, AstPat, AstPath, AstStmt};
use crate::text::{seq_contains, strings_view, text_contains, text_eq};

verus! {

broadcast use vstd::std_specs::vec::group_vec_axioms, vstd::seq::group_seq_axioms, vstd::set::group_set_axioms;

/// A tainted name reaching a sink.
#[derive(Debug, Clone, PartialEq, Eq)]
pub struct TaintFinding {
    /// The tainted name.
    pub var: String,
    /// The sink method.
    pub sink: String,
    /// The line of the sink call.
    pub line: usize,
}

/// The name standing for "authorization has been required".
pub open spec fn auth_marker() -> Seq<char> {
    "__authorized__"@
}

/// A finding as plain values: name, sink, line.
pub type FindingView = (Seq<char>, Seq<char>, usize);

/// The analysis state: the tainted names and the findings so far.
pub struct TaintState {
    pub facts: Set<Seq<char>>,
    pub findings: Seq<FindingView>,
}

// ── Reading expressions and patterns ────────────────────────────────────────

/// The identifier of a path expression's last segment.
pub open spec fn simple_expr_ident(e: AstExpr) -> Option<Seq<char>> {
    match e {
        AstExpr::Path { path, .. } => path_last_ident(path),
        _ => None,
    }
}

/// The first tainted name an expression reads, looking through references,
/// parentheses, groups, unary operators, casts, fields, calls' arguments,
/// method calls' receivers and arguments, tuples and binary operands.
pub open spec fn first_tainted(e: AstExpr, facts: Set<Seq<char>>) -> Option<Seq<char>>
    decreases e,
{
    match e {
        AstExpr::Path { path, .. } => match path_last_ident(path) {
            Some(n) => if facts.contains(n) { Some(n) } else { None },
            None => None,
        },
        AstExpr::Reference { expr, .. } => first_tainted(*expr, facts),
        AstExpr::Paren { expr, .. } => first_tainted(*expr, facts),
        AstExpr::Group { expr, .. } => first_tainted(*expr, facts),
        AstExpr::Unary { expr, .. } => first_tainted(*expr, facts),
        AstExpr::Cast { expr, .. } => first_tainted(*expr, facts),
        AstExpr::Field { base, .. } => first_tainted(*base, facts),
        AstExpr::MethodCall { receiver, args, .. } => match first_tainted(*receiver, facts) {
            Some(n) => Some(n),
            None => first_tainted_seq(args@, facts),
        },
        AstExpr::Call { args, .. } => first_tainted_seq(args@, facts),
        AstExpr::Tuple { elems, .. } => first_tainted_seq(elems@, facts),
        AstExpr::Binary { left, right, .. } => match first_tainted(*left, facts) {
            Some(n) => Some(n),
            None => first_tainted(*right, facts),
        },
        _ => None,
    }
}

/// The first tainted name read by a sequence of expressions, in order.
pub open spec fn first_tainted_seq(es: Seq<AstExpr>, facts: Set<Seq<char>>) -> Option<Seq<char>>
    decreases es,
{
    if es.len() == 0 {
        None
    } else {
        match first_tainted(es[0], facts) {
            Some(n) => Some(n),
            None => first_tainted_seq(es.drop_first(), facts),
        }
    }
}

/// Whether an expression reads a tainted name.
pub open spec fn is_tainted(e: AstExpr, facts: Set<Seq<char>>) -> bool {
    first_tainted(e, facts) is Some
}

/// The names a pattern binds (identifiers, tuple, struct and tuple-struct
/// fields, through `&` and type ascriptions).
pub open spec fn pat_idents(p: AstPat) -> Set<Seq<char>>
    decreases p,
{
    match p {
        AstPat::Ident(n) => set![n@],
        AstPat::Tuple(ps) => pats_idents(ps@),
        AstPat::Struct(ps) => pats_idents(ps@),
        AstPat::TupleStruct(ps) => pats_idents(ps@),
        AstPat::Reference(q) => pat_idents(*q),
        AstPat::Type(q) => pat_idents(*q),
        _ => Set::empty(),
    }
}

/// The names a sequence of patterns binds.
pub open spec fn pats_idents(ps: Seq<AstPat>) -> Set<Seq<char>>
    decreases ps,
{
    if ps.len() == 0 {
        Set::empty()
    } else {
        pats_idents(ps.drop_last()).union(pat_idents(ps.last()))
    }
}

/// The name of a plain binding, through type ascriptions.
pub open spec fn simple_pat_ident(p: AstPat) -> Option<Seq<char>>
    decreases p,
{
    match p {
        AstPat::Ident(n) => Some(n@),
        AstPat::Type(q) => simple_pat_ident(*q),
        _ => None,
    }
}

/// Whether a method call writes storage: `set`, `update` or `remove` on a
/// receiver whose text mentions a storage handle.
pub open spec fn is_storage_write(method: Seq<char>, receiver_text: Seq<char>) -> bool {
    (method == "set"@ || method == "update"@ || method == "remove"@) && (seq_contains(receiver_text, "storage"@)
        || seq_contains(receiver_text, "persistent"@) || seq_contains(receiver_text, "temporary"@)
        || seq_contains(receiver_text, "instance"@))
}

/// Whether a method calls another contract.
pub open spec fn is_external_call_name(method: Seq<char>) -> bool {
    method == "invoke_contract"@ || method == "try_invoke_contract"@ || method == "invoke_contract_check"@
}

/// Whether a method requires authorization.
pub open spec fn is_auth_method(method: Seq<char>) -> bool {
    method == "require_auth"@ || method == "require_auth_for_args"@
}

/// The findings of a sink call: for each argument in order, its first tainted name.
pub open spec fn sink_findings(args: Seq<AstExpr>, facts: Set<Seq<char>>, sink: Seq<char>, line: usize) -> Seq<FindingView>
    decreases args.len(),
{
    if args.len() == 0 {
        seq![]
    } else {
        sink_findings(args.drop_last(), facts, sink, line) + match first_tainted(args.last(), facts) {
            Some(v) => seq![(v, sink, line)],
            None => Seq::<FindingView>::empty(),
        }
    }
}

// ── The transfer function, stated ───────────────────────────────────────────

/// The state with `names` added to the facts.
pub open spec fn add_facts(st: TaintState, names: Set<Seq<char>>) -> TaintState {
    TaintState { facts: st.facts.union(names), ..st }
}

/// The state after a method call itself, before its receiver and
/// arguments are scanned: a `require_auth*` call records authorization, and
/// a sink call made before authorization reports its tainted arguments.
pub open spec fn call_state(method: Seq<char>, args: Seq<AstExpr>, receiver_text: Seq<char>, line: usize, st: TaintState) -> TaintState {
    let f1 = if is_auth_method(method) { st.facts.insert(auth_marker()) } else { st.facts };
    let found = if (is_storage_write(method, receiver_text) || is_external_call_name(method)) && !f1.contains(auth_marker()) {
        sink_findings(args, f1, method, line)
    } else {
        Seq::<FindingView>::empty()
    };
    TaintState { facts: f1, findings: st.findings + found }
}

/// Scans an expression: records authorization, reports tainted arguments
/// of sink calls made before authorization, and follows nested blocks.
pub open spec fn scan_expr(e: AstExpr, st: TaintState) -> TaintState
    decreases e, 0nat,
{
    match e {
        AstExpr::MethodCall { receiver, method, args, receiver_text, line, .. } => scan_exprs(
            args@,
            scan_expr(*receiver, call_state(method@, args@, receiver_text@, line, st)),
        ),
        AstExpr::Call { func, args, .. } => scan_exprs(args@, scan_expr(*func, st)),
        AstExpr::If { cond, then_branch, else_branch, .. } => {
            let s2 = scan_stmts(then_branch.stmts@, scan_expr(*cond, st));
            match else_branch {
                Some(x) => scan_expr(*x, s2),
                None => s2,
            }
        },
        AstExpr::Match { expr, arms, .. } => scan_arms(arms@, scan_expr(*expr, st)),
        AstExpr::Block { block, .. } => scan_stmts(block.stmts@, st),
        AstExpr::Assign { left, right, .. } => scan_expr(*right, scan_expr(*left, st)),
        AstExpr::Paren { expr, .. } => scan_expr(*expr, st),
        AstExpr::Group { expr, .. } => scan_expr(*expr, st),
        AstExpr::Reference { expr, .. } => scan_expr(*expr, st),
        AstExpr::Unary { expr, .. } => scan_expr(*expr, st),
        AstExpr::Cast { expr, .. } => scan_expr(*expr, st),
        AstExpr::Try { expr, .. } => scan_expr(*expr, st),
        AstExpr::Field { base, .. } => scan_expr(*base, st),
        AstExpr::Index { expr, index, .. } => scan_expr(*index, scan_expr(*expr, st)),
        AstExpr::Binary { left, right, .. } => scan_expr(*right, scan_expr(*left, st)),
        AstExpr::Tuple { elems, .. } => scan_exprs(elems@, st),
        AstExpr::Return { expr, .. } => match expr {
            Some(x) => scan_expr(*x, st),
            None => st,
        },
        _ => st,
    }
}

/// Scans expressions in order.
pub open spec fn scan_exprs(es: Seq<AstExpr>, st: TaintState) -> TaintState
    decreases es, 0nat,
{
    if es.len() == 0 {
        st
    } else {
        scan_expr(es.last(), scan_exprs(es.drop_last(), st))
    }
}

/// Scans the bodies of match arms in order.
pub open spec fn scan_arms(arms: Seq<AstArm>, st: TaintState) -> TaintState
    decreases arms, 0nat,
{
    if arms.len() == 0 {
        st
    } else {
        scan_expr(arms.last().body, scan_arms(arms.drop_last(), st))
    }
}

/// Scans nested statements in order.
pub open spec fn scan_stmts(ss: Seq<AstStmt>, st: TaintState) -> TaintState
    decreases ss, 0nat,
{
    if ss.len() == 0 {
        st
    } else {
        scan_stmt(ss.last(), scan_stmts(ss.drop_last(), st))
    }
}

/// Scans a nested statement: a tainted `let` initializer taints the
/// pattern's names; an expression statement is processed as a top-level one.
pub open spec fn scan_stmt(s: AstStmt, st: TaintState) -> TaintState
    decreases s, 0nat,
{
    match s {
        AstStmt::Local { pat, init, .. } => match init {
            Some(x) => {
                let s1 = scan_expr(x, st);
                if is_tainted(x, s1.facts) { add_facts(s1, pat_idents(pat)) } else { s1 }
            },
            None => st,
        },
        AstStmt::Expr(e) => process_top(e, st),
        _ => st,
    }
}

/// Processes an expression statement: an assignment `x = e` taints or
/// clears `x` according to `e`; any other expression is scanned.
pub open spec fn process_top(e: AstExpr, st: TaintState) -> TaintState
    decreases e, 1nat,
{
    match e {
        AstExpr::Assign { left, right, .. } => {
            let s1 = scan_expr(*right, st);
            match simple_expr_ident(*left) {
                Some(n) => if is_tainted(*right, s1.facts) {
                    TaintState { facts: s1.facts.insert(n), ..s1 }
                } else {
                    TaintState { facts: s1.facts.remove(n), ..s1 }
                },
                None => s1,
            }
        },
        _ => scan_expr(e, st),
    }
}

/// The effect of one block statement.
pub open spec fn transfer_stmt(s: StmtView, st: TaintState) -> TaintState {
    match s {
        StmtView::Local { pat, init } => match init {
            Some(x) => {
                let s1 = scan_expr(x, st);
                if is_tainted(x, s1.facts) {
                    add_facts(s1, pat_idents(pat))
                } else {
                    match simple_pat_ident(pat) {
                        Some(n) => TaintState { facts: s1.facts.remove(n), ..s1 },
                        None => s1,
                    }
                }
            },
            None => st,
        },
        StmtView::Expr(e) => process_top(e, st),
        StmtView::ForBinding { pat, iter_expr } => {
            let s1 = scan_expr(iter_expr, st);
            if is_tainted(iter_expr, s1.facts) { add_facts(s1, pat_idents(pat)) } else { s1 }
        },
    }
}

/// The effect of a block's statements, from the facts at its entry.
pub open spec fn transfer_from(stmts: Seq<StmtView>, st: TaintState) -> TaintState
    decreases stmts.len(),
{
    if stmts.len() == 0 {
        st
    } else {
        transfer_stmt(stmts.last(), transfer_from(stmts.drop_last(), st))
    }
}

/// The facts and findings of a block entered with `facts`.
pub open spec fn transfer(stmts: Seq<StmtView>, facts: Set<Seq<char>>) -> TaintState {
    transfer_from(stmts, TaintState { facts, findings: seq![] })
}

// ── Fact sets ───────────────────────────────────────────────────────────────

/// The names a fact vector holds.
pub open spec fn facts_view(v: Seq<String>) -> Set<Seq<char>> {
    strings_view(v).to_set()
}

/// Whether a fact vector holds each name once.
pub open spec fn facts_wf(v: Seq<String>) -> bool {
    strings_view(v).no_duplicates()
}

/// The plain values of a finding.
pub open spec fn finding_view(f: TaintFinding) -> FindingView {
    (f.var@, f.sink@, f.line)
}

/// The plain values of a list of findings.
pub open spec fn findings_view(v: Seq<TaintFinding>) -> Seq<FindingView> {
    v.map_values(|f: TaintFinding| finding_view(f))
}

/// The analysis state held by a fact vector and a finding vector.
pub open spec fn state_of(facts: Seq<String>, findings: Seq<TaintFinding>) -> TaintState {
    TaintState { facts: facts_view(facts), findings: findings_view(findings) }
}

/// The position of `x` in the facts, if the facts hold it.
fn facts_find(v: &Vec<String>, x: &str) -> (r: Option<usize>)
    ensures
        match r {
            Some(i) => i < v@.len() && v@[i as int]@ == x@,
            None => !facts_view(v@).contains(x@),
        },
{
    let mut i: usize = 0;
    while i < v.len()
        invariant
            i <= v@.len(),
            forall|j: int| 0 <= j < i ==> v@[j]@ != x@,
        decreases v.len() - i,
    {
        if text_eq(v[i].as_str(), x) {
            return Some(i);
        }
        i = i + 1;
    }
    assert(!strings_view(v@).contains(x@)) by {
        if strings_view(v@).contains(x@) {
            let j = choose|j: int| 0 <= j < strings_view(v@).len() && strings_view(v@)[j] == x@;
            assert(v@[j]@ == x@);
        }
    }
    None
}

/// Whether the facts hold `x`.
fn facts_contains(v: &Vec<String>, x: &str) -> (r: bool)
    ensures
        r == facts_view(v@).contains(x@),
{
    match facts_find(v, x) {
        Some(i) => {
            assert(strings_view(v@)[i as int] == x@);
            true
        },
        None => false,
    }
}

/// Pushing a name that is not there keeps the names distinct and adds it.
proof fn lemma_push_fresh(sv: Seq<Seq<char>>, x: Seq<char>)
    requires
        !sv.contains(x),
    ensures
        sv.no_duplicates() ==> sv.push(x).no_duplicates(),
        sv.push(x).to_set() == sv.to_set().insert(x),
{
    let t = sv.push(x);
    if sv.no_duplicates() {
        assert forall|a: int, b: int| 0 <= a < b < t.len() implies t[a] != t[b] by {
            if b == sv.len() {
                assert(sv.contains(sv[a]));
            }
        }
    }
    assert forall|y: Seq<char>| t.to_set().contains(y) <==> sv.to_set().insert(x).contains(y) by {
        if t.contains(y) && y != x {
            let j = choose|j: int| 0 <= j < t.len() && t[j] == y;
            assert(sv[j] == y);
        }
        if sv.contains(y) {
            let j = choose|j: int| 0 <= j < sv.len() && sv[j] == y;
            assert(t[j] == y);
        }
        if y == x {
            assert(t[sv.len() as int] == y);
        }
    }
    assert(t.to_set() =~= sv.to_set().insert(x));
}

/// Removing the name at `i` keeps the names distinct and removes just it.
proof fn lemma_remove_at(sv: Seq<Seq<char>>, i: int)
    requires
        sv.no_duplicates(),
        0 <= i < sv.len(),
    ensures
        sv.remove(i).no_duplicates(),
        sv.remove(i).to_set() == sv.to_set().remove(sv[i]),
{
    let r = sv.remove(i);
    assert forall|k: int| 0 <= k < r.len() implies #[trigger] r[k] == if k < i { sv[k] } else { sv[k + 1] } by {}
    assert forall|a: int, b: int| 0 <= a < b < r.len() implies r[a] != r[b] by {
        let a2 = if a < i { a } else { a + 1 };
        let b2 = if b < i { b } else { b + 1 };
        assert(r[a] == sv[a2] && r[b] == sv[b2] && a2 < b2);
    }
    assert forall|y: Seq<char>| r.to_set().contains(y) <==> sv.to_set().remove(sv[i]).contains(y) by {
        if r.contains(y) {
            let k = choose|k: int| 0 <= k < r.len() && r[k] == y;
            let k2 = if k < i { k } else { k + 1 };
            assert(sv[k2] == y && k2 != i);
        }
        if sv.contains(y) && y != sv[i] {
            let k = choose|k: int| 0 <= k < sv.len() && sv[k] == y;
            assert(k != i);
            let k2 = if k < i { k } else { k - 1 };
            assert(r[k2] == y);
        }
    }
    assert(r.to_set() =~= sv.to_set().remove(sv[i]));
}

/// Adds `x` to the facts; whether it was new.
fn facts_insert(v: &mut Vec<String>, x: &str) -> (changed: bool)
    ensures
        facts_wf(old(v)@) ==> facts_wf(final(v)@),
        facts_view(final(v)@) == facts_view(old(v)@).insert(x@),
        changed == !facts_view(old(v)@).contains(x@),
        changed ==> final(v)@.len() == old(v)@.len() + 1,
        !changed ==> final(v)@ == old(v)@,
{
    if facts_contains(v, x) {
        assert(facts_view(v@) =~= facts_view(v@).insert(x@));
        false
    } else {
        let ghost sv = strings_view(v@);
        v.push(x.to_owned());
        assert(strings_view(v@) =~= sv.push(x@));
        proof {
            lemma_push_fresh(sv, x@);
        }
        true
    }
}

/// The names of a prefix, one more element long.
proof fn lemma_take_one_more(names: Seq<String>, i: int)
    requires
        0 <= i < names.len(),
    ensures
        facts_view(names.take(i + 1)) == facts_view(names.take(i)).insert(names[i]@),
{
    let a = strings_view(names.take(i));
    assert(strings_view(names.take(i + 1)) =~= a.push(names[i]@));
    let b = a.push(names[i]@);
    assert forall|y: Seq<char>| b.to_set().contains(y) <==> a.to_set().insert(names[i]@).contains(y) by {
        if b.contains(y) && y != names[i]@ {
            let j = choose|j: int| 0 <= j < b.len() && b[j] == y;
            assert(a[j] == y);
        }
        if a.contains(y) {
            let j = choose|j: int| 0 <= j < a.len() && a[j] == y;
            assert(b[j] == y);
        }
        if y == names[i]@ {
            assert(b[a.len() as int] == y);
        }
    }
    assert(b.to_set() =~= a.to_set().insert(names[i]@));
}

/// Adds each of `names` to the facts; whether any was new.
fn facts_extend(v: &mut Vec<String>, names: &Vec<String>) -> (changed: bool)
    ensures
        facts_wf(old(v)@) ==> facts_wf(final(v)@),
        facts_view(final(v)@) == facts_view(old(v)@).union(facts_view(names@)),
        changed ==> final(v)@.len() > old(v)@.len(),
        !changed ==> final(v)@ == old(v)@,
{
    let mut changed = false;
    let mut i: usize = 0;
    assert(facts_view(names@.take(0)) =~= Set::<Seq<char>>::empty());
    while i < names.len()
        invariant
            i <= names@.len(),
            facts_wf(old(v)@) ==> facts_wf(v@),
            facts_view(v@) == facts_view(old(v)@).union(facts_view(names@.take(i as int))),
            changed ==> v@.len() > old(v)@.len(),
            !changed ==> v@ == old(v)@,
            v@.len() >= old(v)@.len(),
        decreases names.len() - i,
    {
        proof {
            lemma_take_one_more(names@, i as int);
        }
        let c = facts_insert(v, names[i].as_str());
        if c {
            changed = true;
        }
        assert(facts_view(v@) =~= facts_view(old(v)@).union(facts_view(names@.take(i + 1))));
        i = i + 1;
    }
    assert(names@.take(names@.len() as int) =~= names@);
    changed
}

/// Removes `x` from the facts.
fn facts_remove(v: &mut Vec<String>, x: &str)
    requires
        facts_wf(old(v)@),
    ensures
        facts_wf(final(v)@),
        facts_view(final(v)@) == facts_view(old(v)@).remove(x@),
{
    match facts_find(v, x) {
        Some(i) => {
            let ghost sv = strings_view(v@);
            assert(sv[i as int] == x@);
            v.remove(i);
            assert(strings_view(v@) =~= sv.remove(i as int));
            proof {
                lemma_remove_at(sv, i as int);
            }
        },
        None => {
            assert(facts_view(v@) =~= facts_view(v@).remove(x@));
        },
    }
}

// ── Reading expressions and patterns, executably ────────────────────────────

/// The identifier of a path's last segment.
fn last_segment_ident(p: &AstPath) -> (r: Option<String>)
    ensures
        opt_chars(r) == path_last_ident(*p),
{
    let n = p.segments.len();
    if n == 0 {
        None
    } else {
        Some(p.segments[n - 1].ident.clone())
    }
}

/// The identifier of a path expression's last segment.
fn simple_expr_ident_exec(e: &AstExpr) -> (r: Option<String>)
    ensures
        opt_chars(r) == simple_expr_ident(*e),
{
    match e {
        AstExpr::Path { path, .. } => last_segment_ident(path),
        _ => None,
    }
}

/// The name of a plain binding, through type ascriptions.
fn simple_pat_ident_exec(p: &AstPat) -> (r: Option<String>)
    ensures
        opt_chars(r) == simple_pat_ident(*p),
    decreases p,
{
    match p {
        AstPat::Ident(n) => Some(n.clone()),
        AstPat::Type(q) => simple_pat_ident_exec(q),
        _ => None,
    }
}

/// The first tainted name an expression reads.
fn first_tainted_exec(e: &AstExpr, facts: &Vec<String>) -> (r: Option<String>)
    ensures
        opt_chars(r) == first_tainted(*e, facts_view(facts@)),
    decreases e,
{
    match e {
        AstExpr::Path { path, .. } => match last_segment_ident(path) {
            Some(n) => if facts_contains(facts, n.as_str()) {
                Some(n)
            } else {
                None
            },
            None => None,
        },
        AstExpr::Reference { expr, .. } => first_tainted_exec(expr, facts),
        AstExpr::Paren { expr, .. } => first_tainted_exec(expr, facts),
        AstExpr::Group { expr, .. } => first_tainted_exec(expr, facts),
        AstExpr::Unary { expr, .. } => first_tainted_exec(expr, facts),
        AstExpr::Cast { expr, .. } => first_tainted_exec(expr, facts),
        AstExpr::Field { base, .. } => first_tainted_exec(base, facts),
        AstExpr::MethodCall { receiver, args, .. } => match first_tainted_exec(receiver, facts) {
            Some(n) => Some(n),
            None => first_tainted_seq_exec(args, facts),
        },
        AstExpr::Call { args, .. } => first_tainted_seq_exec(args, facts),
        AstExpr::Tuple { elems, .. } => first_tainted_seq_exec(elems, facts),
        AstExpr::Binary { left, right, .. } => match first_tainted_exec(left, facts) {
            Some(n) => Some(n),
            None => first_tainted_exec(right, facts),
        },
        _ => None,
    }
}

/// The first tainted name read by expressions in order.
fn first_tainted_seq_exec(es: &Vec<AstExpr>, facts: &Vec<String>) -> (r: Option<String>)
    ensures
        opt_chars(r) == first_tainted_seq(es@, facts_view(facts@)),
    decreases es,
{
    let ghost f = facts_view(facts@);
    let mut i: usize = 0;
    assert(es@.skip(0) =~= es@);
    while i < es.len()
        invariant
            i <= es@.len(),
            f == facts_view(facts@),
            first_tainted_seq(es@, f) == first_tainted_seq(es@.skip(i as int), f),
        decreases es.len() - i,
    {
        assert(es@.skip(i as int).drop_first() =~= es@.skip(i + 1));
        assert(es@.skip(i as int)[0] == es@[i as int]);
        match first_tainted_exec(&es[i], facts) {
            Some(n) => {
                return Some(n);
            },
            None => {},
        }
        i = i + 1;
    }
    assert(es@.skip(i as int).len() == 0);
    None
}

/// Returns `true` if `expr` reads any name in `facts`.
pub fn expr_is_tainted(expr: &AstExpr, facts: &Vec<String>) -> (r: bool)
    ensures
        r == is_tainted(*expr, facts_view(facts@)),
{
    first_tainted_exec(expr, facts).is_some()
}

/// Adds to `out` every name a pattern binds (identifiers, tuple, struct and
/// tuple-struct fields, through `&` and type ascriptions).
pub fn collect_pat_idents(pat: &AstPat, out: &mut Vec<String>)
    ensures
        facts_view(final(out)@) == facts_view(old(out)@).union(pat_idents(*pat)),
        facts_wf(old(out)@) ==> facts_wf(final(out)@),
    decreases pat,
{
    match pat {
        AstPat::Ident(n) => {
            facts_insert(out, n.as_str());
            assert(set![n@] =~= Set::<Seq<char>>::empty().insert(n@));
        },
        AstPat::Tuple(ps) => collect_pats_idents(ps, out),
        AstPat::Struct(ps) => collect_pats_idents(ps, out),
        AstPat::TupleStruct(ps) => collect_pats_idents(ps, out),
        AstPat::Reference(q) => collect_pat_idents(q, out),
        AstPat::Type(q) => collect_pat_idents(q, out),
        _ => {
            assert(facts_view(out@) =~= facts_view(out@).union(Set::<Seq<char>>::empty()));
        },
    }
}

/// Adds to `out` every name a sequence of patterns binds.
fn collect_pats_idents(ps: &Vec<AstPat>, out: &mut Vec<String>)
    ensures
        facts_view(final(out)@) == facts_view(old(out)@).union(pats_idents(ps@)),
        facts_wf(old(out)@) ==> facts_wf(final(out)@),
    decreases ps,
{
    let mut i: usize = 0;
    assert(pats_idents(ps@.take(0)) =~= Set::<Seq<char>>::empty());
    assert(facts_view(out@) =~= facts_view(old(out)@).union(Set::<Seq<char>>::empty()));
    while i < ps.len()
        invariant
            i <= ps@.len(),
            facts_view(out@) == facts_view(old(out)@).union(pats_idents(ps@.take(i as int))),
            facts_wf(old(out)@) ==> facts_wf(out@),
        decreases ps.len() - i,
    {
        assert(ps@.take(i + 1).drop_last() =~= ps@.take(i as int));
        collect_pat_idents(&ps[i], out);
        assert(facts_view(out@) =~= facts_view(old(out)@).union(pats_idents(ps@.take(i + 1))));
        i = i + 1;
    }
    assert(ps@.take(ps@.len() as int) =~= ps@);
}

/// Whether a method is one of the external-call sinks.
pub fn is_external_call(method: &str) -> (r: bool)
    ensures
        r == is_external_call_name(method@),
{
    text_eq(method, "invoke_contract") || text_eq(method, "try_invoke_contract") || text_eq(method, "invoke_contract_check")
}

/// Whether a method call writes storage.
fn is_storage_write_exec(method: &str, receiver_text: &str) -> (r: bool)
    ensures
        r == is_storage_write(method@, receiver_text@),
{
    (text_eq(method, "set") || text_eq(method, "update") || text_eq(method, "remove")) && (text_contains(receiver_text, "storage")
        || text_contains(receiver_text, "persistent") || text_contains(receiver_text, "temporary")
        || text_contains(receiver_text, "instance"))
}

/// Whether a method requires authorization.
fn is_auth_method_exec(method: &str) -> (r: bool)
    ensures
        r == is_auth_method(method@),
{
    text_eq(method, "require_auth") || text_eq(method, "require_auth_for_args")
}

/// Appends the findings of a sink call.
fn push_sink_findings(args: &Vec<AstExpr>, facts: &Vec<String>, sink: &String, line: usize, out: &mut Vec<TaintFinding>)
    ensures
        findings_view(final(out)@) == findings_view(old(out)@) + sink_findings(args@, facts_view(facts@), sink@, line),
{
    let ghost f = facts_view(facts@);
    let mut i: usize = 0;
    assert(findings_view(out@) =~= findings_view(old(out)@) + sink_findings(args@.take(0), f, sink@, line));
    while i < args.len()
        invariant
            i <= args@.len(),
            f == facts_view(facts@),
            findings_view(out@) == findings_view(old(out)@) + sink_findings(args@.take(i as int), f, sink@, line),
        decreases args.len() - i,
    {
        assert(args@.take(i + 1).drop_last() =~= args@.take(i as int));
        assert(args@.take(i + 1).last() == args@[i as int]);
        let ghost before = out@;
        match first_tainted_exec(&args[i], facts) {
            Some(v) => {
                out.push(TaintFinding { var: v, sink: sink.clone(), line });
                assert(findings_view(out@) =~= findings_view(before).push(finding_view(out@.last())));
            },
            None => {},
        }
        assert(findings_view(out@) =~= findings_view(old(out)@) + sink_findings(args@.take(i + 1), f, sink@, line));
        i = i + 1;
    }
    assert(args@.take(args@.len() as int) =~= args@);
}

// ── The transfer function, executably ──────────────────────────────────────

/// Scans an expression (see [`scan_expr`]).
fn scan_expr_exec(e: &AstExpr, facts: &mut Vec<String>, findings: &mut Vec<TaintFinding>)
    requires
        facts_wf(old(facts)@),
    ensures
        facts_wf(final(facts)@),
        state_of(final(facts)@, final(findings)@) == scan_expr(*e, state_of(old(facts)@, old(findings)@)),
    decreases e, 0nat,
{
    match e {
        AstExpr::MethodCall { receiver, method, args, receiver_text, line, .. } => {
            if is_auth_method_exec(method.as_str()) {
                facts_insert(facts, "__authorized__");
            }
            if (is_storage_write_exec(method.as_str(), receiver_text.as_str()) || is_external_call(method.as_str()))
                && !facts_contains(facts, "__authorized__") {
                push_sink_findings(args, facts, method, *line, findings);
            }
            scan_expr_exec(receiver, facts, findings);
            scan_exprs_exec(args, facts, findings);
        },
        AstExpr::Call { func, args, .. } => {
            scan_expr_exec(func, facts, findings);
            scan_exprs_exec(args, facts, findings);
        },
        AstExpr::If { cond, then_branch, else_branch, .. } => {
            scan_expr_exec(cond, facts, findings);
            scan_stmts_exec(&then_branch.stmts, facts, findings);
            match else_branch {
                Some(x) => scan_expr_exec(x, facts, findings),
                None => {},
            }
        },
        AstExpr::Match { expr, arms, .. } => {
            scan_expr_exec(expr, facts, findings);
            scan_arms_exec(arms, facts, findings);
        },
        AstExpr::Block { block, .. } => scan_stmts_exec(&block.stmts, facts, findings),
        AstExpr::Assign { left, right, .. } => {
            scan_expr_exec(left, facts, findings);
            scan_expr_exec(right, facts, findings);
        },
        AstExpr::Paren { expr, .. } => scan_expr_exec(expr, facts, findings),
        AstExpr::Group { expr, .. } => scan_expr_exec(expr, facts, findings),
        AstExpr::Reference { expr, .. } => scan_expr_exec(expr, facts, findings),
        AstExpr::Unary { expr, .. } => scan_expr_exec(expr, facts, findings),
        AstExpr::Cast { expr, .. } => scan_expr_exec(expr, facts, findings),
        AstExpr::Try { expr, .. } => scan_expr_exec(expr, facts, findings),
        AstExpr::Field { base, .. } => scan_expr_exec(base, facts, findings),
        AstExpr::Index { expr, index, .. } => {
            scan_expr_exec(expr, facts, findings);
            scan_expr_exec(index, facts, findings);
        },
        AstExpr::Binary { left, right, .. } => {
            scan_expr_exec(left, facts, findings);
            scan_expr_exec(right, facts, findings);
        },
        AstExpr::Tuple { elems, .. } => scan_exprs_exec(elems, facts, findings),
        AstExpr::Return { expr, .. } => match expr {
            Some(x) => scan_expr_exec(x, facts, findings),
            None => {},
        },
        _ => {},
    }
}

/// Scans expressions in order.
fn scan_exprs_exec(es: &Vec<AstExpr>, facts: &mut Vec<String>, findings: &mut Vec<TaintFinding>)
    requires
        facts_wf(old(facts)@),
    ensures
        facts_wf(final(facts)@),
        state_of(final(facts)@, final(findings)@) == scan_exprs(es@, state_of(old(facts)@, old(findings)@)),
    decreases es, 0nat,
{
    let ghost st0 = state_of(facts@, findings@);
    let mut i: usize = 0;
    assert(es@.take(0) =~= Seq::<AstExpr>::empty());
    while i < es.len()
        invariant
            i <= es@.len(),
            facts_wf(facts@),
            state_of(facts@, findings@) == scan_exprs(es@.take(i as int), st0),
        decreases es.len() - i,
    {
        assert(es@.take(i + 1).drop_last() =~= es@.take(i as int));
        scan_expr_exec(&es[i], facts, findings);
        i = i + 1;
    }
    assert(es@.take(es@.len() as int) =~= es@);
}

/// Scans the body of one match arm.
fn scan_arm_exec(a: &AstArm, facts: &mut Vec<String>, findings: &mut Vec<TaintFinding>)
    requires
        facts_wf(old(facts)@),
    ensures
        facts_wf(final(facts)@),
        state_of(final(facts)@, final(findings)@) == scan_expr(a.body, state_of(old(facts)@, old(findings)@)),
    decreases a, 0nat,
{
    scan_expr_exec(&a.body, facts, findings);
}

/// Scans the bodies of match arms in order.
fn scan_arms_exec(arms: &Vec<AstArm>, facts: &mut Vec<String>, findings: &mut Vec<TaintFinding>)
    requires
        facts_wf(old(facts)@),
    ensures
        facts_wf(final(facts)@),
        state_of(final(facts)@, final(findings)@) == scan_arms(arms@, state_of(old(facts)@, old(findings)@)),
    decreases arms, 0nat,
{
    let ghost st0 = state_of(facts@, findings@);
    let mut i: usize = 0;
    assert(arms@.take(0) =~= Seq::<AstArm>::empty());
    while i < arms.len()
        invariant
            i <= arms@.len(),
            facts_wf(facts@),
            state_of(facts@, findings@) == scan_arms(arms@.take(i as int), st0),
        decreases arms.len() - i,
    {
        assert(arms@.take(i + 1).drop_last() =~= arms@.take(i as int));
        scan_arm_exec(&arms[i], facts, findings);
        i = i + 1;
    }
    assert(arms@.take(arms@.len() as int) =~= arms@);
}

/// Scans nested statements in order.
fn scan_stmts_exec(ss: &Vec<AstStmt>, facts: &mut Vec<String>, findings: &mut Vec<TaintFinding>)
    requires
        facts_wf(old(facts)@),
    ensures
        facts_wf(final(facts)@),
        state_of(final(facts)@, final(findings)@) == scan_stmts(ss@, state_of(old(facts)@, old(findings)@)),
    decreases ss, 0nat,
{
    let ghost st0 = state_of(facts@, findings@);
    let mut i: usize = 0;
    assert(ss@.take(0) =~= Seq::<AstStmt>::empty());
    while i < ss.len()
        invariant
            i <= ss@.len(),
            facts_wf(facts@),
            state_of(facts@, findings@) == scan_stmts(ss@.take(i as int), st0),
        decreases ss.len() - i,
    {
        assert(ss@.take(i + 1).drop_last() =~= ss@.take(i as int));
        scan_stmt_exec(&ss[i], facts, findings);
        i = i + 1;
    }
    assert(ss@.take(ss@.len() as int) =~= ss@);
}

/// Scans a nested statement (see [`scan_stmt`]).
fn scan_stmt_exec(s: &AstStmt, facts: &mut Vec<String>, findings: &mut Vec<TaintFinding>)
    requires
        facts_wf(old(facts)@),
    ensures
        facts_wf(final(facts)@),
        state_of(final(facts)@, final(findings)@) == scan_stmt(*s, state_of(old(facts)@, old(findings)@)),
    decreases s, 0nat,
{
    match s {
        AstStmt::Local { pat, init, .. } => match init {
            Some(x) => {
                scan_expr_exec(x, facts, findings);
                if expr_is_tainted(x, facts) {
                    collect_pat_idents(pat, facts);
                }
            },
            None => {},
        },
        AstStmt::Expr(e) => process_top_exec(e, facts, findings),
        _ => {},
    }
}

/// Processes an expression statement (see [`process_top`]).
fn process_top_exec(e: &AstExpr, facts: &mut Vec<String>, findings: &mut Vec<TaintFinding>)
    requires
        facts_wf(old(facts)@),
    ensures
        facts_wf(final(facts)@),
        state_of(final(facts)@, final(findings)@) == process_top(*e, state_of(old(facts)@, old(findings)@)),
    decreases e, 1nat,
{
    match e {
        AstExpr::Assign { left, right, .. } => {
            scan_expr_exec(right, facts, findings);
            let tainted = expr_is_tainted(right, facts);
            match simple_expr_ident_exec(left) {
                Some(n) => {
                    if tainted {
                        facts_insert(facts, n.as_str());
                    } else {
                        facts_remove(facts, n.as_str());
                    }
                },
                None => {},
            }
        },
        _ => scan_expr_exec(e, facts, findings),
    }
}

/// The plain values of a block's statements.
pub open spec fn block_stmts_view(b: BasicBlock) -> Seq<StmtView> {
    b.stmts@.map_values(|s: BlockStmt| stmt_view(s))
}

/// Applies one block statement.
fn transfer_stmt_exec(s: &BlockStmt, facts: &mut Vec<String>, findings: &mut Vec<TaintFinding>)
    requires
        facts_wf(old(facts)@),
    ensures
        facts_wf(final(facts)@),
        state_of(final(facts)@, final(findings)@) == transfer_stmt(stmt_view(*s), state_of(old(facts)@, old(findings)@)),
{
    match s {
        BlockStmt::Local { pat, init } => match init {
            Some(x) => {
                scan_expr_exec(x, facts, findings);
                if expr_is_tainted(x, facts) {
                    collect_pat_idents(pat, facts);
                } else {
                    match simple_pat_ident_exec(pat) {
                        Some(n) => facts_remove(facts, n.as_str()),
                        None => {},
                    }
                }
            },
            None => {},
        },
        BlockStmt::Expr(e) => process_top_exec(e, facts, findings),
        BlockStmt::ForBinding { pat, iter_expr } => {
            scan_expr_exec(iter_expr, facts, findings);
            if expr_is_tainted(iter_expr, facts) {
                collect_pat_idents(pat, facts);
            }
        },
    }
}

/// A copy of a fact vector.
fn copy_facts(v: &Vec<String>) -> (r: Vec<String>)
    ensures
        r@ == v@,
{
    let mut r: Vec<String> = Vec::new();
    let mut i: usize = 0;
    while i < v.len()
        invariant
            i <= v@.len(),
            r@ == v@.take(i as int),
        decreases v.len() - i,
    {
        r.push(v[i].clone());
        assert(r@ =~= v@.take(i + 1));
        i = i + 1;
    }
    assert(v@.take(v@.len() as int) =~= v@);
    r
}

/// Applies one basic block's statements to the facts at its entry: the
/// facts at its exit and the sink findings met on the way.
fn transfer_block(block: &BasicBlock, in_facts: &Vec<String>) -> (r: (Vec<String>, Vec<TaintFinding>))
    requires
        facts_wf(in_facts@),
    ensures
        facts_wf(r.0@),
        state_of(r.0@, r.1@) == transfer(block_stmts_view(*block), facts_view(in_facts@)),
{
    let mut facts = copy_facts(in_facts);
    let mut findings: Vec<TaintFinding> = Vec::new();
    let ghost sv = block_stmts_view(*block);
    let ghost st0 = TaintState { facts: facts_view(in_facts@), findings: seq![] };
    assert(state_of(facts@, findings@) == st0) by {
        assert(findings_view(findings@) =~= Seq::<FindingView>::empty());
    }
    let mut i: usize = 0;
    assert(sv.take(0) =~= Seq::<StmtView>::empty());
    while i < block.stmts.len()
        invariant
            i <= block.stmts@.len(),
            sv == block_stmts_view(*block),
            facts_wf(facts@),
            state_of(facts@, findings@) == transfer_from(sv.take(i as int), st0),
        decreases block.stmts.len() - i,
    {
        assert(sv.take(i + 1).drop_last() =~= sv.take(i as int));
        assert(sv.take(i + 1).last() == stmt_view(block.stmts@[i as int]));
        transfer_stmt_exec(&block.stmts[i], &mut facts, &mut findings);
        i = i + 1;
    }
    assert(sv.take(sv.len() as int) =~= sv);
    (facts, findings)
}

// ── Monotonicity ───────────────────────────────────────────────────────────

/// More facts: an expression tainted before stays tainted.
proof fn lemma_first_tainted_mono(e: AstExpr, f1: Set<Seq<char>>, f2: Set<Seq<char>>)
    requires
        f1.subset_of(f2),
        first_tainted(e, f1) is Some,
    ensures
        first_tainted(e, f2) is Some,
    decreases e,
{
    match e {
        AstExpr::Reference { expr, .. } => lemma_first_tainted_mono(*expr, f1, f2),
        AstExpr::Paren { expr, .. } => lemma_first_tainted_mono(*expr, f1, f2),
        AstExpr::Group { expr, .. } => lemma_first_tainted_mono(*expr, f1, f2),
        AstExpr::Unary { expr, .. } => lemma_first_tainted_mono(*expr, f1, f2),
        AstExpr::Cast { expr, .. } => lemma_first_tainted_mono(*expr, f1, f2),
        AstExpr::Field { base, .. } => lemma_first_tainted_mono(*base, f1, f2),
        AstExpr::MethodCall { receiver, args, .. } => {
            if first_tainted(*receiver, f1) is Some {
                lemma_first_tainted_mono(*receiver, f1, f2);
            } else {
                lemma_first_tainted_seq_mono(args@, f1, f2);
            }
        },
        AstExpr::Call { args, .. } => lemma_first_tainted_seq_mono(args@, f1, f2),
        AstExpr::Tuple { elems, .. } => lemma_first_tainted_seq_mono(elems@, f1, f2),
        AstExpr::Binary { left, right, .. } => {
            if first_tainted(*left, f1) is Some {
                lemma_first_tainted_mono(*left, f1, f2);
            } else {
                lemma_first_tainted_mono(*right, f1, f2);
            }
        },
        _ => {},
    }
}

/// More facts: a sequence tainted before stays tainted.
proof fn lemma_first_tainted_seq_mono(es: Seq<AstExpr>, f1: Set<Seq<char>>, f2: Set<Seq<char>>)
    requires
        f1.subset_of(f2),
        first_tainted_seq(es, f1) is Some,
    ensures
        first_tainted_seq(es, f2) is Some,
    decreases es,
{
    if es.len() > 0 {
        if first_tainted(es[0], f1) is Some {
            lemma_first_tainted_mono(es[0], f1, f2);
        } else {
            lemma_first_tainted_seq_mono(es.drop_first(), f1, f2);
        }
    }
}

/// More facts in, more facts out: scanning an expression.
proof fn lemma_scan_expr_mono(e: AstExpr, s1: TaintState, s2: TaintState)
    requires
        s1.facts.subset_of(s2.facts),
    ensures
        scan_expr(e, s1).facts.subset_of(scan_expr(e, s2).facts),
    decreases e, 0nat,
{
    match e {
        AstExpr::MethodCall { receiver, method, args, receiver_text, line, .. } => {
            let t1 = call_state(method@, args@, receiver_text@, line, s1);
            let t2 = call_state(method@, args@, receiver_text@, line, s2);
            lemma_scan_expr_mono(*receiver, t1, t2);
            lemma_scan_exprs_mono(args@, scan_expr(*receiver, t1), scan_expr(*receiver, t2));
        },
        AstExpr::Call { func, args, .. } => {
            lemma_scan_expr_mono(*func, s1, s2);
            lemma_scan_exprs_mono(args@, scan_expr(*func, s1), scan_expr(*func, s2));
        },
        AstExpr::If { cond, then_branch, else_branch, .. } => {
            lemma_scan_expr_mono(*cond, s1, s2);
            let a1 = scan_stmts(then_branch.stmts@, scan_expr(*cond, s1));
            let a2 = scan_stmts(then_branch.stmts@, scan_expr(*cond, s2));
            lemma_scan_stmts_mono(then_branch.stmts@, scan_expr(*cond, s1), scan_expr(*cond, s2));
            match else_branch {
                Some(x) => lemma_scan_expr_mono(*x, a1, a2),
                None => {},
            }
        },
        AstExpr::Match { expr, arms, .. } => {
            lemma_scan_expr_mono(*expr, s1, s2);
            lemma_scan_arms_mono(arms@, scan_expr(*expr, s1), scan_expr(*expr, s2));
        },
        AstExpr::Block { block, .. } => lemma_scan_stmts_mono(block.stmts@, s1, s2),
        AstExpr::Assign { left, right, .. } => {
            lemma_scan_expr_mono(*left, s1, s2);
            lemma_scan_expr_mono(*right, scan_expr(*left, s1), scan_expr(*left, s2));
        },
        AstExpr::Paren { expr, .. } => lemma_scan_expr_mono(*expr, s1, s2),
        AstExpr::Group { expr, .. } => lemma_scan_expr_mono(*expr, s1, s2),
        AstExpr::Reference { expr, .. } => lemma_scan_expr_mono(*expr, s1, s2),
        AstExpr::Unary { expr, .. } => lemma_scan_expr_mono(*expr, s1, s2),
        AstExpr::Cast { expr, .. } => lemma_scan_expr_mono(*expr, s1, s2),
        AstExpr::Try { expr, .. } => lemma_scan_expr_mono(*expr, s1, s2),
        AstExpr::Field { base, .. } => lemma_scan_expr_mono(*base, s1, s2),
        AstExpr::Index { expr, index, .. } => {
            lemma_scan_expr_mono(*expr, s1, s2);
            lemma_scan_expr_mono(*index, scan_expr(*expr, s1), scan_expr(*expr, s2));
        },
        AstExpr::Binary { left, right, .. } => {
            lemma_scan_expr_mono(*left, s1, s2);
            lemma_scan_expr_mono(*right, scan_expr(*left, s1), scan_expr(*left, s2));
        },
        AstExpr::Tuple { elems, .. } => lemma_scan_exprs_mono(elems@, s1, s2),
        AstExpr::Return { expr, .. } => match expr {
            Some(x) => lemma_scan_expr_mono(*x, s1, s2),
            None => {},
        },
        _ => {},
    }
}

/// More facts in, more facts out: scanning expressions.
proof fn lemma_scan_exprs_mono(es: Seq<AstExpr>, s1: TaintState, s2: TaintState)
    requires
        s1.facts.subset_of(s2.facts),
    ensures
        scan_exprs(es, s1).facts.subset_of(scan_exprs(es, s2).facts),
    decreases es, 0nat,
{
    if es.len() > 0 {
        lemma_scan_exprs_mono(es.drop_last(), s1, s2);
        lemma_scan_expr_mono(es.last(), scan_exprs(es.drop_last(), s1), scan_exprs(es.drop_last(), s2));
    }
}

/// More facts in, more facts out: scanning match arms.
proof fn lemma_scan_arms_mono(arms: Seq<AstArm>, s1: TaintState, s2: TaintState)
    requires
        s1.facts.subset_of(s2.facts),
    ensures
        scan_arms(arms, s1).facts.subset_of(scan_arms(arms, s2).facts),
    decreases arms, 0nat,
{
    if arms.len() > 0 {
        lemma_scan_arms_mono(arms.drop_last(), s1, s2);
        lemma_scan_expr_mono(arms.last().body, scan_arms(arms.drop_last(), s1), scan_arms(arms.drop_last(), s2));
    }
}

/// More facts in, more facts out: scanning statements.
proof fn lemma_scan_stmts_mono(ss: Seq<AstStmt>, s1: TaintState, s2: TaintState)
    requires
        s1.facts.subset_of(s2.facts),
    ensures
        scan_stmts(ss, s1).facts.subset_of(scan_stmts(ss, s2).facts),
    decreases ss, 0nat,
{
    if ss.len() > 0 {
        lemma_scan_stmts_mono(ss.drop_last(), s1, s2);
        lemma_scan_stmt_mono(ss.last(), scan_stmts(ss.drop_last(), s1), scan_stmts(ss.drop_last(), s2));
    }
}

/// More facts in, more facts out: scanning a statement.
proof fn lemma_scan_stmt_mono(st: AstStmt, s1: TaintState, s2: TaintState)
    requires
        s1.facts.subset_of(s2.facts),
    ensures
        scan_stmt(st, s1).facts.subset_of(scan_stmt(st, s2).facts),
    decreases st, 0nat,
{
    match st {
        AstStmt::Local { pat, init, .. } => match init {
            Some(x) => {
                lemma_scan_expr_mono(x, s1, s2);
                if is_tainted(x, scan_expr(x, s1).facts) {
                    lemma_first_tainted_mono(x, scan_expr(x, s1).facts, scan_expr(x, s2).facts);
                }
            },
            None => {},
        },
        AstStmt::Expr(e) => lemma_process_top_mono(e, s1, s2),
        _ => {},
    }
}

/// More facts in, more facts out: an expression statement.
proof fn lemma_process_top_mono(e: AstExpr, s1: TaintState, s2: TaintState)
    requires
        s1.facts.subset_of(s2.facts),
    ensures
        process_top(e, s1).facts.subset_of(process_top(e, s2).facts),
    decreases e, 1nat,
{
    match e {
        AstExpr::Assign { left, right, .. } => {
            lemma_scan_expr_mono(*right, s1, s2);
            if is_tainted(*right, scan_expr(*right, s1).facts) {
                lemma_first_tainted_mono(*right, scan_expr(*right, s1).facts, scan_expr(*right, s2).facts);
            }
        },
        _ => lemma_scan_expr_mono(e, s1, s2),
    }
}

/// More facts in, more facts out: one block statement.
proof fn lemma_transfer_stmt_mono(s: StmtView, s1: TaintState, s2: TaintState)
    requires
        s1.facts.subset_of(s2.facts),
    ensures
        transfer_stmt(s, s1).facts.subset_of(transfer_stmt(s, s2).facts),
{
    match s {
        StmtView::Local { pat, init } => match init {
            Some(x) => {
                lemma_scan_expr_mono(x, s1, s2);
                if is_tainted(x, scan_expr(x, s1).facts) {
                    lemma_first_tainted_mono(x, scan_expr(x, s1).facts, scan_expr(x, s2).facts);
                }
            },
            None => {},
        },
        StmtView::Expr(e) => lemma_process_top_mono(e, s1, s2),
        StmtView::ForBinding { pat, iter_expr } => {
            lemma_scan_expr_mono(iter_expr, s1, s2);
            if is_tainted(iter_expr, scan_expr(iter_expr, s1).facts) {
                lemma_first_tainted_mono(iter_expr, scan_expr(iter_expr, s1).facts, scan_expr(iter_expr, s2).facts);
            }
        },
    }
}

/// More facts in, more facts out: a block's statements.
proof fn lemma_transfer_from_mono(stmts: Seq<StmtView>, s1: TaintState, s2: TaintState)
    requires
        s1.facts.subset_of(s2.facts),
    ensures
        transfer_from(stmts, s1).facts.subset_of(transfer_from(stmts, s2).facts),
    decreases stmts.len(),
{
    if stmts.len() > 0 {
        lemma_transfer_from_mono(stmts.drop_last(), s1, s2);
        lemma_transfer_stmt_mono(stmts.last(), transfer_from(stmts.drop_last(), s1), transfer_from(stmts.drop_last(), s2));
    }
}

// ── The names a body can taint ──────────────────────────────────────────────

/// The set holding the name, if there is one.
pub open spec fn opt_name_set(o: Option<Seq<char>>) -> Set<Seq<char>> {
    match o {
        Some(n) => set![n],
        None => Set::empty(),
    }
}

/// The names an expression can add to the facts: those its nested `let`
/// patterns bind and those its assignments write.
pub open spec fn expr_defs(e: AstExpr) -> Set<Seq<char>>
    decreases e,
{
    match e {
        AstExpr::MethodCall { receiver, args, .. } => expr_defs(*receiver).union(exprs_defs(args@)),
        AstExpr::Call { func, args, .. } => expr_defs(*func).union(exprs_defs(args@)),
        AstExpr::If { cond, then_branch, else_branch, .. } => expr_defs(*cond).union(stmts_defs(then_branch.stmts@)).union(
            match else_branch {
                Some(x) => expr_defs(*x),
                None => Set::empty(),
            },
        ),
        AstExpr::Match { expr, arms, .. } => expr_defs(*expr).union(arms_defs(arms@)),
        AstExpr::Block { block, .. } => stmts_defs(block.stmts@),
        AstExpr::Assign { left, right, .. } => expr_defs(*left).union(expr_defs(*right)).union(opt_name_set(simple_expr_ident(*left))),
        AstExpr::Paren { expr, .. } => expr_defs(*expr),
        AstExpr::Group { expr, .. } => expr_defs(*expr),
        AstExpr::Reference { expr, .. } => expr_defs(*expr),
        AstExpr::Unary { expr, .. } => expr_defs(*expr),
        AstExpr::Cast { expr, .. } => expr_defs(*expr),
        AstExpr::Try { expr, .. } => expr_defs(*expr),
        AstExpr::Field { base, .. } => expr_defs(*base),
        AstExpr::Index { expr, index, .. } => expr_defs(*expr).union(expr_defs(*index)),
        AstExpr::Binary { left, right, .. } => expr_defs(*left).union(expr_defs(*right)),
        AstExpr::Tuple { elems, .. } => exprs_defs(elems@),
        AstExpr::Return { expr, .. } => match expr {
            Some(x) => expr_defs(*x),
            None => Set::empty(),
        },
        _ => Set::empty(),
    }
}

/// The names expressions can add to the facts.
pub open spec fn exprs_defs(es: Seq<AstExpr>) -> Set<Seq<char>>
    decreases es,
{
    if es.len() == 0 {
        Set::empty()
    } else {
        exprs_defs(es.drop_last()).union(expr_defs(es.last()))
    }
}

/// The names match arms can add to the facts.
pub open spec fn arms_defs(arms: Seq<AstArm>) -> Set<Seq<char>>
    decreases arms,
{
    if arms.len() == 0 {
        Set::empty()
    } else {
        arms_defs(arms.drop_last()).union(expr_defs(arms.last().body))
    }
}

/// The names statements can add to the facts.
pub open spec fn stmts_defs(ss: Seq<AstStmt>) -> Set<Seq<char>>
    decreases ss,
{
    if ss.len() == 0 {
        Set::empty()
    } else {
        stmts_defs(ss.drop_last()).union(stmt_defs(ss.last()))
    }
}

/// The names a statement can add to the facts.
pub open spec fn stmt_defs(s: AstStmt) -> Set<Seq<char>>
    decreases s,
{
    match s {
        AstStmt::Local { pat, init, .. } => match init {
            Some(x) => expr_defs(x).union(pat_idents(pat)),
            None => Set::empty(),
        },
        AstStmt::Expr(e) => expr_defs(e),
        _ => Set::empty(),
    }
}

/// The names a block statement can add to the facts.
pub open spec fn stmt_view_defs(s: StmtView) -> Set<Seq<char>> {
    match s {
        StmtView::Local { pat, init } => match init {
            Some(x) => expr_defs(x).union(pat_idents(pat)),
            None => Set::empty(),
        },
        StmtView::Expr(e) => expr_defs(e),
        StmtView::ForBinding { pat, iter_expr } => expr_defs(iter_expr).union(pat_idents(pat)),
    }
}

/// The names a block's statements can add to the facts.
pub open spec fn block_defs(ss: Seq<StmtView>) -> Set<Seq<char>>
    decreases ss.len(),
{
    if ss.len() == 0 {
        Set::empty()
    } else {
        block_defs(ss.drop_last()).union(stmt_view_defs(ss.last()))
    }
}

/// The names any block of a graph can add to the facts.
pub open spec fn graph_defs(blocks: Seq<Seq<StmtView>>) -> Set<Seq<char>>
    decreases blocks.len(),
{
    if blocks.len() == 0 {
        Set::empty()
    } else {
        graph_defs(blocks.drop_last()).union(block_defs(blocks.last()))
    }
}

/// Every name the analysis of a graph can hold: the sources, the
/// authorization marker, and the names the graph's blocks can add.
pub open spec fn universe(blocks: Seq<Seq<StmtView>>, sources: Set<Seq<char>>) -> Set<Seq<char>> {
    sources.insert(auth_marker()).union(graph_defs(blocks))
}

// ── Finiteness of those names ───────────────────────────────────────────────

proof fn lemma_pat_idents_finite(p: AstPat)
    ensures
        pat_idents(p).finite(),
    decreases p,
{
    match p {
        AstPat::Tuple(ps) => lemma_pats_idents_finite(ps@),
        AstPat::Struct(ps) => lemma_pats_idents_finite(ps@),
        AstPat::TupleStruct(ps) => lemma_pats_idents_finite(ps@),
        AstPat::Reference(q) => lemma_pat_idents_finite(*q),
        AstPat::Type(q) => lemma_pat_idents_finite(*q),
        _ => {},
    }
}

proof fn lemma_pats_idents_finite(ps: Seq<AstPat>)
    ensures
        pats_idents(ps).finite(),
    decreases ps,
{
    if ps.len() > 0 {
        lemma_pats_idents_finite(ps.drop_last());
        lemma_pat_idents_finite(ps.last());
    }
}

proof fn lemma_expr_defs_finite(e: AstExpr)
    ensures
        expr_defs(e).finite(),
    decreases e,
{
    match e {
        AstExpr::MethodCall { receiver, args, .. } => {
            lemma_expr_defs_finite(*receiver);
            lemma_exprs_defs_finite(args@);
        },
        AstExpr::Call { func, args, .. } => {
            lemma_expr_defs_finite(*func);
            lemma_exprs_defs_finite(args@);
        },
        AstExpr::If { cond, then_branch, else_branch, .. } => {
            lemma_expr_defs_finite(*cond);
            lemma_stmts_defs_finite(then_branch.stmts@);
            match else_branch {
                Some(x) => lemma_expr_defs_finite(*x),
                None => {},
            }
        },
        AstExpr::Match { expr, arms, .. } => {
            lemma_expr_defs_finite(*expr);
            lemma_arms_defs_finite(arms@);
        },
        AstExpr::Block { block, .. } => lemma_stmts_defs_finite(block.stmts@),
        AstExpr::Assign { left, right, .. } => {
            lemma_expr_defs_finite(*left);
            lemma_expr_defs_finite(*right);
        },
        AstExpr::Paren { expr, .. } => lemma_expr_defs_finite(*expr),
        AstExpr::Group { expr, .. } => lemma_expr_defs_finite(*expr),
        AstExpr::Reference { expr, .. } => lemma_expr_defs_finite(*expr),
        AstExpr::Unary { expr, .. } => lemma_expr_defs_finite(*expr),
        AstExpr::Cast { expr, .. } => lemma_expr_defs_finite(*expr),
        AstExpr::Try { expr, .. } => lemma_expr_defs_finite(*expr),
        AstExpr::Field { base, .. } => lemma_expr_defs_finite(*base),
        AstExpr::Index { expr, index, .. } => {
            lemma_expr_defs_finite(*expr);
            lemma_expr_defs_finite(*index);
        },
        AstExpr::Binary { left, right, .. } => {
            lemma_expr_defs_finite(*left);
            lemma_expr_defs_finite(*right);
        },
        AstExpr::Tuple { elems, .. } => lemma_exprs_defs_finite(elems@),
        AstExpr::Return { expr, .. } => match expr {
            Some(x) => lemma_expr_defs_finite(*x),
            None => {},
        },
        _ => {},
    }
}

proof fn lemma_exprs_defs_finite(es: Seq<AstExpr>)
    ensures
        exprs_defs(es).finite(),
    decreases es,
{
    if es.len() > 0 {
        lemma_exprs_defs_finite(es.drop_last());
        lemma_expr_defs_finite(es.last());
    }
}

proof fn lemma_arms_defs_finite(arms: Seq<AstArm>)
    ensures
        arms_defs(arms).finite(),
    decreases arms,
{
    if arms.len() > 0 {
        lemma_arms_defs_finite(arms.drop_last());
        lemma_expr_defs_finite(arms.last().body);
    }
}

proof fn lemma_stmts_defs_finite(ss: Seq<AstStmt>)
    ensures
        stmts_defs(ss).finite(),
    decreases ss,
{
    if ss.len() > 0 {
        lemma_stmts_defs_finite(ss.drop_last());
        lemma_stmt_defs_finite(ss.last());
    }
}

proof fn lemma_stmt_defs_finite(s: AstStmt)
    ensures
        stmt_defs(s).finite(),
    decreases s,
{
    match s {
        AstStmt::Local { pat, init, .. } => match init {
            Some(x) => {
                lemma_expr_defs_finite(x);
                lemma_pat_idents_finite(pat);
            },
            None => {},
        },
        AstStmt::Expr(e) => lemma_expr_defs_finite(e),
        _ => {},
    }
}

proof fn lemma_block_defs_finite(ss: Seq<StmtView>)
    ensures
        block_defs(ss).finite(),
    decreases ss.len(),
{
    if ss.len() > 0 {
        lemma_block_defs_finite(ss.drop_last());
        match ss.last() {
            StmtView::Local { pat, init } => match init {
                Some(x) => {
                    lemma_expr_defs_finite(x);
                    lemma_pat_idents_finite(pat);
                },
                None => {},
            },
            StmtView::Expr(e) => lemma_expr_defs_finite(e),
            StmtView::ForBinding { pat, iter_expr } => {
                lemma_expr_defs_finite(iter_expr);
                lemma_pat_idents_finite(pat);
            },
        }
    }
}

/// The names a graph can hold are finitely many, and each block's are among them.
proof fn lemma_graph_defs(blocks: Seq<Seq<StmtView>>)
    ensures
        graph_defs(blocks).finite(),
        forall|b: int| 0 <= b < blocks.len() ==> #[trigger] block_defs(blocks[b]).subset_of(graph_defs(blocks)),
    decreases blocks.len(),
{
    if blocks.len() > 0 {
        lemma_graph_defs(blocks.drop_last());
        lemma_block_defs_finite(blocks.last());
        assert forall|b: int| 0 <= b < blocks.len() implies #[trigger] block_defs(blocks[b]).subset_of(graph_defs(blocks)) by {
            if b < blocks.len() - 1 {
                assert(blocks.drop_last()[b] == blocks[b]);
                assert(block_defs(blocks.drop_last()[b]).subset_of(graph_defs(blocks.drop_last())));
            }
            assert forall|y: Seq<char>| block_defs(blocks[b]).contains(y) implies graph_defs(blocks).contains(y) by {
                if b < blocks.len() - 1 {
                    assert(graph_defs(blocks.drop_last()).contains(y));
                }
            }
        }
    }
}

// ── What scanning can add ──────────────────────────────────────────────────

/// Scanning an expression adds only the marker and the names it defines.
proof fn lemma_scan_expr_within(e: AstExpr, st: TaintState, u: Set<Seq<char>>)
    requires
        st.facts.subset_of(u),
        expr_defs(e).subset_of(u),
        u.contains(auth_marker()),
    ensures
        scan_expr(e, st).facts.subset_of(u),
    decreases e, 0nat,
{
    match e {
        AstExpr::MethodCall { receiver, method, args, receiver_text, line, .. } => {
            let t = call_state(method@, args@, receiver_text@, line, st);
            lemma_scan_expr_within(*receiver, t, u);
            lemma_scan_exprs_within(args@, scan_expr(*receiver, t), u);
        },
        AstExpr::Call { func, args, .. } => {
            lemma_scan_expr_within(*func, st, u);
            lemma_scan_exprs_within(args@, scan_expr(*func, st), u);
        },
        AstExpr::If { cond, then_branch, else_branch, .. } => {
            lemma_scan_expr_within(*cond, st, u);
            lemma_scan_stmts_within(then_branch.stmts@, scan_expr(*cond, st), u);
            match else_branch {
                Some(x) => lemma_scan_expr_within(*x, scan_stmts(then_branch.stmts@, scan_expr(*cond, st)), u),
                None => {},
            }
        },
        AstExpr::Match { expr, arms, .. } => {
            lemma_scan_expr_within(*expr, st, u);
            lemma_scan_arms_within(arms@, scan_expr(*expr, st), u);
        },
        AstExpr::Block { block, .. } => lemma_scan_stmts_within(block.stmts@, st, u),
        AstExpr::Assign { left, right, .. } => {
            lemma_scan_expr_within(*left, st, u);
            lemma_scan_expr_within(*right, scan_expr(*left, st), u);
        },
        AstExpr::Paren { expr, .. } => lemma_scan_expr_within(*expr, st, u),
        AstExpr::Group { expr, .. } => lemma_scan_expr_within(*expr, st, u),
        AstExpr::Reference { expr, .. } => lemma_scan_expr_within(*expr, st, u),
        AstExpr::Unary { expr, .. } => lemma_scan_expr_within(*expr, st, u),
        AstExpr::Cast { expr, .. } => lemma_scan_expr_within(*expr, st, u),
        AstExpr::Try { expr, .. } => lemma_scan_expr_within(*expr, st, u),
        AstExpr::Field { base, .. } => lemma_scan_expr_within(*base, st, u),
        AstExpr::Index { expr, index, .. } => {
            lemma_scan_expr_within(*expr, st, u);
            lemma_scan_expr_within(*index, scan_expr(*expr, st), u);
        },
        AstExpr::Binary { left, right, .. } => {
            lemma_scan_expr_within(*left, st, u);
            lemma_scan_expr_within(*right, scan_expr(*left, st), u);
        },
        AstExpr::Tuple { elems, .. } => lemma_scan_exprs_within(elems@, st, u),
        AstExpr::Return { expr, .. } => match expr {
            Some(x) => lemma_scan_expr_within(*x, st, u),
            None => {},
        },
        _ => {},
    }
}

proof fn lemma_scan_exprs_within(es: Seq<AstExpr>, st: TaintState, u: Set<Seq<char>>)
    requires
        st.facts.subset_of(u),
        exprs_defs(es).subset_of(u),
        u.contains(auth_marker()),
    ensures
        scan_exprs(es, st).facts.subset_of(u),
    decreases es, 0nat,
{
    if es.len() > 0 {
        lemma_scan_exprs_within(es.drop_last(), st, u);
        lemma_scan_expr_within(es.last(), scan_exprs(es.drop_last(), st), u);
    }
}

proof fn lemma_scan_arms_within(arms: Seq<AstArm>, st: TaintState, u: Set<Seq<char>>)
    requires
        st.facts.subset_of(u),
        arms_defs(arms).subset_of(u),
        u.contains(auth_marker()),
    ensures
        scan_arms(arms, st).facts.subset_of(u),
    decreases arms, 0nat,
{
    if arms.len() > 0 {
        lemma_scan_arms_within(arms.drop_last(), st, u);
        lemma_scan_expr_within(arms.last().body, scan_arms(arms.drop_last(), st), u);
    }
}

proof fn lemma_scan_stmts_within(ss: Seq<AstStmt>, st: TaintState, u: Set<Seq<char>>)
    requires
        st.facts.subset_of(u),
        stmts_defs(ss).subset_of(u),
        u.contains(auth_marker()),
    ensures
        scan_stmts(ss, st).facts.subset_of(u),
    decreases ss, 0nat,
{
    if ss.len() > 0 {
        lemma_scan_stmts_within(ss.drop_last(), st, u);
        lemma_scan_stmt_within(ss.last(), scan_stmts(ss.drop_last(), st), u);
    }
}

proof fn lemma_scan_stmt_within(s: AstStmt, st: TaintState, u: Set<Seq<char>>)
    requires
        st.facts.subset_of(u),
        stmt_defs(s).subset_of(u),
        u.contains(auth_marker()),
    ensures
        scan_stmt(s, st).facts.subset_of(u),
    decreases s, 0nat,
{
    match s {
        AstStmt::Local { pat, init, .. } => match init {
            Some(x) => lemma_scan_expr_within(x, st, u),
            None => {},
        },
        AstStmt::Expr(e) => lemma_process_top_within(e, st, u),
        _ => {},
    }
}

proof fn lemma_process_top_within(e: AstExpr, st: TaintState, u: Set<Seq<char>>)
    requires
        st.facts.subset_of(u),
        expr_defs(e).subset_of(u),
        u.contains(auth_marker()),
    ensures
        process_top(e, st).facts.subset_of(u),
    decreases e, 1nat,
{
    match e {
        AstExpr::Assign { left, right, .. } => lemma_scan_expr_within(*right, st, u),
        _ => lemma_scan_expr_within(e, st, u),
    }
}

/// A block's statements add only the marker and the names they define.
proof fn lemma_transfer_from_within(stmts: Seq<StmtView>, st: TaintState, u: Set<Seq<char>>)
    requires
        st.facts.subset_of(u),
        block_defs(stmts).subset_of(u),
        u.contains(auth_marker()),
    ensures
        transfer_from(stmts, st).facts.subset_of(u),
    decreases stmts.len(),
{
    if stmts.len() > 0 {
        lemma_transfer_from_within(stmts.drop_last(), st, u);
        let s0 = transfer_from(stmts.drop_last(), st);
        match stmts.last() {
            StmtView::Local { pat, init } => match init {
                Some(x) => lemma_scan_expr_within(x, s0, u),
                None => {},
            },
            StmtView::Expr(e) => lemma_process_top_within(e, s0, u),
            StmtView::ForBinding { pat, iter_expr } => lemma_scan_expr_within(iter_expr, s0, u),
        }
    }
}

// ── The dataflow fixed point ───────────────────────────────────────────────

/// The facts at each block's entry, as sets.
pub open spec fn ins_view(vs: Seq<Vec<String>>) -> Seq<Set<Seq<char>>> {
    vs.map_values(|v: Vec<String>| facts_view(v@))
}

/// Whether what leaves block `b` holds at the entry of each of its successors.
pub open spec fn flows_out(g: GraphView, ins: Seq<Set<Seq<char>>>, b: int) -> bool {
    forall|k: int| #![trigger g.succs[b][k]]
        0 <= k < g.succs[b].len() ==> transfer(g.blocks[b], ins[b]).facts.subset_of(ins[g.succs[b][k] as int])
}

/// Whether `ins`, the facts at each block's entry, solves the dataflow
/// equations of `g` seeded with `sources`: the sources hold at the entry
/// block, and what leaves each block holds at the entry of its successors.
pub open spec fn is_solution(g: GraphView, sources: Set<Seq<char>>, ins: Seq<Set<Seq<char>>>) -> bool {
    &&& ins.len() == g.blocks.len()
    &&& sources.subset_of(ins[0])
    &&& forall|b: int| 0 <= b < ins.len() ==> #[trigger] flows_out(g, ins, b)
}

/// Whether `a` holds, block by block, no more than `b`.
pub open spec fn below(a: Seq<Set<Seq<char>>>, b: Seq<Set<Seq<char>>>) -> bool {
    a.len() == b.len() && forall|i: int| 0 <= i < a.len() ==> (#[trigger] a[i]).subset_of(b[i])
}

/// Whether `ins` is the least solution of the dataflow equations.
pub open spec fn is_least_solution(g: GraphView, sources: Set<Seq<char>>, ins: Seq<Set<Seq<char>>>) -> bool {
    &&& is_solution(g, sources, ins)
    &&& forall|other: Seq<Set<Seq<char>>>| #[trigger] is_solution(g, sources, other) ==> below(ins, other)
}

/// The least solution of the dataflow equations.
pub open spec fn least_solution(g: GraphView, sources: Set<Seq<char>>) -> Seq<Set<Seq<char>>> {
    choose|ins: Seq<Set<Seq<char>>>| is_least_solution(g, sources, ins)
}

/// The findings of the first `m` blocks, each entered with its facts in `ins`.
pub open spec fn findings_upto(g: GraphView, ins: Seq<Set<Seq<char>>>, m: int) -> Seq<FindingView>
    decreases m,
{
    if m <= 0 {
        seq![]
    } else {
        findings_upto(g, ins, m - 1) + transfer(g.blocks[m - 1], ins[m - 1]).findings
    }
}

/// The findings of the analysis: every block, in order, entered with the
/// least solution's facts.
pub open spec fn taint_findings(g: GraphView, sources: Set<Seq<char>>) -> Seq<FindingView> {
    findings_upto(g, least_solution(g, sources), g.blocks.len() as int)
}

/// Whether block `b` waits in the worklist from position `head` on.
pub open spec fn in_queue(q: Seq<usize>, head: int, b: int) -> bool {
    exists|j: int| head <= j < q.len() && q[j] == b
}

/// The summed lengths of the fact vectors.
pub open spec fn total_len(vs: Seq<Vec<String>>) -> int
    decreases vs.len(),
{
    if vs.len() == 0 {
        0
    } else {
        total_len(vs.drop_last()) + vs.last()@.len()
    }
}

proof fn lemma_total_len_update(vs: Seq<Vec<String>>, i: int, v: Vec<String>)
    requires
        0 <= i < vs.len(),
    ensures
        total_len(vs.update(i, v)) == total_len(vs) - vs[i]@.len() + v@.len(),
    decreases vs.len(),
{
    let w = vs.update(i, v);
    if i == vs.len() - 1 {
        assert(w.drop_last() =~= vs.drop_last());
    } else {
        assert(w.drop_last() =~= vs.drop_last().update(i, v));
        lemma_total_len_update(vs.drop_last(), i, v);
    }
}

proof fn lemma_total_len_bound(vs: Seq<Vec<String>>, m: int)
    requires
        forall|i: int| 0 <= i < vs.len() ==> (#[trigger] vs[i])@.len() <= m,
    ensures
        total_len(vs) <= vs.len() * m,
    decreases vs.len(),
{
    if vs.len() > 0 {
        assert forall|i: int| 0 <= i < vs.drop_last().len() implies (#[trigger] vs.drop_last()[i])@.len() <= m by {
            assert(vs.drop_last()[i] == vs[i]);
        }
        lemma_total_len_bound(vs.drop_last(), m);
        assert(vs[vs.len() - 1]@.len() <= m);
        let l = vs.len() as int;
        assert((l - 1) * m + m == l * m) by (nonlinear_arith);
    }
}

/// A fact vector holding each name once, all within `u`, is no longer than `u`.
proof fn lemma_facts_len(v: Seq<String>, u: Set<Seq<char>>)
    requires
        facts_wf(v),
        facts_view(v).subset_of(u),
        u.finite(),
    ensures
        v.len() <= u.len(),
{
    strings_view(v).unique_seq_to_set();
    vstd::set_lib::lemma_len_subset(facts_view(v), u);
}

/// The dataflow equations have at most one least solution.
pub proof fn law_least_solution_unique(g: GraphView, sources: Set<Seq<char>>, a: Seq<Set<Seq<char>>>, b: Seq<Set<Seq<char>>>)
    requires
        is_least_solution(g, sources, a),
        is_least_solution(g, sources, b),
    ensures
        a == b,
{
    assert(below(a, b) && below(b, a));
    assert forall|i: int| 0 <= i < a.len() implies a[i] == b[i] by {
        assert(a[i] =~= b[i]);
    }
    assert(a =~= b);
}

/// More sources never taint fewer names: the least solution for a set of
/// sources lies, block by block, below every solution for a larger set.
pub proof fn law_more_sources_taint_more(
    g: GraphView,
    s1: Set<Seq<char>>,
    s2: Set<Seq<char>>,
    least1: Seq<Set<Seq<char>>>,
    ins2: Seq<Set<Seq<char>>>,
)
    requires
        s1.subset_of(s2),
        is_least_solution(g, s1, least1),
        is_solution(g, s2, ins2),
    ensures
        below(least1, ins2),
{
    assert(is_solution(g, s1, ins2));
}

/// A binary expression reads a tainted name exactly when one of its
/// operands does, and when the left operand reads none, the name it reads
/// is the one the right operand reads.
pub proof fn law_binary_reads_either_operand(
    left: AstExpr,
    op: AstBinOp,
    right: AstExpr,
    line: usize,
    facts: Set<Seq<char>>,
)
    ensures
        ({
            let e = AstExpr::Binary { left: Box::new(left), op, right: Box::new(right), line };
            &&& is_tainted(e, facts) <==> (is_tainted(left, facts) || is_tainted(right, facts))
            &&& first_tainted(left, facts) is None ==> first_tainted(e, facts) == first_tainted(right, facts)
            &&& first_tainted(left, facts) is Some ==> first_tainted(e, facts) == first_tainted(left, facts)
        }),
{
}

/// Expressions read in order: a sequence reads the name that its first
/// tainted expression reads, and reads none when none of them is tainted.
pub proof fn law_first_tainted_seq_in_order(es: Seq<AstExpr>, facts: Set<Seq<char>>)
    ensures
        first_tainted_seq(es, facts) is None <==> forall|k: int| 0 <= k < es.len() ==> !is_tainted(#[trigger] es[k], facts),
        first_tainted_seq(es, facts) is Some ==> exists|k: int|
            0 <= k < es.len() && first_tainted(#[trigger] es[k], facts) == first_tainted_seq(es, facts) && forall|j: int|
                0 <= j < k ==> !is_tainted(#[trigger] es[j], facts),
    decreases es.len(),
{
    if es.len() > 0 {
        let rest = es.drop_first();
        law_first_tainted_seq_in_order(rest, facts);
        assert forall|k: int| 0 <= k < rest.len() implies rest[k] == es[k + 1] by {}
        if first_tainted(es[0], facts) is Some {
            assert(first_tainted(es[0], facts) == first_tainted_seq(es, facts));
        } else if first_tainted_seq(rest, facts) is Some {
            let k = choose|k: int|
                0 <= k < rest.len() && first_tainted(#[trigger] rest[k], facts) == first_tainted_seq(rest, facts)
                    && forall|j: int| 0 <= j < k ==> !is_tainted(#[trigger] rest[j], facts);
            assert(first_tainted(es[k + 1], facts) == first_tainted_seq(es, facts));
            assert forall|j: int| 0 <= j < k + 1 implies !is_tainted(#[trigger] es[j], facts) by {
                if j > 0 {
                    assert(es[j] == rest[j - 1]);
                }
            }
        } else {
            assert forall|k: int| 0 <= k < es.len() implies !is_tainted(#[trigger] es[k], facts) by {
                if k > 0 {
                    assert(es[k] == rest[k - 1]);
                }
            }
        }
    }
}

/// Wrapping an expression (`&x`, `(x)`, `-x`, `x as T`, `x.f`) reads what
/// the wrapped expression reads; a call reads what its arguments read, a
/// tuple what its elements read, and a method call what its receiver reads,
/// else what its arguments read.
pub proof fn law_compound_reads_its_parts(
    x: AstExpr,
    line: usize,
    facts: Set<Seq<char>>,
    args: Vec<AstExpr>,
    op: AstUnOp,
    ty_exprs: Vec<AstExpr>,
    method: String,
    method_line: usize,
    turbofish_exprs: Vec<AstExpr>,
    text: String,
    receiver_text: String,
)
    ensures
        first_tainted(AstExpr::Reference { expr: Box::new(x), line }, facts) == first_tainted(x, facts),
        first_tainted(AstExpr::Paren { expr: Box::new(x), line }, facts) == first_tainted(x, facts),
        first_tainted(AstExpr::Group { expr: Box::new(x), line }, facts) == first_tainted(x, facts),
        first_tainted(AstExpr::Unary { op, expr: Box::new(x), line }, facts) == first_tainted(x, facts),
        first_tainted(AstExpr::Cast { expr: Box::new(x), ty_exprs, line }, facts) == first_tainted(x, facts),
        first_tainted(AstExpr::Field { base: Box::new(x), line }, facts) == first_tainted(x, facts),
        first_tainted(AstExpr::Call { func: Box::new(x), args, line }, facts) == first_tainted_seq(args@, facts),
        first_tainted(AstExpr::Tuple { elems: args, line }, facts) == first_tainted_seq(args@, facts),
        first_tainted(
            AstExpr::MethodCall {
                receiver: Box::new(x),
                method,
                method_line,
                turbofish_exprs,
                args,
                text,
                receiver_text,
                line,
            },
            facts,
        ) == match first_tainted(x, facts) {
            Some(n) => Some(n),
            None => first_tainted_seq(args@, facts),
        },
{
}

/// A call to `require_auth` or `require_auth_for_args` records
/// authorization and reports nothing.  A storage write (`set`, `update`,
/// `remove` on a receiver mentioning `storage`, `persistent`, `temporary`
/// or `instance`) or a cross-contract call (`invoke_contract`,
/// `try_invoke_contract`, `invoke_contract_check`) made before authorization
/// reports its tainted arguments and leaves the facts alone; made after
/// authorization, it reports nothing.
pub proof fn law_sinks_and_authorization(
    method: Seq<char>,
    args: Seq<AstExpr>,
    receiver_text: Seq<char>,
    line: usize,
    st: TaintState,
)
    ensures
        (method == "require_auth"@ || method == "require_auth_for_args"@) ==> {
            let r = call_state(method, args, receiver_text, line, st);
            r.facts.contains(auth_marker()) && r.findings == st.findings
        },
        ({
            let write = (method == "set"@ || method == "update"@ || method == "remove"@) && (seq_contains(
                receiver_text,
                "storage"@,
            ) || seq_contains(receiver_text, "persistent"@) || seq_contains(receiver_text, "temporary"@)
                || seq_contains(receiver_text, "instance"@));
            let external = method == "invoke_contract"@ || method == "try_invoke_contract"@ || method
                == "invoke_contract_check"@;
            let r = call_state(method, args, receiver_text, line, st);
            (write || external) ==> {
                &&& r.facts == st.facts
                &&& !st.facts.contains(auth_marker()) ==> r.findings == st.findings + sink_findings(
                    args,
                    st.facts,
                    method,
                    line,
                )
                &&& st.facts.contains(auth_marker()) ==> r.findings == st.findings
            }
        }),
{
    reveal_strlit("require_auth");
    reveal_strlit("require_auth_for_args");
    reveal_strlit("set");
    reveal_strlit("update");
    reveal_strlit("remove");
    reveal_strlit("invoke_contract");
    reveal_strlit("try_invoke_contract");
    reveal_strlit("invoke_contract_check");
    let r = call_state(method, args, receiver_text, line, st);
    if method == "require_auth"@ || method == "require_auth_for_args"@ {
        assert(r.findings =~= st.findings);
    }
    if method == "set"@ || method == "update"@ || method == "remove"@ || method == "invoke_contract"@ || method
        == "try_invoke_contract"@ || method == "invoke_contract_check"@ {
        assert(!is_auth_method(method)) by {
            assert("invoke_contract_check"@[0] != "require_auth_for_args"@[0]);
            assert("require_auth"@.len() == 12 && "require_auth_for_args"@.len() == 21);
        }
        if st.facts.contains(auth_marker()) {
            assert(r.findings =~= st.findings);
        }
    }
}

/// A path whose last segment is a tainted name reads that name.
pub proof fn law_tainted_path_is_read(path: AstPath, arg_exprs: Vec<AstExpr>, line: usize, facts: Set<Seq<char>>)
    requires
        path.segments@.len() > 0,
        facts.contains(path.segments@.last().ident@),
    ensures
        first_tainted(AstExpr::Path { path, arg_exprs, line }, facts) == Some(path.segments@.last().ident@),
{
}

/// The name an expression is found to read is always a tainted name.
pub proof fn law_first_tainted_is_a_fact(e: AstExpr, facts: Set<Seq<char>>)
    ensures
        first_tainted(e, facts) matches Some(n) ==> facts.contains(n),
    decreases e,
{
    match e {
        AstExpr::Reference { expr, .. } => law_first_tainted_is_a_fact(*expr, facts),
        AstExpr::Paren { expr, .. } => law_first_tainted_is_a_fact(*expr, facts),
        AstExpr::Group { expr, .. } => law_first_tainted_is_a_fact(*expr, facts),
        AstExpr::Unary { expr, .. } => law_first_tainted_is_a_fact(*expr, facts),
        AstExpr::Cast { expr, .. } => law_first_tainted_is_a_fact(*expr, facts),
        AstExpr::Field { base, .. } => law_first_tainted_is_a_fact(*base, facts),
        AstExpr::MethodCall { receiver, args, .. } => {
            law_first_tainted_is_a_fact(*receiver, facts);
            lemma_first_tainted_seq_is_a_fact(args@, facts);
        },
        AstExpr::Call { args, .. } => lemma_first_tainted_seq_is_a_fact(args@, facts),
        AstExpr::Tuple { elems, .. } => lemma_first_tainted_seq_is_a_fact(elems@, facts),
        AstExpr::Binary { left, right, .. } => {
            law_first_tainted_is_a_fact(*left, facts);
            law_first_tainted_is_a_fact(*right, facts);
        },
        _ => {},
    }
}

proof fn lemma_first_tainted_seq_is_a_fact(es: Seq<AstExpr>, facts: Set<Seq<char>>)
    ensures
        first_tainted_seq(es, facts) matches Some(n) ==> facts.contains(n),
    decreases es,
{
    if es.len() > 0 {
        law_first_tainted_is_a_fact(es[0], facts);
        lemma_first_tainted_seq_is_a_fact(es.drop_first(), facts);
    }
}

/// A sink call reports each argument that reads a tainted name: the name it
/// reads, with the sink and the line; and it reports nothing else.
pub proof fn law_sink_reports_each_tainted_argument(
    args: Seq<AstExpr>,
    facts: Set<Seq<char>>,
    sink: Seq<char>,
    line: usize,
    k: int,
)
    requires
        0 <= k < args.len(),
    ensures
        first_tainted(args[k], facts) matches Some(n) ==> sink_findings(args, facts, sink, line).contains(
            (n, sink, line),
        ),
        forall|i: int| 0 <= i < sink_findings(args, facts, sink, line).len() ==> {
            let f = #[trigger] sink_findings(args, facts, sink, line)[i];
            f.1 == sink && f.2 == line && facts.contains(f.0)
        },
    decreases args.len(),
{
    let head = sink_findings(args.drop_last(), facts, sink, line);
    let all = sink_findings(args, facts, sink, line);
    if k < args.len() - 1 {
        law_sink_reports_each_tainted_argument(args.drop_last(), facts, sink, line, k);
        assert(args.drop_last()[k] == args[k]);
        if first_tainted(args[k], facts) is Some {
            let n = first_tainted(args[k], facts)->0;
            let j = choose|j: int| 0 <= j < head.len() && head[j] == (n, sink, line);
            assert(all[j] == head[j]);
        }
    } else {
        if args.len() > 1 {
            law_sink_reports_each_tainted_argument(args.drop_last(), facts, sink, line, 0);
        }
        if first_tainted(args[k], facts) is Some {
            assert(all[head.len() as int] == (first_tainted(args[k], facts)->0, sink, line));
        }
    }
    law_first_tainted_is_a_fact(args.last(), facts);
    assert forall|i: int| 0 <= i < all.len() implies {
        let f = #[trigger] all[i];
        f.1 == sink && f.2 == line && facts.contains(f.0)
    } by {
        if i < head.len() {
            assert(all[i] == head[i]);
            if args.len() == 1 {
                assert(head.len() == 0);
            }
        }
    }
}

/// Runs the taint analysis over `body`, with the names in `sources` tainted
/// at entry: the facts at each block's entry are computed by a worklist
/// until they solve the dataflow equations, then each block is applied
/// once, in order, to collect the findings.
pub fn analyze(body: &AstBlock, sources: Vec<String>) -> (r: Vec<TaintFinding>)
    ensures
        exists|ins: Seq<Set<Seq<char>>>| is_least_solution(g_build(*body), facts_view(sources@), ins),
        findings_view(r@) == taint_findings(g_build(*body), facts_view(sources@)),
{
    let cfg = Cfg::build(body);
    let n = cfg.block_count();
    let ghost g = cfg_view(cfg);
    let ghost s = facts_view(sources@);
    let ghost u = universe(g.blocks, s);
    proof {
        law_cfg_well_formed(*body);
        lemma_graph_defs(g.blocks);
    }
    let ghost ulen = u.len();
    assert forall|b: int| 0 <= b < n implies #[trigger] block_defs(g.blocks[b]).subset_of(u) by {
        assert(block_defs(g.blocks[b]).subset_of(graph_defs(g.blocks)));
    }

    let mut block_in: Vec<Vec<String>> = Vec::new();
    let mut i: usize = 0;
    while i < n
        invariant
            i <= n,
            block_in@.len() == i,
            forall|j: int| 0 <= j < i ==> (#[trigger] block_in@[j])@.len() == 0,
        decreases n - i,
    {
        block_in.push(Vec::new());
        i = i + 1;
    }
    let mut entry_facts: Vec<String> = Vec::new();
    assert(facts_wf(entry_facts@)) by {
        assert(strings_view(entry_facts@) =~= Seq::<Seq<char>>::empty());
    }
    assert(facts_view(entry_facts@) =~= Set::<Seq<char>>::empty()) by {
        assert(strings_view(entry_facts@) =~= Seq::<Seq<char>>::empty());
    }
    facts_extend(&mut entry_facts, &sources);
    block_in.set(cfg.entry, entry_facts);

    let mut worklist: Vec<usize> = Vec::new();
    let mut j: usize = 0;
    while j < n
        invariant
            j <= n,
            worklist@.len() == j,
            forall|k: int| 0 <= k < j ==> worklist@[k] == k,
        decreases n - j,
    {
        worklist.push(j);
        j = j + 1;
    }
    let mut head: usize = 0;
    assert forall|c: int| 0 <= c < n implies in_queue(worklist@, 0, c) by {
        assert(worklist@[c] == c);
    }
    assert(forall|other: Seq<Set<Seq<char>>>| is_solution(g, s, other) ==> below(ins_view(block_in@), other)) by {
        assert forall|other: Seq<Set<Seq<char>>>| is_solution(g, s, other) implies below(ins_view(block_in@), other) by {
            assert forall|c: int| 0 <= c < n implies (#[trigger] ins_view(block_in@)[c]).subset_of(other[c]) by {
                if c != 0 {
                    assert(facts_view(block_in@[c]@) =~= Set::<Seq<char>>::empty()) by {
                        assert(strings_view(block_in@[c]@) =~= Seq::<Seq<char>>::empty());
                    }
                }
            }
        }
    }
    proof {
        assert forall|c: int| 0 <= c < n implies facts_wf(#[trigger] block_in@[c]@) && facts_view(block_in@[c]@).subset_of(u) by {
            if c != 0 {
                assert(strings_view(block_in@[c]@) =~= Seq::<Seq<char>>::empty());
            }
        }
        assert forall|c: int| 0 <= c < n implies (#[trigger] block_in@[c])@.len() <= ulen by {
            lemma_facts_len(block_in@[c]@, u);
        }
        lemma_total_len_bound(block_in@, ulen as int);
    }
    while head < worklist.len()
        invariant
            n == g.blocks.len(),
            n == cfg.blocks@.len(),
            n == cfg.successors@.len(),
            g == cfg_view(cfg),
            graph_ok(g),
            ids_ok(cfg.blocks@),
            s == facts_view(sources@),
            u == universe(g.blocks, s),
            u.finite(),
            ulen == u.len(),
            forall|b: int| 0 <= b < n ==> #[trigger] block_defs(g.blocks[b]).subset_of(u),
            block_in@.len() == n,
            forall|c: int| 0 <= c < n ==> facts_wf(#[trigger] block_in@[c]@),
            forall|c: int| 0 <= c < n ==> facts_view(#[trigger] block_in@[c]@).subset_of(u),
            s.subset_of(facts_view(block_in@[0]@)),
            head <= worklist@.len(),
            forall|q: int| head <= q < worklist@.len() ==> #[trigger] worklist@[q] < n,
            forall|c: int| 0 <= c < n && !in_queue(worklist@, head as int, c) ==> #[trigger] flows_out(g, ins_view(block_in@), c),
            forall|other: Seq<Set<Seq<char>>>| #[trigger] is_solution(g, s, other) ==> below(ins_view(block_in@), other),
            total_len(block_in@) <= n * ulen,
        decreases n * ulen - total_len(block_in@), worklist@.len() - head,
    {
        let b = worklist[head];
        head = head + 1;
        let ghost pop_in = block_in@;
        let ghost pop_q = worklist@;
        let ghost pop_head = head;
        let ghost out_set = transfer(g.blocks[b as int], facts_view(block_in@[b as int]@)).facts;
        assert(g.blocks[b as int] =~= block_stmts_view(cfg.blocks@[b as int]));
        let (out, _block_findings) = transfer_block(&cfg.blocks[b], &block_in[b]);
        proof {
            lemma_transfer_from_within(g.blocks[b as int], TaintState { facts: facts_view(pop_in[b as int]@), findings: seq![] }, u);
            assert forall|other: Seq<Set<Seq<char>>>| #[trigger] is_solution(g, s, other) implies out_set.subset_of(transfer(g.blocks[b as int], other[b as int]).facts) by {
                assert(ins_view(pop_in)[b as int] == facts_view(pop_in[b as int]@));
                lemma_transfer_from_mono(
                    g.blocks[b as int],
                    TaintState { facts: facts_view(pop_in[b as int]@), findings: seq![] },
                    TaintState { facts: other[b as int], findings: seq![] },
                );
            }
        }
        let ns = cfg.successors[b].len();
        let ghost mut any_changed = false;
        let mut k: usize = 0;
        while k < ns
            invariant
                n == g.blocks.len(),
                n == cfg.blocks@.len(),
                n == cfg.successors@.len(),
                g == cfg_view(cfg),
                graph_ok(g),
                b < n,
                ns == g.succs[b as int].len(),
                k <= ns,
                s == facts_view(sources@),
                u.finite(),
                ulen == u.len(),
                facts_view(out@) == out_set,
                pop_in.len() == n,
                out_set.subset_of(u),
                block_in@.len() == n,
                forall|c: int| 0 <= c < n ==> facts_wf(#[trigger] block_in@[c]@),
                forall|c: int| 0 <= c < n ==> facts_view(#[trigger] block_in@[c]@).subset_of(u),
                forall|c: int| 0 <= c < n ==> facts_view(pop_in[c]@).subset_of(facts_view(#[trigger] block_in@[c]@)),
                forall|c: int| 0 <= c < n && block_in@[c]@ != pop_in[c]@ ==> in_queue(worklist@, head as int, c),
                s.subset_of(facts_view(block_in@[0]@)),
                head == pop_head,
                head <= worklist@.len(),
                worklist@.len() >= pop_q.len(),
                forall|q: int| 0 <= q < pop_q.len() ==> worklist@[q] == pop_q[q],
                forall|q: int| head <= q < worklist@.len() ==> #[trigger] worklist@[q] < n,
                facts_view(block_in@[b as int]@) == facts_view(pop_in[b as int]@) ==> forall|kk: int| 0 <= kk < k ==> out_set.subset_of(facts_view(block_in@[g.succs[b as int][kk] as int]@)),
                forall|other: Seq<Set<Seq<char>>>| #[trigger] is_solution(g, s, other) ==> out_set.subset_of(transfer(g.blocks[b as int], other[b as int]).facts),
                forall|other: Seq<Set<Seq<char>>>| #[trigger] is_solution(g, s, other) ==> below(ins_view(block_in@), other),
                any_changed ==> total_len(block_in@) > total_len(pop_in),
                !any_changed ==> total_len(block_in@) == total_len(pop_in) && worklist@ == pop_q,
                !any_changed ==> forall|c: int| 0 <= c < n ==> (#[trigger] block_in@[c])@ == pop_in[c]@,
            decreases ns - k,
        {
            let succ = cfg.successors[b][k];
            assert(succ == g.succs[b as int][k as int]);
            assert(succ < n);
            let ghost before = block_in@;
            let ghost q_before = worklist@;
            let changed = facts_extend(&mut block_in[succ], &out);
            proof {
                lemma_total_len_update(before, succ as int, block_in@[succ as int]);
            }
            if changed {
                worklist.push(succ);
                proof {
                    any_changed = true;
                }
            }
            assert forall|c: int| 0 <= c < n && block_in@[c]@ != pop_in[c]@ implies in_queue(worklist@, head as int, c) by {
                if c == succ && changed {
                    assert(worklist@[worklist@.len() - 1] == succ);
                } else {
                    assert(block_in@[c]@ == before[c]@);
                    assert(in_queue(q_before, head as int, c));
                    let q = choose|q: int| head <= q < q_before.len() && q_before[q] == c;
                    assert(worklist@[q] == c);
                }
            }
            proof {
                if facts_view(block_in@[b as int]@) == facts_view(pop_in[b as int]@) {
                    assert(facts_view(before[b as int]@) =~= facts_view(pop_in[b as int]@)) by {
                        assert(facts_view(pop_in[b as int]@).subset_of(facts_view(before[b as int]@)));
                        assert(facts_view(before[b as int]@).subset_of(facts_view(block_in@[b as int]@)));
                    }
                    assert forall|kk: int| 0 <= kk < k + 1 implies out_set.subset_of(facts_view(block_in@[g.succs[b as int][kk] as int]@)) by {
                        let t = g.succs[b as int][kk] as int;
                        if kk < k {
                            assert(out_set.subset_of(facts_view(before[t]@)));
                            assert(facts_view(before[t]@).subset_of(facts_view(block_in@[t]@)));
                        }
                    }
                }
            }
            assert forall|c: int| 0 <= c < n && !any_changed implies (#[trigger] block_in@[c])@ == pop_in[c]@ by {
                assert(block_in@[c]@ == before[c]@);
            }
            assert forall|other: Seq<Set<Seq<char>>>| #[trigger] is_solution(g, s, other) implies below(ins_view(block_in@), other) by {
                assert(below(ins_view(before), other));
                assert(flows_out(g, other, b as int));
                assert(g.succs[b as int][k as int] == succ);
                assert(ins_view(before)[succ as int].subset_of(other[succ as int]));
                assert forall|c: int| 0 <= c < n implies (#[trigger] ins_view(block_in@)[c]).subset_of(other[c]) by {
                    assert(ins_view(before)[c].subset_of(other[c]));
                }
            }
            k = k + 1;
        }
        proof {
            assert forall|c: int| 0 <= c < n implies (#[trigger] block_in@[c])@.len() <= ulen by {
                lemma_facts_len(block_in@[c]@, u);
            }
            lemma_total_len_bound(block_in@, ulen as int);
            assert forall|c: int| 0 <= c < n && !in_queue(worklist@, head as int, c) implies #[trigger] flows_out(g, ins_view(block_in@), c) by {
                assert(block_in@[c]@ == pop_in[c]@);
                if c == b {
                    assert forall|kk: int| #![trigger g.succs[c][kk]] 0 <= kk < g.succs[c].len() implies transfer(g.blocks[c], ins_view(block_in@)[c]).facts.subset_of(ins_view(block_in@)[g.succs[c][kk] as int]) by {
                        assert(ins_view(block_in@)[c] == facts_view(pop_in[c]@));
                    }
                } else {
                    assert(!in_queue(pop_q, pop_head - 1, c)) by {
                        if in_queue(pop_q, pop_head - 1, c) {
                            let q = choose|q: int| pop_head - 1 <= q < pop_q.len() && pop_q[q] == c;
                            assert(q != pop_head - 1);
                            assert(worklist@[q] == c);
                        }
                    }
                    assert(flows_out(g, ins_view(pop_in), c));
                    assert forall|kk: int| #![trigger g.succs[c][kk]] 0 <= kk < g.succs[c].len() implies transfer(g.blocks[c], ins_view(block_in@)[c]).facts.subset_of(ins_view(block_in@)[g.succs[c][kk] as int]) by {
                        let t = g.succs[c][kk] as int;
                        assert(ins_view(block_in@)[c] == ins_view(pop_in)[c]);
                        assert(ins_view(pop_in)[t].subset_of(ins_view(block_in@)[t]));
                    }
                }
            }
        }
    }

    let ghost ins = ins_view(block_in@);
    assert(is_least_solution(g, s, ins)) by {
        assert forall|c: int| 0 <= c < ins.len() implies #[trigger] flows_out(g, ins, c) by {
            assert(!in_queue(worklist@, head as int, c));
        }
        assert(ins[0] == facts_view(block_in@[0]@));
    }
    let ghost least = least_solution(g, s);
    proof {
        law_least_solution_unique(g, s, ins, least);
    }

    let mut findings: Vec<TaintFinding> = Vec::new();
    let mut bi: usize = 0;
    assert(findings_view(findings@) =~= findings_upto(g, ins, 0));
    while bi < n
        invariant
            bi <= n,
            n == cfg.blocks@.len(),
            n == g.blocks.len(),
            g == cfg_view(cfg),
            ids_ok(cfg.blocks@),
            block_in@.len() == n,
            ins == ins_view(block_in@),
            forall|c: int| 0 <= c < n ==> facts_wf(#[trigger] block_in@[c]@),
            findings_view(findings@) == findings_upto(g, ins, bi as int),
        decreases n - bi,
    {
        let id = cfg.blocks[bi].id;
        assert(id == bi);
        assert(g.blocks[bi as int] =~= block_stmts_view(cfg.blocks@[bi as int]));
        let (_facts_out, mut block_findings) = transfer_block(&cfg.blocks[bi], &block_in[id]);
        let ghost before = findings@;
        findings.append(&mut block_findings);
        assert(findings_view(findings@) =~= findings_view(before) + transfer(g.blocks[bi as int], ins[bi as int]).findings);
        bi = bi + 1;
    }
    findings
}

} // verus!
