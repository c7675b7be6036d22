//! Intra-procedural control-flow graph of one function body.
//!
//! The body's statements are split into basic blocks connected by successor
//! edges: `if`/`else` branches join at a common block, `match` arms all flow
//! into the block after the match, and `while`/`for`/`loop` bodies get a back
//! edge to their header.  Only control flow in statement position gets
//! blocks and edges; an `if` or `match` inside a `let` initializer stays one
//! statement.  `return`, `break` and `continue` end their block, and what
//! follows them starts a fresh block with no incoming edge.
use vstd::prelude::*;
use crate::syntax::{AstArm, AstBlock, AstExpr, AstPat, AstStmt};

verus! {

broadcast use vstd::std_specs::vec::group_vec_axioms, vstd::seq::group_seq_axioms;

/// A statement of a basic block, borrowing from the function body.
#[derive(Debug)]
pub enum BlockStmt<'a> {
    /// `let pat = init;`
    Local { pat: &'a AstPat, init: Option<&'a AstExpr> },
    /// An expression statement, or the condition of an `if`, `while` or `match`.
    Expr(&'a AstExpr),
    /// The binding of a `for` loop: `for pat in iter_expr`.
    ForBinding { pat: &'a AstPat, iter_expr: &'a AstExpr },
}

/// A basic block: its index and its statements in order.
#[derive(Debug)]
pub struct BasicBlock<'a> {
    pub id: usize,
    pub stmts: Vec<BlockStmt<'a>>,
}

/// A control-flow graph: blocks, the successors of each block, and the
/// entry block.
#[derive(Debug)]
pub struct Cfg<'a> {
    pub blocks: Vec<BasicBlock<'a>>,
    pub successors: Vec<Vec<usize>>,
    pub entry: usize,
}

/// A block statement as a plain value.
pub enum StmtView {
    Local { pat: AstPat, init: Option<AstExpr> },
    Expr(AstExpr),
    ForBinding { pat: AstPat, iter_expr: AstExpr },
}

/// The plain value of a block statement.
pub open spec fn stmt_view(s: BlockStmt) -> StmtView {
    match s {
        BlockStmt::Local { pat, init } => StmtView::Local {
            pat: *pat,
            init: match init {
                Some(e) => Some(*e),
                None => None,
            },
        },
        BlockStmt::Expr(e) => StmtView::Expr(*e),
        BlockStmt::ForBinding { pat, iter_expr } => StmtView::ForBinding { pat: *pat, iter_expr: *iter_expr },
    }
}

/// A graph as plain values: the statements of each block and the
/// successors of each block.
pub struct GraphView {
    pub blocks: Seq<Seq<StmtView>>,
    pub succs: Seq<Seq<usize>>,
}

/// Whether a graph's two tables have the same length.
pub open spec fn graph_wf(g: GraphView) -> bool {
    g.blocks.len() == g.succs.len()
}

/// The graph with a new empty block, and that block's index.
pub open spec fn g_new_block(g: GraphView) -> (GraphView, nat) {
    (GraphView { blocks: g.blocks.push(seq![]), succs: g.succs.push(seq![]) }, g.blocks.len())
}

/// The graph with an edge from `from` to `to`.
pub open spec fn g_add_edge(g: GraphView, from: nat, to: nat) -> GraphView {
    GraphView { succs: g.succs.update(from as int, g.succs[from as int].push(to as usize)), ..g }
}

/// The graph with `s` appended to block `b`.
pub open spec fn g_push(g: GraphView, b: nat, s: StmtView) -> GraphView {
    GraphView { blocks: g.blocks.update(b as int, g.blocks[b as int].push(s)), ..g }
}

/// Processes statements from block `cur`; the graph and the block where
/// control continues.
pub open spec fn g_stmts(g: GraphView, ss: Seq<AstStmt>, cur: nat) -> (GraphView, nat)
    decreases ss,
{
    if ss.len() == 0 {
        (g, cur)
    } else {
        let (g1, c1) = g_stmts(g, ss.drop_last(), cur);
        g_stmt(g1, ss.last(), c1)
    }
}

/// Processes one statement: a `let` joins the current block, an expression
/// statement is handled by [`g_expr_stmt`], items and macros are skipped.
pub open spec fn g_stmt(g: GraphView, s: AstStmt, cur: nat) -> (GraphView, nat)
    decreases s,
{
    match s {
        AstStmt::Local { pat, init, .. } => (g_push(g, cur, StmtView::Local { pat, init }), cur),
        AstStmt::Expr(e) => g_expr_stmt(g, e, cur),
        _ => (g, cur),
    }
}

/// Processes an expression in statement position.
pub open spec fn g_expr_stmt(g: GraphView, e: AstExpr, cur: nat) -> (GraphView, nat)
    decreases e,
{
    match e {
        AstExpr::If { cond, then_branch, else_branch, .. } => {
            let g1 = g_push(g, cur, StmtView::Expr(*cond));
            let (g2, then_entry) = g_new_block(g1);
            let g3 = g_add_edge(g2, cur, then_entry);
            let (g4, then_exit) = g_stmts(g3, then_branch.stmts@, then_entry);
            let (g5, join) = g_new_block(g4);
            let g6 = g_add_edge(g5, then_exit, join);
            match else_branch {
                Some(x) => {
                    let (g7, else_entry) = g_new_block(g6);
                    let g8 = g_add_edge(g7, cur, else_entry);
                    let (g9, else_exit) = g_expr_stmt(g8, *x, else_entry);
                    (g_add_edge(g9, else_exit, join), join)
                },
                None => (g_add_edge(g6, cur, join), join),
            }
        },
        AstExpr::While { cond, body, .. } => {
            let (g1, header) = g_new_block(g);
            let g2 = g_add_edge(g1, cur, header);
            let g3 = g_push(g2, header, StmtView::Expr(*cond));
            let (g4, body_entry) = g_new_block(g3);
            let g5 = g_add_edge(g4, header, body_entry);
            let (g6, body_exit) = g_stmts(g5, body.stmts@, body_entry);
            let g7 = g_add_edge(g6, body_exit, header);
            let (g8, after) = g_new_block(g7);
            (g_add_edge(g8, header, after), after)
        },
        AstExpr::ForLoop { pat, expr, body, .. } => {
            let (g1, header) = g_new_block(g);
            let g2 = g_add_edge(g1, cur, header);
            let g3 = g_push(g2, header, StmtView::ForBinding { pat, iter_expr: *expr });
            let (g4, body_entry) = g_new_block(g3);
            let g5 = g_add_edge(g4, header, body_entry);
            let (g6, body_exit) = g_stmts(g5, body.stmts@, body_entry);
            let g7 = g_add_edge(g6, body_exit, header);
            let (g8, after) = g_new_block(g7);
            (g_add_edge(g8, header, after), after)
        },
        AstExpr::Loop { body, .. } => {
            let (g1, header) = g_new_block(g);
            let g2 = g_add_edge(g1, cur, header);
            let (g3, body_exit) = g_stmts(g2, body.stmts@, header);
            let g4 = g_add_edge(g3, body_exit, header);
            let (g5, after) = g_new_block(g4);
            (g_add_edge(g5, header, after), after)
        },
        AstExpr::Match { expr, arms, .. } => {
            let g1 = g_push(g, cur, StmtView::Expr(*expr));
            let (g2, join) = g_new_block(g1);
            (g_arms(g2, arms@, cur, join), join)
        },
        AstExpr::Block { block, .. } => g_stmts(g, block.stmts@, cur),
        AstExpr::Return { .. } => g_new_block(g_push(g, cur, StmtView::Expr(e))),
        AstExpr::Break { .. } => g_new_block(g_push(g, cur, StmtView::Expr(e))),
        AstExpr::Continue { .. } => g_new_block(g_push(g, cur, StmtView::Expr(e))),
        _ => (g_push(g, cur, StmtView::Expr(e)), cur),
    }
}

/// Processes the arms of a `match` in block `cur`, each flowing into `join`.
pub open spec fn g_arms(g: GraphView, arms: Seq<AstArm>, cur: nat, join: nat) -> GraphView
    decreases arms,
{
    if arms.len() == 0 {
        g
    } else {
        let g1 = g_arms(g, arms.drop_last(), cur, join);
        let (g2, arm_entry) = g_new_block(g1);
        let g3 = g_add_edge(g2, cur, arm_entry);
        let (g4, arm_exit) = g_expr_stmt(g3, arms.last().body, arm_entry);
        g_add_edge(g4, arm_exit, join)
    }
}

/// The graph of a function body: an entry block, then its statements.
pub open spec fn g_build(b: AstBlock) -> GraphView {
    let (g0, entry) = g_new_block(GraphView { blocks: seq![], succs: seq![] });
    g_stmts(g0, b.stmts@, entry).0
}

/// Every index the graph operations produce stays within the graph, and the
/// graph only grows.
pub open spec fn grows(g: GraphView, h: GraphView) -> bool {
    graph_wf(h) && h.blocks.len() >= g.blocks.len()
}

// ── The builder ─────────────────────────────────────────────────────────────

/// A graph under construction.
struct CfgBuilder<'a> {
    blocks: Vec<BasicBlock<'a>>,
    successors: Vec<Vec<usize>>,
}

/// The plain values of a list of blocks.
pub open spec fn blocks_view(bs: Seq<BasicBlock>) -> Seq<Seq<StmtView>> {
    bs.map_values(|b: BasicBlock| b.stmts@.map_values(|s: BlockStmt| stmt_view(s)))
}

/// The plain values of a successor table.
pub open spec fn succs_view(ss: Seq<Vec<usize>>) -> Seq<Seq<usize>> {
    ss.map_values(|v: Vec<usize>| v@)
}

/// Whether each block's `id` is its index.
pub open spec fn ids_ok(bs: Seq<BasicBlock>) -> bool {
    forall|i: int| 0 <= i < bs.len() ==> (#[trigger] bs[i]).id == i
}

impl<'a> CfgBuilder<'a> {
    spec fn view(&self) -> GraphView {
        GraphView { blocks: blocks_view(self.blocks@), succs: succs_view(self.successors@) }
    }

    spec fn inv(&self) -> bool {
        &&& self.blocks@.len() == self.successors@.len()
        &&& ids_ok(self.blocks@)
    }

    fn new_block(&mut self) -> (id: usize)
        requires
            old(self).inv(),
        ensures
            final(self).inv(),
            (final(self).view(), id as nat) == g_new_block(old(self).view()),
            id == old(self).blocks@.len(),
            final(self).blocks@.len() == old(self).blocks@.len() + 1,
    {
        let id = self.blocks.len();
        self.blocks.push(BasicBlock { id, stmts: Vec::new() });
        self.successors.push(Vec::new());
        assert(self.blocks@.last().stmts@.map_values(|s: BlockStmt| stmt_view(s)) =~= Seq::<StmtView>::empty());
        assert(self.successors@.last()@ =~= Seq::<usize>::empty());
        assert(blocks_view(self.blocks@) =~= blocks_view(old(self).blocks@).push(seq![]));
        assert(succs_view(self.successors@) =~= succs_view(old(self).successors@).push(seq![]));
        id
    }

    fn add_edge(&mut self, from: usize, to: usize)
        requires
            old(self).inv(),
            from < old(self).blocks@.len(),
        ensures
            final(self).inv(),
            final(self).view() == g_add_edge(old(self).view(), from as nat, to as nat),
            final(self).blocks@.len() == old(self).blocks@.len(),
    {
        let mut inner = self.successors.remove(from);
        inner.push(to);
        self.successors.insert(from, inner);
        assert(succs_view(self.successors@) =~= succs_view(old(self).successors@).update(
            from as int,
            succs_view(old(self).successors@)[from as int].push(to),
        ));
    }

    fn push_stmt(&mut self, block: usize, stmt: BlockStmt<'a>)
        requires
            old(self).inv(),
            block < old(self).blocks@.len(),
        ensures
            final(self).inv(),
            final(self).view() == g_push(old(self).view(), block as nat, stmt_view(stmt)),
            final(self).blocks@.len() == old(self).blocks@.len(),
    {
        let ghost sv = stmt_view(stmt);
        let mut b = self.blocks.remove(block);
        let ghost old_stmts = b.stmts@;
        b.stmts.push(stmt);
        assert(b.stmts@.map_values(|s: BlockStmt| stmt_view(s)) =~= old_stmts.map_values(|s: BlockStmt| stmt_view(s)).push(sv));
        self.blocks.insert(block, b);
        assert(blocks_view(self.blocks@) =~= blocks_view(old(self).blocks@).update(
            block as int,
            blocks_view(old(self).blocks@)[block as int].push(sv),
        ));
    }

    fn process_stmts(&mut self, stmts: &'a Vec<AstStmt>, current: usize) -> (r: usize)
        requires
            old(self).inv(),
            current < old(self).blocks@.len(),
        ensures
            final(self).inv(),
            (final(self).view(), r as nat) == g_stmts(old(self).view(), stmts@, current as nat),
            r < final(self).blocks@.len(),
            final(self).blocks@.len() >= old(self).blocks@.len(),
        decreases stmts,
    {
        let mut cur = current;
        let mut i: usize = 0;
        while i < stmts.len()
            invariant
                i <= stmts@.len(),
                self.inv(),
                cur < self.blocks@.len(),
                self.blocks@.len() >= old(self).blocks@.len(),
                (self.view(), cur as nat) == g_stmts(old(self).view(), stmts@.take(i as int), current as nat),
            decreases stmts.len() - i,
        {
            assert(stmts@.take(i + 1).drop_last() =~= stmts@.take(i as int));
            assert(stmts@.take(i + 1).last() == stmts@[i as int]);
            cur = self.process_stmt(&stmts[i], cur);
            i = i + 1;
        }
        assert(stmts@.take(stmts@.len() as int) =~= stmts@);
        cur
    }

    fn process_stmt(&mut self, stmt: &'a AstStmt, current: usize) -> (r: usize)
        requires
            old(self).inv(),
            current < old(self).blocks@.len(),
        ensures
            final(self).inv(),
            (final(self).view(), r as nat) == g_stmt(old(self).view(), *stmt, current as nat),
            r < final(self).blocks@.len(),
            final(self).blocks@.len() >= old(self).blocks@.len(),
        decreases stmt,
    {
        match stmt {
            AstStmt::Local { pat, init, .. } => {
                let init_ref: Option<&'a AstExpr> = match init {
                    Some(e) => Some(e),
                    None => None,
                };
                self.push_stmt(current, BlockStmt::Local { pat, init: init_ref });
                current
            },
            AstStmt::Expr(e) => self.process_expr_stmt(e, current),
            _ => current,
        }
    }

    fn process_expr_stmt(&mut self, expr: &'a AstExpr, current: usize) -> (r: usize)
        requires
            old(self).inv(),
            current < old(self).blocks@.len(),
        ensures
            final(self).inv(),
            (final(self).view(), r as nat) == g_expr_stmt(old(self).view(), *expr, current as nat),
            r < final(self).blocks@.len(),
            final(self).blocks@.len() >= old(self).blocks@.len(),
        decreases expr,
    {
        match expr {
            AstExpr::If { cond, then_branch, else_branch, .. } => {
                self.push_stmt(current, BlockStmt::Expr(cond));
                let then_entry = self.new_block();
                self.add_edge(current, then_entry);
                let then_exit = self.process_stmts(&then_branch.stmts, then_entry);
                let join = self.new_block();
                self.add_edge(then_exit, join);
                match else_branch {
                    Some(x) => {
                        let else_entry = self.new_block();
                        self.add_edge(current, else_entry);
                        let else_exit = self.process_expr_stmt(x, else_entry);
                        self.add_edge(else_exit, join);
                    },
                    None => {
                        self.add_edge(current, join);
                    },
                }
                join
            },
            AstExpr::While { cond, body, .. } => {
                let header = self.new_block();
                self.add_edge(current, header);
                self.push_stmt(header, BlockStmt::Expr(cond));
                let body_entry = self.new_block();
                self.add_edge(header, body_entry);
                let body_exit = self.process_stmts(&body.stmts, body_entry);
                self.add_edge(body_exit, header);
                let after = self.new_block();
                self.add_edge(header, after);
                after
            },
            AstExpr::ForLoop { pat, expr: iter, body, .. } => {
                let header = self.new_block();
                self.add_edge(current, header);
                self.push_stmt(header, BlockStmt::ForBinding { pat, iter_expr: iter });
                let body_entry = self.new_block();
                self.add_edge(header, body_entry);
                let body_exit = self.process_stmts(&body.stmts, body_entry);
                self.add_edge(body_exit, header);
                let after = self.new_block();
                self.add_edge(header, after);
                after
            },
            AstExpr::Loop { body, .. } => {
                let header = self.new_block();
                self.add_edge(current, header);
                let body_exit = self.process_stmts(&body.stmts, header);
                self.add_edge(body_exit, header);
                let after = self.new_block();
                self.add_edge(header, after);
                after
            },
            AstExpr::Match { expr: scrutinee, arms, .. } => {
                self.push_stmt(current, BlockStmt::Expr(scrutinee));
                let join = self.new_block();
                self.process_arms(arms, current, join);
                join
            },
            AstExpr::Block { block, .. } => self.process_stmts(&block.stmts, current),
            AstExpr::Return { .. } => {
                self.push_stmt(current, BlockStmt::Expr(expr));
                self.new_block()
            },
            AstExpr::Break { .. } => {
                self.push_stmt(current, BlockStmt::Expr(expr));
                self.new_block()
            },
            AstExpr::Continue { .. } => {
                self.push_stmt(current, BlockStmt::Expr(expr));
                self.new_block()
            },
            _ => {
                self.push_stmt(current, BlockStmt::Expr(expr));
                current
            },
        }
    }

    fn process_arms(&mut self, arms: &'a Vec<AstArm>, current: usize, join: usize)
        requires
            old(self).inv(),
            current < old(self).blocks@.len(),
            join < old(self).blocks@.len(),
        ensures
            final(self).inv(),
            final(self).view() == g_arms(old(self).view(), arms@, current as nat, join as nat),
            final(self).blocks@.len() >= old(self).blocks@.len(),
        decreases arms,
    {
        let mut i: usize = 0;
        while i < arms.len()
            invariant
                i <= arms@.len(),
                self.inv(),
                current < self.blocks@.len(),
                join < self.blocks@.len(),
                self.blocks@.len() >= old(self).blocks@.len(),
                self.view() == g_arms(old(self).view(), arms@.take(i as int), current as nat, join as nat),
            decreases arms.len() - i,
        {
            assert(arms@.take(i + 1).drop_last() =~= arms@.take(i as int));
            assert(arms@.take(i + 1).last() == arms@[i as int]);
            let arm_entry = self.new_block();
            self.add_edge(current, arm_entry);
            let arm_exit = self.process_expr_stmt(&arms[i].body, arm_entry);
            self.add_edge(arm_exit, join);
            i = i + 1;
        }
        assert(arms@.take(arms@.len() as int) =~= arms@);
    }
}

/// The plain values of a graph.
pub open spec fn cfg_view(c: Cfg) -> GraphView {
    GraphView { blocks: blocks_view(c.blocks@), succs: succs_view(c.successors@) }
}

/// Whether every successor index names a block of the graph.
pub open spec fn edges_in_range(g: GraphView) -> bool {
    forall|b: int, k: int| 0 <= b < g.succs.len() && 0 <= k < g.succs[b].len() ==> (#[trigger] g.succs[b][k]) < g.blocks.len()
}

impl<'a> Cfg<'a> {
    /// The control-flow graph of a function body; the entry block is block 0.
    pub fn build(block: &'a AstBlock) -> (c: Cfg<'a>)
        ensures
            cfg_view(c) == g_build(*block),
            c.entry == 0,
            c.blocks@.len() > 0,
            c.blocks@.len() == c.successors@.len(),
            ids_ok(c.blocks@),
    {
        let mut builder = CfgBuilder { blocks: Vec::new(), successors: Vec::new() };
        assert(blocks_view(builder.blocks@) =~= Seq::<Seq<StmtView>>::empty());
        assert(succs_view(builder.successors@) =~= Seq::<Seq<usize>>::empty());
        let entry = builder.new_block();
        builder.process_stmts(&block.stmts, entry);
        Cfg { blocks: builder.blocks, successors: builder.successors, entry }
    }

    /// The number of blocks.
    pub fn block_count(&self) -> (r: usize)
        ensures
            r == self.blocks@.len(),
    {
        self.blocks.len()
    }
}

// ── Laws ────────────────────────────────────────────────────────────────────

/// Whether a graph is well formed: equal tables and every edge in range.
pub open spec fn graph_ok(g: GraphView) -> bool {
    graph_wf(g) && edges_in_range(g)
}

proof fn lemma_ops_ok(g: GraphView, a: nat, b: nat, s: StmtView)
    requires
        graph_ok(g),
    ensures
        graph_ok(g_new_block(g).0) && g_new_block(g).1 < g_new_block(g).0.blocks.len()
            && g_new_block(g).0.blocks.len() == g.blocks.len() + 1,
        a < g.blocks.len() && b < g.blocks.len() ==> graph_ok(g_add_edge(g, a, b)) && g_add_edge(
            g,
            a,
            b,
        ).blocks.len() == g.blocks.len(),
        a < g.blocks.len() ==> graph_ok(g_push(g, a, s)) && g_push(g, a, s).blocks.len() == g.blocks.len(),
{
    let h = g_new_block(g).0;
    assert forall|x: int, k: int| 0 <= x < h.succs.len() && 0 <= k < h.succs[x].len() implies (
    #[trigger] h.succs[x][k]) < h.blocks.len() by {
        if x < g.succs.len() {
            assert(h.succs[x] == g.succs[x]);
        }
    }
    if a < g.blocks.len() && b < g.blocks.len() {
        let e = g_add_edge(g, a, b);
        assert forall|x: int, k: int| 0 <= x < e.succs.len() && 0 <= k < e.succs[x].len() implies (
        #[trigger] e.succs[x][k]) < e.blocks.len() by {
            if x != a {
                assert(e.succs[x] == g.succs[x]);
            } else if k < g.succs[x].len() {
                assert(e.succs[x][k] == g.succs[x][k]);
            }
        }
    }
}

proof fn lemma_stmts_ok(g: GraphView, ss: Seq<AstStmt>, cur: nat)
    requires
        graph_ok(g),
        cur < g.blocks.len(),
    ensures
        graph_ok(g_stmts(g, ss, cur).0),
        g_stmts(g, ss, cur).1 < g_stmts(g, ss, cur).0.blocks.len(),
        g_stmts(g, ss, cur).0.blocks.len() >= g.blocks.len(),
    decreases ss,
{
    if ss.len() > 0 {
        lemma_stmts_ok(g, ss.drop_last(), cur);
        let (g1, c1) = g_stmts(g, ss.drop_last(), cur);
        lemma_stmt_ok(g1, ss.last(), c1);
    }
}

proof fn lemma_stmt_ok(g: GraphView, s: AstStmt, cur: nat)
    requires
        graph_ok(g),
        cur < g.blocks.len(),
    ensures
        graph_ok(g_stmt(g, s, cur).0),
        g_stmt(g, s, cur).1 < g_stmt(g, s, cur).0.blocks.len(),
        g_stmt(g, s, cur).0.blocks.len() >= g.blocks.len(),
    decreases s,
{
    match s {
        AstStmt::Local { pat, init, .. } => {
            lemma_ops_ok(g, cur, cur, StmtView::Local { pat, init });
        },
        AstStmt::Expr(e) => lemma_expr_stmt_ok(g, e, cur),
        _ => {},
    }
}

proof fn lemma_arms_ok(g: GraphView, arms: Seq<AstArm>, cur: nat, join: nat)
    requires
        graph_ok(g),
        cur < g.blocks.len(),
        join < g.blocks.len(),
    ensures
        graph_ok(g_arms(g, arms, cur, join)),
        g_arms(g, arms, cur, join).blocks.len() >= g.blocks.len(),
    decreases arms,
{
    if arms.len() > 0 {
        lemma_arms_ok(g, arms.drop_last(), cur, join);
        let g1 = g_arms(g, arms.drop_last(), cur, join);
        lemma_ops_ok(g1, 0, 0, StmtView::Expr(arms.last().body));
        let (g2, arm_entry) = g_new_block(g1);
        lemma_ops_ok(g2, cur, arm_entry, StmtView::Expr(arms.last().body));
        let g3 = g_add_edge(g2, cur, arm_entry);
        lemma_expr_stmt_ok(g3, arms.last().body, arm_entry);
        let (g4, arm_exit) = g_expr_stmt(g3, arms.last().body, arm_entry);
        lemma_ops_ok(g4, arm_exit, join, StmtView::Expr(arms.last().body));
    }
}

proof fn lemma_expr_stmt_ok(g: GraphView, e: AstExpr, cur: nat)
    requires
        graph_ok(g),
        cur < g.blocks.len(),
    ensures
        graph_ok(g_expr_stmt(g, e, cur).0),
        g_expr_stmt(g, e, cur).1 < g_expr_stmt(g, e, cur).0.blocks.len(),
        g_expr_stmt(g, e, cur).0.blocks.len() >= g.blocks.len(),
    decreases e,
{
    let sv = StmtView::Expr(e);
    match e {
        AstExpr::If { cond, then_branch, else_branch, .. } => {
            lemma_ops_ok(g, cur, cur, StmtView::Expr(*cond));
            let g1 = g_push(g, cur, StmtView::Expr(*cond));
            lemma_ops_ok(g1, 0, 0, sv);
            let (g2, then_entry) = g_new_block(g1);
            lemma_ops_ok(g2, cur, then_entry, sv);
            let g3 = g_add_edge(g2, cur, then_entry);
            lemma_stmts_ok(g3, then_branch.stmts@, then_entry);
            let (g4, then_exit) = g_stmts(g3, then_branch.stmts@, then_entry);
            lemma_ops_ok(g4, 0, 0, sv);
            let (g5, join) = g_new_block(g4);
            lemma_ops_ok(g5, then_exit, join, sv);
            let g6 = g_add_edge(g5, then_exit, join);
            match else_branch {
                Some(x) => {
                    lemma_ops_ok(g6, 0, 0, sv);
                    let (g7, else_entry) = g_new_block(g6);
                    lemma_ops_ok(g7, cur, else_entry, sv);
                    let g8 = g_add_edge(g7, cur, else_entry);
                    lemma_expr_stmt_ok(g8, *x, else_entry);
                    let (g9, else_exit) = g_expr_stmt(g8, *x, else_entry);
                    lemma_ops_ok(g9, else_exit, join, sv);
                },
                None => {
                    lemma_ops_ok(g6, cur, join, sv);
                },
            }
        },
        AstExpr::While { cond, body, .. } => {
            lemma_ops_ok(g, 0, 0, sv);
            let (g1, header) = g_new_block(g);
            lemma_ops_ok(g1, cur, header, StmtView::Expr(*cond));
            let g2 = g_add_edge(g1, cur, header);
            lemma_ops_ok(g2, header, header, StmtView::Expr(*cond));
            let g3 = g_push(g2, header, StmtView::Expr(*cond));
            lemma_ops_ok(g3, 0, 0, sv);
            let (g4, body_entry) = g_new_block(g3);
            lemma_ops_ok(g4, header, body_entry, sv);
            let g5 = g_add_edge(g4, header, body_entry);
            lemma_stmts_ok(g5, body.stmts@, body_entry);
            let (g6, body_exit) = g_stmts(g5, body.stmts@, body_entry);
            lemma_ops_ok(g6, body_exit, header, sv);
            let g7 = g_add_edge(g6, body_exit, header);
            lemma_ops_ok(g7, 0, 0, sv);
            let (g8, after) = g_new_block(g7);
            lemma_ops_ok(g8, header, after, sv);
        },
        AstExpr::ForLoop { pat, expr, body, .. } => {
            let fb = StmtView::ForBinding { pat, iter_expr: *expr };
            lemma_ops_ok(g, 0, 0, sv);
            let (g1, header) = g_new_block(g);
            lemma_ops_ok(g1, cur, header, fb);
            let g2 = g_add_edge(g1, cur, header);
            lemma_ops_ok(g2, header, header, fb);
            let g3 = g_push(g2, header, fb);
            lemma_ops_ok(g3, 0, 0, sv);
            let (g4, body_entry) = g_new_block(g3);
            lemma_ops_ok(g4, header, body_entry, sv);
            let g5 = g_add_edge(g4, header, body_entry);
            lemma_stmts_ok(g5, body.stmts@, body_entry);
            let (g6, body_exit) = g_stmts(g5, body.stmts@, body_entry);
            lemma_ops_ok(g6, body_exit, header, sv);
            let g7 = g_add_edge(g6, body_exit, header);
            lemma_ops_ok(g7, 0, 0, sv);
            let (g8, after) = g_new_block(g7);
            lemma_ops_ok(g8, header, after, sv);
        },
        AstExpr::Loop { body, .. } => {
            lemma_ops_ok(g, 0, 0, sv);
            let (g1, header) = g_new_block(g);
            lemma_ops_ok(g1, cur, header, sv);
            let g2 = g_add_edge(g1, cur, header);
            lemma_stmts_ok(g2, body.stmts@, header);
            let (g3, body_exit) = g_stmts(g2, body.stmts@, header);
            lemma_ops_ok(g3, body_exit, header, sv);
            let g4 = g_add_edge(g3, body_exit, header);
            lemma_ops_ok(g4, 0, 0, sv);
            let (g5, after) = g_new_block(g4);
            lemma_ops_ok(g5, header, after, sv);
        },
        AstExpr::Match { expr, arms, .. } => {
            lemma_ops_ok(g, cur, cur, StmtView::Expr(*expr));
            let g1 = g_push(g, cur, StmtView::Expr(*expr));
            lemma_ops_ok(g1, 0, 0, sv);
            let (g2, join) = g_new_block(g1);
            lemma_arms_ok(g2, arms@, cur, join);
        },
        AstExpr::Block { block, .. } => {
            lemma_stmts_ok(g, block.stmts@, cur);
        },
        AstExpr::Return { .. } | AstExpr::Break { .. } | AstExpr::Continue { .. } => {
            lemma_ops_ok(g, cur, cur, sv);
            lemma_ops_ok(g_push(g, cur, sv), 0, 0, sv);
        },
        _ => {
            lemma_ops_ok(g, cur, cur, sv);
        },
    }
}

/// A body's graph is well formed: one successor list per block, and every
/// edge leads to a block of the graph.
pub proof fn law_cfg_well_formed(b: AstBlock)
    ensures
        graph_ok(g_build(b)),
        g_build(b).blocks.len() > 0,
{
    let g0 = GraphView { blocks: seq![], succs: seq![] };
    lemma_ops_ok(g0, 0, 0, StmtView::Expr(AstExpr::Continue { line: 0 }));
    let (g1, entry) = g_new_block(g0);
    lemma_stmts_ok(g1, b.stmts@, entry);
}

// ── Laws of the block structure ─────────────────────────────────────────────

/// Whether an expression is control flow that the graph turns into blocks
/// and edges when it stands as a statement.
pub open spec fn is_control(e: AstExpr) -> bool {
    e is If || e is While || e is ForLoop || e is Loop || e is Match || e is Block
}

/// The conditions of the `if`s and `while`s and the scrutinees of the
/// `match`es that an expression statement holds in statement position.
pub open spec fn expr_conditions(e: AstExpr) -> Set<AstExpr>
    decreases e,
{
    match e {
        AstExpr::If { cond, then_branch, else_branch, .. } => set![*cond].union(stmts_conditions(then_branch.stmts@)).union(
            match else_branch {
                Some(x) => expr_conditions(*x),
                None => Set::empty(),
            },
        ),
        AstExpr::While { cond, body, .. } => set![*cond].union(stmts_conditions(body.stmts@)),
        AstExpr::ForLoop { body, .. } => stmts_conditions(body.stmts@),
        AstExpr::Loop { body, .. } => stmts_conditions(body.stmts@),
        AstExpr::Match { expr, arms, .. } => set![*expr].union(arms_conditions(arms@)),
        AstExpr::Block { block, .. } => stmts_conditions(block.stmts@),
        _ => Set::empty(),
    }
}

/// The conditions and scrutinees that statements hold in statement position.
pub open spec fn stmts_conditions(ss: Seq<AstStmt>) -> Set<AstExpr>
    decreases ss,
{
    if ss.len() == 0 {
        Set::empty()
    } else {
        stmts_conditions(ss.drop_last()).union(
            match ss.last() {
                AstStmt::Expr(e) => expr_conditions(e),
                _ => Set::empty(),
            },
        )
    }
}

/// The conditions and scrutinees that match arms' bodies hold.
pub open spec fn arms_conditions(arms: Seq<AstArm>) -> Set<AstExpr>
    decreases arms,
{
    if arms.len() == 0 {
        Set::empty()
    } else {
        arms_conditions(arms.drop_last()).union(expr_conditions(arms.last().body))
    }
}

/// Whether every block statement of `g` that is a control-flow expression
/// is one of `c`.
pub open spec fn control_within(g: GraphView, c: Set<AstExpr>) -> bool {
    forall|k: int, j: int|
        0 <= k < g.blocks.len() && 0 <= j < g.blocks[k].len() ==> match #[trigger] g.blocks[k][j] {
            StmtView::Expr(x) => is_control(x) ==> c.contains(x),
            _ => true,
        }
}

/// Whether `h` keeps the blocks of `g` and changes none of the first `c`.
pub open spec fn unchanged_below(g: GraphView, h: GraphView, c: nat) -> bool {
    &&& h.blocks.len() >= g.blocks.len()
    &&& forall|k: int| 0 <= k < c && k < g.blocks.len() ==> #[trigger] h.blocks[k] == g.blocks[k] && h.succs[k] == g.succs[k]
}

proof fn lemma_ops_frame(g: GraphView, a: nat, b: nat, s: StmtView, c: Set<AstExpr>)
    requires
        graph_ok(g),
    ensures
        unchanged_below(g, g_new_block(g).0, g.blocks.len()),
        g_new_block(g).1 == g.blocks.len(),
        control_within(g, c) ==> control_within(g_new_block(g).0, c),
        a < g.blocks.len() ==> unchanged_below(g, g_add_edge(g, a, b), a),
        a < g.blocks.len() ==> g_add_edge(g, a, b).blocks == g.blocks,
        a < g.blocks.len() ==> g_add_edge(g, a, b).succs[a as int] == g.succs[a as int].push(b as usize),
        a < g.blocks.len() ==> unchanged_below(g, g_push(g, a, s), a),
        a < g.blocks.len() ==> g_push(g, a, s).succs == g.succs,
        a < g.blocks.len() && control_within(g, c) && (s matches StmtView::Expr(x) ==> (is_control(x) ==> c.contains(x)))
            ==> control_within(g_push(g, a, s), c),
{
    let h = g_new_block(g).0;
    if control_within(g, c) {
        assert forall|k: int, j: int| 0 <= k < h.blocks.len() && 0 <= j < h.blocks[k].len() implies match #[trigger] h.blocks[k][j] {
            StmtView::Expr(x) => is_control(x) ==> c.contains(x),
            _ => true,
        } by {
            assert(k < g.blocks.len());
            assert(h.blocks[k] == g.blocks[k]);
        }
    }
    if a < g.blocks.len() && control_within(g, c) && (s matches StmtView::Expr(x) ==> (is_control(x) ==> c.contains(x))) {
        let p = g_push(g, a, s);
        assert forall|k: int, j: int| 0 <= k < p.blocks.len() && 0 <= j < p.blocks[k].len() implies match #[trigger] p.blocks[k][j] {
            StmtView::Expr(x) => is_control(x) ==> c.contains(x),
            _ => true,
        } by {
            if k == a {
                if j < g.blocks[k].len() {
                    assert(p.blocks[k][j] == g.blocks[k][j]);
                } else {
                    assert(p.blocks[k][j] == s);
                }
            } else {
                assert(p.blocks[k] == g.blocks[k]);
            }
        }
    }
}

proof fn lemma_unchanged_trans(g1: GraphView, g2: GraphView, g3: GraphView, c: nat, d: nat)
    requires
        unchanged_below(g1, g2, c),
        unchanged_below(g2, g3, d),
    ensures
        unchanged_below(g1, g3, if c < d { c } else { d }),
{
    let m = if c < d { c } else { d };
    assert forall|k: int| 0 <= k < m && k < g1.blocks.len() implies #[trigger] g3.blocks[k] == g1.blocks[k] && g3.succs[k] == g1.succs[k] by {
        assert(g2.blocks[k] == g1.blocks[k]);
        assert(g3.blocks[k] == g2.blocks[k]);
    }
}

proof fn lemma_stmts_frame(g: GraphView, ss: Seq<AstStmt>, cur: nat, c: Set<AstExpr>)
    requires
        graph_ok(g),
        cur < g.blocks.len(),
    ensures
        unchanged_below(g, g_stmts(g, ss, cur).0, cur),
        g_stmts(g, ss, cur).1 >= cur,
        control_within(g, c) && stmts_conditions(ss).subset_of(c) ==> control_within(g_stmts(g, ss, cur).0, c),
    decreases ss,
{
    if ss.len() > 0 {
        lemma_stmts_ok(g, ss.drop_last(), cur);
        lemma_stmts_frame(g, ss.drop_last(), cur, c);
        let (g1, c1) = g_stmts(g, ss.drop_last(), cur);
        lemma_stmt_frame(g1, ss.last(), c1, c);
        lemma_unchanged_trans(g, g1, g_stmt(g1, ss.last(), c1).0, cur, c1);
        if stmts_conditions(ss).subset_of(c) {
            assert(stmts_conditions(ss.drop_last()).subset_of(c));
            match ss.last() {
                AstStmt::Expr(e) => assert(expr_conditions(e).subset_of(c)),
                _ => {},
            }
        }
    } else {
        assert(unchanged_below(g, g, cur));
    }
}

proof fn lemma_stmt_frame(g: GraphView, s: AstStmt, cur: nat, c: Set<AstExpr>)
    requires
        graph_ok(g),
        cur < g.blocks.len(),
    ensures
        unchanged_below(g, g_stmt(g, s, cur).0, cur),
        g_stmt(g, s, cur).1 >= cur,
        control_within(g, c) && (s matches AstStmt::Expr(e) ==> expr_conditions(e).subset_of(c)) ==> control_within(
            g_stmt(g, s, cur).0,
            c,
        ),
    decreases s,
{
    match s {
        AstStmt::Local { pat, init, .. } => {
            lemma_ops_frame(g, cur, cur, StmtView::Local { pat, init }, c);
        },
        AstStmt::Expr(e) => lemma_expr_stmt_frame(g, e, cur, c),
        _ => {
            assert(unchanged_below(g, g, cur));
        },
    }
}

proof fn lemma_arms_frame(g: GraphView, arms: Seq<AstArm>, cur: nat, join: nat, c: Set<AstExpr>)
    requires
        graph_ok(g),
        cur < g.blocks.len(),
        join < g.blocks.len(),
    ensures
        unchanged_below(g, g_arms(g, arms, cur, join), cur),
        g_arms(g, arms, cur, join).succs[cur as int].len() == g.succs[cur as int].len() + arms.len(),
        control_within(g, c) && arms_conditions(arms).subset_of(c) ==> control_within(g_arms(g, arms, cur, join), c),
    decreases arms,
{
    if arms.len() > 0 {
        let body = arms.last().body;
        let sv = StmtView::Expr(body);
        lemma_arms_ok(g, arms.drop_last(), cur, join);
        lemma_arms_frame(g, arms.drop_last(), cur, join, c);
        let g1 = g_arms(g, arms.drop_last(), cur, join);
        lemma_ops_ok(g1, 0, 0, sv);
        lemma_ops_frame(g1, 0, 0, sv, c);
        let (g2, arm_entry) = g_new_block(g1);
        lemma_ops_ok(g2, cur, arm_entry, sv);
        lemma_ops_frame(g2, cur, arm_entry, sv, c);
        let g3 = g_add_edge(g2, cur, arm_entry);
        lemma_expr_stmt_ok(g3, body, arm_entry);
        lemma_expr_stmt_frame(g3, body, arm_entry, c);
        let (g4, arm_exit) = g_expr_stmt(g3, body, arm_entry);
        lemma_ops_ok(g4, arm_exit, join, sv);
        lemma_ops_frame(g4, arm_exit, join, sv, c);
        let g5 = g_add_edge(g4, arm_exit, join);
        lemma_unchanged_trans(g, g1, g2, cur, g1.blocks.len());
        lemma_unchanged_trans(g, g2, g3, cur, cur);
        lemma_unchanged_trans(g, g3, g4, cur, arm_entry);
        lemma_unchanged_trans(g, g4, g5, cur, arm_exit);
        assert(g2.succs[cur as int] == g1.succs[cur as int]);
        assert(cur < arm_entry);
        assert(g4.blocks[cur as int] == g3.blocks[cur as int]);
        assert(g4.succs[cur as int] == g3.succs[cur as int]);
        assert(g5.blocks[cur as int] == g4.blocks[cur as int]);
        assert(g5.succs[cur as int] == g4.succs[cur as int]);
        if arms_conditions(arms).subset_of(c) {
            assert(arms_conditions(arms.drop_last()).subset_of(c));
            assert(expr_conditions(body).subset_of(c));
        }
    } else {
        assert(unchanged_below(g, g, cur));
    }
}

proof fn lemma_expr_stmt_frame(g: GraphView, e: AstExpr, cur: nat, c: Set<AstExpr>)
    requires
        graph_ok(g),
        cur < g.blocks.len(),
    ensures
        unchanged_below(g, g_expr_stmt(g, e, cur).0, cur),
        g_expr_stmt(g, e, cur).1 >= cur,
        control_within(g, c) && expr_conditions(e).subset_of(c) ==> control_within(g_expr_stmt(g, e, cur).0, c),
    decreases e,
{
    let sv = StmtView::Expr(e);
    match e {
        AstExpr::If { cond, then_branch, else_branch, .. } => {
            let cv = StmtView::Expr(*cond);
            lemma_ops_ok(g, cur, cur, cv);
            lemma_ops_frame(g, cur, cur, cv, c);
            let g1 = g_push(g, cur, cv);
            lemma_ops_ok(g1, 0, 0, sv);
            lemma_ops_frame(g1, 0, 0, sv, c);
            let (g2, then_entry) = g_new_block(g1);
            lemma_ops_ok(g2, cur, then_entry, sv);
            lemma_ops_frame(g2, cur, then_entry, sv, c);
            let g3 = g_add_edge(g2, cur, then_entry);
            lemma_stmts_ok(g3, then_branch.stmts@, then_entry);
            lemma_stmts_frame(g3, then_branch.stmts@, then_entry, c);
            let (g4, then_exit) = g_stmts(g3, then_branch.stmts@, then_entry);
            lemma_ops_ok(g4, 0, 0, sv);
            lemma_ops_frame(g4, 0, 0, sv, c);
            let (g5, join) = g_new_block(g4);
            lemma_ops_ok(g5, then_exit, join, sv);
            lemma_ops_frame(g5, then_exit, join, sv, c);
            let g6 = g_add_edge(g5, then_exit, join);
            lemma_unchanged_trans(g, g1, g2, cur, g1.blocks.len());
            lemma_unchanged_trans(g, g2, g3, cur, cur);
            lemma_unchanged_trans(g, g3, g4, cur, then_entry);
            lemma_unchanged_trans(g, g4, g5, cur, g4.blocks.len());
            lemma_unchanged_trans(g, g5, g6, cur, then_exit);
            if expr_conditions(e).subset_of(c) {
                assert(c.contains(*cond));
                assert(stmts_conditions(then_branch.stmts@).subset_of(c));
            }
            match else_branch {
                Some(x) => {
                    lemma_ops_ok(g6, 0, 0, sv);
                    lemma_ops_frame(g6, 0, 0, sv, c);
                    let (g7, else_entry) = g_new_block(g6);
                    lemma_ops_ok(g7, cur, else_entry, sv);
                    lemma_ops_frame(g7, cur, else_entry, sv, c);
                    let g8 = g_add_edge(g7, cur, else_entry);
                    lemma_expr_stmt_ok(g8, *x, else_entry);
                    lemma_expr_stmt_frame(g8, *x, else_entry, c);
                    let (g9, else_exit) = g_expr_stmt(g8, *x, else_entry);
                    lemma_ops_ok(g9, else_exit, join, sv);
                    lemma_ops_frame(g9, else_exit, join, sv, c);
                    let g10 = g_add_edge(g9, else_exit, join);
                    lemma_unchanged_trans(g, g6, g7, cur, g6.blocks.len());
                    lemma_unchanged_trans(g, g7, g8, cur, cur);
                    lemma_unchanged_trans(g, g8, g9, cur, else_entry);
                    lemma_unchanged_trans(g, g9, g10, cur, else_exit);
                    if expr_conditions(e).subset_of(c) {
                        assert(expr_conditions(*x).subset_of(c));
                    }
                },
                None => {
                    lemma_ops_ok(g6, cur, join, sv);
                    lemma_ops_frame(g6, cur, join, sv, c);
                    lemma_unchanged_trans(g, g6, g_add_edge(g6, cur, join), cur, cur);
                },
            }
        },
        AstExpr::While { cond, body, .. } => {
            let cv = StmtView::Expr(*cond);
            lemma_ops_ok(g, 0, 0, sv);
            lemma_ops_frame(g, 0, 0, sv, c);
            let (g1, header) = g_new_block(g);
            lemma_ops_ok(g1, cur, header, cv);
            lemma_ops_frame(g1, cur, header, cv, c);
            let g2 = g_add_edge(g1, cur, header);
            lemma_ops_ok(g2, header, header, cv);
            lemma_ops_frame(g2, header, header, cv, c);
            let g3 = g_push(g2, header, cv);
            lemma_ops_ok(g3, 0, 0, sv);
            lemma_ops_frame(g3, 0, 0, sv, c);
            let (g4, body_entry) = g_new_block(g3);
            lemma_ops_ok(g4, header, body_entry, sv);
            lemma_ops_frame(g4, header, body_entry, sv, c);
            let g5 = g_add_edge(g4, header, body_entry);
            lemma_stmts_ok(g5, body.stmts@, body_entry);
            lemma_stmts_frame(g5, body.stmts@, body_entry, c);
            let (g6, body_exit) = g_stmts(g5, body.stmts@, body_entry);
            lemma_ops_ok(g6, body_exit, header, sv);
            lemma_ops_frame(g6, body_exit, header, sv, c);
            let g7 = g_add_edge(g6, body_exit, header);
            lemma_ops_ok(g7, 0, 0, sv);
            lemma_ops_frame(g7, 0, 0, sv, c);
            let (g8, after) = g_new_block(g7);
            lemma_ops_ok(g8, header, after, sv);
            lemma_ops_frame(g8, header, after, sv, c);
            lemma_unchanged_trans(g, g1, g2, g.blocks.len(), cur);
            lemma_unchanged_trans(g, g2, g3, cur, header);
            lemma_unchanged_trans(g, g3, g4, cur, g3.blocks.len());
            lemma_unchanged_trans(g, g4, g5, cur, header);
            lemma_unchanged_trans(g, g5, g6, cur, body_entry);
            lemma_unchanged_trans(g, g6, g7, cur, body_exit);
            lemma_unchanged_trans(g, g7, g8, cur, g7.blocks.len());
            lemma_unchanged_trans(g, g8, g_add_edge(g8, header, after), cur, header);
            if expr_conditions(e).subset_of(c) {
                assert(c.contains(*cond));
                assert(stmts_conditions(body.stmts@).subset_of(c));
            }
        },
        AstExpr::ForLoop { pat, expr, body, .. } => {
            let fb = StmtView::ForBinding { pat, iter_expr: *expr };
            lemma_ops_ok(g, 0, 0, sv);
            lemma_ops_frame(g, 0, 0, sv, c);
            let (g1, header) = g_new_block(g);
            lemma_ops_ok(g1, cur, header, fb);
            lemma_ops_frame(g1, cur, header, fb, c);
            let g2 = g_add_edge(g1, cur, header);
            lemma_ops_ok(g2, header, header, fb);
            lemma_ops_frame(g2, header, header, fb, c);
            let g3 = g_push(g2, header, fb);
            lemma_ops_ok(g3, 0, 0, sv);
            lemma_ops_frame(g3, 0, 0, sv, c);
            let (g4, body_entry) = g_new_block(g3);
            lemma_ops_ok(g4, header, body_entry, sv);
            lemma_ops_frame(g4, header, body_entry, sv, c);
            let g5 = g_add_edge(g4, header, body_entry);
            lemma_stmts_ok(g5, body.stmts@, body_entry);
            lemma_stmts_frame(g5, body.stmts@, body_entry, c);
            let (g6, body_exit) = g_stmts(g5, body.stmts@, body_entry);
            lemma_ops_ok(g6, body_exit, header, sv);
            lemma_ops_frame(g6, body_exit, header, sv, c);
            let g7 = g_add_edge(g6, body_exit, header);
            lemma_ops_ok(g7, 0, 0, sv);
            lemma_ops_frame(g7, 0, 0, sv, c);
            let (g8, after) = g_new_block(g7);
            lemma_ops_ok(g8, header, after, sv);
            lemma_ops_frame(g8, header, after, sv, c);
            lemma_unchanged_trans(g, g1, g2, g.blocks.len(), cur);
            lemma_unchanged_trans(g, g2, g3, cur, header);
            lemma_unchanged_trans(g, g3, g4, cur, g3.blocks.len());
            lemma_unchanged_trans(g, g4, g5, cur, header);
            lemma_unchanged_trans(g, g5, g6, cur, body_entry);
            lemma_unchanged_trans(g, g6, g7, cur, body_exit);
            lemma_unchanged_trans(g, g7, g8, cur, g7.blocks.len());
            lemma_unchanged_trans(g, g8, g_add_edge(g8, header, after), cur, header);
        },
        AstExpr::Loop { body, .. } => {
            lemma_ops_ok(g, 0, 0, sv);
            lemma_ops_frame(g, 0, 0, sv, c);
            let (g1, header) = g_new_block(g);
            lemma_ops_ok(g1, cur, header, sv);
            lemma_ops_frame(g1, cur, header, sv, c);
            let g2 = g_add_edge(g1, cur, header);
            lemma_stmts_ok(g2, body.stmts@, header);
            lemma_stmts_frame(g2, body.stmts@, header, c);
            let (g3, body_exit) = g_stmts(g2, body.stmts@, header);
            lemma_ops_ok(g3, body_exit, header, sv);
            lemma_ops_frame(g3, body_exit, header, sv, c);
            let g4 = g_add_edge(g3, body_exit, header);
            lemma_ops_ok(g4, 0, 0, sv);
            lemma_ops_frame(g4, 0, 0, sv, c);
            let (g5, after) = g_new_block(g4);
            lemma_ops_ok(g5, header, after, sv);
            lemma_ops_frame(g5, header, after, sv, c);
            lemma_unchanged_trans(g, g1, g2, g.blocks.len(), cur);
            lemma_unchanged_trans(g, g2, g3, cur, header);
            lemma_unchanged_trans(g, g3, g4, cur, body_exit);
            lemma_unchanged_trans(g, g4, g5, cur, g4.blocks.len());
            lemma_unchanged_trans(g, g5, g_add_edge(g5, header, after), cur, header);
        },
        AstExpr::Match { expr, arms, .. } => {
            let cv = StmtView::Expr(*expr);
            lemma_ops_ok(g, cur, cur, cv);
            lemma_ops_frame(g, cur, cur, cv, c);
            let g1 = g_push(g, cur, cv);
            lemma_ops_ok(g1, 0, 0, sv);
            lemma_ops_frame(g1, 0, 0, sv, c);
            let (g2, join) = g_new_block(g1);
            lemma_arms_ok(g2, arms@, cur, join);
            lemma_arms_frame(g2, arms@, cur, join, c);
            lemma_unchanged_trans(g, g1, g2, cur, g1.blocks.len());
            lemma_unchanged_trans(g, g2, g_arms(g2, arms@, cur, join), cur, cur);
            if expr_conditions(e).subset_of(c) {
                assert(c.contains(*expr));
                assert(arms_conditions(arms@).subset_of(c));
            }
        },
        AstExpr::Block { block, .. } => {
            lemma_stmts_frame(g, block.stmts@, cur, c);
        },
        AstExpr::Return { .. } | AstExpr::Break { .. } | AstExpr::Continue { .. } => {
            lemma_ops_ok(g, cur, cur, sv);
            lemma_ops_frame(g, cur, cur, sv, c);
            lemma_ops_ok(g_push(g, cur, sv), 0, 0, sv);
            lemma_ops_frame(g_push(g, cur, sv), 0, 0, sv, c);
            lemma_unchanged_trans(g, g_push(g, cur, sv), g_new_block(g_push(g, cur, sv)).0, cur, g.blocks.len());
        },
        _ => {
            lemma_ops_frame(g, cur, cur, sv, c);
        },
    }
}

/// Control flow in statement position never stays a statement: in a body's
/// graph, a block statement that is itself an `if`, `while`, `for`, `loop`,
/// `match` or block expression is always the condition of an `if` or a
/// `while`, or the scrutinee of a `match`, of that body.
pub proof fn law_cfg_control_flow_only_as_conditions(b: AstBlock)
    ensures
        control_within(g_build(b), stmts_conditions(b.stmts@)),
{
    let c = stmts_conditions(b.stmts@);
    let g0 = GraphView { blocks: seq![], succs: seq![] };
    lemma_ops_ok(g0, 0, 0, StmtView::Expr(AstExpr::Continue { line: 0 }));
    let (g1, entry) = g_new_block(g0);
    assert(control_within(g1, c)) by {
        assert forall|k: int, j: int| 0 <= k < g1.blocks.len() && 0 <= j < g1.blocks[k].len() implies match #[trigger] g1.blocks[k][j] {
            StmtView::Expr(x) => is_control(x) ==> c.contains(x),
            _ => true,
        } by {
            assert(g1.blocks[k].len() == 0);
        }
    }
    lemma_stmts_frame(g1, b.stmts@, entry, c);
}

/// The successor-list entry naming block `k`.
pub open spec fn block_id(k: int) -> usize {
    k as usize
}

/// An `if` statement gives the block where it starts exactly two more
/// successors: first the entry of its then-branch, the first block it
/// creates, then a later block of its own (the else-branch's entry, or the
/// join when there is no `else`).
pub proof fn law_cfg_if_branches_twice(g: GraphView, e: AstExpr, cur: nat)
    requires
        graph_ok(g),
        cur < g.blocks.len(),
        e is If,
    ensures
        ({
            let h = g_expr_stmt(g, e, cur).0;
            let n = g.succs[cur as int].len() as int;
            &&& h.succs[cur as int].len() == n + 2
            &&& h.succs[cur as int].subrange(0, n) == g.succs[cur as int]
            &&& h.succs[cur as int][n] == block_id(g.blocks.len() as int)
            &&& exists|k: int| g.blocks.len() < k < h.blocks.len() && h.succs[cur as int][n + 1] == #[trigger] block_id(k)
        }),
{
    let c = Set::<AstExpr>::empty();
    match e {
        AstExpr::If { cond, then_branch, else_branch, .. } => {
            let sv = StmtView::Expr(e);
            let cv = StmtView::Expr(*cond);
            let n = g.succs[cur as int].len() as int;
            lemma_ops_ok(g, cur, cur, cv);
            lemma_ops_frame(g, cur, cur, cv, c);
            let g1 = g_push(g, cur, cv);
            lemma_ops_ok(g1, 0, 0, sv);
            lemma_ops_frame(g1, 0, 0, sv, c);
            let (g2, then_entry) = g_new_block(g1);
            assert(g2.blocks[cur as int] == g1.blocks[cur as int]);
            lemma_ops_ok(g2, cur, then_entry, sv);
            lemma_ops_frame(g2, cur, then_entry, sv, c);
            let g3 = g_add_edge(g2, cur, then_entry);
            lemma_stmts_ok(g3, then_branch.stmts@, then_entry);
            lemma_stmts_frame(g3, then_branch.stmts@, then_entry, c);
            let (g4, then_exit) = g_stmts(g3, then_branch.stmts@, then_entry);
            assert(g4.blocks[cur as int] == g3.blocks[cur as int]);
            lemma_ops_ok(g4, 0, 0, sv);
            lemma_ops_frame(g4, 0, 0, sv, c);
            let (g5, join) = g_new_block(g4);
            assert(g5.blocks[cur as int] == g4.blocks[cur as int]);
            lemma_ops_ok(g5, then_exit, join, sv);
            lemma_ops_frame(g5, then_exit, join, sv, c);
            let g6 = g_add_edge(g5, then_exit, join);
            assert(g6.blocks[cur as int] == g5.blocks[cur as int]);
            let s3 = g.succs[cur as int].push(then_entry as usize);
            assert(g6.succs[cur as int] == s3);
            match else_branch {
                Some(x) => {
                    lemma_ops_ok(g6, 0, 0, sv);
                    lemma_ops_frame(g6, 0, 0, sv, c);
                    let (g7, else_entry) = g_new_block(g6);
                    assert(g7.blocks[cur as int] == g6.blocks[cur as int]);
                    lemma_ops_ok(g7, cur, else_entry, sv);
                    lemma_ops_frame(g7, cur, else_entry, sv, c);
                    let g8 = g_add_edge(g7, cur, else_entry);
                    lemma_expr_stmt_ok(g8, *x, else_entry);
                    lemma_expr_stmt_frame(g8, *x, else_entry, c);
                    let (g9, else_exit) = g_expr_stmt(g8, *x, else_entry);
                    assert(g9.blocks[cur as int] == g8.blocks[cur as int]);
                    lemma_ops_ok(g9, else_exit, join, sv);
                    lemma_ops_frame(g9, else_exit, join, sv, c);
                    let g10 = g_add_edge(g9, else_exit, join);
                    assert(g10.blocks[cur as int] == g9.blocks[cur as int]);
                    assert(g10.succs[cur as int] == s3.push(else_entry as usize));
                    assert(s3.push(else_entry as usize).subrange(0, n) =~= g.succs[cur as int]);
                    assert(g_expr_stmt(g, e, cur).0 == g10);
                    assert(then_entry == g.blocks.len());
                    assert(g.blocks.len() < else_entry);
                    assert(else_entry < g10.blocks.len());
                    assert(g10.succs[cur as int][n + 1] == block_id(else_entry as int));
                },
                None => {
                    lemma_ops_ok(g6, cur, join, sv);
                    lemma_ops_frame(g6, cur, join, sv, c);
                    assert(s3.push(join as usize).subrange(0, n) =~= g.succs[cur as int]);
                    let g7 = g_add_edge(g6, cur, join);
                    assert(g_expr_stmt(g, e, cur).0 == g7);
                    assert(g7.succs[cur as int] == s3.push(join as usize));
                    assert(then_entry == g.blocks.len());
                    assert(g.blocks.len() < join);
                    assert(join < g7.blocks.len());
                    assert(g7.succs[cur as int][n + 1] == block_id(join as int));
                },
            }
        },
        _ => {},
    }
}

/// A `while` or `for` statement opens a header block, the first block it
/// creates, entered from the block where the statement starts; the header
/// holds just the loop's condition (or `for` binding) and has exactly two
/// successors: the body's entry, the next block, and the block after the
/// loop, the last one created.
pub proof fn law_cfg_loop_header_branches_twice(g: GraphView, e: AstExpr, cur: nat)
    requires
        graph_ok(g),
        cur < g.blocks.len(),
        e is While || e is ForLoop,
    ensures
        ({
            let h = g_expr_stmt(g, e, cur).0;
            let header = g.blocks.len() as int;
            &&& h.succs[cur as int] == g.succs[cur as int].push(header as usize)
            &&& h.blocks[header].len() == 1
            &&& h.blocks[header][0] == match e {
                AstExpr::While { cond, .. } => StmtView::Expr(*cond),
                AstExpr::ForLoop { pat, expr, .. } => StmtView::ForBinding { pat, iter_expr: *expr },
                _ => h.blocks[header][0],
            }
            &&& h.succs[header] == seq![(header + 1) as usize, (h.blocks.len() - 1) as usize]
            &&& g_expr_stmt(g, e, cur).1 == h.blocks.len() - 1
        }),
{
    let c = Set::<AstExpr>::empty();
    let sv = StmtView::Expr(e);
    let hs = match e {
        AstExpr::While { cond, .. } => StmtView::Expr(*cond),
        AstExpr::ForLoop { pat, expr, .. } => StmtView::ForBinding { pat, iter_expr: *expr },
        _ => sv,
    };
    let body_stmts: Seq<AstStmt> = match e {
        AstExpr::While { body, .. } => body.stmts@,
        AstExpr::ForLoop { body, .. } => body.stmts@,
        _ => seq![],
    };
    lemma_ops_ok(g, 0, 0, sv);
    lemma_ops_frame(g, 0, 0, sv, c);
    let (g1, header) = g_new_block(g);
    assert(g1.blocks[cur as int] == g.blocks[cur as int]);
    lemma_ops_ok(g1, cur, header, hs);
    lemma_ops_frame(g1, cur, header, hs, c);
    let g2 = g_add_edge(g1, cur, header);
    lemma_ops_ok(g2, header, header, hs);
    lemma_ops_frame(g2, header, header, hs, c);
    let g3 = g_push(g2, header, hs);
    assert(g3.blocks[cur as int] == g2.blocks[cur as int]);
    lemma_ops_ok(g3, 0, 0, sv);
    lemma_ops_frame(g3, 0, 0, sv, c);
    let (g4, body_entry) = g_new_block(g3);
    assert(g4.blocks[cur as int] == g3.blocks[cur as int]);
    assert(g4.blocks[header as int] == g3.blocks[header as int]);
    lemma_ops_ok(g4, header, body_entry, sv);
    lemma_ops_frame(g4, header, body_entry, sv, c);
    let g5 = g_add_edge(g4, header, body_entry);
    assert(g5.blocks[cur as int] == g4.blocks[cur as int]);
    lemma_stmts_ok(g5, body_stmts, body_entry);
    lemma_stmts_frame(g5, body_stmts, body_entry, c);
    let (g6, body_exit) = g_stmts(g5, body_stmts, body_entry);
    assert(g6.blocks[cur as int] == g5.blocks[cur as int]);
    assert(g6.blocks[header as int] == g5.blocks[header as int]);
    lemma_ops_ok(g6, body_exit, header, sv);
    lemma_ops_frame(g6, body_exit, header, sv, c);
    let g7 = g_add_edge(g6, body_exit, header);
    assert(g7.blocks[cur as int] == g6.blocks[cur as int]);
    assert(g7.blocks[header as int] == g6.blocks[header as int]);
    lemma_ops_ok(g7, 0, 0, sv);
    lemma_ops_frame(g7, 0, 0, sv, c);
    let (g8, after) = g_new_block(g7);
    assert(g8.blocks[cur as int] == g7.blocks[cur as int]);
    assert(g8.blocks[header as int] == g7.blocks[header as int]);
    lemma_ops_ok(g8, header, after, sv);
    lemma_ops_frame(g8, header, after, sv, c);
    let g9 = g_add_edge(g8, header, after);
    assert(g9.blocks[cur as int] == g8.blocks[cur as int]);
    assert(g3.blocks[header as int] =~= seq![hs]);
    assert(g9.succs[header as int] =~= seq![body_entry as usize, after as usize]);
}

/// A `match` statement gives the block where it starts one more successor
/// per arm.
pub proof fn law_cfg_match_branches_per_arm(g: GraphView, e: AstExpr, cur: nat)
    requires
        graph_ok(g),
        cur < g.blocks.len(),
        e is Match,
    ensures
        g_expr_stmt(g, e, cur).0.succs[cur as int].len() == g.succs[cur as int].len() + match e {
            AstExpr::Match { arms, .. } => arms@.len(),
            _ => 0,
        },
{
    let c = Set::<AstExpr>::empty();
    match e {
        AstExpr::Match { expr, arms, .. } => {
            let sv = StmtView::Expr(e);
            let cv = StmtView::Expr(*expr);
            lemma_ops_ok(g, cur, cur, cv);
            lemma_ops_frame(g, cur, cur, cv, c);
            let g1 = g_push(g, cur, cv);
            lemma_ops_ok(g1, 0, 0, sv);
            lemma_ops_frame(g1, 0, 0, sv, c);
            let (g2, join) = g_new_block(g1);
            assert(g2.blocks[cur as int] == g1.blocks[cur as int]);
            lemma_arms_frame(g2, arms@, cur, join, c);
        },
        _ => {},
    }
}

} // verus!
