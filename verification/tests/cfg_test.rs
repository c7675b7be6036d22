//! Intra-procedural control-flow graph.
use sanctifier_core::parser::parse_source;
use sanctifier_core::cfg::{BlockStmt, Cfg};
use sanctifier_core::syntax::{AstBlock, AstExpr, AstItem};

fn body(src: &str) -> AstBlock {
    let mut file = parse_source(&format!("fn body() {{ {src} }}")).unwrap().file;
    match file.items.remove(0) {
        AstItem::Fn { block, .. } => block,
        _ => panic!("expected a function item"),
    }
}

#[test]
fn straight_line_code_is_a_single_block_chain() {
    let b = body("let a = 1; let b = 2; let c = a + b;");
    let cfg = Cfg::build(&b);
    assert!(cfg.successors.iter().all(|s| s.len() <= 1));
}

#[test]
fn if_else_creates_branch_and_join() {
    let b = body("if cond { let a = 1; } else { let b = 2; } let c = 3;");
    let cfg = Cfg::build(&b);
    assert_eq!(cfg.successors[cfg.entry].len(), 2);
}

#[test]
fn if_without_else_falls_through_to_join() {
    let b = body("if cond { let a = 1; }");
    let cfg = Cfg::build(&b);
    assert_eq!(cfg.successors[cfg.entry].len(), 2);
}

#[test]
fn while_loop_has_back_edge_to_header() {
    let b = body("let mut i = 0; while i < 10 { i = i + 1; }");
    let cfg = Cfg::build(&b);
    let header_id = cfg
        .blocks
        .iter()
        .find(|b| cfg.successors[b.id].len() == 2)
        .map(|b| b.id)
        .expect("while loop must have a header block with 2 successors");
    let has_back_edge = cfg.successors.iter().any(|succs| succs.contains(&header_id));
    assert!(has_back_edge, "while loop body must have a back edge");
}

#[test]
fn for_loop_has_back_edge_to_header() {
    let b = body("for x in items.iter() { sink(x); }");
    let cfg = Cfg::build(&b);
    let header_id = cfg
        .blocks
        .iter()
        .find(|b| cfg.successors[b.id].len() == 2)
        .map(|b| b.id)
        .expect("for loop must have a header block with 2 successors");
    let has_back_edge = cfg.successors.iter().any(|succs| succs.contains(&header_id));
    assert!(has_back_edge, "for loop body must have a back edge");
}

#[test]
fn match_arms_all_join_to_common_successor() {
    let b = body("match x { 0 => { let a = 1; } _ => { let b = 2; } } let c = 3;");
    let cfg = Cfg::build(&b);
    assert_eq!(cfg.successors[cfg.entry].len(), 2, "match with 2 arms must branch into 2 arm blocks");
}

#[test]
fn block_count_grows_with_branching() {
    let s = body("let a = 1; let b = 2;");
    let r = body("if cond { let a = 1; } else { let b = 2; }");
    let straight = Cfg::build(&s);
    let branching = Cfg::build(&r);
    assert!(branching.block_count() > straight.block_count());
}

#[test]
fn every_edge_leads_to_a_block_and_ids_are_indices() {
    let b = body("let mut i = 0; while i < n { if a { break; } match i { 0 => x(), _ => { continue; } } i += 1; } for v in w { y(v); } loop { return; }");
    let cfg = Cfg::build(&b);
    assert_eq!(cfg.entry, 0);
    assert_eq!(cfg.blocks.len(), cfg.successors.len());
    for (i, block) in cfg.blocks.iter().enumerate() {
        assert_eq!(block.id, i);
    }
    for succs in &cfg.successors {
        for &s in succs {
            assert!(s < cfg.block_count());
        }
    }
}

#[test]
fn straight_line_code_stays_in_the_entry_block() {
    let b = body("let a = 1; let b = 2; let c = a + b;");
    let cfg = Cfg::build(&b);
    assert_eq!(cfg.block_count(), 1);
    assert_eq!(cfg.blocks[0].stmts.len(), 3);
}

#[test]
fn control_flow_statements_never_stay_block_statements() {
    let b = body("if a { x(); } while c { y(); } for v in w { z(v); } loop { break; } match m { _ => {} } { u(); }");
    let cfg = Cfg::build(&b);
    for block in &cfg.blocks {
        for s in &block.stmts {
            if let BlockStmt::Expr(e) = s {
                assert!(!matches!(
                    e,
                    AstExpr::If { .. } | AstExpr::While { .. } | AstExpr::ForLoop { .. } | AstExpr::Loop { .. } | AstExpr::Match { .. } | AstExpr::Block { .. }
                ));
            }
        }
    }
}

#[test]
fn while_header_holds_the_condition_and_branches_twice() {
    let b = body("while i < n { i += 1; }");
    let cfg = Cfg::build(&b);
    assert_eq!(cfg.successors[0], vec![1]);
    assert_eq!(cfg.blocks[1].stmts.len(), 1);
    assert!(matches!(cfg.blocks[1].stmts[0], BlockStmt::Expr(_)));
    assert_eq!(cfg.successors[1], vec![2, cfg.block_count() - 1]);
}

#[test]
fn match_branches_once_per_arm() {
    let b = body("match x { 0 => a(), 1 => b(), _ => c() }");
    let cfg = Cfg::build(&b);
    assert_eq!(cfg.successors[cfg.entry].len(), 3);
}
