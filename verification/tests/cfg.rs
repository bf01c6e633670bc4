use kiln::cfg::{find_unreachable_blocks, BasicBlock, Cfg, CfgBuilder, Terminator};
use kiln::span::Span;
use kiln::ty::Ty;
use kiln::typed_ast::{TypedBlock, TypedExpr, TypedExprKind, TypedStmt};

fn s() -> Span {
    Span { start: 0, end: 0 }
}

fn empty_block() -> TypedBlock {
    TypedBlock { stmts: vec![], span: s() }
}

fn bool_expr() -> TypedExpr {
    TypedExpr { kind: TypedExprKind::Bool(true), ty: Ty::Bool, span: s() }
}

#[test]
fn cfg_for_linear_block_has_one_block() {
    let block = TypedBlock {
        stmts: vec![
            TypedStmt::Expr(TypedExpr { kind: TypedExprKind::Int(1), ty: Ty::Int, span: s() }),
            TypedStmt::Expr(TypedExpr { kind: TypedExprKind::Int(2), ty: Ty::Int, span: s() }),
        ],
        span: s(),
    };
    let cfg = CfgBuilder::build(&block);
    assert_eq!(cfg.blocks[0].stmts.len(), 2);
    assert_eq!(cfg.blocks[0].term, Terminator::Return);
}

#[test]
fn cfg_for_if_else_has_three_blocks() {
    let block = TypedBlock {
        stmts: vec![TypedStmt::If {
            branches: vec![(bool_expr(), empty_block())],
            else_branch: Some(empty_block()),
            span: s(),
        }],
        span: s(),
    };
    let cfg = CfgBuilder::build(&block);
    assert!(cfg.blocks.len() >= 3, "expected at least 3 blocks, got {}", cfg.blocks.len());
    assert!(matches!(cfg.blocks[0].term, Terminator::Branch(_, _)));
}

#[test]
fn cfg_for_while_loop_has_back_edge() {
    let block = TypedBlock {
        stmts: vec![TypedStmt::While {
            cond: bool_expr(),
            body: TypedBlock {
                stmts: vec![TypedStmt::Expr(TypedExpr { kind: TypedExprKind::Int(1), ty: Ty::Int, span: s() })],
                span: s(),
            },
            span: s(),
        }],
        span: s(),
    };
    let cfg = CfgBuilder::build(&block);
    let has_back_edge = cfg.blocks.iter().any(|b| {
        if let Terminator::Jump(target) = b.term {
            target < b.id
        } else {
            false
        }
    });
    assert!(has_back_edge, "expected a back edge in while loop CFG");
}

#[test]
fn cfg_unreachable_block_after_return_is_detected() {
    let block = TypedBlock {
        stmts: vec![
            TypedStmt::Return { value: None, span: s() },
            TypedStmt::Expr(TypedExpr { kind: TypedExprKind::Int(42), ty: Ty::Int, span: s() }),
        ],
        span: s(),
    };
    let cfg = CfgBuilder::build(&block);
    let unreachable = find_unreachable_blocks(&cfg);
    assert!(!unreachable.is_empty(), "expected at least one unreachable block after return");
}

#[test]
fn block_with_no_predecessors_is_flagged() {
    let cfg = Cfg {
        blocks: vec![
            BasicBlock { id: 0, stmts: vec![], term: Terminator::Return },
            BasicBlock { id: 1, stmts: vec![], term: Terminator::Return },
        ],
    };
    let unreachable = find_unreachable_blocks(&cfg);
    assert!(unreachable.contains(&1), "block 1 has no predecessors so should be flagged");
}

#[test]
fn entry_block_is_never_flagged() {
    let cfg = Cfg { blocks: vec![BasicBlock { id: 0, stmts: vec![], term: Terminator::Return }] };
    let unreachable = find_unreachable_blocks(&cfg);
    assert!(!unreachable.contains(&0), "entry block (id=0) should never be flagged unreachable");
}

#[test]
fn reachable_blocks_produce_no_warning() {
    let cfg = Cfg {
        blocks: vec![
            BasicBlock { id: 0, stmts: vec![], term: Terminator::Jump(1) },
            BasicBlock { id: 1, stmts: vec![], term: Terminator::Jump(2) },
            BasicBlock { id: 2, stmts: vec![], term: Terminator::Return },
        ],
    };
    let unreachable = find_unreachable_blocks(&cfg);
    assert!(unreachable.is_empty(), "all blocks reachable, expected no warnings");
}

#[test]
fn successors_and_predecessors_agree() {
    let cfg = Cfg {
        blocks: vec![
            BasicBlock { id: 0, stmts: vec![], term: Terminator::Branch(1, 2) },
            BasicBlock { id: 1, stmts: vec![], term: Terminator::Jump(2) },
            BasicBlock { id: 2, stmts: vec![], term: Terminator::Return },
        ],
    };
    assert_eq!(cfg.successors(0), vec![1, 2]);
    assert!(cfg.successors(2).is_empty());
    let preds = cfg.predecessors();
    assert!(preds[0].is_empty());
    assert_eq!(preds[1].len(), 1);
    assert!(preds[2].contains(&0) && preds[2].contains(&1));
}

#[test]
fn break_jumps_to_placeholder() {
    let block = TypedBlock { stmts: vec![TypedStmt::Break(s())], span: s() };
    let cfg = CfgBuilder::build(&block);
    assert_eq!(cfg.blocks[0].term, Terminator::Jump(usize::MAX));
    assert_eq!(cfg.blocks[1].term, Terminator::Unreachable);
}

#[test]
fn if_else_graph_shape() {
    let then_body = TypedBlock {
        stmts: vec![TypedStmt::Expr(TypedExpr { kind: TypedExprKind::Int(1), ty: Ty::Int, span: s() })],
        span: s(),
    };
    let block = TypedBlock {
        stmts: vec![TypedStmt::If {
            branches: vec![(bool_expr(), then_body)],
            else_branch: Some(empty_block()),
            span: s(),
        }],
        span: s(),
    };
    let cfg = CfgBuilder::build(&block);
    assert_eq!(cfg.blocks.len(), 4);
    assert_eq!(cfg.blocks[0].stmts, vec![0]);
    assert_eq!(cfg.blocks[0].term, Terminator::Branch(2, 3));
    assert_eq!(cfg.blocks[1].term, Terminator::Return);
    assert_eq!(cfg.blocks[2].stmts, vec![1]);
    assert_eq!(cfg.blocks[2].term, Terminator::Jump(1));
    assert_eq!(cfg.blocks[3].term, Terminator::Jump(1));
}

#[test]
fn while_loop_graph_shape() {
    let block = TypedBlock {
        stmts: vec![TypedStmt::While { cond: bool_expr(), body: empty_block(), span: s() }],
        span: s(),
    };
    let cfg = CfgBuilder::build(&block);
    assert_eq!(cfg.blocks.len(), 4);
    assert_eq!(cfg.blocks[0].term, Terminator::Jump(1));
    assert_eq!(cfg.blocks[1].term, Terminator::Branch(2, 3));
    assert_eq!(cfg.blocks[2].term, Terminator::Jump(1));
    assert_eq!(cfg.blocks[3].term, Terminator::Return);
}
