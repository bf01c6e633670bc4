use kiln::ast::{Block, CatchHandler, Expr, Stmt};
use kiln::return_paths::always_returns;
use kiln::span::Span;

fn s() -> Span {
    Span { start: 0, end: 0 }
}

fn ret_stmt() -> Stmt {
    Stmt::Return { value: Some(Expr::Int(1, s())), span: s() }
}

fn raise_stmt() -> Stmt {
    Stmt::Raise { value: Some(Expr::Int(1, s())), span: s() }
}

#[test]
fn empty_block_does_not_return() {
    assert!(!always_returns(&Block { stmts: vec![], span: s() }));
}

#[test]
fn block_ending_in_return_always_returns() {
    assert!(always_returns(&Block { stmts: vec![ret_stmt()], span: s() }));
}

#[test]
fn block_ending_in_raise_always_returns() {
    assert!(always_returns(&Block { stmts: vec![raise_stmt()], span: s() }));
}

#[test]
fn if_else_both_return_is_ok() {
    let block = Block {
        stmts: vec![Stmt::If {
            branches: vec![(Expr::Bool(true, s()), Block { stmts: vec![ret_stmt()], span: s() })],
            else_branch: Some(Block { stmts: vec![ret_stmt()], span: s() }),
            span: s(),
        }],
        span: s(),
    };
    assert!(always_returns(&block));
}

#[test]
fn if_without_else_does_not_always_return() {
    let block = Block {
        stmts: vec![Stmt::If {
            branches: vec![(Expr::Bool(true, s()), Block { stmts: vec![ret_stmt()], span: s() })],
            else_branch: None,
            span: s(),
        }],
        span: s(),
    };
    assert!(!always_returns(&block));
}

#[test]
fn try_returns_only_if_every_handler_returns() {
    let handler = |stmts: Vec<Stmt>| CatchHandler {
        ty: "Error".into(),
        binding: "e".into(),
        body: Block { stmts, span: s() },
        span: s(),
    };
    let all = Block {
        stmts: vec![Stmt::TryCatch {
            body: Block { stmts: vec![ret_stmt()], span: s() },
            handlers: vec![handler(vec![raise_stmt()])],
            finally: None,
            span: s(),
        }],
        span: s(),
    };
    assert!(always_returns(&all));
    let some = Block {
        stmts: vec![Stmt::TryCatch {
            body: Block { stmts: vec![ret_stmt()], span: s() },
            handlers: vec![handler(vec![])],
            finally: None,
            span: s(),
        }],
        span: s(),
    };
    assert!(!always_returns(&some));
}

#[test]
fn while_loop_never_counts_as_returning() {
    let block = Block {
        stmts: vec![Stmt::While {
            cond: Expr::Bool(true, s()),
            body: Block { stmts: vec![ret_stmt()], span: s() },
            span: s(),
        }],
        span: s(),
    };
    assert!(!always_returns(&block));
}

#[test]
fn statements_around_a_returning_block_keep_it_returning() {
    let block = Block { stmts: vec![ret_stmt()], span: s() };
    assert!(always_returns(&block));
    let loop_stmt = || Stmt::While {
        cond: Expr::Bool(true, s()),
        body: Block { stmts: vec![], span: s() },
        span: s(),
    };
    let extended = Block {
        stmts: vec![loop_stmt(), ret_stmt(), loop_stmt()],
        span: s(),
    };
    assert!(always_returns(&extended));
}
