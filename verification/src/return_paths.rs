use vstd::prelude::*;
use crate::ast::{Block, CatchHandler, Stmt};

verus! {

/// Some statement of the list always ends in `return` or `raise` (everything after it
/// is unreachable).
pub open spec fn stmts_return(s: Seq<Stmt>) -> bool
    decreases s, 1nat,
{
    if s.len() == 0 {
        false
    } else {
        stmts_return(s.drop_last()) || stmt_returns(s.last())
    }
}

/// Every branch body of an `if` always returns.
pub open spec fn branches_return(s: Seq<(crate::ast::Expr, Block)>) -> bool
    decreases s, 1nat,
{
    if s.len() == 0 {
        true
    } else {
        branches_return(s.drop_last()) && stmts_return(s.last().1.stmts@)
    }
}

/// Every handler body of a `try` always returns.
pub open spec fn handlers_return(s: Seq<CatchHandler>) -> bool
    decreases s, 1nat,
{
    if s.len() == 0 {
        true
    } else {
        handlers_return(s.drop_last()) && stmts_return(s.last().body.stmts@)
    }
}

/// A statement always ends in `return` or `raise`: it is one, an `if` with an `else`
/// whose every branch always returns, or a `try` whose body and every handler always
/// return. Loops may run zero times and never count.
pub open spec fn stmt_returns(st: Stmt) -> bool
    decreases st, 0nat,
{
    match st {
        Stmt::Return { .. } => true,
        Stmt::Raise { .. } => true,
        Stmt::If { branches, else_branch, .. } => match else_branch {
            Some(eb) => branches_return(branches@) && stmts_return(eb.stmts@),
            None => false,
        },
        Stmt::TryCatch { body, handlers, .. } => stmts_return(body.stmts@) && handlers_return(
            handlers@,
        ),
        _ => false,
    }
}

/// Returns `true` if every code path through `block` ends with `return` or `raise`.
pub fn always_returns(block: &Block) -> (r: bool)
    ensures
        r == stmts_return(block.stmts@),
    decreases *block, 2nat,
{
    let mut i: usize = 0;
    while i < block.stmts.len()
        invariant
            i <= block.stmts@.len(),
            !stmts_return(block.stmts@.take(i as int)),
        decreases block.stmts@.len() - i,
    {
        proof {
            assert(block.stmts@.take(i as int + 1).drop_last() =~= block.stmts@.take(i as int));
            assert(decreases_to!(*block => block.stmts@[i as int]));
        }
        if stmt_always_returns(&block.stmts[i]) {
            proof {
                lemma_stmts_return_prefix(block.stmts@, i as int + 1);
            }
            return true;
        }
        i += 1;
    }
    proof {
        assert(block.stmts@.take(block.stmts@.len() as int) =~= block.stmts@);
    }
    false
}

proof fn lemma_stmts_return_prefix(s: Seq<Stmt>, k: int)
    requires
        0 <= k <= s.len(),
        stmts_return(s.take(k)),
    ensures
        stmts_return(s),
    decreases s.len() - k,
{
    if k < s.len() {
        assert(s.take(k + 1).drop_last() =~= s.take(k));
        lemma_stmts_return_prefix(s, k + 1);
    } else {
        assert(s.take(k) =~= s);
    }
}

#[verifier::loop_isolation(false)]
fn stmt_always_returns(stmt: &Stmt) -> (r: bool)
    ensures
        r == stmt_returns(*stmt),
    decreases *stmt, 1nat,
{
    match stmt {
        Stmt::Return { .. } => true,
        Stmt::Raise { .. } => true,
        Stmt::If { branches, else_branch, .. } => {
            match else_branch {
                None => false,
                Some(eb) => {
                    let mut i: usize = 0;
                    while i < branches.len()
                        invariant
                            i <= branches@.len(),
                            branches_return(branches@.take(i as int)),
                        decreases branches@.len() - i,
                    {
                        proof {
                            assert(branches@.take(i as int + 1).drop_last() =~= branches@.take(i as int));
                            assert(decreases_to!(*stmt => *branches));
                            assert(decreases_to!(*branches => branches@));
                            assert(decreases_to!(branches@ => branches@[i as int]));
                            assert(decreases_to!(branches@[i as int] => branches@[i as int].1));
                            assert(decreases_to!(*stmt => branches@[i as int].1));
                        }
                        if !always_returns(&branches[i].1) {
                            proof {
                                lemma_branches_return_prefix(branches@, i as int + 1);
                            }
                            return false;
                        }
                        i += 1;
                    }
                    proof {
                        assert(branches@.take(branches@.len() as int) =~= branches@);
                    }
                    always_returns(eb)
                },
            }
        },
        Stmt::TryCatch { body, handlers, .. } => {
            if !always_returns(body) {
                return false;
            }
            let mut i: usize = 0;
            while i < handlers.len()
                invariant
                    i <= handlers@.len(),
                    handlers_return(handlers@.take(i as int)),
                decreases handlers@.len() - i,
            {
                proof {
                    assert(handlers@.take(i as int + 1).drop_last() =~= handlers@.take(i as int));
                    assert(decreases_to!(*stmt => *handlers));
                    assert(decreases_to!(*handlers => handlers@));
                    assert(decreases_to!(handlers@ => handlers@[i as int]));
                    assert(decreases_to!(handlers@[i as int] => handlers@[i as int].body));
                    assert(decreases_to!(*stmt => handlers@[i as int].body));
                }
                if !always_returns(&handlers[i].body) {
                    proof {
                        lemma_handlers_return_prefix(handlers@, i as int + 1);
                    }
                    return false;
                }
                i += 1;
            }
            proof {
                assert(handlers@.take(handlers@.len() as int) =~= handlers@);
            }
            true
        },
        _ => false,
    }
}

proof fn lemma_branches_return_prefix(s: Seq<(crate::ast::Expr, Block)>, k: int)
    requires
        0 <= k <= s.len(),
        !branches_return(s.take(k)),
    ensures
        !branches_return(s),
    decreases s.len() - k,
{
    if k < s.len() {
        assert(s.take(k + 1).drop_last() =~= s.take(k));
        lemma_branches_return_prefix(s, k + 1);
    } else {
        assert(s.take(k) =~= s);
    }
}

proof fn lemma_handlers_return_prefix(s: Seq<CatchHandler>, k: int)
    requires
        0 <= k <= s.len(),
        !handlers_return(s.take(k)),
    ensures
        !handlers_return(s),
    decreases s.len() - k,
{
    if k < s.len() {
        assert(s.take(k + 1).drop_last() =~= s.take(k));
        lemma_handlers_return_prefix(s, k + 1);
    } else {
        assert(s.take(k) =~= s);
    }
}

proof fn lemma_stmts_return_some(s: Seq<Stmt>)
    ensures
        stmts_return(s) <==> exists|i: int| 0 <= i < s.len() && #[trigger] stmt_returns(s[i]),
    decreases s.len(),
{
    if s.len() > 0 {
        let d = s.drop_last();
        lemma_stmts_return_some(d);
        if stmts_return(d) {
            let i = choose|i: int| 0 <= i < d.len() && #[trigger] stmt_returns(d[i]);
            assert(s[i] == d[i]);
        }
        if stmt_returns(s.last()) {
            assert(stmt_returns(s[s.len() - 1]));
        }
        if exists|i: int| 0 <= i < s.len() && #[trigger] stmt_returns(s[i]) {
            let i = choose|i: int| 0 <= i < s.len() && #[trigger] stmt_returns(s[i]);
            if i < s.len() - 1 {
                assert(d[i] == s[i]);
            }
        }
    }
}

/// Adding statements around a block that always returns keeps it returning, and an
/// empty block never returns.
pub proof fn returning_survives_added_statements(before: Seq<Stmt>, body: Seq<Stmt>, after: Seq<Stmt>)
    requires
        stmts_return(body),
    ensures
        stmts_return(before + body + after),
        !stmts_return(Seq::<Stmt>::empty()),
{
    let all = before + body + after;
    lemma_stmts_return_some(body);
    lemma_stmts_return_some(all);
    let i = choose|i: int| 0 <= i < body.len() && #[trigger] stmt_returns(body[i]);
    assert(all[before.len() + i] == body[i]);
}

proof fn lemma_branches_return_all(s: Seq<(crate::ast::Expr, Block)>)
    ensures
        branches_return(s) <==> forall|i: int| 0 <= i < s.len() ==> #[trigger] stmts_return(s[i].1.stmts@),
    decreases s.len(),
{
    if s.len() > 0 {
        lemma_branches_return_all(s.drop_last());
        if branches_return(s) {
            assert forall|i: int| 0 <= i < s.len() implies #[trigger] stmts_return(s[i].1.stmts@) by {
                if i < s.len() - 1 {
                    assert(s.drop_last()[i] == s[i]);
                }
            }
        }
        if forall|i: int| 0 <= i < s.len() ==> #[trigger] stmts_return(s[i].1.stmts@) {
            assert forall|i: int| 0 <= i < s.drop_last().len() implies #[trigger] stmts_return(s.drop_last()[i].1.stmts@) by {
                assert(s.drop_last()[i] == s[i]);
            }
            assert(stmts_return(s[s.len() - 1].1.stmts@));
        }
    }
}

/// A block made of one `if` always returns exactly when the `if` has an `else` and the
/// body of every branch and the `else` body always return; an empty `else` body, like
/// any empty block, does not.
pub proof fn if_returns_only_when_every_path_returns(branches: Seq<(crate::ast::Expr, Block)>, else_branch: Option<Block>, if_stmt: Stmt)
    requires
        if_stmt matches Stmt::If { branches: b, else_branch: e, .. } && b@ == branches && e == else_branch,
    ensures
        stmts_return(seq![if_stmt]) <==> (else_branch matches Some(eb) && stmts_return(eb.stmts@) && forall|i: int|
            0 <= i < branches.len() ==> #[trigger] stmts_return(branches[i].1.stmts@)),
        !stmts_return(Seq::<Stmt>::empty()),
{
    lemma_branches_return_all(branches);
    assert(seq![if_stmt].drop_last() =~= Seq::<Stmt>::empty());
    assert(seq![if_stmt].last() == if_stmt);
    assert(!stmts_return(Seq::<Stmt>::empty()));
    assert(stmts_return(seq![if_stmt]) == stmt_returns(if_stmt));
    match if_stmt {
        Stmt::If { branches: b, else_branch: e, .. } => {
            assert(stmt_returns(if_stmt) == match e {
                Some(eb) => branches_return(b@) && stmts_return(eb.stmts@),
                None => false,
            });
        },
        _ => {},
    }
}


proof fn lemma_handlers_return_all(s: Seq<CatchHandler>)
    ensures
        handlers_return(s) <==> forall|i: int| 0 <= i < s.len() ==> #[trigger] stmts_return(s[i].body.stmts@),
    decreases s.len(),
{
    if s.len() > 0 {
        lemma_handlers_return_all(s.drop_last());
        if handlers_return(s) {
            assert forall|i: int| 0 <= i < s.len() implies #[trigger] stmts_return(s[i].body.stmts@) by {
                if i < s.len() - 1 {
                    assert(s.drop_last()[i] == s[i]);
                }
            }
        }
        if forall|i: int| 0 <= i < s.len() ==> #[trigger] stmts_return(s[i].body.stmts@) {
            assert forall|i: int| 0 <= i < s.drop_last().len() implies #[trigger] stmts_return(s.drop_last()[i].body.stmts@) by {
                assert(s.drop_last()[i] == s[i]);
            }
            assert(stmts_return(s[s.len() - 1].body.stmts@));
        }
    }
}

/// A block whose statements are all neither `return`, `raise`, `if` nor `try` (loops,
/// bindings, assignments, expressions) never always returns, whatever the loops hold.
/// A `try` always returns exactly when its body and every handler body always return.
pub proof fn only_return_raise_if_or_try_can_end_a_block(s: Seq<Stmt>, try_stmt: Stmt)
    ensures
        (forall|i: int| 0 <= i < s.len() ==> !(#[trigger] s[i] is Return || s[i] is Raise || s[i] is If
            || s[i] is TryCatch)) ==> !stmts_return(s),
        try_stmt matches Stmt::TryCatch { body, handlers, .. } ==> (stmts_return(seq![try_stmt]) <==> (
            stmts_return(body.stmts@) && forall|i: int| 0 <= i < handlers@.len() ==> #[trigger] stmts_return(
                handlers@[i].body.stmts@,
            ))),
{
    lemma_stmts_return_some(s);
    if stmts_return(s) {
        let i = choose|i: int| 0 <= i < s.len() && #[trigger] stmt_returns(s[i]);
        assert(s[i] is Return || s[i] is Raise || s[i] is If || s[i] is TryCatch);
    }
    assert(seq![try_stmt].drop_last() =~= Seq::<Stmt>::empty());
    assert(seq![try_stmt].last() == try_stmt);
    assert(!stmts_return(Seq::<Stmt>::empty()));
    assert(stmts_return(seq![try_stmt]) == stmt_returns(try_stmt));
    match try_stmt {
        Stmt::TryCatch { body, handlers, .. } => {
            lemma_handlers_return_all(handlers@);
        },
        _ => {},
    }
}

} // verus!
