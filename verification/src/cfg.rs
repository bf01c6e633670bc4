use vstd::prelude::*;
use std::collections::HashSet;
use crate::typed_ast::{TypedBlock, TypedStmt};

verus! {

broadcast use vstd::std_specs::hash::group_hash_axioms;

/// A basic block: a run of statements (by their position in the flattened statement
/// list) ending in a terminator.
#[derive(Debug)]
pub struct BasicBlock {
    pub id: usize,
    pub stmts: Vec<usize>,
    pub term: Terminator,
}

/// How control leaves a basic block.
#[derive(Clone, Copy, Debug, PartialEq, Eq, Structural)]
pub enum Terminator {
    Return,
    Raise,
    /// Jump to a block; `usize::MAX` stands for a loop exit or header not yet known.
    Jump(usize),
    /// Branch to a then-block and an else-block.
    Branch(usize, usize),
    Unreachable,
}

/// A control-flow graph; block 0 is the entry.
#[derive(Debug)]
pub struct Cfg {
    pub blocks: Vec<BasicBlock>,
}

/// The blocks control can go to from a terminator, in order.
pub open spec fn term_targets(t: Terminator) -> Seq<usize> {
    match t {
        Terminator::Jump(x) => seq![x],
        Terminator::Branch(a, b) => seq![a, b],
        _ => Seq::empty(),
    }
}

/// Every jump and branch of the graph targets one of its blocks.
pub open spec fn targets_in_range(blocks: Seq<BasicBlock>) -> bool {
    forall|i: int, k: int|
        0 <= i < blocks.len() && 0 <= k < term_targets(blocks[i].term).len() ==> #[trigger] term_targets(
            blocks[i].term,
        )[k] < blocks.len()
}

/// Block `x` is a predecessor of block `t`.
pub open spec fn is_pred(blocks: Seq<BasicBlock>, x: usize, t: usize) -> bool {
    x < blocks.len() && term_targets(blocks[x as int].term).contains(t)
}

impl Cfg {
    /// The successors of block `id`, in order.
    pub fn successors(&self, id: usize) -> (r: Vec<usize>)
        requires
            id < self.blocks@.len(),
        ensures
            r@ == term_targets(self.blocks@[id as int].term),
    {
        match self.blocks[id].term {
            Terminator::Jump(t) => {
                let mut v = Vec::new();
                v.push(t);
                assert(v@ =~= seq![t]);
                v
            },
            Terminator::Branch(t, e) => {
                let mut v = Vec::new();
                v.push(t);
                v.push(e);
                assert(v@ =~= seq![t, e]);
                v
            },
            Terminator::Return | Terminator::Raise | Terminator::Unreachable => {
                let v = Vec::new();
                assert(v@ =~= Seq::<usize>::empty());
                v
            },
        }
    }

    /// The predecessors of every block: entry `t` holds the blocks that can jump or
    /// branch to block `t`.
    pub fn predecessors(&self) -> (r: Vec<HashSet<usize>>)
        requires
            targets_in_range(self.blocks@),
        ensures
            r@.len() == self.blocks@.len(),
            forall|t: int|
                0 <= t < r@.len() ==> #[trigger] r@[t]@ == Set::new(
                    |x: usize| is_pred(self.blocks@, x, t as usize),
                ),
    {
        let n = self.blocks.len();
        let mut preds: Vec<HashSet<usize>> = Vec::new();
        let mut k: usize = 0;
        while k < n
            invariant
                k <= n,
                n == self.blocks@.len(),
                preds@.len() == k,
                forall|t: int| 0 <= t < k ==> (#[trigger] preds@[t])@ == Set::<usize>::empty(),
            decreases n - k,
        {
            preds.push(HashSet::new());
            k += 1;
        }
        let mut id: usize = 0;
        while id < n
            invariant
                id <= n,
                n == self.blocks@.len(),
                preds@.len() == n,
                targets_in_range(self.blocks@),
                forall|t: int|
                    0 <= t < n ==> (#[trigger] preds@[t])@ == Set::new(
                        |x: usize| x < id && is_pred(self.blocks@, x, t as usize),
                    ),
            decreases n - id,
        {
            let succ = self.successors(id);
            let mut j: usize = 0;
            while j < succ.len()
                invariant
                    id < n,
                    j <= succ@.len(),
                    n == self.blocks@.len(),
                    preds@.len() == n,
                    succ@ == term_targets(self.blocks@[id as int].term),
                    targets_in_range(self.blocks@),
                    forall|t: int|
                        0 <= t < n ==> (#[trigger] preds@[t])@ == Set::new(
                            |x: usize| x < id && is_pred(self.blocks@, x, t as usize),
                        ).union(if succ@.take(j as int).contains(t as usize) {
                            set![id]
                        } else {
                            Set::empty()
                        }),
                decreases succ@.len() - j,
            {
                let s = succ[j];
                assert(s < n);
                let ghost before = preds@;
                preds[s].insert(id);
                proof {
                    assert(succ@.take(j as int + 1) =~= succ@.take(j as int).push(s));
                    assert forall|t: int| 0 <= t < n implies (#[trigger] preds@[t])@ == Set::new(
                        |x: usize| x < id && is_pred(self.blocks@, x, t as usize),
                    ).union(if succ@.take(j as int + 1).contains(t as usize) {
                        set![id]
                    } else {
                        Set::empty()
                    }) by {
                        if t == s as int {
                            assert(succ@.take(j as int + 1)[j as int] == s);
                            assert(succ@.take(j as int + 1).contains(s));
                            assert(preds@[t]@ =~= before[t]@.insert(id));
                        } else {
                            assert(preds@[t] == before[t]);
                            if succ@.take(j as int + 1).contains(t as usize) {
                                let w = choose|w: int| 0 <= w < j + 1 && #[trigger] succ@.take(j as int + 1)[w] == t as usize;
                                assert(w < j);
                                assert(succ@.take(j as int)[w] == t as usize);
                            }
                        }
                    }
                }
                j += 1;
            }
            proof {
                assert(succ@.take(succ@.len() as int) =~= succ@);
                assert forall|t: int| 0 <= t < n implies (#[trigger] preds@[t])@ == Set::new(
                    |x: usize| x < id + 1 && is_pred(self.blocks@, x, t as usize),
                ) by {
                    assert(preds@[t]@ =~= Set::new(
                        |x: usize| x < id + 1 && is_pred(self.blocks@, x, t as usize),
                    ));
                }
            }
            id += 1;
        }
        proof {
            assert forall|t: int| 0 <= t < n implies (#[trigger] preds@[t])@ == Set::new(
                |x: usize| is_pred(self.blocks@, x, t as usize),
            ) by {
                assert(preds@[t]@ =~= Set::new(|x: usize| is_pred(self.blocks@, x, t as usize)));
            }
        }
        preds
    }
}

/// The blocks other than the entry that no block jumps or branches to, in increasing
/// order.
pub fn find_unreachable_blocks(cfg: &Cfg) -> (r: Vec<usize>)
    requires
        targets_in_range(cfg.blocks@),
    ensures
        forall|a: int, b: int| 0 <= a < b < r@.len() ==> r@[a] < r@[b],
        forall|x: usize|
            r@.contains(x) <==> (0 < x < cfg.blocks@.len() && forall|y: usize| !#[trigger] is_pred(
                cfg.blocks@,
                y,
                x,
            )),
{
    let preds = cfg.predecessors();
    let mut out: Vec<usize> = Vec::new();
    let mut id: usize = 0;
    while id < preds.len()
        invariant
            id <= preds@.len(),
            preds@.len() == cfg.blocks@.len(),
            forall|t: int|
                0 <= t < preds@.len() ==> #[trigger] preds@[t]@ == Set::new(
                    |x: usize| is_pred(cfg.blocks@, x, t as usize),
                ),
            forall|a: int, b: int| 0 <= a < b < out@.len() ==> out@[a] < out@[b],
            forall|a: int| 0 <= a < out@.len() ==> out@[a] < id,
            forall|x: usize|
                out@.contains(x) <==> (0 < x < id && forall|y: usize| !#[trigger] is_pred(
                    cfg.blocks@,
                    y,
                    x,
                )),
        decreases preds@.len() - id,
    {
        let empty = preds[id].is_empty();
        proof {
            if empty {
                assert forall|y: usize| !#[trigger] is_pred(cfg.blocks@, y, id) by {
                    if is_pred(cfg.blocks@, y, id) {
                        assert(preds@[id as int]@.contains(y));
                    }
                }
            } else {
                let y = preds@[id as int]@.choose();
                assert(preds@[id as int]@.contains(y));
                assert(is_pred(cfg.blocks@, y, id));
            }
        }
        let ghost before = out@;
        if id != 0 && empty {
            out.push(id);
        }
        proof {
            assert forall|x: usize|
                out@.contains(x) <==> (0 < x < id + 1 && forall|y: usize| !#[trigger] is_pred(
                    cfg.blocks@,
                    y,
                    x,
                )) by {
                if out@.contains(x) && x != id {
                    let w = choose|w: int| 0 <= w < out@.len() && out@[w] == x;
                    assert(before[w] == x);
                }
                if x < id && before.contains(x) {
                    let w = choose|w: int| 0 <= w < before.len() && before[w] == x;
                    assert(out@[w] == x);
                }
                if x == id && out@.len() > before.len() {
                    assert(out@[before.len() as int] == x);
                }
            }
        }
        id += 1;
    }
    out
}

/// A statement that does not change control flow.
pub open spec fn is_straight(st: TypedStmt) -> bool {
    !(st is Return || st is Raise || st is Break || st is Continue || st is If || st is While || st is For
        || st is TryCatch)
}

/// The position of the first statement that ends a straight run, or the length when
/// every statement is straight.
pub open spec fn first_ctrl(s: Seq<TypedStmt>) -> nat
    decreases s.len(),
{
    if s.len() == 0 {
        0
    } else {
        let k = first_ctrl(s.drop_last());
        if k < s.len() - 1 {
            k
        } else if !is_straight(s.last()) {
            (s.len() - 1) as nat
        } else {
            s.len()
        }
    }
}

/// The first statement that is not straight is at `first_ctrl`.
pub proof fn lemma_first_ctrl(s: Seq<TypedStmt>)
    ensures
        first_ctrl(s) <= s.len(),
        forall|j: int| 0 <= j < first_ctrl(s) ==> is_straight(#[trigger] s[j]),
        first_ctrl(s) < s.len() ==> !is_straight(s[first_ctrl(s) as int]),
    decreases s.len(),
{
    if s.len() > 0 {
        lemma_first_ctrl(s.drop_last());
        assert forall|j: int| 0 <= j < first_ctrl(s) implies is_straight(#[trigger] s[j]) by {
            if j < s.len() - 1 {
                assert(s[j] == s.drop_last()[j]);
            }
        }
        if first_ctrl(s) < s.len() && first_ctrl(s.drop_last()) < s.len() - 1 {
            assert(s[first_ctrl(s) as int] == s.drop_last()[first_ctrl(s) as int]);
        }
    }
}

/// The graph builder meets no `break` or `continue` in this block: it reads the
/// straight statements up to the first other one, and into a conditional's first
/// branch and `else` branch and into a loop's body.
pub open spec fn no_loop_exit(b: TypedBlock) -> bool
    decreases b, 1nat,
{
    let s = b.stmts@;
    let k = first_ctrl(s);
    if k < s.len() {
        no_loop_exit_stmt(s[k as int])
    } else {
        true
    }
}

pub open spec fn no_loop_exit_stmt(st: TypedStmt) -> bool
    decreases st, 0nat,
{
    match st {
        TypedStmt::Break(_) => false,
        TypedStmt::Continue(_) => false,
        TypedStmt::If { branches, else_branch, .. } => (branches@.len() == 0 || no_loop_exit(
            branches@[0].1,
        )) && match else_branch {
            Some(eb) => no_loop_exit(eb),
            None => true,
        },
        TypedStmt::While { body, .. } => no_loop_exit(body),
        TypedStmt::For { body, .. } => no_loop_exit(body),
        _ => true,
    }
}

/// Block ids are indices and every target is a block or the loop-exit placeholder.
pub open spec fn blocks_wf(blocks: Seq<BasicBlock>) -> bool {
    &&& blocks.len() >= 1
    &&& forall|i: int| 0 <= i < blocks.len() ==> #[trigger] blocks[i].id == i
    &&& forall|i: int, k: int|
        0 <= i < blocks.len() && 0 <= k < term_targets(blocks[i].term).len() ==> #[trigger] term_targets(
            blocks[i].term,
        )[k] < blocks.len() || term_targets(blocks[i].term)[k] == usize::MAX
}

/// What is known of the graph built from a function body: block ids are indices, every
/// target is a block when the builder meets no loop exit, and a body of straight
/// statements is one returning block holding them all.
pub open spec fn graph_of(block: TypedBlock, c: Cfg) -> bool {
    &&& blocks_wf(c.blocks@)
    &&& no_loop_exit(block) ==> targets_in_range(c.blocks@)
    &&& (forall|i: int| 0 <= i < block.stmts@.len() ==> is_straight(#[trigger] block.stmts@[i])) ==> {
        &&& c.blocks@.len() == 1
        &&& c.blocks@[0].term == Terminator::Return
        &&& c.blocks@[0].stmts@ == Seq::new(block.stmts@.len(), |i: int| i as usize)
    }
}

// ---------------------------------------------------------------------------
// The graph the builder makes
// ---------------------------------------------------------------------------

/// A basic block as values.
pub struct BlockView {
    pub id: usize,
    pub stmts: Seq<usize>,
    pub term: Terminator,
}

pub open spec fn block_view(b: BasicBlock) -> BlockView {
    BlockView { id: b.id, stmts: b.stmts@, term: b.term }
}

pub open spec fn blocks_view(s: Seq<BasicBlock>) -> Seq<BlockView> {
    s.map_values(|b: BasicBlock| block_view(b))
}

/// The builder's state: the blocks so far, the block statements go to, and the
/// position in the flattened statement list where the block being read starts.
pub struct BState {
    pub blocks: Seq<BlockView>,
    pub current: int,
    pub offset: int,
}

/// `a + b`, saturating at `usize::MAX`.
pub open spec fn sat_add(a: int, b: int) -> int {
    if a + b > usize::MAX {
        usize::MAX as int
    } else {
        a + b
    }
}

/// A terminator that already ends its block, so no fall-through jump is added.
pub open spec fn is_terminal(t: Terminator) -> bool {
    t is Return || t is Raise || t is Unreachable || t is Branch
}

/// Block `id` with terminator `t`.
pub open spec fn with_term(s: BState, id: int, t: Terminator) -> BState {
    BState { blocks: s.blocks.update(id, BlockView { term: t, ..s.blocks[id] }), ..s }
}

/// A new empty block with the placeholder terminator `Jump(0)`.
pub open spec fn with_new_block(s: BState) -> BState {
    BState {
        blocks: s.blocks.push(BlockView { id: s.blocks.len() as usize, stmts: Seq::empty(), term: Terminator::Jump(0) }),
        ..s
    }
}

/// Statement `idx` appended to the current block.
pub open spec fn with_stmt(s: BState, idx: int) -> BState {
    BState {
        blocks: s.blocks.update(
            s.current,
            BlockView { stmts: s.blocks[s.current].stmts.push(idx as usize), ..s.blocks[s.current] },
        ),
        ..s
    }
}

/// The current block falls through to `target` unless it already ends.
pub open spec fn fall_to(s: BState, target: int) -> BState {
    if is_terminal(s.blocks[s.current].term) {
        s
    } else {
        with_term(s, s.current, Terminator::Jump(target as usize))
    }
}

/// The current block ends with `t`, and what follows goes to a new unreachable block;
/// reading resumes after statement `i` of the block.
pub open spec fn dead_end(s: BState, t: Terminator, i: int) -> BState {
    let s1 = with_term(s, s.current, t);
    let dead = s1.blocks.len() as int;
    let s2 = with_term(with_new_block(s1), dead, Terminator::Unreachable);
    BState { offset: sat_add(s2.offset, i + 1), ..s2 }
}

/// The state after reading a block's statements.
pub open spec fn proc_block(s: BState, b: TypedBlock) -> BState
    decreases b, 1nat, 0nat,
{
    proc_from(s, b, 0)
}

/// The state after reading a block's statements from position `i` on. Straight
/// statements join the current block; the first other statement ends the reading: a
/// return, raise, break or continue ends the block; a conditional branches to its
/// first branch and its `else` (or straight to the merge block) which rejoin at a merge
/// block; a loop jumps to a header that branches to the body, which loops back, and to
/// an exit block; a `try` jumps to a merge block.
pub open spec fn proc_from(s: BState, b: TypedBlock, i: nat) -> BState
    decreases b, 0nat, b.stmts@.len() - i,
{
    if i >= b.stmts@.len() {
        BState { offset: sat_add(s.offset, b.stmts@.len() as int), ..s }
    } else {
        let s1 = with_stmt(s, sat_add(s.offset, i as int));
        match b.stmts@[i as int] {
            TypedStmt::Return { .. } => dead_end(s1, Terminator::Return, i as int),
            TypedStmt::Raise { .. } => dead_end(s1, Terminator::Raise, i as int),
            TypedStmt::Break(_) => dead_end(s1, Terminator::Jump(usize::MAX), i as int),
            TypedStmt::Continue(_) => dead_end(s1, Terminator::Jump(usize::MAX), i as int),
            TypedStmt::If { .. } => proc_if(s1, b.stmts@[i as int], i as int),
            TypedStmt::While { body, .. } => proc_loop(s1, body, i as int),
            TypedStmt::For { body, .. } => proc_loop(s1, body, i as int),
            TypedStmt::TryCatch { .. } => {
                let merge = s1.blocks.len() as int;
                let s2 = with_term(with_new_block(s1), s1.current, Terminator::Jump(merge as usize));
                let s3 = with_term(BState { current: merge, ..s2 }, merge, Terminator::Return);
                BState { offset: sat_add(s3.offset, i as int + 1), ..s3 }
            },
            _ => proc_from(s1, b, i + 1),
        }
    }
}

/// A conditional: the current block branches to the first branch's block and to an
/// `else` block, or straight to the merge block when there is no other branch; each
/// side falls through to the merge block, where reading goes on.
pub open spec fn proc_if(s1: BState, st: TypedStmt, i: int) -> BState
    decreases st, 2nat, 0nat,
{
    match st {
        TypedStmt::If { branches, else_branch, .. } => {
            let merge = s1.blocks.len() as int;
            let then_b = merge + 1;
            let has_else = else_branch is Some || branches@.len() > 1;
            let s2 = if has_else {
                with_new_block(with_new_block(with_new_block(s1)))
            } else {
                with_new_block(with_new_block(s1))
            };
            let else_b = if has_else {
                merge + 2
            } else {
                merge
            };
            let s3 = with_term(s2, s2.current, Terminator::Branch(then_b as usize, else_b as usize));
            let saved = sat_add(s3.offset, i + 1);
            let s4 = BState { current: then_b, offset: saved, ..s3 };
            let s5 = if branches@.len() > 0 {
                let t = proc_block(s4, branches@[0].1);
                BState { offset: sat_add(saved, branches@[0].1.stmts@.len() as int), ..t }
            } else {
                s4
            };
            let s6 = fall_to(s5, merge);
            let s7 = if has_else {
                let e0 = BState { current: else_b, ..s6 };
                let e1 = match else_branch {
                    Some(eb) => proc_block(e0, eb),
                    None => e0,
                    };
                fall_to(e1, merge)
            } else {
                s6
            };
            with_term(BState { current: merge, ..s7 }, merge, Terminator::Return)
        },
        _ => s1,
    }
}

/// A loop: the current block jumps to a header branching to the body and an exit
/// block; the body falls back to the header; reading goes on in the exit block.
pub open spec fn proc_loop(s1: BState, body: TypedBlock, i: int) -> BState
    decreases body, 2nat, 0nat,
{
    let header = s1.blocks.len() as int;
    let body_b = header + 1;
    let exit_b = header + 2;
    let s2 = with_new_block(with_new_block(with_new_block(s1)));
    let s3 = with_term(s2, s2.current, Terminator::Jump(header as usize));
    let s4 = BState { offset: sat_add(s3.offset, i + 1), current: header, ..s3 };
    let s5 = with_term(s4, header, Terminator::Branch(body_b as usize, exit_b as usize));
    let s6 = proc_block(BState { current: body_b, ..s5 }, body);
    let s7 = fall_to(s6, header);
    with_term(BState { current: exit_b, ..s7 }, exit_b, Terminator::Return)
}

/// The graph built from a function body: the body read from a single entry block;
/// then the last block, if it is still open, returns, and so does every other open
/// block but the entry.
pub open spec fn built(b: TypedBlock) -> Seq<BlockView> {
    let init = BState {
        blocks: seq![BlockView { id: 0, stmts: Seq::empty(), term: Terminator::Jump(0) }],
        current: 0,
        offset: 0,
    };
    let s = proc_block(init, b);
    let s1 = if s.blocks[s.current].term == Terminator::Jump(0) && s.current == s.blocks.len() - 1 {
        with_term(s, s.current, Terminator::Return)
    } else {
        s
    };
    s1.blocks.map_values(|v: BlockView| close_open(v))
}

/// A block other than the entry that is still open returns.
pub open spec fn close_open(v: BlockView) -> BlockView {
    if v.term == Terminator::Jump(0) && v.id != 0 {
        BlockView { term: Terminator::Return, ..v }
    } else {
        v
    }
}

/// Builds a control-flow graph block by block.
pub struct CfgBuilder {
    blocks: Vec<BasicBlock>,
    current: usize,
    stmt_offset: usize,
}

fn is_terminal_term(term: &Terminator) -> (r: bool)
    ensures
        r == (*term is Return || *term is Raise || *term is Unreachable || *term is Branch),
{
    match term {
        Terminator::Return | Terminator::Raise | Terminator::Unreachable | Terminator::Branch(_, _) => true,
        Terminator::Jump(_) => false,
    }
}

impl CfgBuilder {
    pub closed spec fn wf(&self) -> bool {
        &&& blocks_wf(self.blocks@)
        &&& self.current < self.blocks@.len()
    }

    /// The builder's state as values.
    pub closed spec fn state(&self) -> BState {
        BState { blocks: blocks_view(self.blocks@), current: self.current as int, offset: self.stmt_offset as int }
    }

    /// Builds the control-flow graph of a function body. Block 0 is the entry; a
    /// `break` or `continue` jumps to the placeholder `usize::MAX`.
    pub fn build(block: &TypedBlock) -> (r: Cfg)
        ensures
            blocks_view(r.blocks@) == built(*block),
            graph_of(*block, r),
            blocks_wf(r.blocks@),
            no_loop_exit(*block) ==> targets_in_range(r.blocks@),
            (forall|i: int| 0 <= i < block.stmts@.len() ==> is_straight(#[trigger] block.stmts@[i])) ==> {
                &&& r.blocks@.len() == 1
                &&& r.blocks@[0].term == Terminator::Return
                &&& r.blocks@[0].stmts@ == Seq::new(block.stmts@.len(), |i: int| i as usize)
            },
    {
        let mut first: Vec<BasicBlock> = Vec::new();
        first.push(BasicBlock { id: 0, stmts: Vec::new(), term: Terminator::Jump(0) });
        let ghost first_blocks = first@;
        let mut builder = CfgBuilder { blocks: first, current: 0, stmt_offset: 0 };
        proof {
            assert(builder.blocks@[0].stmts@ =~= Seq::<usize>::empty());
            assert(term_targets(builder.blocks@[0].term)[0] == 0);
            assert(targets_in_range(builder.blocks@));
        }
        let count = block.stmts.len();
        builder.process_block(block);
        proof {
            if forall|j: int| 0 <= j < block.stmts@.len() ==> is_straight(#[trigger] block.stmts@[j]) {
                assert(builder.blocks@[0].stmts@ =~= Seq::new(block.stmts@.len(), |k: int| k as usize));
            }
        }
        let ghost init = BState {
            blocks: seq![BlockView { id: 0, stmts: Seq::empty(), term: Terminator::Jump(0) }],
            current: 0,
            offset: 0,
        };
        proof {
            assert(blocks_view(first_blocks) =~= init.blocks);
        }
        let n = builder.blocks.len();
        if builder.blocks[builder.current].term == Terminator::Jump(0) && builder.current == n - 1 {
            builder.set_term(Terminator::Return);
        }
        let ghost fixed = builder.state().blocks;
        let mut blocks = builder.blocks;
        let mut i: usize = 0;
        while i < blocks.len()
            invariant
                i <= blocks@.len(),
                blocks@.len() == fixed.len(),
                forall|k: int| 0 <= k < blocks@.len() ==> #[trigger] block_view(blocks@[k]) == (if k < i {
                    close_open(fixed[k])
                } else {
                    fixed[k]
                }),
                blocks_wf(blocks@),
                no_loop_exit(*block) ==> targets_in_range(blocks@),
                (forall|j: int| 0 <= j < block.stmts@.len() ==> is_straight(#[trigger] block.stmts@[j])) ==> {
                    &&& blocks@.len() == 1
                    &&& blocks@[0].term == Terminator::Return
                    &&& blocks@[0].stmts@ == Seq::new(block.stmts@.len(), |k: int| k as usize)
                },
            decreases blocks@.len() - i,
        {
            let ghost before = blocks@;
            if blocks[i].term == Terminator::Jump(0) && blocks[i].id != 0 {
                let mut b = blocks.remove(i);
                b.term = Terminator::Return;
                blocks.insert(i, b);
                proof {
                    assert(blocks@ =~= before.update(i as int, b));
                    assert forall|x: int, k: int|
                        0 <= x < blocks@.len() && 0 <= k < term_targets(blocks@[x].term).len() implies #[trigger] term_targets(
                            blocks@[x].term,
                        )[k] < blocks@.len() || term_targets(blocks@[x].term)[k] == usize::MAX by {
                        if x != i {
                            assert(blocks@[x] == before[x]);
                        }
                    }
                    if no_loop_exit(*block) {
                        assert forall|x: int, k: int|
                            0 <= x < blocks@.len() && 0 <= k < term_targets(blocks@[x].term).len() implies #[trigger] term_targets(
                                blocks@[x].term,
                            )[k] < blocks@.len() by {
                            if x != i {
                                assert(blocks@[x] == before[x]);
                            }
                        }
                    }
                }
            }
            proof {
                assert forall|k: int| 0 <= k < blocks@.len() implies #[trigger] block_view(blocks@[k]) == (if k < i + 1 {
                    close_open(fixed[k])
                } else {
                    fixed[k]
                }) by {
                    if k != i {
                        assert(blocks@[k] == before[k]);
                    } else {
                        assert(block_view(before[k]) == fixed[k]);
                        if before[k].term == Terminator::Jump(0) && before[k].id != 0 {
                            assert(blocks@[k].term == Terminator::Return);
                            assert(blocks@[k].id == before[k].id);
                            assert(blocks@[k].stmts == before[k].stmts);
                        } else {
                            assert(blocks@[k] == before[k]);
                        }
                    }
                }
            }
            i += 1;
        }
        proof {
            assert(blocks_view(blocks@) =~= built(*block));
        }
        Cfg { blocks }
    }

    fn new_block(&mut self) -> (id: usize)
        requires
            old(self).wf(),
        ensures
            final(self).wf(),
            id == old(self).blocks@.len(),
            final(self).blocks@ == old(self).blocks@.push(
                BasicBlock { id, stmts: final(self).blocks@[id as int].stmts, term: Terminator::Jump(0) },
            ),
            final(self).blocks@[id as int].stmts@.len() == 0,
            final(self).current == old(self).current,
            final(self).stmt_offset == old(self).stmt_offset,
            targets_in_range(old(self).blocks@) ==> targets_in_range(final(self).blocks@),
            final(self).state() == with_new_block(old(self).state()),
    {
        let id = self.blocks.len();
        self.blocks.push(BasicBlock { id, stmts: Vec::new(), term: Terminator::Jump(0) });
        proof {
            assert(blocks_view(self.blocks@) =~= with_new_block(old(self).state()).blocks);
            let bs = self.blocks@;
            assert forall|i: int, k: int|
                0 <= i < bs.len() && 0 <= k < term_targets(bs[i].term).len() implies #[trigger] term_targets(
                    bs[i].term,
                )[k] < bs.len() || term_targets(bs[i].term)[k] == usize::MAX by {
                if i < bs.len() - 1 {
                    assert(bs[i] == old(self).blocks@[i]);
                }
            }
            if targets_in_range(old(self).blocks@) {
                assert forall|i: int, k: int|
                    0 <= i < bs.len() && 0 <= k < term_targets(bs[i].term).len() implies #[trigger] term_targets(
                        bs[i].term,
                    )[k] < bs.len() by {
                    if i < bs.len() - 1 {
                        assert(bs[i] == old(self).blocks@[i]);
                    }
                }
            }
        }
        id
    }

    /// Sets the terminator of block `id`; its targets must be blocks or the placeholder.
    fn set_block_term(&mut self, id: usize, term: Terminator)
        requires
            old(self).wf(),
            id < old(self).blocks@.len(),
            forall|k: int| 0 <= k < term_targets(term).len() ==> #[trigger] term_targets(term)[k]
                < old(self).blocks@.len() || term_targets(term)[k] == usize::MAX,
        ensures
            final(self).wf(),
            final(self).blocks@.len() == old(self).blocks@.len(),
            final(self).blocks@[id as int].term == term,
            final(self).blocks@[id as int].stmts == old(self).blocks@[id as int].stmts,
            forall|i: int| 0 <= i < final(self).blocks@.len() && i != id ==> #[trigger] final(self).blocks@[i] == old(self).blocks@[i],
            final(self).current == old(self).current,
            final(self).stmt_offset == old(self).stmt_offset,
            targets_in_range(old(self).blocks@) && (forall|k: int| 0 <= k < term_targets(term).len() ==> #[trigger] term_targets(term)[k]
                < old(self).blocks@.len()) ==> targets_in_range(final(self).blocks@),
            final(self).state() == with_term(old(self).state(), id as int, term),
    {
        let ghost before = self.blocks@;
        let mut b = self.blocks.remove(id);
        b.term = term;
        self.blocks.insert(id, b);
        proof {
            assert(self.blocks@ =~= before.update(id as int, b));
            assert(blocks_view(self.blocks@) =~= with_term(old(self).state(), id as int, term).blocks);
            let bs = self.blocks@;
            assert forall|i: int, k: int|
                0 <= i < bs.len() && 0 <= k < term_targets(bs[i].term).len() implies #[trigger] term_targets(
                    bs[i].term,
                )[k] < bs.len() || term_targets(bs[i].term)[k] == usize::MAX by {
                if i != id {
                    assert(bs[i] == before[i]);
                }
            }
            if targets_in_range(before) && (forall|k: int| 0 <= k < term_targets(term).len() ==> #[trigger] term_targets(term)[k]
                < before.len()) {
                assert forall|i: int, k: int|
                    0 <= i < bs.len() && 0 <= k < term_targets(bs[i].term).len() implies #[trigger] term_targets(
                        bs[i].term,
                    )[k] < bs.len() by {
                    if i != id {
                        assert(bs[i] == before[i]);
                    }
                }
            }
        }
    }

    fn set_term(&mut self, term: Terminator)
        requires
            old(self).wf(),
            forall|k: int| 0 <= k < term_targets(term).len() ==> #[trigger] term_targets(term)[k]
                < old(self).blocks@.len() || term_targets(term)[k] == usize::MAX,
        ensures
            final(self).wf(),
            final(self).blocks@.len() == old(self).blocks@.len(),
            final(self).blocks@[old(self).current as int].term == term,
            final(self).blocks@[old(self).current as int].stmts == old(self).blocks@[old(self).current as int].stmts,
            forall|i: int| 0 <= i < final(self).blocks@.len() && i != old(self).current ==> #[trigger] final(self).blocks@[i] == old(self).blocks@[i],
            final(self).current == old(self).current,
            final(self).stmt_offset == old(self).stmt_offset,
            targets_in_range(old(self).blocks@) && (forall|k: int| 0 <= k < term_targets(term).len() ==> #[trigger] term_targets(term)[k]
                < old(self).blocks@.len()) ==> targets_in_range(final(self).blocks@),
            final(self).state() == with_term(old(self).state(), old(self).current as int, term),
    {
        let c = self.current;
        self.set_block_term(c, term);
    }

    /// Appends a statement index to the current block.
    fn push_stmt(&mut self, idx: usize)
        requires
            old(self).wf(),
        ensures
            final(self).wf(),
            final(self).blocks@.len() == old(self).blocks@.len(),
            final(self).blocks@[old(self).current as int].stmts@ == old(self).blocks@[old(self).current as int].stmts@.push(idx),
            final(self).blocks@[old(self).current as int].term == old(self).blocks@[old(self).current as int].term,
            forall|i: int| 0 <= i < final(self).blocks@.len() && i != old(self).current ==> #[trigger] final(self).blocks@[i] == old(self).blocks@[i],
            final(self).current == old(self).current,
            final(self).stmt_offset == old(self).stmt_offset,
            targets_in_range(old(self).blocks@) ==> targets_in_range(final(self).blocks@),
            final(self).state() == with_stmt(old(self).state(), idx as int),
    {
        let c = self.current;
        let ghost before = self.blocks@;
        let mut b = self.blocks.remove(c);
        b.stmts.push(idx);
        self.blocks.insert(c, b);
        proof {
            assert(self.blocks@ =~= before.update(c as int, b));
            assert(blocks_view(self.blocks@) =~= with_stmt(old(self).state(), idx as int).blocks);
            let bs = self.blocks@;
            assert forall|i: int, k: int|
                0 <= i < bs.len() && 0 <= k < term_targets(bs[i].term).len() implies #[trigger] term_targets(
                    bs[i].term,
                )[k] < bs.len() || term_targets(bs[i].term)[k] == usize::MAX by {
                if i != c {
                    assert(bs[i] == before[i]);
                }
            }
            if targets_in_range(before) {
                assert forall|i: int, k: int|
                    0 <= i < bs.len() && 0 <= k < term_targets(bs[i].term).len() implies #[trigger] term_targets(
                        bs[i].term,
                    )[k] < bs.len() by {
                    if i != c {
                        assert(bs[i] == before[i]);
                    }
                }
            }
        }
    }

    #[verifier::spinoff_prover]
    #[verifier::rlimit(80)]
    fn process_block(&mut self, block: &TypedBlock)
        requires
            old(self).wf(),
        ensures
            final(self).wf(),
            final(self).blocks@.len() >= old(self).blocks@.len(),
            (forall|i: int| 0 <= i < block.stmts@.len() ==> is_straight(#[trigger] block.stmts@[i]))
                && old(self).stmt_offset + block.stmts@.len() <= usize::MAX ==> {
                &&& final(self).blocks@.len() == old(self).blocks@.len()
                &&& final(self).current == old(self).current
                &&& final(self).stmt_offset == old(self).stmt_offset + block.stmts@.len()
                &&& final(self).blocks@[old(self).current as int].term == old(self).blocks@[old(self).current as int].term
                &&& final(self).blocks@[old(self).current as int].stmts@ == old(self).blocks@[old(self).current as int].stmts@
                    + Seq::new(block.stmts@.len(), |k: int| (old(self).stmt_offset + k) as usize)
                &&& forall|i: int| 0 <= i < final(self).blocks@.len() && i != old(self).current ==> #[trigger] final(self).blocks@[i] == old(self).blocks@[i]
            },
            targets_in_range(old(self).blocks@) && no_loop_exit(*block) ==> targets_in_range(final(self).blocks@),
            final(self).state() == proc_block(old(self).state(), *block),
        decreases block, 0nat,
    {
        let ghost start_offset = self.stmt_offset;
        let ghost start_stmts = self.blocks@[self.current as int].stmts@;
        let ghost start_blocks = self.blocks@;
        let mut i: usize = 0;
        while i < block.stmts.len()
            invariant
                self.wf(),
                i <= block.stmts@.len(),
                start_blocks == old(self).blocks@,
                start_offset == old(self).stmt_offset,
                start_stmts == old(self).blocks@[old(self).current as int].stmts@,
                old(self).current < old(self).blocks@.len(),
                self.blocks@.len() >= start_blocks.len(),
                forall|j: int| 0 <= j < i ==> is_straight(#[trigger] block.stmts@[j]),
                targets_in_range(start_blocks) && no_loop_exit(*block) ==> targets_in_range(self.blocks@),
                self.stmt_offset == start_offset,
                proc_from(self.state(), *block, i as nat) == proc_block(old(self).state(), *block),
                (forall|j: int| 0 <= j < i ==> is_straight(#[trigger] block.stmts@[j])) && start_offset + block.stmts@.len() <= usize::MAX ==> {
                    &&& self.blocks@.len() == start_blocks.len()
                    &&& self.current == old(self).current
                    &&& self.stmt_offset == start_offset
                    &&& self.blocks@[self.current as int].term == start_blocks[self.current as int].term
                    &&& self.blocks@[self.current as int].stmts@ == start_stmts + Seq::new(i as nat, |k: int| (start_offset + k) as usize)
                    &&& forall|x: int| 0 <= x < self.blocks@.len() && x != self.current ==> #[trigger] self.blocks@[x] == start_blocks[x]
                },
            decreases block.stmts@.len() - i,
        {
            let global_idx = self.stmt_offset.saturating_add(i);
            let ghost s0 = self.state();
            let ghost before_stmts = self.blocks@[self.current as int].stmts@;
            self.push_stmt(global_idx);
            proof {
                if (forall|j: int| 0 <= j < i ==> is_straight(#[trigger] block.stmts@[j])) && start_offset + block.stmts@.len() <= usize::MAX {
                    assert(self.blocks@[self.current as int].stmts@ =~= start_stmts + Seq::new((i + 1) as nat, |k: int| (start_offset + k) as usize));
                }
            }
            proof {
                lemma_first_ctrl(block.stmts@);
                let k = first_ctrl(block.stmts@);
                if !is_straight(block.stmts@[i as int]) {
                    if k < i {
                        assert(is_straight(block.stmts@[k as int]));
                    }
                    if k > i {
                        assert(is_straight(block.stmts@[i as int]));
                    }
                    assert(k == i);
                    assert(no_loop_exit(*block) ==> no_loop_exit_stmt(block.stmts@[i as int]));
                }
            }
            match &block.stmts[i] {
                TypedStmt::Return { .. } => {
                    self.end_block(Terminator::Return, i);
                    return;
                },
                TypedStmt::Raise { .. } => {
                    self.end_block(Terminator::Raise, i);
                    return;
                },
                TypedStmt::Break(_) | TypedStmt::Continue(_) => {
                    self.end_block(Terminator::Jump(usize::MAX), i);
                    return;
                },
                TypedStmt::If { .. } => {
                    proof {
                        assert(decreases_to!(block => block.stmts@[i as int]));
                    }
                    self.process_if(&block.stmts[i], i);
                    return;
                },
                TypedStmt::While { body, .. } => {
                    proof {
                        assert(decreases_to!(block => *body));
                    }
                    self.process_loop(body, i);
                    return;
                },
                TypedStmt::For { body, .. } => {
                    proof {
                        assert(decreases_to!(block => *body));
                    }
                    self.process_loop(body, i);
                    return;
                },
                TypedStmt::TryCatch { .. } => {
                    self.process_try(i);
                    return;
                },
                _ => {},
            }
            i += 1;
        }
        self.stmt_offset = self.stmt_offset.saturating_add(block.stmts.len());
    }

    /// Ends the current block with `term` and opens an unreachable block for what follows.
    fn end_block(&mut self, term: Terminator, i: usize)
        requires
            old(self).wf(),
            i < usize::MAX,
            forall|k: int| 0 <= k < term_targets(term).len() ==> #[trigger] term_targets(term)[k]
                < old(self).blocks@.len() || term_targets(term)[k] == usize::MAX,
        ensures
            final(self).wf(),
            final(self).blocks@.len() >= old(self).blocks@.len(),
            targets_in_range(old(self).blocks@) && (forall|k: int| 0 <= k < term_targets(term).len() ==> #[trigger] term_targets(term)[k]
                < old(self).blocks@.len()) ==> targets_in_range(final(self).blocks@),
            final(self).state() == dead_end(old(self).state(), term, i as int),
    {
        self.set_term(term);
        let dead = self.new_block();
        self.set_block_term(dead, Terminator::Unreachable);
        self.stmt_offset = self.stmt_offset.saturating_add(i + 1);
    }

    /// A `try`: the current block jumps to a merge block where reading goes on.
    fn process_try(&mut self, i: usize)
        requires
            old(self).wf(),
            i < usize::MAX,
        ensures
            final(self).wf(),
            final(self).blocks@.len() >= old(self).blocks@.len(),
            targets_in_range(old(self).blocks@) ==> targets_in_range(final(self).blocks@),
            final(self).state() == ({
                let s1 = old(self).state();
                let merge = s1.blocks.len() as int;
                let s2 = with_term(with_new_block(s1), s1.current, Terminator::Jump(merge as usize));
                let s3 = with_term(BState { current: merge, ..s2 }, merge, Terminator::Return);
                BState { offset: sat_add(s3.offset, i as int + 1), ..s3 }
            }),
    {
        let merge = self.new_block();
        self.set_term(Terminator::Jump(merge));
        self.current = merge;
        self.set_block_term(merge, Terminator::Return);
        self.stmt_offset = self.stmt_offset.saturating_add(i + 1);
    }

    /// A loop over `body`.
    fn process_loop(&mut self, body: &TypedBlock, i: usize)
        requires
            old(self).wf(),
            i < usize::MAX,
        ensures
            final(self).wf(),
            final(self).blocks@.len() >= old(self).blocks@.len(),
            targets_in_range(old(self).blocks@) && no_loop_exit(*body) ==> targets_in_range(final(self).blocks@),
            final(self).state() == proc_loop(old(self).state(), *body, i as int),
        decreases body, 1nat,
    {
        let header = self.new_block();
        let body_block = self.new_block();
        let exit_block = self.new_block();
        self.set_term(Terminator::Jump(header));
        self.stmt_offset = self.stmt_offset.saturating_add(i + 1);
        self.current = header;
        self.set_block_term(header, Terminator::Branch(body_block, exit_block));
        self.current = body_block;
        self.process_block(body);
        if !is_terminal_term(&self.blocks[self.current].term) {
            self.set_term(Terminator::Jump(header));
        }
        self.current = exit_block;
        self.set_block_term(exit_block, Terminator::Return);
    }

    /// A conditional statement `st`.
    fn process_if(&mut self, st: &TypedStmt, i: usize)
        requires
            old(self).wf(),
            i < usize::MAX,
            st is If,
        ensures
            final(self).wf(),
            final(self).blocks@.len() >= old(self).blocks@.len(),
            targets_in_range(old(self).blocks@) && no_loop_exit_stmt(*st) ==> targets_in_range(final(self).blocks@),
            final(self).state() == proc_if(old(self).state(), *st, i as int),
        decreases st, 1nat,
    {
        let (branches, else_branch) = match st {
            TypedStmt::If { branches, else_branch, .. } => (branches, else_branch),
            _ => {
                return;
            },
        };
        let merge = self.new_block();
        let then_block = self.new_block();
        let else_block = if else_branch.is_some() || branches.len() > 1 {
            self.new_block()
        } else {
            merge
        };
        self.set_term(Terminator::Branch(then_block, else_block));
        self.stmt_offset = self.stmt_offset.saturating_add(i + 1);
        let saved_then = self.stmt_offset;
        self.current = then_block;
        if branches.len() > 0 {
            let body = &branches[0].1;
            let sub_stmt_count = body.stmts.len();
            proof {
                assert(decreases_to!(*st => branches@[0].1));
            }
            self.process_block(body);
            self.stmt_offset = saved_then.saturating_add(sub_stmt_count);
        }
        if !is_terminal_term(&self.blocks[self.current].term) {
            self.set_term(Terminator::Jump(merge));
        }
        if else_block != merge {
            self.current = else_block;
            match else_branch {
                Some(eb) => {
                    proof {
                        assert(decreases_to!(*st => *eb));
                    }
                    self.process_block(eb);
                },
                None => {},
            }
            if !is_terminal_term(&self.blocks[self.current].term) {
                self.set_term(Terminator::Jump(merge));
            }
        }
        self.current = merge;
        self.set_block_term(merge, Terminator::Return);
    }

}

} // verus!
