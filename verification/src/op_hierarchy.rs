use vstd::prelude::*;
use crate::ast::BinOp;

verus! {

/// The interfaces a compound assignment `op=` resolves through, most specific first.
pub open spec fn hierarchy_names(op: BinOp) -> Seq<Seq<char>> {
    match op {
        BinOp::Add => seq!["AddAssignable"@, "AddableWith"@, "Addable"@],
        BinOp::Sub => seq!["SubtractAssignable"@, "SubtractableWith"@, "Subtractable"@],
        BinOp::Mul => seq!["MultiplyAssignable"@, "MultipliableWith"@, "Multiplicable"@],
        BinOp::Div => seq!["DivideAssignable"@, "DividableWith"@, "Divisible"@],
        BinOp::Mod => seq!["RemainderAssignable"@, "RemainderableWith"@, "Remainder"@],
        _ => Seq::empty(),
    }
}

fn three(a: &'static str, b: &'static str, c: &'static str) -> (r: Vec<&'static str>)
    ensures
        r@.map_values(|s: &str| s@) == seq![a@, b@, c@],
{
    let mut v: Vec<&'static str> = Vec::new();
    v.push(a);
    v.push(b);
    v.push(c);
    assert(v@.map_values(|s: &str| s@) =~= seq![a@, b@, c@]);
    v
}

/// The ordered resolution path for a compound-assign operator: each step is an
/// interface name to check, from most specific to most general. Operators without
/// a compound assignment have an empty path.
pub fn compound_assign_hierarchy(op: &BinOp) -> (r: Vec<&'static str>)
    ensures
        r@.map_values(|s: &str| s@) == hierarchy_names(*op),
{
    match op {
        BinOp::Add => three("AddAssignable", "AddableWith", "Addable"),
        BinOp::Sub => three("SubtractAssignable", "SubtractableWith", "Subtractable"),
        BinOp::Mul => three("MultiplyAssignable", "MultipliableWith", "Multiplicable"),
        BinOp::Div => three("DivideAssignable", "DividableWith", "Divisible"),
        BinOp::Mod => three("RemainderAssignable", "RemainderableWith", "Remainder"),
        _ => {
            let v: Vec<&'static str> = Vec::new();
            assert(v@.map_values(|s: &str| s@) =~= Seq::<Seq<char>>::empty());
            v
        },
    }
}

/// The loosest interface that makes a compound assignment possible: the last entry of
/// its resolution path, or `None` for operators without one.
pub fn compound_assign_iface(op: &BinOp) -> (r: Option<&'static str>)
    ensures
        hierarchy_names(*op).len() == 0 ==> r is None,
        hierarchy_names(*op).len() > 0 ==> (r matches Some(s) && s@ == hierarchy_names(*op).last()),
{
    let h = compound_assign_hierarchy(op);
    if h.len() == 0 {
        None
    } else {
        let s = h[h.len() - 1];
        assert(h@.map_values(|s: &str| s@)[h@.len() - 1] == s@);
        Some(s)
    }
}

} // verus!
