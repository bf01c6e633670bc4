use vstd::prelude::*;
use crate::env::GenericBound;
use crate::solve::{TypeRegistry, iface_implies_spec, implies_within_exec};

verus! {

// Reducing inferred generic bounds to what call sites need to check.

/// Some bound of `all` on the same parameter, with a different interface, implies `b`.
pub open spec fn implied_by_other(b: GenericBound, all: Seq<GenericBound>, reg: TypeRegistry, n: int) -> bool
    decreases n,
{
    if n <= 0 || n > all.len() {
        false
    } else {
        implied_by_other(b, all, reg, n - 1) || (all[n - 1].param@ == b.param@ && all[n - 1].iface@ != b.iface@
            && iface_implies_spec(reg, all[n - 1].iface@, b.iface@))
    }
}

/// The bounds among the first `n` of `all` that no other bound implies, in order.
pub open spec fn minimized(all: Seq<GenericBound>, reg: TypeRegistry, n: int) -> Seq<GenericBound>
    decreases n,
{
    if n <= 0 || n > all.len() {
        Seq::empty()
    } else if implied_by_other(all[n - 1], all, reg, all.len() as int) {
        minimized(all, reg, n - 1)
    } else {
        minimized(all, reg, n - 1).push(all[n - 1])
    }
}

/// Whether some other bound of `all` implies `all[i]`.
fn is_implied(all: &Vec<GenericBound>, i: usize, reg: &TypeRegistry) -> (r: bool)
    requires
        i < all@.len(),
    ensures
        r == implied_by_other(all@[i as int], all@, *reg, all@.len() as int),
{
    let mut acc = false;
    let mut k: usize = 0;
    while k < all.len()
        invariant
            k <= all@.len(),
            i < all@.len(),
            acc == implied_by_other(all@[i as int], all@, *reg, k as int),
        decreases all@.len() - k,
    {
        if all[k].param == all[i].param && all[k].iface != all[i].iface {
            let hit = implies_within_exec(&reg.supers, &all[k].iface, &all[i].iface, reg.supers.len());
            acc = acc || hit;
        }
        k += 1;
    }
    acc
}

/// Reduces a bound set to its antichain: drops `T: A` when another bound `T: B` exists
/// whose interface `B` implies `A`, keeping the others in order.
pub fn minimize_bounds(bounds: Vec<GenericBound>, registry: &TypeRegistry) -> (r: Vec<GenericBound>)
    ensures
        r@ == minimized(bounds@, *registry, bounds@.len() as int),
{
    let ghost all = bounds@;
    let mut keep: Vec<bool> = Vec::new();
    let mut i: usize = 0;
    while i < bounds.len()
        invariant
            i <= bounds@.len(),
            bounds@ == all,
            keep@.len() == i,
            forall|j: int| 0 <= j < i ==> keep@[j] == !implied_by_other(all[j], all, *registry, all.len() as int),
        decreases bounds@.len() - i,
    {
        let implied = is_implied(&bounds, i, registry);
        keep.push(!implied);
        i += 1;
    }
    let mut rest = bounds;
    let mut rev: Vec<GenericBound> = Vec::new();
    while rest.len() > 0
        invariant
            rest@.len() + rev@.len() == all.len(),
            rest@ == all.take(rest@.len() as int),
            forall|j: int| 0 <= j < rev@.len() ==> rev@[j] == all[all.len() - 1 - j],
        decreases rest@.len(),
    {
        let x = rest.pop().unwrap();
        rev.push(x);
        proof {
            assert(rest@ =~= all.take(rest@.len() as int));
        }
    }
    let mut out: Vec<GenericBound> = Vec::new();
    let mut k: usize = 0;
    proof {
        assert(minimized(all, *registry, 0) =~= Seq::<GenericBound>::empty());
    }
    while rev.len() > 0
        invariant
            k + rev@.len() == all.len(),
            keep@.len() == all.len(),
            forall|j: int| 0 <= j < all.len() ==> keep@[j] == !implied_by_other(all[j], all, *registry, all.len() as int),
            forall|j: int| 0 <= j < rev@.len() ==> rev@[j] == all[all.len() - 1 - j],
            out@ == minimized(all, *registry, k as int),
        decreases rev@.len(),
    {
        let x = rev.pop().unwrap();
        proof {
            assert(x == all[k as int]);
        }
        if keep[k] {
            out.push(x);
        }
        k += 1;
    }
    out
}

/// What minimizing keeps is an antichain: of two kept bounds on one parameter with
/// different interfaces, neither interface implies the other.
pub proof fn minimized_bounds_are_an_antichain(bounds: Seq<GenericBound>, reg: TypeRegistry, i: int, j: int)
    requires
        0 <= i < minimized(bounds, reg, bounds.len() as int).len(),
        0 <= j < minimized(bounds, reg, bounds.len() as int).len(),
    ensures
        ({
            let m = minimized(bounds, reg, bounds.len() as int);
            m[i].param@ == m[j].param@ && m[i].iface@ != m[j].iface@ ==> !iface_implies_spec(reg, m[i].iface@, m[j].iface@)
        }),
{
    let m = minimized(bounds, reg, bounds.len() as int);
    lemma_minimized_members(bounds, reg, bounds.len() as int);
    let a = choose|a: int| 0 <= a < bounds.len() && bounds[a] == m[i];
    if m[i].param@ == m[j].param@ && m[i].iface@ != m[j].iface@ && iface_implies_spec(reg, m[i].iface@, m[j].iface@) {
        lemma_implied_by_member(m[j], bounds, reg, a, bounds.len() as int);
    }
}

proof fn lemma_minimized_members(bounds: Seq<GenericBound>, reg: TypeRegistry, n: int)
    requires
        0 <= n <= bounds.len(),
    ensures
        forall|k: int| 0 <= k < minimized(bounds, reg, n).len() ==> (exists|a: int| 0 <= a < bounds.len()
            && bounds[a] == #[trigger] minimized(bounds, reg, n)[k]) && !implied_by_other(
            minimized(bounds, reg, n)[k],
            bounds,
            reg,
            bounds.len() as int,
        ),
    decreases n,
{
    if n > 0 {
        lemma_minimized_members(bounds, reg, n - 1);
        let p = minimized(bounds, reg, n - 1);
        assert forall|k: int| 0 <= k < minimized(bounds, reg, n).len() implies (exists|a: int| 0 <= a < bounds.len()
            && bounds[a] == #[trigger] minimized(bounds, reg, n)[k]) && !implied_by_other(
            minimized(bounds, reg, n)[k],
            bounds,
            reg,
            bounds.len() as int,
        ) by {
            if k < p.len() {
                assert(minimized(bounds, reg, n)[k] == p[k]);
            } else {
                assert(bounds[n - 1] == minimized(bounds, reg, n)[k]);
            }
        }
    }
}

proof fn lemma_implied_by_member(b: GenericBound, all: Seq<GenericBound>, reg: TypeRegistry, a: int, n: int)
    requires
        0 <= a < n <= all.len(),
        all[a].param@ == b.param@,
        all[a].iface@ != b.iface@,
        iface_implies_spec(reg, all[a].iface@, b.iface@),
    ensures
        implied_by_other(b, all, reg, n),
    decreases n,
{
    if a < n - 1 {
        lemma_implied_by_member(b, all, reg, a, n - 1);
    }
}

} // verus!
