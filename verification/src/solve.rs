use vstd::prelude::*;
use vstd::string::*;
use crate::ty::{Ty, TypeId, TyModel, ty_model, tys_model, lemma_tys_model_index, ty_text, ty_to_string, ty_copy};
use crate::constrain::{Constraint, ConstraintKind, ConstraintReason, context_text, reason_model};
use crate::error::AnalysisError;
use crate::span::Span;
use crate::type_compat::{dispatch_name, type_name_of};

verus! {

// Which types satisfy which interfaces: the registry of conformances and interface
// hierarchies, and the check of a type against an interface bound.

/// One registered conformance of a type to an interface: the bounds its generic
/// parameters must meet, as `(param, interface)`, and its associated-type bindings.
#[derive(Debug)]
pub struct ConformanceEntry {
    pub bounds: Vec<(String, String)>,
    pub bindings: Vec<(String, Ty)>,
}

/// What a registered nominal type is.
#[derive(Debug)]
pub enum TypeKind {
    Struct,
    Enum { variant_names: Vec<String> },
    /// An alias, with the type it stands for once resolved.
    Alias(Ty),
}

/// The nominal types, conformances and interface hierarchies known to the analyzer,
/// each in registration order.
#[derive(Debug)]
pub struct TypeRegistry {
    /// Registered nominal types with the names of their generic parameters and their
    /// kind, in registration order; a type's id is its index here.
    pub types: Vec<(String, Vec<String>, TypeKind)>,
    /// `(type name, interface name, entry)` for each registered conformance.
    pub conformances: Vec<(String, String, ConformanceEntry)>,
    /// An interface with its direct superinterfaces.
    pub supers: Vec<(String, Vec<String>)>,
    /// An interface with all its superinterfaces, as last computed by
    /// `precompute_transitive_closures`.
    pub closures: Vec<(String, Vec<String>)>,
}

/// The generic parameter names of the type registered last under `name`.
pub open spec fn order_of(types: Seq<(String, Vec<String>, TypeKind)>, name: Seq<char>) -> Option<Seq<String>>
    decreases types.len(),
{
    if types.len() == 0 {
        None
    } else if types.last().0@ == name {
        Some(types.last().1@)
    } else {
        order_of(types.drop_last(), name)
    }
}

/// The direct superinterfaces registered last for interface `name`; none if it has no
/// entry.
pub open spec fn direct_supers(sup: Seq<(String, Vec<String>)>, name: Seq<char>) -> Seq<String>
    decreases sup.len(),
{
    if sup.len() == 0 {
        Seq::empty()
    } else if sup.last().0@ == name {
        sup.last().1@
    } else {
        direct_supers(sup.drop_last(), name)
    }
}

/// The first index of `p` in `order` at or after `i`.
pub open spec fn position_from(order: Seq<String>, p: Seq<char>, i: int) -> Option<int>
    decreases order.len() - i,
{
    if i < 0 || i >= order.len() {
        None
    } else if order[i]@ == p {
        Some(i)
    } else {
        position_from(order, p, i + 1)
    }
}

/// Some of the first `n` conformances registers `name: iface`.
pub open spec fn conf_exists(
    confs: Seq<(String, String, ConformanceEntry)>,
    name: Seq<char>,
    iface: Seq<char>,
    n: int,
) -> bool
    decreases n,
{
    if n <= 0 || n > confs.len() {
        false
    } else {
        conf_exists(confs, name, iface, n - 1) || (confs[n - 1].0@ == name && confs[n - 1].1@ == iface)
    }
}

/// The entries of the first `n` conformances that register `name: iface`, in order.
pub open spec fn entries_for(
    confs: Seq<(String, String, ConformanceEntry)>,
    name: Seq<char>,
    iface: Seq<char>,
    n: int,
) -> Seq<ConformanceEntry>
    decreases n,
{
    if n <= 0 || n > confs.len() {
        Seq::empty()
    } else if confs[n - 1].0@ == name && confs[n - 1].1@ == iface {
        entries_for(confs, name, iface, n - 1).push(confs[n - 1].2)
    } else {
        entries_for(confs, name, iface, n - 1)
    }
}

/// `a` reaches `b` through at most `k` superinterface steps, taking at least one.
pub open spec fn implies_within(sup: Seq<(String, Vec<String>)>, a: Seq<char>, b: Seq<char>, k: nat) -> bool
    decreases k, 1nat, 0int,
{
    if k == 0 {
        false
    } else {
        let list = direct_supers(sup, a);
        any_super_reaches(sup, list, b, k, list.len() as int)
    }
}

/// One of the first `n` interfaces of `list` is `b` or reaches it within `k - 1` steps.
pub open spec fn any_super_reaches(
    sup: Seq<(String, Vec<String>)>,
    list: Seq<String>,
    b: Seq<char>,
    k: nat,
    n: int,
) -> bool
    decreases k, 0nat, n,
{
    if k == 0 || n <= 0 || n > list.len() {
        false
    } else {
        any_super_reaches(sup, list, b, k, n - 1) || list[n - 1]@ == b || implies_within(
            sup,
            list[n - 1]@,
            b,
            (k - 1) as nat,
        )
    }
}

/// Interface `a` implies interface `b`: `b` is a superinterface of `a`, directly or
/// through others. A chain needs no more steps than there are hierarchy entries, so
/// the search depth is their number.
pub open spec fn iface_implies_spec(reg: TypeRegistry, a: Seq<char>, b: Seq<char>) -> bool {
    implies_within(reg.supers@, a, b, reg.supers@.len())
}

/// Some of the first `n` conformances registered for `name` is to an interface that
/// implies `iface`.
pub open spec fn implied_any(reg: TypeRegistry, name: Seq<char>, iface: Seq<char>, n: int) -> bool
    decreases n,
{
    if n <= 0 || n > reg.conformances@.len() {
        false
    } else {
        implied_any(reg, name, iface, n - 1) || (reg.conformances@[n - 1].0@ == name
            && iface_implies_spec(reg, reg.conformances@[n - 1].1@, iface))
    }
}

/// The heterogeneous `*With` interface whose conformance also satisfies an operator
/// interface.
pub open spec fn shorthand_spec(iface: Seq<char>) -> Option<Seq<char>> {
    if iface == "Addable"@ {
        Some("AddableWith"@)
    } else if iface == "Subtractable"@ {
        Some("SubtractableWith"@)
    } else if iface == "Multiplicable"@ {
        Some("MultipliableWith"@)
    } else if iface == "Divisible"@ {
        Some("DividableWith"@)
    } else if iface == "Remainder"@ {
        Some("RemainderableWith"@)
    } else if iface == "PartialEq"@ {
        Some("EquatableWith"@)
    } else if iface == "PartialOrd"@ || iface == "Ord"@ {
        Some("ComparableWith"@)
    } else {
        None
    }
}

/// A type satisfies an interface.
/// - `Unknown`, generic parameters, interfaces and projections always do (errors
///   elsewhere cover them, or the check happens at the use site).
/// - A compound type does when one of its parts does; a reference when its target does.
/// - `void`, tuples, callables and unions never do.
/// - A named type not in the registry does; a registered one does when one of its
///   conformances to the interface has its parameter bounds met by the type's
///   arguments, when it conforms to the operator's `*With` interface, or when one of its
///   conformances is to an interface that implies this one.
/// - A primitive does when it conforms to the interface or to one that implies it.
pub open spec fn satisfies_spec(t: TyModel, iface: Seq<char>, reg: TypeRegistry) -> bool
    decreases t, 0nat, 0int,
{
    match t {
        TyModel::Unknown | TyModel::GenericParam(_) | TyModel::Interface(_, _) | TyModel::Projection(
            _,
            _,
        ) => true,
        TyModel::Compound(parts) => any_part_satisfies(parts, iface, reg, parts.len() as int),
        TyModel::Void | TyModel::Tuple(_) | TyModel::Callable(_, _) | TyModel::Union(_) => false,
        TyModel::Ref(inner, _) => satisfies_spec(*inner, iface, reg),
        TyModel::Named(_, name, args) => {
            match order_of(reg.types@, name) {
                None => true,
                Some(order) => entries_any(args, name, iface, order, reg, reg.conformances@.len() as int)
                    || (match shorthand_spec(iface) {
                    Some(w) => conf_exists(reg.conformances@, name, w, reg.conformances@.len() as int),
                    None => false,
                }) || implied_any(reg, name, iface, reg.conformances@.len() as int),
            }
        },
        TyModel::Int => prim_satisfies("int"@, iface, reg),
        TyModel::Float => prim_satisfies("float"@, iface, reg),
        TyModel::Bool => prim_satisfies("bool"@, iface, reg),
        TyModel::Str => prim_satisfies("str"@, iface, reg),
    }
}

/// A primitive named `name` conforms to `iface` directly or through an implying
/// interface.
pub open spec fn prim_satisfies(name: Seq<char>, iface: Seq<char>, reg: TypeRegistry) -> bool {
    conf_exists(reg.conformances@, name, iface, reg.conformances@.len() as int) || implied_any(
        reg,
        name,
        iface,
        reg.conformances@.len() as int,
    )
}

/// One of the first `n` parts satisfies `iface`.
pub open spec fn any_part_satisfies(parts: Seq<TyModel>, iface: Seq<char>, reg: TypeRegistry, n: int) -> bool
    decreases parts, 0nat, n,
{
    if n <= 0 || n > parts.len() {
        false
    } else {
        any_part_satisfies(parts, iface, reg, n - 1) || satisfies_spec(parts[n - 1], iface, reg)
    }
}

/// One of the first `n` conformances is `name: iface` with its bounds met by `args`.
pub open spec fn entries_any(
    args: Seq<TyModel>,
    name: Seq<char>,
    iface: Seq<char>,
    order: Seq<String>,
    reg: TypeRegistry,
    n: int,
) -> bool
    decreases args, 2nat, n,
{
    if n <= 0 || n > reg.conformances@.len() {
        false
    } else {
        let c = reg.conformances@[n - 1];
        entries_any(args, name, iface, order, reg, n - 1) || (c.0@ == name && c.1@ == iface && (
        c.2.bounds@.len() == 0 || args.len() == 0 || bounds_all(
            args,
            c.2.bounds@,
            order,
            reg,
            c.2.bounds@.len() as int,
        )))
    }
}

/// The first `m` bounds are met: the argument at the bounded parameter's position (the
/// first argument when the parameter is not in the type's parameter list) satisfies
/// the bound's interface, or there is no such argument.
pub open spec fn bounds_all(
    args: Seq<TyModel>,
    bounds: Seq<(String, String)>,
    order: Seq<String>,
    reg: TypeRegistry,
    m: int,
) -> bool
    decreases args, 1nat, m,
{
    if m <= 0 || m > bounds.len() {
        true
    } else {
        let idx = match position_from(order, bounds[m - 1].0@, 0) {
            Some(i) => i,
            None => 0,
        };
        bounds_all(args, bounds, order, reg, m - 1) && (if 0 <= idx < args.len() {
            satisfies_spec(args[idx], bounds[m - 1].1@, reg)
        } else {
            true
        })
    }
}

/// The index of the type registered last under `name`.
fn find_type(types: &Vec<(String, Vec<String>, TypeKind)>, name: &String) -> (r: Option<usize>)
    ensures
        match r {
            Some(i) => i < types@.len() && order_of(types@, name@) == Some(types@[i as int].1@),
            None => order_of(types@, name@) is None,
        },
{
    let mut k = types.len();
    proof {
        assert(types@.take(types@.len() as int) =~= types@);
    }
    while k > 0
        invariant
            k <= types@.len(),
            order_of(types@, name@) == order_of(types@.take(k as int), name@),
        decreases k,
    {
        proof {
            assert(types@.take(k as int).drop_last() =~= types@.take(k as int - 1));
            assert(types@.take(k as int).last() == types@[k - 1]);
        }
        if types[k - 1].0 == *name {
            return Some(k - 1);
        }
        k -= 1;
    }
    proof {
        assert(types@.take(0) =~= Seq::<(String, Vec<String>, TypeKind)>::empty());
    }
    None
}

/// The index of the hierarchy entry registered last for interface `name`.
fn find_supers(sup: &Vec<(String, Vec<String>)>, name: &String) -> (r: Option<usize>)
    ensures
        match r {
            Some(i) => i < sup@.len() && direct_supers(sup@, name@) == sup@[i as int].1@,
            None => direct_supers(sup@, name@) == Seq::<String>::empty(),
        },
{
    let mut k = sup.len();
    proof {
        assert(sup@.take(sup@.len() as int) =~= sup@);
    }
    while k > 0
        invariant
            k <= sup@.len(),
            direct_supers(sup@, name@) == direct_supers(sup@.take(k as int), name@),
        decreases k,
    {
        proof {
            assert(sup@.take(k as int).drop_last() =~= sup@.take(k as int - 1));
            assert(sup@.take(k as int).last() == sup@[k - 1]);
        }
        if sup[k - 1].0 == *name {
            return Some(k - 1);
        }
        k -= 1;
    }
    proof {
        assert(sup@.take(0) =~= Seq::<(String, Vec<String>)>::empty());
    }
    None
}

/// The first position of `p` in `order`.
fn position_of(order: &Vec<String>, p: &String) -> (r: Option<usize>)
    ensures
        match r {
            Some(i) => position_from(order@, p@, 0) == Some(i as int),
            None => position_from(order@, p@, 0) is None,
        },
{
    let mut i: usize = 0;
    while i < order.len()
        invariant
            i <= order@.len(),
            position_from(order@, p@, 0) == position_from(order@, p@, i as int),
        decreases order@.len() - i,
    {
        if order[i] == *p {
            return Some(i);
        }
        i += 1;
    }
    None
}

/// Whether some conformance registers `name: iface`.
fn has_conformance(confs: &Vec<(String, String, ConformanceEntry)>, name: &String, iface: &String) -> (r: bool)
    ensures
        r == conf_exists(confs@, name@, iface@, confs@.len() as int),
{
    let mut acc = false;
    let mut i: usize = 0;
    while i < confs.len()
        invariant
            i <= confs@.len(),
            acc == conf_exists(confs@, name@, iface@, i as int),
        decreases confs@.len() - i,
    {
        if confs[i].0 == *name && confs[i].1 == *iface {
            acc = true;
        }
        i += 1;
    }
    acc
}

/// Whether `a` reaches `b` through at most `k` superinterface steps, at least one.
pub(crate) fn implies_within_exec(sup: &Vec<(String, Vec<String>)>, a: &String, b: &String, k: usize) -> (r: bool)
    ensures
        r == implies_within(sup@, a@, b@, k as nat),
    decreases k,
{
    if k == 0 {
        return false;
    }
    match find_supers(sup, a) {
        None => {
            false
        },
        Some(idx) => {
            let list = &sup[idx].1;
            let mut acc = false;
            let mut j: usize = 0;
            while j < list.len()
                invariant
                    j <= list@.len(),
                    k > 0,
                    list@ == direct_supers(sup@, a@),
                    acc == any_super_reaches(sup@, list@, b@, k as nat, j as int),
                decreases list@.len() - j,
            {
                let hit = list[j] == *b || implies_within_exec(sup, &list[j], b, k - 1);
                acc = acc || hit;
                j += 1;
            }
            acc
        },
    }
}

impl TypeRegistry {
    /// A registry with nothing registered.
    pub fn new() -> (r: Self)
        ensures
            r.types@.len() == 0,
            r.conformances@.len() == 0,
            r.supers@.len() == 0,
            r.closures@.len() == 0,
    {
        TypeRegistry { types: Vec::new(), conformances: Vec::new(), supers: Vec::new(), closures: Vec::new() }
    }

    /// Registers nominal type `name` of the given kind with its generic parameter names.
    pub fn register_type(&mut self, name: &str, params: Vec<String>, kind: TypeKind)
        ensures
            final(self).types@.len() == old(self).types@.len() + 1,
            final(self).types@.drop_last() == old(self).types@,
            final(self).types@.last().0@ == name@,
            final(self).types@.last().1 == params,
            final(self).types@.last().2 == kind,
            final(self).conformances == old(self).conformances,
            final(self).supers == old(self).supers,
            final(self).closures == old(self).closures,
    {
        self.types.push((String::from_str(name), params, kind));
        assert(self.types@.drop_last() =~= old(self).types@);
    }

    /// Registers nominal type `name` of the given kind, without generic parameters, and
    /// returns its id.
    pub fn register(&mut self, name: String, kind: TypeKind) -> (r: TypeId)
        requires
            old(self).types@.len() < u32::MAX,
        ensures
            r.0 == old(self).types@.len(),
            final(self).types@.len() == old(self).types@.len() + 1,
            final(self).types@.drop_last() == old(self).types@,
            final(self).types@.last().0 == name,
            final(self).types@.last().1@.len() == 0,
            final(self).types@.last().2 == kind,
            final(self).conformances == old(self).conformances,
            final(self).supers == old(self).supers,
            final(self).closures == old(self).closures,
    {
        let id = TypeId(self.types.len() as u32);
        self.types.push((name, Vec::new(), kind));
        assert(self.types@.drop_last() =~= old(self).types@);
        id
    }

    /// Registers that type `ty` conforms to interface `iface`.
    pub fn register_conformance(&mut self, ty: &str, iface: &str, entry: ConformanceEntry)
        ensures
            final(self).conformances@.len() == old(self).conformances@.len() + 1,
            final(self).conformances@.drop_last() == old(self).conformances@,
            final(self).conformances@.last().0@ == ty@,
            final(self).conformances@.last().1@ == iface@,
            final(self).conformances@.last().2 == entry,
            final(self).types == old(self).types,
            final(self).supers == old(self).supers,
            final(self).closures == old(self).closures,
    {
        self.conformances.push((String::from_str(ty), String::from_str(iface), entry));
        assert(self.conformances@.drop_last() =~= old(self).conformances@);
    }

    /// Registers the direct superinterfaces of interface `iface`.
    pub fn register_interface_supers(&mut self, iface: &str, supers: Vec<String>)
        ensures
            final(self).supers@.len() == old(self).supers@.len() + 1,
            final(self).supers@.drop_last() == old(self).supers@,
            final(self).supers@.last().0@ == iface@,
            final(self).supers@.last().1 == supers,
            final(self).types == old(self).types,
            final(self).conformances == old(self).conformances,
            final(self).closures == old(self).closures,
    {
        self.supers.push((String::from_str(iface), supers));
        assert(self.supers@.drop_last() =~= old(self).supers@);
    }

    /// The conformance entries registered for `ty: iface`, in registration order.
    pub fn get_conformances(&self, ty: &str, iface: &str) -> (r: Vec<&ConformanceEntry>)
        ensures
            (r@.len() > 0) == conf_exists(self.conformances@, ty@, iface@, self.conformances@.len() as int),
            r@.map_values(|x: &ConformanceEntry| *x) == entries_for(
                self.conformances@,
                ty@,
                iface@,
                self.conformances@.len() as int,
            ),
    {
        let t = String::from_str(ty);
        let f = String::from_str(iface);
        let mut out: Vec<&ConformanceEntry> = Vec::new();
        let mut i: usize = 0;
        while i < self.conformances.len()
            invariant
                i <= self.conformances@.len(),
                t@ == ty@,
                f@ == iface@,
                (out@.len() > 0) == conf_exists(self.conformances@, ty@, iface@, i as int),
                out@.map_values(|x: &ConformanceEntry| *x) == entries_for(self.conformances@, ty@, iface@, i as int),
            decreases self.conformances@.len() - i,
        {
            let ghost before = out@;
            if self.conformances[i].0 == t && self.conformances[i].1 == f {
                out.push(&self.conformances[i].2);
                proof {
                    assert(out@.map_values(|x: &ConformanceEntry| *x) =~= before.map_values(
                        |x: &ConformanceEntry| *x,
                    ).push(self.conformances@[i as int].2));
                }
            }
            i += 1;
        }
        out
    }

    /// Whether interface `a` implies interface `b`: `b` is a superinterface of `a`,
    /// directly or through others.
    pub fn iface_implies(&self, a: &str, b: &str) -> (r: bool)
        ensures
            r == iface_implies_spec(*self, a@, b@),
    {
        let x = String::from_str(a);
        let y = String::from_str(b);
        implies_within_exec(&self.supers, &x, &y, self.supers.len())
    }
}

/// Whether a conformance registered for `name` is to an interface implying `iface`.
fn satisfies_by_implication(name: &String, iface: &String, reg: &TypeRegistry) -> (r: bool)
    ensures
        r == implied_any(*reg, name@, iface@, reg.conformances@.len() as int),
{
    let mut acc = false;
    let mut i: usize = 0;
    while i < reg.conformances.len()
        invariant
            i <= reg.conformances@.len(),
            acc == implied_any(*reg, name@, iface@, i as int),
        decreases reg.conformances@.len() - i,
    {
        if reg.conformances[i].0 == *name {
            let x = &reg.conformances[i].1;
            let hit = implies_within_exec(&reg.supers, x, iface, reg.supers.len());
            acc = acc || hit;
        }
        i += 1;
    }
    acc
}

/// The heterogeneous `*With` interface whose conformance also satisfies operator
/// interface `iface`.
pub fn operator_shorthand_to_with(iface: &str) -> (r: Option<&'static str>)
    ensures
        match shorthand_spec(iface@) {
            Some(w) => r matches Some(x) && x@ == w,
            None => r is None,
        },
{
    let s = String::from_str(iface);
    if s == String::from_str("Addable") {
        Some("AddableWith")
    } else if s == String::from_str("Subtractable") {
        Some("SubtractableWith")
    } else if s == String::from_str("Multiplicable") {
        Some("MultipliableWith")
    } else if s == String::from_str("Divisible") {
        Some("DividableWith")
    } else if s == String::from_str("Remainder") {
        Some("RemainderableWith")
    } else if s == String::from_str("PartialEq") {
        Some("EquatableWith")
    } else if s == String::from_str("PartialOrd") || s == String::from_str("Ord") {
        Some("ComparableWith")
    } else {
        None
    }
}

/// A primitive named `name` conforms to `iface`, directly or through an implying
/// interface.
fn prim_satisfies_exec(name: &str, iface: &String, reg: &TypeRegistry) -> (r: bool)
    ensures
        r == prim_satisfies(name@, iface@, *reg),
{
    let n = String::from_str(name);
    has_conformance(&reg.conformances, &n, iface) || satisfies_by_implication(&n, iface, reg)
}

/// Returns `true` if `ty` satisfies `iface`; see [`satisfies_spec`].
pub fn satisfies(ty: &Ty, iface: &str, registry: &TypeRegistry) -> (r: bool)
    ensures
        r == satisfies_spec(ty_model(*ty), iface@, *registry),
{
    let key = String::from_str(iface);
    satisfies_key(ty, &key, registry)
}

#[verifier::loop_isolation(false)]
fn satisfies_key(ty: &Ty, iface: &String, reg: &TypeRegistry) -> (r: bool)
    ensures
        r == satisfies_spec(ty_model(*ty), iface@, *reg),
    decreases *ty,
{
    match ty {
        Ty::Unknown | Ty::GenericParam(_) | Ty::Interface(_, _) | Ty::Projection { .. } => true,
        Ty::Compound(parts) => {
            proof {
                lemma_tys_model_index(parts@);
            }
            let ghost pm = tys_model(parts@);
            let mut acc = false;
            let mut i: usize = 0;
            while i < parts.len()
                invariant
                    i <= parts@.len(),
                    acc == any_part_satisfies(pm, iface@, *reg, i as int),
                decreases parts@.len() - i,
            {
                proof {
                    assert(decreases_to!(*ty => *parts));
                    assert(decreases_to!(*parts => parts@));
                    assert(decreases_to!(parts@ => parts@[i as int]));
                }
                let hit = satisfies_key(&parts[i], iface, reg);
                acc = acc || hit;
                i += 1;
            }
            acc
        },
        Ty::Void | Ty::Tuple(_) | Ty::Callable(_, _) | Ty::Union(_) => false,
        Ty::Ref(inner, _) => satisfies_key(inner, iface, reg),
        Ty::Named(_, name, args) => {
            let order = match find_type(&reg.types, name) {
                None => {
                    return true;
                },
                Some(ti) => &reg.types[ti].1,
            };
            proof {
                lemma_tys_model_index(args@);
            }
            let ghost am = tys_model(args@);
            let mut ok = false;
            let mut i: usize = 0;
            while i < reg.conformances.len()
                invariant
                    i <= reg.conformances@.len(),
                    ok == entries_any(am, name@, iface@, order@, *reg, i as int),
                decreases reg.conformances@.len() - i,
            {
                let c = &reg.conformances[i];
                if c.0 == *name && c.1 == *iface {
                    let bounds = &c.2.bounds;
                    let mut all = true;
                    let mut m: usize = 0;
                    while m < bounds.len()
                        invariant
                            m <= bounds@.len(),
                            *bounds == reg.conformances@[i as int].2.bounds,
                            all == bounds_all(am, bounds@, order@, *reg, m as int),
                        decreases bounds@.len() - m,
                    {
                        let idx = match position_of(order, &bounds[m].0) {
                            Some(p) => p,
                            None => 0,
                        };
                        let good = if idx < args.len() {
                            proof {
                                assert(decreases_to!(*ty => *args));
                                assert(decreases_to!(*args => args@));
                                assert(decreases_to!(args@ => args@[idx as int]));
                            }
                            satisfies_key(&args[idx], &bounds[m].1, reg)
                        } else {
                            true
                        };
                        all = all && good;
                        m += 1;
                    }
                    let entry_ok = bounds.len() == 0 || args.len() == 0 || all;
                    ok = ok || entry_ok;
                }
                i += 1;
            }
            if ok {
                return true;
            }
            let via_with = match operator_shorthand_to_with(iface.as_str()) {
                Some(w) => {
                    let wk = String::from_str(w);
                    has_conformance(&reg.conformances, name, &wk)
                },
                None => false,
            };
            if via_with {
                return true;
            }
            satisfies_by_implication(name, iface, reg)
        },
        Ty::Int => prim_satisfies_exec("int", iface, reg),
        Ty::Float => prim_satisfies_exec("float", iface, reg),
        Ty::Bool => prim_satisfies_exec("bool", iface, reg),
        Ty::Str => prim_satisfies_exec("str", iface, reg),
    }
}

// ---------------------------------------------------------------------------
// Transitive superinterfaces
// ---------------------------------------------------------------------------

/// The superinterface lists of the first `n` hierarchy entries, one after another.
pub open spec fn flatten_supers(sup: Seq<(String, Vec<String>)>, n: int) -> Seq<String>
    decreases n,
{
    if n <= 0 || n > sup.len() {
        Seq::empty()
    } else {
        flatten_supers(sup, n - 1) + sup[n - 1].1@
    }
}

/// The names of `s` that interface `k` implies, each once, in order of first appearance.
pub open spec fn collect_implied(sup: Seq<(String, Vec<String>)>, k: Seq<char>, s: Seq<String>) -> Seq<Seq<char>>
    decreases s.len(),
{
    if s.len() == 0 {
        Seq::empty()
    } else {
        let p = collect_implied(sup, k, s.drop_last());
        let x = s.last()@;
        if implies_within(sup, k, x, sup.len()) && !p.contains(x) {
            p.push(x)
        } else {
            p
        }
    }
}

/// All superinterfaces of `k`, direct or through others, each once, in the order they
/// first appear in the hierarchy table.
pub open spec fn closure_spec(sup: Seq<(String, Vec<String>)>, k: Seq<char>) -> Seq<Seq<char>> {
    collect_implied(sup, k, flatten_supers(sup, sup.len() as int))
}

/// Some of the first `n` hierarchy entries is for interface `k`.
pub open spec fn key_in(sup: Seq<(String, Vec<String>)>, k: Seq<char>, n: int) -> bool
    decreases n,
{
    if n <= 0 || n > sup.len() {
        false
    } else {
        key_in(sup, k, n - 1) || sup[n - 1].0@ == k
    }
}

/// The stored closure of interface `k`: the last one stored for it.
pub open spec fn closure_lookup(cl: Seq<(String, Vec<String>)>, k: Seq<char>) -> Option<Seq<String>>
    decreases cl.len(),
{
    if cl.len() == 0 {
        None
    } else if cl.last().0@ == k {
        Some(cl.last().1@)
    } else {
        closure_lookup(cl.drop_last(), k)
    }
}

/// The names, as character sequences.
pub open spec fn names(v: Seq<String>) -> Seq<Seq<char>> {
    v.map_values(|x: String| x@)
}

/// Whether `x@` is among the first `n` names of `v`.
fn contains_name(v: &Vec<String>, x: &String) -> (r: bool)
    ensures
        r == names(v@).contains(x@),
{
    let mut i: usize = 0;
    while i < v.len()
        invariant
            i <= v@.len(),
            forall|j: int| 0 <= j < i ==> v@[j]@ != x@,
        decreases v@.len() - i,
    {
        if v[i] == *x {
            proof {
                assert(names(v@)[i as int] == x@);
            }
            return true;
        }
        i += 1;
    }
    proof {
        assert forall|j: int| 0 <= j < names(v@).len() implies names(v@)[j] != x@ by {
            assert(names(v@)[j] == v@[j]@);
        }
    }
    false
}

/// All superinterfaces of `k`, computed from the hierarchy table.
fn closure_of(sup: &Vec<(String, Vec<String>)>, k: &String) -> (r: Vec<String>)
    ensures
        names(r@) == closure_spec(sup@, k@),
{
    let mut acc: Vec<String> = Vec::new();
    let mut i: usize = 0;
    proof {
        assert(names(acc@) =~= Seq::<Seq<char>>::empty());
    }
    while i < sup.len()
        invariant
            i <= sup@.len(),
            names(acc@) == collect_implied(sup@, k@, flatten_supers(sup@, i as int)),
        decreases sup@.len() - i,
    {
        let list = &sup[i].1;
        let ghost base = flatten_supers(sup@, i as int);
        let mut j: usize = 0;
        proof {
            assert(base + list@.take(0) =~= base);
        }
        while j < list.len()
            invariant
                j <= list@.len(),
                *list == sup@[i as int].1,
                base == flatten_supers(sup@, i as int),
                names(acc@) == collect_implied(sup@, k@, base + list@.take(j as int)),
            decreases list@.len() - j,
        {
            let x = &list[j];
            let ghost before = acc@;
            proof {
                assert((base + list@.take(j as int + 1)).drop_last() =~= base + list@.take(j as int));
                assert((base + list@.take(j as int + 1)).last() == list@[j as int]);
            }
            let hit = implies_within_exec(sup, k, x, sup.len());
            if hit && !contains_name(&acc, x) {
                acc.push(x.clone());
                proof {
                    assert(names(acc@) =~= names(before).push(x@));
                }
            }
            j += 1;
        }
        proof {
            assert(list@.take(list@.len() as int) =~= list@);
            assert(flatten_supers(sup@, i as int + 1) == base + list@);
        }
        i += 1;
    }
    acc
}

/// Whether the first `n` hierarchy entries include one for `k`.
fn has_key(sup: &Vec<(String, Vec<String>)>, k: &String) -> (r: bool)
    ensures
        r == key_in(sup@, k@, sup@.len() as int),
{
    let mut acc = false;
    let mut i: usize = 0;
    while i < sup.len()
        invariant
            i <= sup@.len(),
            acc == key_in(sup@, k@, i as int),
        decreases sup@.len() - i,
    {
        if sup[i].0 == *k {
            acc = true;
        }
        i += 1;
    }
    acc
}

impl TypeRegistry {
    /// Computes and stores, for every interface in the hierarchy table, all of its
    /// superinterfaces.
    pub fn precompute_transitive_closures(&mut self)
        ensures
            final(self).types == old(self).types,
            final(self).conformances == old(self).conformances,
            final(self).supers == old(self).supers,
            forall|k: Seq<char>| (#[trigger] closure_lookup(final(self).closures@, k) is Some) == key_in(
                old(self).supers@,
                k,
                old(self).supers@.len() as int,
            ),
            forall|k: Seq<char>| key_in(old(self).supers@, k, old(self).supers@.len() as int) ==> names(
                #[trigger] closure_lookup(final(self).closures@, k)->Some_0,
            ) == closure_spec(old(self).supers@, k),
    {
        let mut cl: Vec<(String, Vec<String>)> = Vec::new();
        let mut i: usize = 0;
        while i < self.supers.len()
            invariant
                i <= self.supers@.len(),
                forall|k: Seq<char>| #[trigger] closure_lookup(cl@, k) == if key_in(self.supers@, k, i as int) {
                    Some(cl@[closure_index(cl@, k)].1@)
                } else {
                    None::<Seq<String>>
                },
                forall|k: Seq<char>| key_in(self.supers@, k, i as int) ==> names(
                    #[trigger] closure_lookup(cl@, k)->Some_0,
                ) == closure_spec(self.supers@, k),
            decreases self.supers@.len() - i,
        {
            let key = self.supers[i].0.clone();
            let c = closure_of(&self.supers, &key);
            let ghost before = cl@;
            cl.push((key, c));
            proof {
                assert(cl@.drop_last() =~= before);
                assert forall|k: Seq<char>| #[trigger] closure_lookup(cl@, k) == if key_in(
                    self.supers@,
                    k,
                    i as int + 1,
                ) {
                    Some(cl@[closure_index(cl@, k)].1@)
                } else {
                    None::<Seq<String>>
                } by {
                    if k != key@ {
                        assert(closure_lookup(cl@, k) == closure_lookup(before, k));
                        assert(closure_index(cl@, k) == closure_index(before, k));
                        if key_in(self.supers@, k, i as int) {
                            lemma_closure_index_bound(before, k);
                        }
                    }
                }
            }
            i += 1;
        }
        self.closures = cl;
    }

    /// The stored superinterfaces of `iface`, if they were computed.
    pub fn get_transitive_supers(&self, iface: &str) -> (r: Option<&Vec<String>>)
        ensures
            match closure_lookup(self.closures@, iface@) {
                Some(v) => r matches Some(x) && x@ == v,
                None => r is None,
            },
    {
        let k = String::from_str(iface);
        let mut n = self.closures.len();
        proof {
            assert(self.closures@.take(n as int) =~= self.closures@);
        }
        while n > 0
            invariant
                n <= self.closures@.len(),
                k@ == iface@,
                closure_lookup(self.closures@, iface@) == closure_lookup(self.closures@.take(n as int), iface@),
            decreases n,
        {
            proof {
                assert(self.closures@.take(n as int).drop_last() =~= self.closures@.take(n as int - 1));
                assert(self.closures@.take(n as int).last() == self.closures@[n - 1]);
            }
            if self.closures[n - 1].0 == k {
                return Some(&self.closures[n - 1].1);
            }
            n -= 1;
        }
        proof {
            assert(self.closures@.take(0) =~= Seq::<(String, Vec<String>)>::empty());
        }
        None
    }
}

/// The index of the last stored closure for `k`.
pub open spec fn closure_index(cl: Seq<(String, Vec<String>)>, k: Seq<char>) -> int
    decreases cl.len(),
{
    if cl.len() == 0 {
        0
    } else if cl.last().0@ == k {
        cl.len() - 1
    } else {
        closure_index(cl.drop_last(), k)
    }
}

proof fn lemma_closure_index_bound(cl: Seq<(String, Vec<String>)>, k: Seq<char>)
    requires
        closure_lookup(cl, k) is Some,
    ensures
        0 <= closure_index(cl, k) < cl.len(),
        closure_lookup(cl, k) == Some(cl[closure_index(cl, k)].1@),
    decreases cl.len(),
{
    if cl.last().0@ != k {
        lemma_closure_index_bound(cl.drop_last(), k);
    }
}

// ---------------------------------------------------------------------------
// Solving constraints
// ---------------------------------------------------------------------------

/// The names among the first `n` of `list` that type `t` satisfies, in order.
pub open spec fn sat_filter(t: TyModel, reg: TypeRegistry, list: Seq<String>, n: int) -> Seq<Seq<char>>
    decreases n,
{
    if n <= 0 || n > list.len() {
        Seq::empty()
    } else if satisfies_spec(t, list[n - 1]@, reg) {
        sat_filter(t, reg, list, n - 1).push(list[n - 1]@)
    } else {
        sat_filter(t, reg, list, n - 1)
    }
}

/// One of the first `m` members of `sat`, other than `x`, implies `x`.
pub open spec fn dominated(sat: Seq<Seq<char>>, reg: TypeRegistry, x: Seq<char>, m: int) -> bool
    decreases m,
{
    if m <= 0 || m > sat.len() {
        false
    } else {
        dominated(sat, reg, x, m - 1) || (sat[m - 1] != x && iface_implies_spec(reg, sat[m - 1], x))
    }
}

/// The first member of `sat` from index `i` on that no other member implies.
pub open spec fn first_maximal(sat: Seq<Seq<char>>, reg: TypeRegistry, i: int) -> Option<Seq<char>>
    decreases sat.len() - i,
{
    if i < 0 || i >= sat.len() {
        None
    } else if !dominated(sat, reg, sat[i], sat.len() as int) {
        Some(sat[i])
    } else {
        first_maximal(sat, reg, i + 1)
    }
}

/// When `t` fails `iface`, the suggestion to relax the bound to the most specific
/// superinterface of `iface` that `t` satisfies (the first, in closure order, that no
/// other satisfied one implies); none when the closure of `iface` was not computed or
/// `t` satisfies none of it.
pub open spec fn suggestion_spec(t: TyModel, iface: Seq<char>, reg: TypeRegistry) -> Option<Seq<char>> {
    match closure_lookup(reg.closures@, iface) {
        None => None,
        Some(list) => match first_maximal(sat_filter(t, reg, list, list.len() as int), reg, 0) {
            Some(x) => Some(
                "`"@ + ty_text(t) + "` does implement `"@ + x + "` -- consider relaxing the bound from `"@
                    + iface + "` to `"@ + x + "`"@,
            ),
            None => None,
        },
    }
}

/// Whether some of `sat`, other than `sat[i]`, implies `sat[i]`.
fn is_dominated(sat: &Vec<String>, reg: &TypeRegistry, i: usize) -> (r: bool)
    requires
        i < sat@.len(),
    ensures
        r == dominated(names(sat@), *reg, sat@[i as int]@, sat@.len() as int),
{
    let mut acc = false;
    let mut m: usize = 0;
    while m < sat.len()
        invariant
            m <= sat@.len(),
            i < sat@.len(),
            acc == dominated(names(sat@), *reg, sat@[i as int]@, m as int),
        decreases sat@.len() - m,
    {
        if sat[m] != sat[i] {
            let hit = implies_within_exec(&reg.supers, &sat[m], &sat[i], reg.supers.len());
            acc = acc || hit;
        }
        proof {
            assert(names(sat@)[m as int] == sat@[m as int]@);
        }
        m += 1;
    }
    acc
}

/// When `ty: iface` fails, suggests the most specific superinterface of `iface` that
/// `ty` satisfies, as a note text; see [`suggestion_spec`].
pub fn weaker_bound_suggestion(ty: &Ty, iface: &str, registry: &TypeRegistry) -> (r: Option<String>)
    ensures
        match suggestion_spec(ty_model(*ty), iface@, *registry) {
            Some(m) => r matches Some(s) && s@ == m,
            None => r is None,
        },
{
    let supers = match registry.get_transitive_supers(iface) {
        None => {
            return None;
        },
        Some(v) => v,
    };
    let ghost t = ty_model(*ty);
    let mut sat: Vec<String> = Vec::new();
    let mut i: usize = 0;
    proof {
        assert(names(sat@) =~= Seq::<Seq<char>>::empty());
    }
    while i < supers.len()
        invariant
            i <= supers@.len(),
            t == ty_model(*ty),
            names(sat@) == sat_filter(t, *registry, supers@, i as int),
        decreases supers@.len() - i,
    {
        let ghost before = sat@;
        if satisfies(ty, supers[i].as_str(), registry) {
            sat.push(supers[i].clone());
            proof {
                assert(names(sat@) =~= names(before).push(supers@[i as int]@));
            }
        }
        i += 1;
    }
    let ghost sm = names(sat@);
    let mut j: usize = 0;
    while j < sat.len()
        invariant
            j <= sat@.len(),
            sm == names(sat@),
            t == ty_model(*ty),
            sm == sat_filter(t, *registry, supers@, supers@.len() as int),
            closure_lookup(registry.closures@, iface@) == Some(supers@),
            first_maximal(sm, *registry, 0) == first_maximal(sm, *registry, j as int),
        decreases sat@.len() - j,
    {
        proof {
            assert(sm[j as int] == sat@[j as int]@);
        }
        if !is_dominated(&sat, registry, j) {
            let x = &sat[j];
            let mut msg = String::from_str("`");
            msg.append(ty_to_string(ty).as_str());
            msg.append("` does implement `");
            msg.append(x.as_str());
            msg.append("` -- consider relaxing the bound from `");
            msg.append(iface);
            msg.append("` to `");
            msg.append(x.as_str());
            msg.append("`");
            proof {
                assert(!dominated(sm, *registry, sm[j as int], sm.len() as int));
                assert(first_maximal(sm, *registry, j as int) == Some(sm[j as int]));
                assert(msg@ =~= "`"@ + ty_text(t) + "` does implement `"@ + sm[j as int]
                    + "` -- consider relaxing the bound from `"@ + iface@ + "` to `"@ + sm[j as int] + "`"@);
            }
            return Some(msg);
        }
        j += 1;
    }
    None
}

/// A failed constraint: a bound the type does not satisfy, with its context and
/// notes, or an associated type that does not satisfy its required interface.
pub enum SolveErr {
    Bound { ty: Seq<char>, iface: Seq<char>, context: Seq<char>, span: Span, notes: Seq<(Seq<char>, Option<Span>)> },
    Projected {
        base_ty: Seq<char>,
        base_iface: Seq<char>,
        assoc_name: Seq<char>,
        assoc_ty: Seq<char>,
        required_iface: Seq<char>,
        span: Span,
    },
}

/// `e` is the error described by `m`.
pub open spec fn solve_err_matches(e: AnalysisError, m: SolveErr) -> bool {
    match m {
        SolveErr::Bound { ty, iface, context, span, notes } => {
            &&& e is BoundViolation
            &&& e->BoundViolation_ty@ == ty
            &&& e->BoundViolation_iface@ == iface
            &&& e->BoundViolation_context@ == context
            &&& e->BoundViolation_span == span
            &&& e->BoundViolation_notes@.len() == notes.len()
            &&& forall|i: int| 0 <= i < notes.len() ==> (#[trigger] e->BoundViolation_notes@[i]).0@ == notes[i].0
                && e->BoundViolation_notes@[i].1 == notes[i].1
        },
        SolveErr::Projected { base_ty, base_iface, assoc_name, assoc_ty, required_iface, span } => {
            &&& e is ProjectedBoundViolation
            &&& e->ProjectedBoundViolation_base_ty@ == base_ty
            &&& e->ProjectedBoundViolation_base_iface@ == base_iface
            &&& e->ProjectedBoundViolation_assoc_name@ == assoc_name
            &&& e->ProjectedBoundViolation_assoc_ty@ == assoc_ty
            &&& e->ProjectedBoundViolation_required_iface@ == required_iface
            &&& e->ProjectedBoundViolation_span == span
        },
    }
}

/// The notes of a failed generic bound: where the bound comes from, when described,
/// and where it was declared, when it was written explicitly.
pub open spec fn reason_notes(r: ConstraintReason) -> Seq<(Seq<char>, Option<Span>)> {
    match r {
        ConstraintReason::GenericBoundCheck { fn_name, is_explicit, decl_span, source_span, source_desc, .. } => {
            let verb = if is_explicit {
                "required by"@
            } else {
                "inferred from"@
            };
            (if source_desc@.len() > 0 {
                seq![("bound "@ + verb + " "@ + source_desc@ + " in `"@ + fn_name@ + "`"@, source_span)]
            } else {
                Seq::empty()
            }) + (if is_explicit {
                seq![("bound declared here"@, decl_span)]
            } else {
                Seq::empty()
            })
        },
        _ => Seq::empty(),
    }
}

/// The associated type `assoc` bound by the first binding of that name in the
/// conformances registered for `name: iface`, in registration order.
pub open spec fn assoc_binding(reg: TypeRegistry, name: Seq<char>, iface: Seq<char>, assoc: Seq<char>) -> Option<Ty> {
    binding_in_entries(entries_for(reg.conformances@, name, iface, reg.conformances@.len() as int), assoc, 0)
}

/// The first binding of `assoc` in the entries from index `i` on.
pub open spec fn binding_in_entries(es: Seq<ConformanceEntry>, assoc: Seq<char>, i: int) -> Option<Ty>
    decreases es.len() - i,
{
    if i < 0 || i >= es.len() {
        None
    } else {
        match binding_in(es[i].bindings@, assoc, 0) {
            Some(t) => Some(t),
            None => binding_in_entries(es, assoc, i + 1),
        }
    }
}

/// The first binding of `assoc` in `bs` from index `j` on.
pub open spec fn binding_in(bs: Seq<(String, Ty)>, assoc: Seq<char>, j: int) -> Option<Ty>
    decreases bs.len() - j,
{
    if j < 0 || j >= bs.len() {
        None
    } else if bs[j].0@ == assoc {
        Some(bs[j].1)
    } else {
        binding_in(bs, assoc, j + 1)
    }
}

/// The errors of one constraint: none when it holds.
pub open spec fn constraint_errs(c: Constraint, reg: TypeRegistry) -> Seq<SolveErr> {
    match c.kind {
        ConstraintKind::Bound { ty, iface } => if satisfies_spec(ty_model(ty), iface@, reg) {
            Seq::empty()
        } else {
            seq![SolveErr::Bound {
                ty: ty_text(ty_model(ty)),
                iface: iface@,
                context: context_text(reason_model(c.reason)),
                span: c.span,
                notes: reason_notes(c.reason) + match suggestion_spec(ty_model(ty), iface@, reg) {
                    Some(s) => seq![(s, None::<Span>)],
                    None => Seq::empty(),
                },
            }]
        },
        ConstraintKind::ProjectedBound { base_ty, base_iface, assoc_name, required_iface } => {
            let resolved = match dispatch_name(base_ty) {
                Some(n) => assoc_binding(reg, n, base_iface@, assoc_name@),
                None => None,
            };
            match resolved {
                Some(at) => if satisfies_spec(ty_model(at), required_iface@, reg) {
                    Seq::empty()
                } else {
                    seq![SolveErr::Projected {
                        base_ty: ty_text(ty_model(base_ty)),
                        base_iface: base_iface@,
                        assoc_name: assoc_name@,
                        assoc_ty: ty_text(ty_model(at)),
                        required_iface: required_iface@,
                        span: c.span,
                    }]
                },
                None => Seq::empty(),
            }
        },
    }
}

/// The errors of the first `n` constraints, in order: one for each that fails.
pub open spec fn solve_errs(cs: Seq<Constraint>, reg: TypeRegistry, n: int) -> Seq<SolveErr>
    decreases n,
{
    if n <= 0 || n > cs.len() {
        Seq::empty()
    } else {
        solve_errs(cs, reg, n - 1) + constraint_errs(cs[n - 1], reg)
    }
}

/// The associated type bound for `assoc` by `name: iface`; see [`assoc_binding`].
pub fn get_assoc_binding<'a>(reg: &'a TypeRegistry, name: &str, iface: &str, assoc: &str) -> (r: Option<&'a Ty>)
    ensures
        match assoc_binding(*reg, name@, iface@, assoc@) {
            Some(t) => r matches Some(x) && *x == t,
            None => r is None,
        },
{
    let es = reg.get_conformances(name, iface);
    let ghost em = es@.map_values(|x: &ConformanceEntry| *x);
    let a = String::from_str(assoc);
    let mut i: usize = 0;
    while i < es.len()
        invariant
            i <= es@.len(),
            em == es@.map_values(|x: &ConformanceEntry| *x),
            em == entries_for(reg.conformances@, name@, iface@, reg.conformances@.len() as int),
            a@ == assoc@,
            binding_in_entries(em, assoc@, 0) == binding_in_entries(em, assoc@, i as int),
        decreases es@.len() - i,
    {
        let bs = &es[i].bindings;
        proof {
            assert(em[i as int] == *es@[i as int]);
        }
        let mut j: usize = 0;
        while j < bs.len()
            invariant
                j <= bs@.len(),
                i < es@.len(),
                em.len() == es@.len(),
                em == entries_for(reg.conformances@, name@, iface@, reg.conformances@.len() as int),
                binding_in_entries(em, assoc@, 0) == binding_in_entries(em, assoc@, i as int),
                *bs == em[i as int].bindings,
                a@ == assoc@,
                binding_in(bs@, assoc@, 0) == binding_in(bs@, assoc@, j as int),
            decreases bs@.len() - j,
        {
            if bs[j].0 == a {
                proof {
                    assert(binding_in(bs@, assoc@, j as int) == Some(bs@[j as int].1));
                    assert(binding_in_entries(em, assoc@, i as int) == Some(bs@[j as int].1));
                }
                return Some(&bs[j].1);
            }
            j += 1;
        }
        i += 1;
    }
    None
}

/// Builds the notes of a failed generic bound; see [`reason_notes`].
fn reason_notes_exec(r: &ConstraintReason) -> (v: Vec<(String, Option<Span>)>)
    ensures
        v@.len() == reason_notes(*r).len(),
        forall|i: int| 0 <= i < v@.len() ==> (#[trigger] v@[i]).0@ == reason_notes(*r)[i].0 && v@[i].1
            == reason_notes(*r)[i].1,
{
    let mut v: Vec<(String, Option<Span>)> = Vec::new();
    match r {
        ConstraintReason::GenericBoundCheck { fn_name, is_explicit, decl_span, source_span, source_desc, .. } => {
            if source_desc.as_str().unicode_len() > 0 {
                let mut t = String::from_str("bound ");
                if *is_explicit {
                    t.append("required by");
                } else {
                    t.append("inferred from");
                }
                t.append(" ");
                t.append(source_desc.as_str());
                t.append(" in `");
                t.append(fn_name.as_str());
                t.append("`");
                v.push((t, *source_span));
            }
            if *is_explicit {
                v.push((String::from_str("bound declared here"), *decl_span));
            }
            proof {
                reveal_strlit("bound ");
                reveal_strlit("bound declared here");
                let n = reason_notes(*r);
                assert(v@.len() == n.len());
                assert forall|i: int| 0 <= i < v@.len() implies (#[trigger] v@[i]).0@ == n[i].0 && v@[i].1 == n[i].1 by {
                    if source_desc@.len() > 0 && i == 0 {
                        assert(n[0].0 =~= "bound "@ + (if *is_explicit { "required by"@ } else { "inferred from"@ }) + " "@ + source_desc@ + " in `"@ + fn_name@ + "`"@);
                    }
                }
            }
        },
        _ => {},
    }
    v
}

/// Checks every constraint and returns an error for each one that fails, in order:
/// a `BoundViolation` (with notes on where the bound comes from and a weaker bound the
/// type does meet) or a `ProjectedBoundViolation`. It never stops at the first failure.
pub fn solve(constraints: &Vec<Constraint>, registry: &TypeRegistry) -> (r: Vec<AnalysisError>)
    ensures
        r@.len() == solve_errs(constraints@, *registry, constraints@.len() as int).len(),
        forall|i: int| 0 <= i < r@.len() ==> solve_err_matches(
            #[trigger] r@[i],
            solve_errs(constraints@, *registry, constraints@.len() as int)[i],
        ),
{
    let mut errors: Vec<AnalysisError> = Vec::new();
    let mut k: usize = 0;
    while k < constraints.len()
        invariant
            k <= constraints@.len(),
            errors@.len() == solve_errs(constraints@, *registry, k as int).len(),
            forall|i: int| 0 <= i < errors@.len() ==> solve_err_matches(
                #[trigger] errors@[i],
                solve_errs(constraints@, *registry, k as int)[i],
            ),
        decreases constraints@.len() - k,
    {
        let c = &constraints[k];
        let ghost before = errors@;
        let ghost prev = solve_errs(constraints@, *registry, k as int);
        match &c.kind {
            ConstraintKind::Bound { ty, iface } => {
                if !satisfies(ty, iface.as_str(), registry) {
                    let context = c.reason.context_string();
                    let mut notes = reason_notes_exec(&c.reason);
                    let ghost n0 = notes@;
                    match weaker_bound_suggestion(ty, iface.as_str(), registry) {
                        Some(sug) => {
                            notes.push((sug, None));
                        },
                        None => {},
                    }
                    let ghost nl = notes@;
                    errors.push(
                        AnalysisError::BoundViolation {
                            ty: ty_to_string(ty),
                            iface: iface.clone(),
                            context,
                            span: c.span,
                            notes,
                        },
                    );
                    proof {
                        let m = constraint_errs(*c, *registry);
                        let mn = m[0]->Bound_notes;
                        assert(nl.len() == mn.len());
                        assert forall|i: int| 0 <= i < mn.len() implies (#[trigger] nl[i]).0@ == mn[i].0 && nl[i].1 == mn[i].1 by {
                            if i < n0.len() {
                                assert(nl[i] == n0[i]);
                            }
                        }
                        assert(solve_err_matches(errors@.last(), m[0]));
                    }
                }
            },
            ConstraintKind::ProjectedBound { base_ty, base_iface, assoc_name, required_iface } => {
                match type_name_of(base_ty) {
                    Some(name) => {
                        match get_assoc_binding(registry, name.as_str(), base_iface.as_str(), assoc_name.as_str()) {
                            Some(at) => {
                                if !satisfies(at, required_iface.as_str(), registry) {
                                    errors.push(
                                        AnalysisError::ProjectedBoundViolation {
                                            base_ty: ty_to_string(base_ty),
                                            base_iface: base_iface.clone(),
                                            assoc_name: assoc_name.clone(),
                                            assoc_ty: ty_to_string(at),
                                            required_iface: required_iface.clone(),
                                            span: c.span,
                                        },
                                    );
                                }
                            },
                            None => {},
                        }
                    },
                    None => {},
                }
            },
        }
        proof {
            let cur = solve_errs(constraints@, *registry, k as int + 1);
            assert(cur == prev + constraint_errs(constraints@[k as int], *registry));
            assert forall|i: int| 0 <= i < errors@.len() implies solve_err_matches(#[trigger] errors@[i], cur[i]) by {
                if i < before.len() {
                    assert(errors@[i] == before[i]);
                    assert(cur[i] == prev[i]);
                }
            }
        }
        k += 1;
    }
    errors
}

} // verus!
