use vstd::prelude::*;
use crate::ast::{EnumVariant, GenericParam, InterfaceItem, InterfaceItemKind, Item, SourceFile};
use crate::env::{Env, Symbol, pop_scope_undoes_push_scope};
use crate::error::AnalysisError;
use crate::solve::{TypeKind, TypeRegistry, names};
use crate::span::Span;
use crate::ty::{InterfaceId, Ty};

verus! {

// The first pass over a source file: every top-level name is bound in a new module
// scope, nominal types are registered, and names declared twice are reported.

/// The name an item binds at top level and where it is declared; impl blocks and
/// imports bind none.
pub open spec fn item_name(it: Item) -> Option<(Seq<char>, Span)> {
    match it {
        Item::Struct(s) => Some((s.name@, s.span)),
        Item::Enum(e) => Some((e.name@, e.span)),
        Item::Interface(i) => Some((i.name@, i.span)),
        Item::TypeAlias(t) => Some((t.name@, t.span)),
        Item::Function(f) => Some((f.name@, f.span)),
        _ => None,
    }
}

/// The item registers a nominal type.
pub open spec fn defines_type(it: Item) -> bool {
    it is Struct || it is Enum || it is TypeAlias
}

/// The names of the associated types an interface declares, in order.
pub open spec fn assoc_names(items: Seq<InterfaceItem>) -> Seq<Seq<char>>
    decreases items.len(),
{
    if items.len() == 0 {
        Seq::empty()
    } else {
        match items.last().kind {
            InterfaceItemKind::AssocType { name, .. } => assoc_names(items.drop_last()).push(name@),
            _ => assoc_names(items.drop_last()),
        }
    }
}

/// The names of generic parameters, in order.
pub open spec fn param_names(gps: Seq<GenericParam>) -> Seq<Seq<char>> {
    gps.map_values(|g: GenericParam| g.name@)
}

/// The names of enum variants, in order.
pub open spec fn variant_names(vs: Seq<EnumVariant>) -> Seq<Seq<char>> {
    vs.map_values(|v: EnumVariant| v.name@)
}

/// `sym` is the symbol bound for item `it`, whose type or interface id is `id`: a type
/// with its id for a struct, enum or alias; an interface with its id and associated
/// types; a function with its generic parameter names, `throws` flag, and nothing else
/// resolved yet.
pub open spec fn sym_matches(sym: Symbol, it: Item, id: nat) -> bool {
    match it {
        Item::Struct(s) => sym matches Symbol::Type { id: tid, span } && tid.0 == id && span == s.span,
        Item::Enum(e) => sym matches Symbol::Type { id: tid, span } && tid.0 == id && span == e.span,
        Item::TypeAlias(t) => sym matches Symbol::Type { id: tid, span } && tid.0 == id && span == t.span,
        Item::Interface(i) => sym matches Symbol::Iface { id: iid, assoc_types, span } && iid.0 == id
            && names(assoc_types@) == assoc_names(i.items@) && span == i.span,
        Item::Function(f) => sym matches Symbol::Fn {
            generic_params,
            generic_bounds,
            inferred_bounds,
            params,
            ret,
            throws,
            span,
        } && names(generic_params@) == param_names(f.generic_params@) && generic_bounds@.len() == 0
            && inferred_bounds@.len() == 0 && params@.len() == 0 && ret is Unknown && throws == f.throws
            && span == f.span,
        _ => false,
    }
}

/// `k` is the kind registered for type item `it`.
pub open spec fn kind_matches(k: TypeKind, it: Item) -> bool {
    match it {
        Item::Struct(_) => k is Struct,
        Item::Enum(e) => k matches TypeKind::Enum { variant_names: vn } && names(vn@) == variant_names(e.variants@),
        Item::TypeAlias(_) => k matches TypeKind::Alias(t) && t is Unknown,
        _ => false,
    }
}

/// The symbol is a function or an overload set.
pub open spec fn fn_like(sym: Symbol) -> bool {
    sym is Fn || sym is FnOverloadSet
}

/// What the pass has done after some items: the names bound in the module scope (with
/// whether each is a function), the duplicate names reported, the bindings made (name,
/// item index, type or interface id), and how many types and interfaces were added.
pub struct CollectState {
    pub cur: Seq<(Seq<char>, bool)>,
    pub errs: Seq<(Seq<char>, Span)>,
    pub defs: Seq<(Seq<char>, int, nat)>,
    pub n_types: nat,
    pub n_ifaces: nat,
}

/// Whether `nm` is bound in the module scope, and if so whether to a function.
pub open spec fn cur_get(cur: Seq<(Seq<char>, bool)>, nm: Seq<char>) -> Option<bool>
    decreases cur.len(),
{
    if cur.len() == 0 {
        None
    } else if cur.last().0 == nm {
        Some(cur.last().1)
    } else {
        cur_get(cur.drop_last(), nm)
    }
}

/// The pass over the first `n` items, in an environment `env` whose types registered
/// so far number `base`. An item's name that is already visible (outside, or earlier in
/// this scope) is a duplicate, except a function whose name this scope already binds to
/// a function, which is an overload left for later; otherwise the name is bound.
pub open spec fn collect_spec(items: Seq<Item>, env: Env, base: nat, n: int) -> CollectState
    decreases n,
{
    if n <= 0 || n > items.len() {
        CollectState { cur: Seq::empty(), errs: Seq::empty(), defs: Seq::empty(), n_types: 0, n_ifaces: 0 }
    } else {
        let st = collect_spec(items, env, base, n - 1);
        let it = items[n - 1];
        match item_name(it) {
            None => st,
            Some((nm, sp)) => {
                let inner = cur_get(st.cur, nm);
                if env.binding(nm) is Some || inner is Some {
                    if it is Function && inner == Some(true) {
                        st
                    } else {
                        CollectState { errs: st.errs.push((nm, sp)), ..st }
                    }
                } else {
                    CollectState {
                        cur: st.cur.push((nm, it is Function)),
                        errs: st.errs,
                        defs: st.defs.push(
                            (nm, n - 1, if it is Interface {
                                st.n_ifaces
                            } else {
                                base + st.n_types
                            }),
                        ),
                        n_types: st.n_types + if defines_type(it) {
                            1nat
                        } else {
                            0nat
                        },
                        n_ifaces: st.n_ifaces + if it is Interface {
                            1nat
                        } else {
                            0nat
                        },
                    }
                }
            },
        }
    }
}

/// The environment, registry and errors agree with the state after `n` items.
pub open spec fn collect_inv(
    items: Seq<Item>,
    env0: Env,
    reg0: TypeRegistry,
    env: Env,
    reg: TypeRegistry,
    errs: Seq<AnalysisError>,
    n: int,
) -> bool {
    let st = collect_spec(items, env0, reg0.types@.len(), n);
    &&& env.wf()
    &&& env.depth() == env0.depth() + 1
    &&& env@.popped() == env0@
    &&& forall|nm: Seq<char>| (#[trigger] env.binding(nm) is Some) == (env0.binding(nm) is Some || cur_get(st.cur, nm) is Some)
    &&& forall|nm: Seq<char>| #[trigger] cur_get(st.cur, nm) is None ==> env.current_binding(nm) is None
    &&& forall|nm: Seq<char>| #[trigger] cur_get(st.cur, nm) is Some ==> (env.current_binding(nm) is Some
        && fn_like(env.current_binding(nm)->Some_0) == cur_get(st.cur, nm)->Some_0)
    &&& forall|i: int| 0 <= i < st.defs.len() ==> {
        let d = #[trigger] st.defs[i];
        &&& 0 <= d.1 < n
        &&& cur_get(st.cur, d.0) is Some
        &&& item_name(items[d.1]) is Some && item_name(items[d.1])->Some_0.0 == d.0
        &&& env.current_binding(d.0) is Some && sym_matches(env.current_binding(d.0)->Some_0, items[d.1], d.2)
        &&& defines_type(items[d.1]) ==> reg0.types@.len() <= d.2 < reg.types@.len() && reg.types@[d.2 as int].0@ == d.0
            && reg.types@[d.2 as int].1@.len() == 0 && kind_matches(reg.types@[d.2 as int].2, items[d.1])
        &&& items[d.1] is Interface ==> d.2 < st.n_ifaces
    }
    &&& reg.types@.len() == reg0.types@.len() + st.n_types
    &&& reg.types@.subrange(0, reg0.types@.len() as int) == reg0.types@
    &&& reg.conformances == reg0.conformances
    &&& reg.supers == reg0.supers
    &&& reg.closures == reg0.closures
    &&& st.n_types <= n
    &&& st.n_ifaces <= n
    &&& errs.len() == st.errs.len()
    &&& forall|i: int| 0 <= i < errs.len() ==> is_duplicate(#[trigger] errs[i], st.errs[i])
}

/// `e` reports `d` as a name declared twice.
pub open spec fn is_duplicate(e: AnalysisError, d: (Seq<char>, Span)) -> bool {
    e matches AnalysisError::DuplicateName { name, span } && name@ == d.0 && span == d.1
}

/// The names of generic parameters, copied.
fn generic_param_names(gps: &Vec<GenericParam>) -> (r: Vec<String>)
    ensures
        names(r@) == param_names(gps@),
{
    let mut out: Vec<String> = Vec::new();
    let mut i: usize = 0;
    while i < gps.len()
        invariant
            i <= gps@.len(),
            names(out@) == param_names(gps@.take(i as int)),
        decreases gps@.len() - i,
    {
        out.push(gps[i].name.clone());
        proof {
            assert(param_names(gps@.take(i as int + 1)) =~= param_names(gps@.take(i as int)).push(gps@[i as int].name@));
            assert(names(out@) =~= names(out@.drop_last()).push(out@.last()@));
        }
        i += 1;
    }
    proof {
        assert(gps@.take(gps@.len() as int) =~= gps@);
    }
    out
}

/// The names of enum variants, copied.
fn enum_variant_names(vs: &Vec<EnumVariant>) -> (r: Vec<String>)
    ensures
        names(r@) == variant_names(vs@),
{
    let mut out: Vec<String> = Vec::new();
    let mut i: usize = 0;
    while i < vs.len()
        invariant
            i <= vs@.len(),
            names(out@) == variant_names(vs@.take(i as int)),
        decreases vs@.len() - i,
    {
        out.push(vs[i].name.clone());
        proof {
            assert(variant_names(vs@.take(i as int + 1)) =~= variant_names(vs@.take(i as int)).push(vs@[i as int].name@));
            assert(names(out@) =~= names(out@.drop_last()).push(out@.last()@));
        }
        i += 1;
    }
    proof {
        assert(vs@.take(vs@.len() as int) =~= vs@);
    }
    out
}

/// The associated type names an interface declares, copied.
fn interface_assoc_names(items: &Vec<InterfaceItem>) -> (r: Vec<String>)
    ensures
        names(r@) == assoc_names(items@),
{
    let mut out: Vec<String> = Vec::new();
    let mut i: usize = 0;
    proof {
        assert(names(out@) =~= Seq::<Seq<char>>::empty());
    }
    while i < items.len()
        invariant
            i <= items@.len(),
            names(out@) == assoc_names(items@.take(i as int)),
        decreases items@.len() - i,
    {
        proof {
            assert(items@.take(i as int + 1).drop_last() =~= items@.take(i as int));
        }
        match &items[i].kind {
            InterfaceItemKind::AssocType { name, .. } => {
                out.push(name.clone());
                proof {
                    assert(names(out@) =~= names(out@.drop_last()).push(out@.last()@));
                }
            },
            _ => {},
        }
        i += 1;
    }
    proof {
        assert(items@.take(items@.len() as int) =~= items@);
    }
    out
}

/// Pass 1: binds every top-level name of `source` in a new module scope of `env` and
/// registers its nominal types in `registry`; returns a `DuplicateName` error for each
/// name declared twice (see [`collect_spec`]). Bodies are not looked at.
pub fn collect_top_level(source: &SourceFile, env: &mut Env, registry: &mut TypeRegistry) -> (r: Vec<AnalysisError>)
    requires
        old(env).wf(),
        old(registry).types@.len() + source.items@.len() < u32::MAX,
    ensures
        collect_inv(
            source.items@,
            *old(env),
            *old(registry),
            *final(env),
            *final(registry),
            r@,
            source.items@.len() as int,
        ),
{
    let mut errors: Vec<AnalysisError> = Vec::new();
    let mut next_iface_id: u32 = 0;
    let ghost items = source.items@;
    let ghost env0 = *env;
    let ghost reg0 = *registry;
    env.push_scope();
    proof {
        pop_scope_undoes_push_scope(env0@);
        assert(registry.types@.subrange(0, reg0.types@.len() as int) =~= reg0.types@);
    }
    let mut i: usize = 0;
    while i < source.items.len()
        invariant
            items == source.items@,
            i <= items.len(),
            env0.wf(),
            reg0.types@.len() + items.len() < u32::MAX,
            next_iface_id == collect_spec(items, env0, reg0.types@.len(), i as int).n_ifaces,
            collect_inv(items, env0, reg0, *env, *registry, errors@, i as int),
        decreases items.len() - i,
    {
        let ghost st = collect_spec(items, env0, reg0.types@.len(), i as int);
        let ghost errs_before = errors@;
        let item = &source.items[i];
        let named: Option<(String, Span)> = match item {
            Item::Struct(s) => Some((s.name.clone(), s.span)),
            Item::Enum(e) => Some((e.name.clone(), e.span)),
            Item::Interface(f) => Some((f.name.clone(), f.span)),
            Item::TypeAlias(t) => Some((t.name.clone(), t.span)),
            Item::Function(f) => Some((f.name.clone(), f.span)),
            _ => None,
        };
        match named {
            None => {},
            Some((name, span)) => {
                if env.would_shadow(name.as_str()) {
                    let in_same = match env.lookup_in_current_scope(name.as_str()) {
                        Some(Symbol::Fn { .. }) => true,
                        Some(Symbol::FnOverloadSet { .. }) => true,
                        _ => false,
                    };
                    let is_fn = match item {
                        Item::Function(_) => true,
                        _ => false,
                    };
                    if !(is_fn && in_same) {
                        errors.push(AnalysisError::DuplicateName { name, span });
                    }
                } else {
                    let ghost env_before = *env;
                    let ghost reg_before = *registry;
                    let sym = match item {
                        Item::Struct(s) => {
                            let id = registry.register(s.name.clone(), TypeKind::Struct);
                            Symbol::Type { id, span }
                        },
                        Item::Enum(e) => {
                            let variants = enum_variant_names(&e.variants);
                            let id = registry.register(e.name.clone(), TypeKind::Enum { variant_names: variants });
                            Symbol::Type { id, span }
                        },
                        Item::Interface(f) => {
                            let id = InterfaceId(next_iface_id);
                            next_iface_id = next_iface_id + 1;
                            let assoc_types = interface_assoc_names(&f.items);
                            Symbol::Iface { id, assoc_types, span }
                        },
                        Item::TypeAlias(t) => {
                            let id = registry.register(t.name.clone(), TypeKind::Alias(Ty::Unknown));
                            Symbol::Type { id, span }
                        },
                        Item::Function(f) => Symbol::Fn {
                            generic_params: generic_param_names(&f.generic_params),
                            generic_bounds: Vec::new(),
                            inferred_bounds: Vec::new(),
                            params: Vec::new(),
                            ret: Ty::Unknown,
                            throws: f.throws,
                            span,
                        },
                        _ => Symbol::TypeAlias(Ty::Unknown),
                    };
                    let ghost sym0 = sym;
                    env.define(name.as_str(), sym);
                    proof {
                        let st2 = collect_spec(items, env0, reg0.types@.len(), i as int + 1);
                        assert(st2.cur.drop_last() =~= st.cur);
                        assert(sym_matches(sym0, items[i as int], st2.defs.last().2));
                        assert forall|k: int| 0 <= k < reg_before.types@.len() implies registry.types@[k] == reg_before.types@[k] by {
                            if registry.types@.len() > reg_before.types@.len() {
                                assert(registry.types@.drop_last()[k] == reg_before.types@[k]);
                            }
                        }
                        assert(registry.types@.subrange(0, reg0.types@.len() as int) =~= reg0.types@);
                        assert forall|j: int| 0 <= j < st2.defs.len() implies {
                            let d = #[trigger] st2.defs[j];
                            &&& 0 <= d.1 < i + 1
                            &&& cur_get(st2.cur, d.0) is Some
                            &&& item_name(items[d.1]) is Some && item_name(items[d.1])->Some_0.0 == d.0
                            &&& env.current_binding(d.0) is Some && sym_matches(env.current_binding(d.0)->Some_0, items[d.1], d.2)
                            &&& defines_type(items[d.1]) ==> reg0.types@.len() <= d.2 < registry.types@.len()
                                && registry.types@[d.2 as int].0@ == d.0 && registry.types@[d.2 as int].1@.len() == 0
                                && kind_matches(registry.types@[d.2 as int].2, items[d.1])
                            &&& items[d.1] is Interface ==> d.2 < st2.n_ifaces
                        } by {
                            assert(st2.cur.drop_last() =~= st.cur);
                            if j < st.defs.len() {
                                assert(st2.defs[j] == st.defs[j]);
                                assert(st.defs[j].0 != name@);
                            }
                        }
                    }
                }
            },
        }
        proof {
            let st2 = collect_spec(items, env0, reg0.types@.len(), i as int + 1);
            assert(env.wf());
            assert(env.depth() == env0.depth() + 1);
            assert(env@.popped() == env0@);
            assert(forall|nm: Seq<char>| (#[trigger] env.binding(nm) is Some) == (env0.binding(nm) is Some || cur_get(st2.cur, nm) is Some));
            assert(forall|nm: Seq<char>| #[trigger] cur_get(st2.cur, nm) is None ==> env.current_binding(nm) is None);
            assert(forall|nm: Seq<char>| #[trigger] cur_get(st2.cur, nm) is Some ==> (env.current_binding(nm) is Some
                && fn_like(env.current_binding(nm)->Some_0) == cur_get(st2.cur, nm)->Some_0));
            assert(registry.types@.len() == reg0.types@.len() + st2.n_types);
            assert(st2.n_types <= i + 1);
            assert(st2.n_ifaces <= i + 1);
            assert forall|k: int| 0 <= k < errors@.len() implies is_duplicate(#[trigger] errors@[k], st2.errs[k]) by {
                if k < errs_before.len() {
                    assert(errors@[k] == errs_before[k]);
                }
            }
        }
        i += 1;
    }
    errors
}

} // verus!
