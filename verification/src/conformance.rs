use vstd::prelude::*;
use crate::ast::{
    EnumDef, Field, FnDef, GenericParam, HookDef, HookName, ImplBlock, InterfaceDef, InterfaceItem,
    InterfaceItemKind, Param, StructDef, TypeExpr,
};
use crate::error::{AnalysisError, append_decimal, decimal};
use crate::span::Span;
use crate::debug_text::{hook_name_debug, hook_name_debug_text, type_expr_debug, type_expr_debug_text};

verus! {

// Interface conformance: a struct or enum that declares an interface, and an impl block
// that claims one, must provide the interface's required fields, hooks and methods,
// those of the interfaces it extends, and the associated-type bindings it states.

// ---------------------------------------------------------------------------
// Reported errors
// ---------------------------------------------------------------------------

/// A conformance error: the type, the interface, what is wrong, and where.
pub struct ConfErr {
    pub ty: Seq<char>,
    pub iface: Seq<char>,
    pub detail: Seq<char>,
    pub span: Span,
}

/// `e` is the conformance error `c`.
pub open spec fn conf_matches(e: AnalysisError, c: ConfErr) -> bool {
    &&& e matches AnalysisError::MissingConformance { ty, iface, detail, span, iface_span }
    &&& e->MissingConformance_ty@ == c.ty
    &&& e->MissingConformance_iface@ == c.iface
    &&& e->MissingConformance_detail@ == c.detail
    &&& e->MissingConformance_span == c.span
    &&& e->MissingConformance_iface_span is None
}

/// `after` is `before` followed by the errors `added`.
pub open spec fn appended(before: Seq<AnalysisError>, after: Seq<AnalysisError>, added: Seq<ConfErr>) -> bool {
    &&& after.len() == before.len() + added.len()
    &&& after.take(before.len() as int) == before
    &&& forall|j: int| before.len() <= j < after.len() ==> conf_matches(#[trigger] after[j], added[j - before.len()])
}

proof fn lemma_appended_nil(a: Seq<AnalysisError>)
    ensures
        appended(a, a, Seq::empty()),
{
    assert(a.take(a.len() as int) =~= a);
}

proof fn lemma_appended_trans(
    a: Seq<AnalysisError>,
    b: Seq<AnalysisError>,
    c: Seq<AnalysisError>,
    e1: Seq<ConfErr>,
    e2: Seq<ConfErr>,
)
    requires
        appended(a, b, e1),
        appended(b, c, e2),
    ensures
        appended(a, c, e1 + e2),
{
    assert(c.take(a.len() as int) =~= b.take(a.len() as int));
    assert forall|j: int| a.len() <= j < c.len() implies conf_matches(#[trigger] c[j], (e1 + e2)[j - a.len()]) by {
        if j < b.len() {
            assert(c[j] == b[j]);
            assert(conf_matches(b[j], e1[j - a.len()]));
        } else {
            assert(conf_matches(c[j], e2[j - b.len()]));
        }
    }
}

fn push_conf(errors: &mut Vec<AnalysisError>, ty: String, iface: String, detail: String, span: Span)
    ensures
        appended(old(errors)@, final(errors)@, seq![ConfErr { ty: ty@, iface: iface@, detail: detail@, span }]),
{
    let ghost e0 = errors@;
    let ghost c = ConfErr { ty: ty@, iface: iface@, detail: detail@, span };
    errors.push(AnalysisError::MissingConformance { ty, iface, detail, span, iface_span: None });
    assert(errors@.take(e0.len() as int) =~= e0);
    assert(conf_matches(errors@[e0.len() as int], seq![c][0]));
}

// ---------------------------------------------------------------------------
// Names and lookups
// ---------------------------------------------------------------------------

/// The name of a named type expression; `<unknown>` for other forms.
pub open spec fn tname(t: TypeExpr) -> Seq<char> {
    match t {
        TypeExpr::Named { name, .. } => name@,
        _ => "<unknown>"@,
    }
}

/// A hook name as a value: whether it is an operator, and its text.
pub open spec fn hook_id(h: HookName) -> (bool, Seq<char>) {
    match h {
        HookName::Op(s) => (true, s@),
        HookName::Named(s) => (false, s@),
    }
}

/// The index of the first element of `s` that satisfies `p`.
pub open spec fn first_where<T>(s: Seq<T>, p: spec_fn(T) -> bool) -> Option<int>
    decreases s.len(),
{
    if s.len() == 0 {
        None
    } else {
        match first_where(s.drop_last(), p) {
            Some(i) => Some(i),
            None => if p(s.last()) {
                Some(s.len() - 1)
            } else {
                None
            },
        }
    }
}

pub proof fn lemma_first_where_prefix<T>(s: Seq<T>, p: spec_fn(T) -> bool, k: int)
    requires
        0 <= k <= s.len(),
        first_where(s.take(k), p) is Some,
    ensures
        first_where(s, p) == first_where(s.take(k), p),
    decreases s.len(),
{
    if k < s.len() {
        assert(s.drop_last().take(k) =~= s.take(k));
        lemma_first_where_prefix(s.drop_last(), p, k);
    } else {
        assert(s.take(k) =~= s);
    }
}

pub proof fn lemma_first_where_bounds<T>(s: Seq<T>, p: spec_fn(T) -> bool)
    ensures
        first_where(s, p) matches Some(i) ==> 0 <= i < s.len() && p(s[i]),
    decreases s.len(),
{
    if s.len() > 0 {
        lemma_first_where_bounds(s.drop_last(), p);
    }
}

pub proof fn lemma_first_where_step<T>(s: Seq<T>, p: spec_fn(T) -> bool, i: int)
    requires
        0 <= i < s.len(),
        first_where(s.take(i), p) is None,
    ensures
        first_where(s.take(i + 1), p) == (if p(s[i]) { Some(i) } else { None::<int> }),
{
    assert(s.take(i + 1).drop_last() =~= s.take(i));
}

/// The interface named `name`, first in the list.
pub open spec fn iface_named(name: Seq<char>) -> spec_fn(InterfaceDef) -> bool {
    |d: InterfaceDef| d.name@ == name
}

/// The impl block of the interface `iname` for the type `tn`, first in the list.
pub open spec fn impl_of(tn: Seq<char>, iname: Seq<char>) -> spec_fn(ImplBlock) -> bool {
    |b: ImplBlock| tname(b.for_type) == tn && tname(b.interface) == iname
}

/// The hook named like `id`, first in the list.
pub open spec fn hook_with(id: (bool, Seq<char>)) -> spec_fn(HookDef) -> bool {
    |h: HookDef| hook_id(h.name) == id
}

pub open spec fn hook_ids(s: Seq<HookDef>) -> Seq<(bool, Seq<char>)> {
    s.map_values(|h: HookDef| hook_id(h.name))
}

pub open spec fn ref_hook_ids(s: Seq<&HookDef>) -> Seq<(bool, Seq<char>)> {
    s.map_values(|h: &HookDef| hook_id(h.name))
}

pub open spec fn method_names(s: Seq<FnDef>) -> Seq<Seq<char>> {
    s.map_values(|f: FnDef| f.name@)
}

pub open spec fn ref_method_names(s: Seq<&FnDef>) -> Seq<Seq<char>> {
    s.map_values(|f: &FnDef| f.name@)
}

pub open spec fn field_names(s: Seq<Field>) -> Seq<Seq<char>> {
    s.map_values(|f: Field| f.name@)
}

/// The hooks of the impl of `iname` for `tn`, if there is one.
pub open spec fn impl_hook_ids(tn: Seq<char>, iname: Seq<char>, impls: Seq<ImplBlock>) -> Seq<(bool, Seq<char>)> {
    match first_where(impls, impl_of(tn, iname)) {
        Some(b) => hook_ids(impls[b].hooks@),
        None => Seq::empty(),
    }
}

/// The hooks of every impl block for `tn`, in order.
pub open spec fn all_hook_ids(tn: Seq<char>, impls: Seq<ImplBlock>) -> Seq<(bool, Seq<char>)>
    decreases impls.len(),
{
    if impls.len() == 0 {
        Seq::empty()
    } else {
        all_hook_ids(tn, impls.drop_last()) + if tname(impls.last().for_type) == tn {
            hook_ids(impls.last().hooks@)
        } else {
            Seq::empty()
        }
    }
}

/// The methods of every impl block for `tn`, in order.
pub open spec fn all_method_names(tn: Seq<char>, impls: Seq<ImplBlock>) -> Seq<Seq<char>>
    decreases impls.len(),
{
    if impls.len() == 0 {
        Seq::empty()
    } else {
        all_method_names(tn, impls.drop_last()) + if tname(impls.last().for_type) == tn {
            method_names(impls.last().methods@)
        } else {
            Seq::empty()
        }
    }
}

/// The associated-type bindings written on a parent interface reference.
pub open spec fn bindings_of(t: TypeExpr) -> Seq<(String, TypeExpr)> {
    match t {
        TypeExpr::Named { bindings, .. } => bindings@,
        _ => Seq::empty(),
    }
}

// ---------------------------------------------------------------------------
// Associated-type bindings
// ---------------------------------------------------------------------------

/// The name a binding type resolves to, with `Self` read as `self_ty`.
pub open spec fn resolve_binding(t: TypeExpr, self_ty: Seq<char>) -> Seq<char> {
    match t {
        TypeExpr::Named { name, .. } => if name@ == "Self"@ {
            self_ty
        } else {
            name@
        },
        _ => "<complex>"@,
    }
}

/// The error, if any, from one item of the parent interface for one binding: the item
/// must be a hook returning the bound associated type, and the type's impl of that hook
/// must return the bound type.
pub open spec fn binding_item_err(
    tn: Seq<char>,
    pn: Seq<char>,
    binding: (String, TypeExpr),
    item: InterfaceItem,
    ib: Option<ImplBlock>,
    span: Span,
) -> Seq<ConfErr> {
    match item.kind {
        InterfaceItemKind::Hook { name, return_type: Some(ret), .. } => match ret {
            TypeExpr::Named { name: rn, .. } => if rn@ == binding.0@ && ib is Some {
                let b = ib->Some_0;
                match first_where(b.hooks@, hook_with(hook_id(name))) {
                    Some(h) => {
                        let actual = match b.hooks@[h].return_type {
                            Some(t) => resolve_binding(t, tn),
                            None => "void"@,
                        };
                        let expected = resolve_binding(binding.1, tn);
                        if actual != expected {
                            seq![ConfErr {
                                ty: tn,
                                iface: pn,
                                detail: "associated type `"@ + binding.0@ + "` must be `"@ + expected
                                    + "`, found `"@ + actual + "`"@,
                                span,
                            }]
                        } else {
                            Seq::empty()
                        }
                    },
                    None => Seq::empty(),
                }
            } else {
                Seq::empty()
            },
            _ => Seq::empty(),
        },
        _ => Seq::empty(),
    }
}

pub open spec fn binding_items_errs(
    tn: Seq<char>,
    pn: Seq<char>,
    binding: (String, TypeExpr),
    items: Seq<InterfaceItem>,
    ib: Option<ImplBlock>,
    span: Span,
) -> Seq<ConfErr>
    decreases items.len(),
{
    if items.len() == 0 {
        Seq::empty()
    } else {
        binding_items_errs(tn, pn, binding, items.drop_last(), ib, span) + binding_item_err(
            tn,
            pn,
            binding,
            items.last(),
            ib,
            span,
        )
    }
}

pub open spec fn bindings_errs(
    tn: Seq<char>,
    pn: Seq<char>,
    bindings: Seq<(String, TypeExpr)>,
    items: Seq<InterfaceItem>,
    ib: Option<ImplBlock>,
    span: Span,
) -> Seq<ConfErr>
    decreases bindings.len(),
{
    if bindings.len() == 0 {
        Seq::empty()
    } else {
        bindings_errs(tn, pn, bindings.drop_last(), items, ib, span) + binding_items_errs(
            tn,
            pn,
            bindings.last(),
            items,
            ib,
            span,
        )
    }
}

/// The errors for the bindings that `tn`'s interface states on its parent `pn`.
pub open spec fn assoc_errs(
    tn: Seq<char>,
    pn: Seq<char>,
    bindings: Seq<(String, TypeExpr)>,
    ifaces: Seq<InterfaceDef>,
    impls: Seq<ImplBlock>,
    span: Span,
) -> Seq<ConfErr> {
    match first_where(ifaces, iface_named(pn)) {
        None => Seq::empty(),
        Some(pi) => bindings_errs(
            tn,
            pn,
            bindings,
            ifaces[pi].items@,
            match first_where(impls, impl_of(tn, pn)) {
                Some(b) => Some(impls[b]),
                None => None,
            },
            span,
        ),
    }
}

// ---------------------------------------------------------------------------
// A type against an interface
// ---------------------------------------------------------------------------

/// The error, if any, for one required item: a field, a hook without default, or a
/// method without body that the type does not have.
pub open spec fn item_err(
    tn: Seq<char>,
    fields: Seq<Seq<char>>,
    methods: Seq<Seq<char>>,
    hooks: Seq<(bool, Seq<char>)>,
    iname: Seq<char>,
    item: InterfaceItem,
    span: Span,
) -> Seq<ConfErr> {
    match item.kind {
        InterfaceItemKind::Field { name, .. } => if fields.contains(name@) {
            Seq::empty()
        } else {
            seq![ConfErr { ty: tn, iface: iname, detail: "missing required field `"@ + name@ + "`"@, span }]
        },
        InterfaceItemKind::Hook { name, default, .. } => if default is None && !hooks.contains(hook_id(name)) {
            seq![ConfErr {
                ty: tn,
                iface: iname,
                detail: "missing required hook `"@ + hook_name_debug(name) + "`"@,
                span,
            }]
        } else {
            Seq::empty()
        },
        InterfaceItemKind::Method(sig) => if sig.body.stmts@.len() == 0 && !methods.contains(sig.name@) {
            seq![ConfErr { ty: tn, iface: iname, detail: "missing required method `"@ + sig.name@ + "`"@, span }]
        } else {
            Seq::empty()
        },
        _ => Seq::empty(),
    }
}

pub open spec fn items_errs(
    tn: Seq<char>,
    fields: Seq<Seq<char>>,
    methods: Seq<Seq<char>>,
    hooks: Seq<(bool, Seq<char>)>,
    iname: Seq<char>,
    items: Seq<InterfaceItem>,
    span: Span,
) -> Seq<ConfErr>
    decreases items.len(),
{
    if items.len() == 0 {
        Seq::empty()
    } else {
        items_errs(tn, fields, methods, hooks, iname, items.drop_last(), span) + item_err(
            tn,
            fields,
            methods,
            hooks,
            iname,
            items.last(),
            span,
        )
    }
}

/// The errors of checking the type `tn`, with the given fields, methods and hooks,
/// against the interface `iname` and, first, against each interface it extends. A
/// parent is checked with the hooks of the type's impl of that parent added. `fuel`
/// bounds the depth of the walk up the `extends` chain.
pub open spec fn against(
    tn: Seq<char>,
    fields: Seq<Seq<char>>,
    methods: Seq<Seq<char>>,
    hooks: Seq<(bool, Seq<char>)>,
    iname: Seq<char>,
    ifaces: Seq<InterfaceDef>,
    impls: Seq<ImplBlock>,
    span: Span,
    fuel: nat,
) -> Seq<ConfErr>
    decreases fuel, 1nat, 0nat,
{
    if fuel == 0 {
        Seq::empty()
    } else {
        match first_where(ifaces, iface_named(iname)) {
            None => seq![ConfErr { ty: tn, iface: iname, detail: "interface not found"@, span }],
            Some(i) => against_parents(
                tn,
                fields,
                methods,
                hooks,
                ifaces[i].extends@,
                ifaces,
                impls,
                span,
                fuel,
            ) + items_errs(tn, fields, methods, hooks, iname, ifaces[i].items@, span),
        }
    }
}

pub open spec fn against_parents(
    tn: Seq<char>,
    fields: Seq<Seq<char>>,
    methods: Seq<Seq<char>>,
    hooks: Seq<(bool, Seq<char>)>,
    parents: Seq<TypeExpr>,
    ifaces: Seq<InterfaceDef>,
    impls: Seq<ImplBlock>,
    span: Span,
    fuel: nat,
) -> Seq<ConfErr>
    decreases fuel, 0nat, parents.len(),
{
    if fuel == 0 || parents.len() == 0 {
        Seq::empty()
    } else {
        let pn = tname(parents.last());
        against_parents(tn, fields, methods, hooks, parents.drop_last(), ifaces, impls, span, fuel)
            + assoc_errs(tn, pn, bindings_of(parents.last()), ifaces, impls, span) + against(
            tn,
            fields,
            methods,
            hooks + impl_hook_ids(tn, pn, impls),
            pn,
            ifaces,
            impls,
            span,
            (fuel - 1) as nat,
        )
    }
}

/// The errors for a type declared to implement each of `declared`.
pub open spec fn declared_errs(
    tn: Seq<char>,
    fields: Seq<Seq<char>>,
    methods: Seq<Seq<char>>,
    declared: Seq<TypeExpr>,
    ifaces: Seq<InterfaceDef>,
    impls: Seq<ImplBlock>,
    span: Span,
) -> Seq<ConfErr>
    decreases declared.len(),
{
    if declared.len() == 0 {
        Seq::empty()
    } else {
        let iname = tname(declared.last());
        declared_errs(tn, fields, methods, declared.drop_last(), ifaces, impls, span) + against(
            tn,
            fields,
            methods,
            impl_hook_ids(tn, iname, impls),
            iname,
            ifaces,
            impls,
            span,
            ifaces.len() + 1,
        )
    }
}

// ---------------------------------------------------------------------------
// An impl block against its interface
// ---------------------------------------------------------------------------

/// The type arguments written on an interface reference.
pub open spec fn iface_args(t: TypeExpr) -> Seq<TypeExpr> {
    match t {
        TypeExpr::Named { generics, .. } => generics@,
        _ => Seq::empty(),
    }
}

/// The substitution of the first `k` interface generic parameters by the named type
/// arguments at the same positions; other arguments give no entry.
pub open spec fn subst_upto(params: Seq<GenericParam>, args: Seq<TypeExpr>, k: nat) -> Seq<(Seq<char>, Seq<char>)>
    decreases k,
{
    if k == 0 {
        Seq::empty()
    } else {
        subst_upto(params, args, (k - 1) as nat) + match args[k - 1] {
            TypeExpr::Named { name, .. } => seq![(params[k - 1].name@, name@)],
            _ => Seq::empty(),
        }
    }
}

/// The substitution an impl's interface reference gives: parameters and arguments are
/// paired up to the shorter list.
pub open spec fn subst_of(params: Seq<GenericParam>, args: Seq<TypeExpr>) -> Seq<(Seq<char>, Seq<char>)> {
    subst_upto(params, args, if params.len() <= args.len() { params.len() } else { args.len() })
}

/// What `key` is substituted by; a later entry for the same key wins.
pub open spec fn subst_get(s: Seq<(Seq<char>, Seq<char>)>, key: Seq<char>) -> Option<Seq<char>>
    decreases s.len(),
{
    if s.len() == 0 {
        None
    } else if s.last().0 == key {
        Some(s.last().1)
    } else {
        subst_get(s.drop_last(), key)
    }
}

/// The associated type names an interface declares, in order.
pub open spec fn assoc_names(items: Seq<InterfaceItem>) -> Seq<Seq<char>>
    decreases items.len(),
{
    if items.len() == 0 {
        Seq::empty()
    } else {
        assoc_names(items.drop_last()) + match items.last().kind {
            InterfaceItemKind::AssocType { name, .. } => seq![name@],
            _ => Seq::empty(),
        }
    }
}

/// Whether an impl-side type fits the interface-side type: an interface type that is
/// not a plain name, or that names an associated type, fits anything; otherwise it is
/// resolved through `Self` and the substitution, and the impl may write that name, or,
/// for the implementing type itself, `Self` or the impl's self alias.
pub open spec fn compat(
    impl_ty: TypeExpr,
    iface_ty: TypeExpr,
    tn: Seq<char>,
    alias: Option<String>,
    subst: Seq<(Seq<char>, Seq<char>)>,
    assoc: Seq<Seq<char>>,
) -> bool {
    match iface_ty {
        TypeExpr::Named { name: iname, .. } => match impl_ty {
            TypeExpr::Named { name: impl_name, .. } => if assoc.contains(iname@) {
                true
            } else {
                let resolved = if iname@ == "Self"@ {
                    tn
                } else {
                    match subst_get(subst, iname@) {
                        Some(c) => c,
                        None => iname@,
                    }
                };
                impl_name@ == resolved || (resolved == tn && (impl_name@ == "Self"@ || (alias is Some
                    && alias->Some_0@ == impl_name@)))
            },
            _ => false,
        },
        _ => true,
    }
}

/// How a type is shown in a conformance message: `Self` as the implementing type, a
/// substituted parameter as its argument, another name as itself, and any other form by
/// its `Debug` text.
pub open spec fn display(t: TypeExpr, self_name: Seq<char>, subst: Seq<(Seq<char>, Seq<char>)>) -> Seq<char> {
    match t {
        TypeExpr::Named { name, .. } => if name@ == "Self"@ {
            self_name
        } else {
            match subst_get(subst, name@) {
                Some(c) => c,
                None => name@,
            }
        },
        _ => type_expr_debug(t),
    }
}

/// The text of a hook name without its kind.
pub open spec fn hook_label(h: HookName) -> Seq<char> {
    hook_id(h).1
}

/// The errors for the first `k` parameters of an impl hook against the interface's.
pub open spec fn param_errs(
    ib: ImplBlock,
    tn: Seq<char>,
    iname: Seq<char>,
    label: Seq<char>,
    subst: Seq<(Seq<char>, Seq<char>)>,
    assoc: Seq<Seq<char>>,
    impl_ps: Seq<Param>,
    iface_ps: Seq<Param>,
    span: Span,
    k: nat,
) -> Seq<ConfErr>
    decreases k,
{
    if k == 0 {
        Seq::empty()
    } else {
        let ip = impl_ps[k - 1];
        let fp = iface_ps[k - 1];
        param_errs(ib, tn, iname, label, subst, assoc, impl_ps, iface_ps, span, (k - 1) as nat) + if compat(
            ip.ty,
            fp.ty,
            tn,
            ib.self_alias,
            subst,
            assoc,
        ) {
            Seq::empty()
        } else {
            seq![ConfErr {
                ty: tn,
                iface: iname,
                detail: "hook `"@ + label + "` parameter `"@ + ip.name@ + "`: expected `"@ + display(fp.ty, tn, subst)
                    + "`, found `"@ + display(ip.ty, tn, subst) + "`"@,
                span,
            }]
        }
    }
}

/// The error, if any, for the return type of an impl hook.
pub open spec fn ret_err(
    ib: ImplBlock,
    tn: Seq<char>,
    iname: Seq<char>,
    label: Seq<char>,
    subst: Seq<(Seq<char>, Seq<char>)>,
    assoc: Seq<Seq<char>>,
    iface_ret: Option<TypeExpr>,
    h: HookDef,
) -> Seq<ConfErr> {
    if iface_ret is Some && h.return_type is Some && !compat(
        h.return_type->Some_0,
        iface_ret->Some_0,
        tn,
        ib.self_alias,
        subst,
        assoc,
    ) {
        seq![ConfErr {
            ty: tn,
            iface: iname,
            detail: "hook `"@ + label + "` return type: expected `"@ + display(iface_ret->Some_0, tn, subst)
                + "`, found `"@ + display(h.return_type->Some_0, tn, subst) + "`"@,
            span: h.span,
        }]
    } else {
        Seq::empty()
    }
}

/// The errors for one interface item that the impl block itself must provide.
pub open spec fn required_err(
    ib: ImplBlock,
    tn: Seq<char>,
    iname: Seq<char>,
    subst: Seq<(Seq<char>, Seq<char>)>,
    assoc: Seq<Seq<char>>,
    item: InterfaceItem,
) -> Seq<ConfErr> {
    match item.kind {
        InterfaceItemKind::Hook { name, params, return_type, default, .. } => if default is Some {
            Seq::empty()
        } else {
            let label = hook_label(name);
            match first_where(ib.hooks@, hook_with(hook_id(name))) {
                None => seq![ConfErr {
                    ty: tn,
                    iface: iname,
                    detail: "impl block missing required hook `"@ + label + "`"@,
                    span: ib.span,
                }],
                Some(k) => {
                    let h = ib.hooks@[k];
                    if h.params@.len() != params@.len() {
                        seq![ConfErr {
                            ty: tn,
                            iface: iname,
                            detail: "hook `"@ + label + "` has "@ + decimal(h.params@.len()) + " parameter(s) but `"@
                                + iname + "` requires "@ + decimal(params@.len()),
                            span: h.span,
                        }]
                    } else {
                        param_errs(ib, tn, iname, label, subst, assoc, h.params@, params@, h.span, h.params@.len())
                            + ret_err(ib, tn, iname, label, subst, assoc, return_type, h)
                    }
                },
            }
        },
        InterfaceItemKind::Method(sig) => if sig.body.stmts@.len() == 0 && !method_names(ib.methods@).contains(
            sig.name@,
        ) {
            seq![ConfErr {
                ty: tn,
                iface: iname,
                detail: "impl block missing required method `"@ + sig.name@ + "`"@,
                span: ib.span,
            }]
        } else {
            Seq::empty()
        },
        _ => Seq::empty(),
    }
}

pub open spec fn required_errs(
    ib: ImplBlock,
    tn: Seq<char>,
    iname: Seq<char>,
    subst: Seq<(Seq<char>, Seq<char>)>,
    assoc: Seq<Seq<char>>,
    items: Seq<InterfaceItem>,
) -> Seq<ConfErr>
    decreases items.len(),
{
    if items.len() == 0 {
        Seq::empty()
    } else {
        required_errs(ib, tn, iname, subst, assoc, items.drop_last()) + required_err(
            ib,
            tn,
            iname,
            subst,
            assoc,
            items.last(),
        )
    }
}

/// The errors for each parent of the impl's interface: its stated bindings, and the
/// type checked against the parent with every hook and method of every impl for it.
pub open spec fn completeness_parents(
    tn: Seq<char>,
    parents: Seq<TypeExpr>,
    ifaces: Seq<InterfaceDef>,
    impls: Seq<ImplBlock>,
    span: Span,
) -> Seq<ConfErr>
    decreases parents.len(),
{
    if parents.len() == 0 {
        Seq::empty()
    } else {
        let pn = tname(parents.last());
        completeness_parents(tn, parents.drop_last(), ifaces, impls, span) + assoc_errs(
            tn,
            pn,
            bindings_of(parents.last()),
            ifaces,
            impls,
            span,
        ) + against(
            tn,
            Seq::empty(),
            all_method_names(tn, impls),
            all_hook_ids(tn, impls),
            pn,
            ifaces,
            impls,
            span,
            ifaces.len() + 1,
        )
    }
}

/// The errors of an impl block: nothing if its interface is unknown; else the items it
/// must provide itself, then its interface's parents.
pub open spec fn impl_errs(ib: ImplBlock, ifaces: Seq<InterfaceDef>, impls: Seq<ImplBlock>) -> Seq<ConfErr> {
    let iname = tname(ib.interface);
    let tn = tname(ib.for_type);
    match first_where(ifaces, iface_named(iname)) {
        None => Seq::empty(),
        Some(i) => {
            let iface = ifaces[i];
            let subst = subst_of(iface.generic_params@, iface_args(ib.interface));
            required_errs(ib, tn, iname, subst, assoc_names(iface.items@), iface.items@)
                + completeness_parents(tn, iface.extends@, ifaces, impls, ib.span)
        },
    }
}

// ---------------------------------------------------------------------------
// Executable lookups
// ---------------------------------------------------------------------------

/// The name of a named type expression; `<unknown>` for other forms.
fn type_expr_name(ty: &TypeExpr) -> (r: String)
    ensures
        r@ == tname(*ty),
{
    match ty {
        TypeExpr::Named { name, .. } => name.clone(),
        _ => String::from_str("<unknown>"),
    }
}

fn hook_name_eq(a: &HookName, b: &HookName) -> (r: bool)
    ensures
        r == (hook_id(*a) == hook_id(*b)),
{
    match (a, b) {
        (HookName::Op(x), HookName::Op(y)) => *x == *y,
        (HookName::Named(x), HookName::Named(y)) => *x == *y,
        _ => false,
    }
}

fn find_interface(ifaces: &[InterfaceDef], name: &String) -> (r: Option<usize>)
    ensures
        match r {
            Some(i) => first_where(ifaces@, iface_named(name@)) == Some(i as int),
            None => first_where(ifaces@, iface_named(name@)) is None,
        },
{
    let ghost p = iface_named(name@);
    let mut i: usize = 0;
    while i < ifaces.len()
        invariant
            i <= ifaces@.len(),
            p == iface_named(name@),
            first_where(ifaces@.take(i as int), p) is None,
        decreases ifaces.len() - i,
    {
        proof {
            lemma_first_where_step(ifaces@, p, i as int);
        }
        if ifaces[i].name == *name {
            proof {
                lemma_first_where_prefix(ifaces@, p, i + 1);
            }
            return Some(i);
        }
        i += 1;
    }
    proof {
        assert(ifaces@.take(i as int) =~= ifaces@);
    }
    None
}

fn find_impl(impls: &[ImplBlock], tn: &String, iname: &String) -> (r: Option<usize>)
    ensures
        match r {
            Some(i) => first_where(impls@, impl_of(tn@, iname@)) == Some(i as int),
            None => first_where(impls@, impl_of(tn@, iname@)) is None,
        },
{
    let ghost p = impl_of(tn@, iname@);
    let mut i: usize = 0;
    while i < impls.len()
        invariant
            i <= impls@.len(),
            p == impl_of(tn@, iname@),
            first_where(impls@.take(i as int), p) is None,
        decreases impls.len() - i,
    {
        proof {
            lemma_first_where_step(impls@, p, i as int);
        }
        let for_ty = type_expr_name(&impls[i].for_type);
        let iface = type_expr_name(&impls[i].interface);
        if for_ty == *tn && iface == *iname {
            proof {
                lemma_first_where_prefix(impls@, p, i + 1);
            }
            return Some(i);
        }
        i += 1;
    }
    proof {
        assert(impls@.take(i as int) =~= impls@);
    }
    None
}

fn find_hook(hooks: &Vec<HookDef>, name: &HookName) -> (r: Option<usize>)
    ensures
        match r {
            Some(i) => first_where(hooks@, hook_with(hook_id(*name))) == Some(i as int),
            None => first_where(hooks@, hook_with(hook_id(*name))) is None,
        },
{
    let ghost p = hook_with(hook_id(*name));
    let mut i: usize = 0;
    while i < hooks.len()
        invariant
            i <= hooks@.len(),
            p == hook_with(hook_id(*name)),
            first_where(hooks@.take(i as int), p) is None,
        decreases hooks.len() - i,
    {
        proof {
            lemma_first_where_step(hooks@, p, i as int);
        }
        if hook_name_eq(&hooks[i].name, name) {
            proof {
                lemma_first_where_prefix(hooks@, p, i + 1);
            }
            return Some(i);
        }
        i += 1;
    }
    proof {
        assert(hooks@.take(i as int) =~= hooks@);
    }
    None
}

fn has_field(fields: &Vec<Field>, name: &String) -> (r: bool)
    ensures
        r == field_names(fields@).contains(name@),
{
    let mut i: usize = 0;
    while i < fields.len()
        invariant
            i <= fields@.len(),
            forall|k: int| 0 <= k < i ==> fields@[k].name@ != name@,
        decreases fields.len() - i,
    {
        if fields[i].name == *name {
            assert(field_names(fields@)[i as int] == name@);
            return true;
        }
        i += 1;
    }
    proof {
        if field_names(fields@).contains(name@) {
            let k = choose|k: int| 0 <= k < field_names(fields@).len() && field_names(fields@)[k] == name@;
            assert(fields@[k].name@ == name@);
        }
    }
    false
}

fn has_method_ref(methods: &Vec<&FnDef>, name: &String) -> (r: bool)
    ensures
        r == ref_method_names(methods@).contains(name@),
{
    let mut i: usize = 0;
    while i < methods.len()
        invariant
            i <= methods@.len(),
            forall|k: int| 0 <= k < i ==> methods@[k].name@ != name@,
        decreases methods.len() - i,
    {
        if methods[i].name == *name {
            assert(ref_method_names(methods@)[i as int] == name@);
            return true;
        }
        i += 1;
    }
    proof {
        if ref_method_names(methods@).contains(name@) {
            let k = choose|k: int| 0 <= k < ref_method_names(methods@).len() && ref_method_names(methods@)[k] == name@;
            assert(methods@[k].name@ == name@);
        }
    }
    false
}

fn has_method(methods: &Vec<FnDef>, name: &String) -> (r: bool)
    ensures
        r == method_names(methods@).contains(name@),
{
    let mut i: usize = 0;
    while i < methods.len()
        invariant
            i <= methods@.len(),
            forall|k: int| 0 <= k < i ==> methods@[k].name@ != name@,
        decreases methods.len() - i,
    {
        if methods[i].name == *name {
            assert(method_names(methods@)[i as int] == name@);
            return true;
        }
        i += 1;
    }
    proof {
        if method_names(methods@).contains(name@) {
            let k = choose|k: int| 0 <= k < method_names(methods@).len() && method_names(methods@)[k] == name@;
            assert(methods@[k].name@ == name@);
        }
    }
    false
}

fn has_hook_ref(hooks: &Vec<&HookDef>, name: &HookName) -> (r: bool)
    ensures
        r == ref_hook_ids(hooks@).contains(hook_id(*name)),
{
    let mut i: usize = 0;
    while i < hooks.len()
        invariant
            i <= hooks@.len(),
            forall|k: int| 0 <= k < i ==> hook_id(hooks@[k].name) != hook_id(*name),
        decreases hooks.len() - i,
    {
        if hook_name_eq(&hooks[i].name, name) {
            assert(ref_hook_ids(hooks@)[i as int] == hook_id(*name));
            return true;
        }
        i += 1;
    }
    proof {
        if ref_hook_ids(hooks@).contains(hook_id(*name)) {
            let k = choose|k: int| 0 <= k < ref_hook_ids(hooks@).len() && ref_hook_ids(hooks@)[k] == hook_id(*name);
            assert(hook_id(hooks@[k].name) == hook_id(*name));
        }
    }
    false
}

/// Appends a reference to each hook of `hooks` to `out`.
fn push_hook_refs<'a>(out: &mut Vec<&'a HookDef>, hooks: &'a Vec<HookDef>)
    ensures
        ref_hook_ids(final(out)@) == ref_hook_ids(old(out)@) + hook_ids(hooks@),
{
    let ghost o0 = ref_hook_ids(out@);
    let mut i: usize = 0;
    while i < hooks.len()
        invariant
            i <= hooks@.len(),
            ref_hook_ids(out@) == o0 + hook_ids(hooks@.take(i as int)),
        decreases hooks.len() - i,
    {
        let ghost before = out@;
        out.push(&hooks[i]);
        proof {
            assert(ref_hook_ids(out@) =~= ref_hook_ids(before).push(hook_id(hooks@[i as int].name)));
            assert(hook_ids(hooks@.take(i + 1)) =~= hook_ids(hooks@.take(i as int)).push(hook_id(hooks@[i as int].name)));
        }
        i += 1;
    }
    proof {
        assert(hooks@.take(i as int) =~= hooks@);
    }
}

/// Appends a reference to each method of `methods` to `out`.
fn push_method_refs<'a>(out: &mut Vec<&'a FnDef>, methods: &'a Vec<FnDef>)
    ensures
        ref_method_names(final(out)@) == ref_method_names(old(out)@) + method_names(methods@),
{
    let ghost o0 = ref_method_names(out@);
    let mut i: usize = 0;
    while i < methods.len()
        invariant
            i <= methods@.len(),
            ref_method_names(out@) == o0 + method_names(methods@.take(i as int)),
        decreases methods.len() - i,
    {
        let ghost before = out@;
        out.push(&methods[i]);
        proof {
            assert(ref_method_names(out@) =~= ref_method_names(before).push(methods@[i as int].name@));
            assert(method_names(methods@.take(i + 1)) =~= method_names(methods@.take(i as int)).push(
                methods@[i as int].name@,
            ));
        }
        i += 1;
    }
    proof {
        assert(methods@.take(i as int) =~= methods@);
    }
}

/// The hooks of the impl of `iface_name` for `ty_name`, if there is one.
fn collect_impl_hooks<'a>(ty_name: &String, iface_name: &String, all_impls: &'a [ImplBlock]) -> (r: Vec<&'a HookDef>)
    ensures
        ref_hook_ids(r@) == impl_hook_ids(ty_name@, iface_name@, all_impls@),
{
    let mut out: Vec<&'a HookDef> = Vec::new();
    assert(ref_hook_ids(out@) =~= Seq::empty());
    match find_impl(all_impls, ty_name, iface_name) {
        Some(b) => {
            proof {
                lemma_first_where_bounds(all_impls@, impl_of(ty_name@, iface_name@));
            }
            push_hook_refs(&mut out, &all_impls[b].hooks);
            assert(ref_hook_ids(out@) =~= hook_ids(all_impls@[b as int].hooks@));
        },
        None => {},
    }
    out
}

/// The hooks of every impl block for `ty_name`.
fn collect_all_hooks_for_type<'a>(ty_name: &String, all_impls: &'a [ImplBlock]) -> (r: Vec<&'a HookDef>)
    ensures
        ref_hook_ids(r@) == all_hook_ids(ty_name@, all_impls@),
{
    let mut out: Vec<&'a HookDef> = Vec::new();
    let mut i: usize = 0;
    assert(ref_hook_ids(out@) =~= all_hook_ids(ty_name@, all_impls@.take(0)));
    while i < all_impls.len()
        invariant
            i <= all_impls@.len(),
            ref_hook_ids(out@) == all_hook_ids(ty_name@, all_impls@.take(i as int)),
        decreases all_impls.len() - i,
    {
        proof {
            assert(all_impls@.take(i + 1).drop_last() =~= all_impls@.take(i as int));
        }
        let for_ty = type_expr_name(&all_impls[i].for_type);
        if for_ty == *ty_name {
            push_hook_refs(&mut out, &all_impls[i].hooks);
        } else {
            assert(ref_hook_ids(out@) =~= ref_hook_ids(out@) + Seq::empty());
        }
        assert(ref_hook_ids(out@) =~= all_hook_ids(ty_name@, all_impls@.take(i + 1)));
        i += 1;
    }
    assert(all_impls@.take(i as int) =~= all_impls@);
    out
}

/// The methods of every impl block for `ty_name`.
fn collect_all_methods_for_type<'a>(ty_name: &String, all_impls: &'a [ImplBlock]) -> (r: Vec<&'a FnDef>)
    ensures
        ref_method_names(r@) == all_method_names(ty_name@, all_impls@),
{
    let mut out: Vec<&'a FnDef> = Vec::new();
    let mut i: usize = 0;
    assert(ref_method_names(out@) =~= all_method_names(ty_name@, all_impls@.take(0)));
    while i < all_impls.len()
        invariant
            i <= all_impls@.len(),
            ref_method_names(out@) == all_method_names(ty_name@, all_impls@.take(i as int)),
        decreases all_impls.len() - i,
    {
        proof {
            assert(all_impls@.take(i + 1).drop_last() =~= all_impls@.take(i as int));
        }
        let for_ty = type_expr_name(&all_impls[i].for_type);
        if for_ty == *ty_name {
            push_method_refs(&mut out, &all_impls[i].methods);
        } else {
            assert(ref_method_names(out@) =~= ref_method_names(out@) + Seq::empty());
        }
        assert(ref_method_names(out@) =~= all_method_names(ty_name@, all_impls@.take(i + 1)));
        i += 1;
    }
    assert(all_impls@.take(i as int) =~= all_impls@);
    out
}

// ---------------------------------------------------------------------------
// Checking bindings
// ---------------------------------------------------------------------------

fn is_self(name: &String) -> (r: bool)
    ensures
        r == (name@ == "Self"@),
{
    *name == String::from_str("Self")
}

/// The name a binding type resolves to, with `Self` read as `self_ty`.
fn resolve_binding_name(ty: &TypeExpr, self_ty: &String) -> (r: String)
    ensures
        r@ == resolve_binding(*ty, self_ty@),
{
    match ty {
        TypeExpr::Named { name, .. } => {
            if is_self(name) {
                self_ty.clone()
            } else {
                name.clone()
            }
        },
        _ => String::from_str("<complex>"),
    }
}

fn binding_item_check(
    ty_name: &String,
    parent: &String,
    binding: &(String, TypeExpr),
    item: &InterfaceItem,
    all_impls: &[ImplBlock],
    ib: Option<usize>,
    span: Span,
    errors: &mut Vec<AnalysisError>,
)
    requires
        ib matches Some(b) ==> b < all_impls@.len(),
    ensures
        appended(
            old(errors)@,
            final(errors)@,
            binding_item_err(
                ty_name@,
                parent@,
                *binding,
                *item,
                match ib {
                    Some(b) => Some(all_impls@[b as int]),
                    None => None,
                },
                span,
            ),
        ),
{
    proof {
        lemma_appended_nil(errors@);
    }
    match &item.kind {
        InterfaceItemKind::Hook { name, return_type: Some(ret), .. } => match ret {
            TypeExpr::Named { name: rn, .. } => {
                if *rn == binding.0 {
                    if let Some(b) = ib {
                        let hooks = &all_impls[b].hooks;
                        match find_hook(hooks, name) {
                            Some(h) => {
                                proof {
                                    lemma_first_where_bounds(hooks@, hook_with(hook_id(*name)));
                                }
                                let actual = match &hooks[h].return_type {
                                    Some(t) => resolve_binding_name(t, ty_name),
                                    None => String::from_str("void"),
                                };
                                let expected = resolve_binding_name(&binding.1, ty_name);
                                if actual != expected {
                                    let mut d = String::from_str("associated type `");
                                    d.append(binding.0.as_str());
                                    d.append("` must be `");
                                    d.append(expected.as_str());
                                    d.append("`, found `");
                                    d.append(actual.as_str());
                                    d.append("`");
                                    push_conf(errors, ty_name.clone(), parent.clone(), d, span);
                                }
                            },
                            None => {},
                        }
                    }
                }
            },
            _ => {},
        },
        _ => {},
    }
}

/// Checks that the bindings `bindings` stated on the parent interface `parent` hold for
/// the type `ty_name`: for each binding, the hook of the parent that returns the bound
/// associated type must, in the type's impl of the parent, return the bound type.
fn check_assoc_bindings(
    ty_name: &String,
    parent: &String,
    bindings: &Vec<(String, TypeExpr)>,
    all_interfaces: &[InterfaceDef],
    all_impls: &[ImplBlock],
    span: Span,
    errors: &mut Vec<AnalysisError>,
)
    ensures
        appended(
            old(errors)@,
            final(errors)@,
            assoc_errs(ty_name@, parent@, bindings@, all_interfaces@, all_impls@, span),
        ),
{
    let ghost e0 = errors@;
    proof {
        lemma_appended_nil(e0);
    }
    let pi = match find_interface(all_interfaces, parent) {
        Some(i) => i,
        None => {
            return;
        },
    };
    proof {
        lemma_first_where_bounds(all_interfaces@, iface_named(parent@));
    }
    let items = &all_interfaces[pi].items;
    let ib = find_impl(all_impls, ty_name, parent);
    proof {
        lemma_first_where_bounds(all_impls@, impl_of(ty_name@, parent@));
    }
    let ghost gib: Option<ImplBlock> = match ib {
        Some(b) => Some(all_impls@[b as int]),
        None => None,
    };
    let mut bi: usize = 0;
    while bi < bindings.len()
        invariant
            bi <= bindings@.len(),
            items@ == all_interfaces@[pi as int].items@,
            gib == (match ib {
                Some(b) => Some(all_impls@[b as int]),
                None => None::<ImplBlock>,
            }),
            ib matches Some(b) ==> b < all_impls@.len(),
            appended(e0, errors@, bindings_errs(ty_name@, parent@, bindings@.take(bi as int), items@, gib, span)),
        decreases bindings.len() - bi,
    {
        let ghost e1 = errors@;
        let binding = &bindings[bi];
        let mut ii: usize = 0;
        proof {
            lemma_appended_nil(e1);
            assert(items@.take(0) =~= Seq::<InterfaceItem>::empty());
        }
        while ii < items.len()
            invariant
                ii <= items@.len(),
                gib == (match ib {
                    Some(b) => Some(all_impls@[b as int]),
                    None => None::<ImplBlock>,
                }),
                ib matches Some(b) ==> b < all_impls@.len(),
                appended(e1, errors@, binding_items_errs(ty_name@, parent@, *binding, items@.take(ii as int), gib, span)),
            decreases items.len() - ii,
        {
            let ghost e2 = errors@;
            binding_item_check(ty_name, parent, binding, &items[ii], all_impls, ib, span, errors);
            proof {
                lemma_appended_trans(
                    e1,
                    e2,
                    errors@,
                    binding_items_errs(ty_name@, parent@, *binding, items@.take(ii as int), gib, span),
                    binding_item_err(ty_name@, parent@, *binding, items@[ii as int], gib, span),
                );
                assert(items@.take(ii + 1).drop_last() =~= items@.take(ii as int));
            }
            ii += 1;
        }
        proof {
            assert(items@.take(ii as int) =~= items@);
            lemma_appended_trans(
                e0,
                e1,
                errors@,
                bindings_errs(ty_name@, parent@, bindings@.take(bi as int), items@, gib, span),
                binding_items_errs(ty_name@, parent@, *binding, items@, gib, span),
            );
            assert(bindings@.take(bi + 1).drop_last() =~= bindings@.take(bi as int));
        }
        bi += 1;
    }
    proof {
        assert(bindings@.take(bi as int) =~= bindings@);
    }
}

// ---------------------------------------------------------------------------
// Checking a type against an interface
// ---------------------------------------------------------------------------

fn item_check<'a>(
    ty_name: &String,
    fields: &Vec<Field>,
    methods: &Vec<&FnDef>,
    hooks: &Vec<&'a HookDef>,
    iface_name: &String,
    item: &InterfaceItem,
    span: Span,
    errors: &mut Vec<AnalysisError>,
)
    ensures
        appended(
            old(errors)@,
            final(errors)@,
            item_err(
                ty_name@,
                field_names(fields@),
                ref_method_names(methods@),
                ref_hook_ids(hooks@),
                iface_name@,
                *item,
                span,
            ),
        ),
{
    proof {
        lemma_appended_nil(errors@);
    }
    match &item.kind {
        InterfaceItemKind::Field { name, .. } => {
            if !has_field(fields, name) {
                let mut d = String::from_str("missing required field `");
                d.append(name.as_str());
                d.append("`");
                push_conf(errors, ty_name.clone(), iface_name.clone(), d, span);
            }
        },
        InterfaceItemKind::Hook { name, default, .. } => {
            if default.is_none() && !has_hook_ref(hooks, name) {
                let mut d = String::from_str("missing required hook `");
                let shown = hook_name_debug_text(name);
                d.append(shown.as_str());
                d.append("`");
                push_conf(errors, ty_name.clone(), iface_name.clone(), d, span);
            }
        },
        InterfaceItemKind::Method(sig) => {
            if sig.body.stmts.len() == 0 && !has_method_ref(methods, &sig.name) {
                let mut d = String::from_str("missing required method `");
                d.append(sig.name.as_str());
                d.append("`");
                push_conf(errors, ty_name.clone(), iface_name.clone(), d, span);
            }
        },
        _ => {},
    }
}

/// `a` followed by `b`.
fn concat_hook_refs<'a>(a: &Vec<&'a HookDef>, b: &Vec<&'a HookDef>) -> (r: Vec<&'a HookDef>)
    ensures
        ref_hook_ids(r@) == ref_hook_ids(a@) + ref_hook_ids(b@),
{
    let mut out: Vec<&'a HookDef> = Vec::new();
    let mut i: usize = 0;
    while i < a.len()
        invariant
            i <= a@.len(),
            out@ == a@.take(i as int),
        decreases a.len() - i,
    {
        out.push(a[i]);
        assert(out@ =~= a@.take(i + 1));
        i += 1;
    }
    let mut j: usize = 0;
    while j < b.len()
        invariant
            i == a@.len(),
            j <= b@.len(),
            out@ == a@ + b@.take(j as int),
        decreases b.len() - j,
    {
        out.push(b[j]);
        assert(out@ =~= a@ + b@.take(j + 1));
        j += 1;
    }
    assert(out@ =~= a@ + b@);
    assert(ref_hook_ids(out@) =~= ref_hook_ids(a@) + ref_hook_ids(b@));
    out
}

/// Checks the type `ty_name`, with the given fields, methods and hooks, against the
/// interface `iface_name`: first against each interface it extends (with the bindings
/// stated there, and with the hooks of the type's impl of that parent added), then for
/// each required field, hook and method. An unknown interface is an error.
fn check_against_iface<'a>(
    ty_name: &String,
    fields: &Vec<Field>,
    methods: &Vec<&FnDef>,
    hooks: &Vec<&'a HookDef>,
    iface_name: &String,
    all_interfaces: &[InterfaceDef],
    all_impls: &'a [ImplBlock],
    span: Span,
    errors: &mut Vec<AnalysisError>,
    fuel: usize,
)
    ensures
        appended(
            old(errors)@,
            final(errors)@,
            against(
                ty_name@,
                field_names(fields@),
                ref_method_names(methods@),
                ref_hook_ids(hooks@),
                iface_name@,
                all_interfaces@,
                all_impls@,
                span,
                fuel as nat,
            ),
        ),
    decreases fuel,
{
    let ghost e0 = errors@;
    let ghost fs = field_names(fields@);
    let ghost ms = ref_method_names(methods@);
    let ghost hs = ref_hook_ids(hooks@);
    proof {
        lemma_appended_nil(e0);
    }
    if fuel == 0 {
        return;
    }
    let i = match find_interface(all_interfaces, iface_name) {
        Some(i) => i,
        None => {
            push_conf(errors, ty_name.clone(), iface_name.clone(), String::from_str("interface not found"), span);
            return;
        },
    };
    proof {
        lemma_first_where_bounds(all_interfaces@, iface_named(iface_name@));
    }
    let iface = &all_interfaces[i];
    let mut j: usize = 0;
    proof {
        assert(iface.extends@.take(0) =~= Seq::<TypeExpr>::empty());
    }
    while j < iface.extends.len()
        invariant
            j <= iface.extends@.len(),
            fuel > 0,
            fs == field_names(fields@),
            ms == ref_method_names(methods@),
            hs == ref_hook_ids(hooks@),
            appended(
                e0,
                errors@,
                against_parents(
                    ty_name@,
                    fs,
                    ms,
                    hs,
                    iface.extends@.take(j as int),
                    all_interfaces@,
                    all_impls@,
                    span,
                    fuel as nat,
                ),
            ),
        decreases iface.extends.len() - j,
    {
        let ghost e1 = errors@;
        let parent = &iface.extends[j];
        let pname = type_expr_name(parent);
        match parent {
            TypeExpr::Named { bindings, .. } => {
                if bindings.len() > 0 {
                    check_assoc_bindings(ty_name, &pname, bindings, all_interfaces, all_impls, span, errors);
                } else {
                    proof {
                        lemma_appended_nil(e1);
                        assert(bindings@ =~= Seq::<(String, TypeExpr)>::empty());
                    }
                }
            },
            _ => {
                proof {
                    lemma_appended_nil(e1);
                }
            },
        }
        let ghost e2 = errors@;
        let own = collect_impl_hooks(ty_name, &pname, all_impls);
        let parent_hooks = concat_hook_refs(hooks, &own);
        check_against_iface(
            ty_name,
            fields,
            methods,
            &parent_hooks,
            &pname,
            all_interfaces,
            all_impls,
            span,
            errors,
            fuel - 1,
        );
        proof {
            let a = assoc_errs(ty_name@, pname@, bindings_of(*parent), all_interfaces@, all_impls@, span);
            let b = against(
                ty_name@,
                fs,
                ms,
                hs + impl_hook_ids(ty_name@, pname@, all_impls@),
                pname@,
                all_interfaces@,
                all_impls@,
                span,
                (fuel - 1) as nat,
            );
            let prev = against_parents(
                ty_name@,
                fs,
                ms,
                hs,
                iface.extends@.take(j as int),
                all_interfaces@,
                all_impls@,
                span,
                fuel as nat,
            );
            lemma_appended_trans(e0, e1, e2, prev, a);
            lemma_appended_trans(e0, e2, errors@, prev + a, b);
            assert(iface.extends@.take(j + 1).drop_last() =~= iface.extends@.take(j as int));
            assert(iface.extends@.take(j + 1).last() == *parent);
        }
        j += 1;
    }
    proof {
        assert(iface.extends@.take(j as int) =~= iface.extends@);
    }
    let ghost parents_errs = against_parents(
        ty_name@,
        fs,
        ms,
        hs,
        iface.extends@,
        all_interfaces@,
        all_impls@,
        span,
        fuel as nat,
    );
    let mut k: usize = 0;
    proof {
        assert(iface.items@.take(0) =~= Seq::<InterfaceItem>::empty());
        assert(parents_errs + items_errs(ty_name@, fs, ms, hs, iface_name@, iface.items@.take(0), span) =~= parents_errs);
    }
    while k < iface.items.len()
        invariant
            k <= iface.items@.len(),
            fs == field_names(fields@),
            ms == ref_method_names(methods@),
            hs == ref_hook_ids(hooks@),
            appended(
                e0,
                errors@,
                parents_errs + items_errs(ty_name@, fs, ms, hs, iface_name@, iface.items@.take(k as int), span),
            ),
        decreases iface.items.len() - k,
    {
        let ghost e1 = errors@;
        item_check(ty_name, fields, methods, hooks, iface_name, &iface.items[k], span, errors);
        proof {
            let prev = items_errs(ty_name@, fs, ms, hs, iface_name@, iface.items@.take(k as int), span);
            let one = item_err(ty_name@, fs, ms, hs, iface_name@, iface.items@[k as int], span);
            lemma_appended_trans(e0, e1, errors@, parents_errs + prev, one);
            assert(iface.items@.take(k + 1).drop_last() =~= iface.items@.take(k as int));
            assert(parents_errs + prev + one =~= parents_errs + items_errs(
                ty_name@,
                fs,
                ms,
                hs,
                iface_name@,
                iface.items@.take(k + 1),
                span,
            ));
        }
        k += 1;
    }
    proof {
        assert(iface.items@.take(k as int) =~= iface.items@);
    }
}

// ---------------------------------------------------------------------------
// Structs and enums
// ---------------------------------------------------------------------------

/// Checks that `st` provides everything each interface it declares requires.
pub fn check_struct_conformance(
    st: &StructDef,
    all_interfaces: &[InterfaceDef],
    all_impls: &[ImplBlock],
    errors: &mut Vec<AnalysisError>,
)
    requires
        all_interfaces@.len() < usize::MAX,
    ensures
        appended(
            old(errors)@,
            final(errors)@,
            declared_errs(
                st.name@,
                field_names(st.fields@),
                method_names(st.methods@),
                st.interfaces@,
                all_interfaces@,
                all_impls@,
                st.span,
            ),
        ),
{
    check_declared(&st.name, &st.fields, &st.methods, &st.interfaces, all_interfaces, all_impls, st.span, errors);
}

/// Checks that `en` provides everything each interface it declares requires; an enum
/// has no fields.
pub fn check_enum_conformance(
    en: &EnumDef,
    all_interfaces: &[InterfaceDef],
    all_impls: &[ImplBlock],
    errors: &mut Vec<AnalysisError>,
)
    requires
        all_interfaces@.len() < usize::MAX,
    ensures
        appended(
            old(errors)@,
            final(errors)@,
            declared_errs(
                en.name@,
                Seq::empty(),
                method_names(en.methods@),
                en.interfaces@,
                all_interfaces@,
                all_impls@,
                en.span,
            ),
        ),
{
    let no_fields: Vec<Field> = Vec::new();
    assert(field_names(no_fields@) =~= Seq::empty());
    check_declared(&en.name, &no_fields, &en.methods, &en.interfaces, all_interfaces, all_impls, en.span, errors);
}

fn check_declared(
    ty_name: &String,
    fields: &Vec<Field>,
    methods: &Vec<FnDef>,
    declared: &Vec<TypeExpr>,
    all_interfaces: &[InterfaceDef],
    all_impls: &[ImplBlock],
    span: Span,
    errors: &mut Vec<AnalysisError>,
)
    requires
        all_interfaces@.len() < usize::MAX,
    ensures
        appended(
            old(errors)@,
            final(errors)@,
            declared_errs(
                ty_name@,
                field_names(fields@),
                method_names(methods@),
                declared@,
                all_interfaces@,
                all_impls@,
                span,
            ),
        ),
{
    let ghost e0 = errors@;
    let mut method_refs: Vec<&FnDef> = Vec::new();
    push_method_refs(&mut method_refs, methods);
    assert(ref_method_names(method_refs@) =~= method_names(methods@));
    let fuel = all_interfaces.len() + 1;
    let mut i: usize = 0;
    proof {
        lemma_appended_nil(e0);
        assert(declared@.take(0) =~= Seq::<TypeExpr>::empty());
    }
    while i < declared.len()
        invariant
            i <= declared@.len(),
            fuel == all_interfaces@.len() + 1,
            ref_method_names(method_refs@) == method_names(methods@),
            appended(
                e0,
                errors@,
                declared_errs(
                    ty_name@,
                    field_names(fields@),
                    method_names(methods@),
                    declared@.take(i as int),
                    all_interfaces@,
                    all_impls@,
                    span,
                ),
            ),
        decreases declared.len() - i,
    {
        let ghost e1 = errors@;
        let iface_name = type_expr_name(&declared[i]);
        let hooks = collect_impl_hooks(ty_name, &iface_name, all_impls);
        check_against_iface(
            ty_name,
            fields,
            &method_refs,
            &hooks,
            &iface_name,
            all_interfaces,
            all_impls,
            span,
            errors,
            fuel,
        );
        proof {
            lemma_appended_trans(
                e0,
                e1,
                errors@,
                declared_errs(
                    ty_name@,
                    field_names(fields@),
                    method_names(methods@),
                    declared@.take(i as int),
                    all_interfaces@,
                    all_impls@,
                    span,
                ),
                against(
                    ty_name@,
                    field_names(fields@),
                    method_names(methods@),
                    impl_hook_ids(ty_name@, iface_name@, all_impls@),
                    iface_name@,
                    all_interfaces@,
                    all_impls@,
                    span,
                    fuel as nat,
                ),
            );
            assert(declared@.take(i + 1).drop_last() =~= declared@.take(i as int));
        }
        i += 1;
    }
    proof {
        assert(declared@.take(i as int) =~= declared@);
    }
}

// ---------------------------------------------------------------------------
// Impl blocks
// ---------------------------------------------------------------------------

/// The characters of each pair of a substitution list.
pub open spec fn pairs_view(s: Seq<(String, String)>) -> Seq<(Seq<char>, Seq<char>)> {
    s.map_values(|p: (String, String)| (p.0@, p.1@))
}

/// The characters of each string of a list.
pub open spec fn strs(s: Seq<String>) -> Seq<Seq<char>> {
    s.map_values(|x: String| x@)
}

fn build_subst(params: &Vec<GenericParam>, args: &Vec<TypeExpr>) -> (r: Vec<(String, String)>)
    ensures
        pairs_view(r@) == subst_of(params@, args@),
{
    let n = if params.len() <= args.len() {
        params.len()
    } else {
        args.len()
    };
    let mut out: Vec<(String, String)> = Vec::new();
    let mut k: usize = 0;
    assert(pairs_view(out@) =~= subst_upto(params@, args@, 0));
    while k < n
        invariant
            k <= n,
            n <= params@.len(),
            n <= args@.len(),
            n == (if params@.len() <= args@.len() { params@.len() } else { args@.len() }),
            pairs_view(out@) == subst_upto(params@, args@, k as nat),
        decreases n - k,
    {
        let ghost before = out@;
        match &args[k] {
            TypeExpr::Named { name, .. } => {
                out.push((params[k].name.clone(), name.clone()));
                assert(pairs_view(out@) =~= pairs_view(before).push((params@[k as int].name@, name@)));
            },
            _ => {},
        }
        assert(pairs_view(out@) =~= subst_upto(params@, args@, (k + 1) as nat));
        k += 1;
    }
    out
}

fn subst_lookup(s: &Vec<(String, String)>, key: &String) -> (r: Option<String>)
    ensures
        match r {
            Some(v) => subst_get(pairs_view(s@), key@) == Some(v@),
            None => subst_get(pairs_view(s@), key@) is None,
        },
{
    let mut i: usize = s.len();
    assert(s@.take(i as int) =~= s@);
    while i > 0
        invariant
            i <= s@.len(),
            subst_get(pairs_view(s@), key@) == subst_get(pairs_view(s@.take(i as int)), key@),
        decreases i,
    {
        proof {
            assert(pairs_view(s@.take(i as int)).drop_last() =~= pairs_view(s@.take(i - 1)));
            assert(pairs_view(s@.take(i as int)).last() == (s@[i - 1].0@, s@[i - 1].1@));
        }
        if s[i - 1].0 == *key {
            return Some(s[i - 1].1.clone());
        }
        i -= 1;
    }
    None
}

fn build_assoc(items: &Vec<InterfaceItem>) -> (r: Vec<String>)
    ensures
        strs(r@) == assoc_names(items@),
{
    let mut out: Vec<String> = Vec::new();
    let mut k: usize = 0;
    assert(strs(out@) =~= assoc_names(items@.take(0)));
    while k < items.len()
        invariant
            k <= items@.len(),
            strs(out@) == assoc_names(items@.take(k as int)),
        decreases items.len() - k,
    {
        let ghost before = out@;
        match &items[k].kind {
            InterfaceItemKind::AssocType { name, .. } => {
                out.push(name.clone());
                assert(strs(out@) =~= strs(before).push(name@));
            },
            _ => {},
        }
        assert(items@.take(k + 1).drop_last() =~= items@.take(k as int));
        assert(strs(out@) =~= assoc_names(items@.take(k + 1)));
        k += 1;
    }
    assert(items@.take(k as int) =~= items@);
    out
}

fn has_str(v: &Vec<String>, n: &String) -> (r: bool)
    ensures
        r == strs(v@).contains(n@),
{
    let mut i: usize = 0;
    while i < v.len()
        invariant
            i <= v@.len(),
            forall|k: int| 0 <= k < i ==> v@[k]@ != n@,
        decreases v.len() - i,
    {
        if v[i] == *n {
            assert(strs(v@)[i as int] == n@);
            return true;
        }
        i += 1;
    }
    proof {
        if strs(v@).contains(n@) {
            let k = choose|k: int| 0 <= k < strs(v@).len() && strs(v@)[k] == n@;
            assert(v@[k]@ == n@);
        }
    }
    false
}

/// Whether an impl-side type fits the interface-side type.
fn hook_param_ty_compatible(
    impl_ty: &TypeExpr,
    iface_ty: &TypeExpr,
    ty_name: &String,
    self_alias: &Option<String>,
    subst: &Vec<(String, String)>,
    assoc_types: &Vec<String>,
) -> (r: bool)
    ensures
        r == compat(*impl_ty, *iface_ty, ty_name@, *self_alias, pairs_view(subst@), strs(assoc_types@)),
{
    let iface_name = match iface_ty {
        TypeExpr::Named { name, .. } => name,
        _ => {
            return true;
        },
    };
    let impl_name = match impl_ty {
        TypeExpr::Named { name, .. } => name,
        _ => {
            return false;
        },
    };
    if has_str(assoc_types, iface_name) {
        return true;
    }
    let resolved: String = if is_self(iface_name) {
        ty_name.clone()
    } else {
        match subst_lookup(subst, iface_name) {
            Some(c) => c,
            None => iface_name.clone(),
        }
    };
    if *impl_name == resolved {
        return true;
    }
    if resolved == *ty_name {
        if is_self(impl_name) {
            return true;
        }
        match self_alias {
            Some(a) => *a == *impl_name,
            None => false,
        }
    } else {
        false
    }
}

/// How a type is shown in a conformance message.
fn type_expr_display(ty: &TypeExpr, self_name: &String, subst: &Vec<(String, String)>) -> (r: String)
    ensures
        r@ == display(*ty, self_name@, pairs_view(subst@)),
{
    match ty {
        TypeExpr::Named { name, .. } => {
            if is_self(name) {
                self_name.clone()
            } else {
                match subst_lookup(subst, name) {
                    Some(c) => c,
                    None => name.clone(),
                }
            }
        },
        _ => type_expr_debug_text(ty),
    }
}

fn hook_label_text(h: &HookName) -> (r: String)
    ensures
        r@ == hook_label(*h),
{
    match h {
        HookName::Op(s) => s.clone(),
        HookName::Named(s) => s.clone(),
    }
}

fn param_checks(
    ib: &ImplBlock,
    ty_name: &String,
    iface_name: &String,
    label: &String,
    subst: &Vec<(String, String)>,
    assoc: &Vec<String>,
    impl_ps: &Vec<Param>,
    iface_ps: &Vec<Param>,
    span: Span,
    errors: &mut Vec<AnalysisError>,
)
    requires
        impl_ps@.len() == iface_ps@.len(),
    ensures
        appended(
            old(errors)@,
            final(errors)@,
            param_errs(
                *ib,
                ty_name@,
                iface_name@,
                label@,
                pairs_view(subst@),
                strs(assoc@),
                impl_ps@,
                iface_ps@,
                span,
                impl_ps@.len(),
            ),
        ),
{
    let ghost e0 = errors@;
    let ghost sv = pairs_view(subst@);
    let ghost av = strs(assoc@);
    proof {
        lemma_appended_nil(e0);
    }
    let mut k: usize = 0;
    while k < impl_ps.len()
        invariant
            k <= impl_ps@.len(),
            impl_ps@.len() == iface_ps@.len(),
            sv == pairs_view(subst@),
            av == strs(assoc@),
            appended(
                e0,
                errors@,
                param_errs(*ib, ty_name@, iface_name@, label@, sv, av, impl_ps@, iface_ps@, span, k as nat),
            ),
        decreases impl_ps.len() - k,
    {
        let ghost e1 = errors@;
        let ip = &impl_ps[k];
        let fp = &iface_ps[k];
        proof {
            lemma_appended_nil(e1);
        }
        if !hook_param_ty_compatible(&ip.ty, &fp.ty, ty_name, &ib.self_alias, subst, assoc) {
            let mut d = String::from_str("hook `");
            d.append(label.as_str());
            d.append("` parameter `");
            d.append(ip.name.as_str());
            d.append("`: expected `");
            let want = type_expr_display(&fp.ty, ty_name, subst);
            d.append(want.as_str());
            d.append("`, found `");
            let got = type_expr_display(&ip.ty, ty_name, subst);
            d.append(got.as_str());
            d.append("`");
            push_conf(errors, ty_name.clone(), iface_name.clone(), d, span);
        }
        proof {
            let prev = param_errs(*ib, ty_name@, iface_name@, label@, sv, av, impl_ps@, iface_ps@, span, k as nat);
            let next = param_errs(*ib, ty_name@, iface_name@, label@, sv, av, impl_ps@, iface_ps@, span, (k + 1) as nat);
            let one = next.subrange(prev.len() as int, next.len() as int);
            assert(prev + one =~= next);
            lemma_appended_trans(e0, e1, errors@, prev, one);
        }
        k += 1;
    }
}

fn required_check(
    ib: &ImplBlock,
    ty_name: &String,
    iface_name: &String,
    subst: &Vec<(String, String)>,
    assoc: &Vec<String>,
    item: &InterfaceItem,
    errors: &mut Vec<AnalysisError>,
)
    ensures
        appended(
            old(errors)@,
            final(errors)@,
            required_err(*ib, ty_name@, iface_name@, pairs_view(subst@), strs(assoc@), *item),
        ),
{
    let ghost e0 = errors@;
    proof {
        lemma_appended_nil(e0);
    }
    match &item.kind {
        InterfaceItemKind::Hook { name, params, return_type, default, .. } => {
            if default.is_some() {
                return;
            }
            let label = hook_label_text(name);
            match find_hook(&ib.hooks, name) {
                None => {
                    let mut d = String::from_str("impl block missing required hook `");
                    d.append(label.as_str());
                    d.append("`");
                    push_conf(errors, ty_name.clone(), iface_name.clone(), d, ib.span);
                },
                Some(k) => {
                    proof {
                        lemma_first_where_bounds(ib.hooks@, hook_with(hook_id(*name)));
                    }
                    let h = &ib.hooks[k];
                    if h.params.len() != params.len() {
                        let mut d = String::from_str("hook `");
                        d.append(label.as_str());
                        d.append("` has ");
                        append_decimal(&mut d, h.params.len());
                        d.append(" parameter(s) but `");
                        d.append(iface_name.as_str());
                        d.append("` requires ");
                        append_decimal(&mut d, params.len());
                        push_conf(errors, ty_name.clone(), iface_name.clone(), d, h.span);
                    } else {
                        param_checks(ib, ty_name, iface_name, &label, subst, assoc, &h.params, params, h.span, errors);
                        let ghost e1 = errors@;
                        proof {
                            lemma_appended_nil(e1);
                        }
                        if let Some(irt) = return_type {
                            if let Some(hrt) = &h.return_type {
                                if !hook_param_ty_compatible(hrt, irt, ty_name, &ib.self_alias, subst, assoc) {
                                    let mut d = String::from_str("hook `");
                                    d.append(label.as_str());
                                    d.append("` return type: expected `");
                                    let want = type_expr_display(irt, ty_name, subst);
                                    d.append(want.as_str());
                                    d.append("`, found `");
                                    let got = type_expr_display(hrt, ty_name, subst);
                                    d.append(got.as_str());
                                    d.append("`");
                                    push_conf(errors, ty_name.clone(), iface_name.clone(), d, h.span);
                                }
                            }
                        }
                        proof {
                            let sv = pairs_view(subst@);
                            let av = strs(assoc@);
                            lemma_appended_trans(
                                e0,
                                e1,
                                errors@,
                                param_errs(*ib, ty_name@, iface_name@, label@, sv, av, h.params@, params@, h.span, h.params@.len()),
                                ret_err(*ib, ty_name@, iface_name@, label@, sv, av, *return_type, *h),
                            );
                        }
                    }
                },
            }
        },
        InterfaceItemKind::Method(sig) => {
            if sig.body.stmts.len() == 0 && !has_method(&ib.methods, &sig.name) {
                let mut d = String::from_str("impl block missing required method `");
                d.append(sig.name.as_str());
                d.append("`");
                push_conf(errors, ty_name.clone(), iface_name.clone(), d, ib.span);
            }
        },
        _ => {},
    }
}

/// Checks that an impl block provides every hook and method its interface requires,
/// with parameter and return types that fit, and that the type meets the interfaces
/// its interface extends, including the associated-type bindings stated there. An impl
/// of an unknown interface is left alone.
pub fn check_impl_completeness(
    impl_block: &ImplBlock,
    all_interfaces: &[InterfaceDef],
    all_impls: &[ImplBlock],
    errors: &mut Vec<AnalysisError>,
)
    requires
        all_interfaces@.len() < usize::MAX,
    ensures
        appended(old(errors)@, final(errors)@, impl_errs(*impl_block, all_interfaces@, all_impls@)),
{
    let ghost e0 = errors@;
    proof {
        lemma_appended_nil(e0);
    }
    let iface_name = type_expr_name(&impl_block.interface);
    let ty_name = type_expr_name(&impl_block.for_type);
    let i = match find_interface(all_interfaces, &iface_name) {
        Some(i) => i,
        None => {
            return;
        },
    };
    proof {
        lemma_first_where_bounds(all_interfaces@, iface_named(iface_name@));
    }
    let iface = &all_interfaces[i];
    let no_args: Vec<TypeExpr> = Vec::new();
    let args = match &impl_block.interface {
        TypeExpr::Named { generics, .. } => generics,
        _ => &no_args,
    };
    assert(args@ == iface_args(impl_block.interface));
    let subst = build_subst(&iface.generic_params, args);
    let assoc = build_assoc(&iface.items);
    let ghost sv = pairs_view(subst@);
    let ghost av = strs(assoc@);
    let mut k: usize = 0;
    assert(iface.items@.take(0) =~= Seq::<InterfaceItem>::empty());
    while k < iface.items.len()
        invariant
            k <= iface.items@.len(),
            sv == pairs_view(subst@),
            av == strs(assoc@),
            appended(e0, errors@, required_errs(*impl_block, ty_name@, iface_name@, sv, av, iface.items@.take(k as int))),
        decreases iface.items.len() - k,
    {
        let ghost e1 = errors@;
        required_check(impl_block, &ty_name, &iface_name, &subst, &assoc, &iface.items[k], errors);
        proof {
            lemma_appended_trans(
                e0,
                e1,
                errors@,
                required_errs(*impl_block, ty_name@, iface_name@, sv, av, iface.items@.take(k as int)),
                required_err(*impl_block, ty_name@, iface_name@, sv, av, iface.items@[k as int]),
            );
            assert(iface.items@.take(k + 1).drop_last() =~= iface.items@.take(k as int));
        }
        k += 1;
    }
    proof {
        assert(iface.items@.take(k as int) =~= iface.items@);
    }
    let ghost req = required_errs(*impl_block, ty_name@, iface_name@, sv, av, iface.items@);
    let all_hooks = collect_all_hooks_for_type(&ty_name, all_impls);
    let all_methods = collect_all_methods_for_type(&ty_name, all_impls);
    let no_fields: Vec<Field> = Vec::new();
    assert(field_names(no_fields@) =~= Seq::empty());
    let fuel = all_interfaces.len() + 1;
    let mut j: usize = 0;
    proof {
        assert(iface.extends@.take(0) =~= Seq::<TypeExpr>::empty());
        assert(req + completeness_parents(ty_name@, iface.extends@.take(0), all_interfaces@, all_impls@, impl_block.span) =~= req);
    }
    while j < iface.extends.len()
        invariant
            j <= iface.extends@.len(),
            fuel == all_interfaces@.len() + 1,
            field_names(no_fields@) == Seq::<Seq<char>>::empty(),
            ref_hook_ids(all_hooks@) == all_hook_ids(ty_name@, all_impls@),
            ref_method_names(all_methods@) == all_method_names(ty_name@, all_impls@),
            appended(
                e0,
                errors@,
                req + completeness_parents(
                    ty_name@,
                    iface.extends@.take(j as int),
                    all_interfaces@,
                    all_impls@,
                    impl_block.span,
                ),
            ),
        decreases iface.extends.len() - j,
    {
        let ghost e1 = errors@;
        let parent = &iface.extends[j];
        let pname = type_expr_name(parent);
        match parent {
            TypeExpr::Named { bindings, .. } => {
                if bindings.len() > 0 {
                    check_assoc_bindings(&ty_name, &pname, bindings, all_interfaces, all_impls, impl_block.span, errors);
                } else {
                    proof {
                        lemma_appended_nil(e1);
                        assert(bindings@ =~= Seq::<(String, TypeExpr)>::empty());
                    }
                }
            },
            _ => {
                proof {
                    lemma_appended_nil(e1);
                }
            },
        }
        let ghost e2 = errors@;
        check_against_iface(
            &ty_name,
            &no_fields,
            &all_methods,
            &all_hooks,
            &pname,
            all_interfaces,
            all_impls,
            impl_block.span,
            errors,
            fuel,
        );
        proof {
            let prev = completeness_parents(
                ty_name@,
                iface.extends@.take(j as int),
                all_interfaces@,
                all_impls@,
                impl_block.span,
            );
            let a = assoc_errs(ty_name@, pname@, bindings_of(*parent), all_interfaces@, all_impls@, impl_block.span);
            let b = against(
                ty_name@,
                Seq::empty(),
                all_method_names(ty_name@, all_impls@),
                all_hook_ids(ty_name@, all_impls@),
                pname@,
                all_interfaces@,
                all_impls@,
                impl_block.span,
                fuel as nat,
            );
            lemma_appended_trans(e0, e1, e2, req + prev, a);
            lemma_appended_trans(e0, e2, errors@, req + prev + a, b);
            assert(iface.extends@.take(j + 1).drop_last() =~= iface.extends@.take(j as int));
            assert(iface.extends@.take(j + 1).last() == *parent);
            assert(req + prev + a + b =~= req + completeness_parents(
                ty_name@,
                iface.extends@.take(j + 1),
                all_interfaces@,
                all_impls@,
                impl_block.span,
            ));
        }
        j += 1;
    }
    proof {
        assert(iface.extends@.take(j as int) =~= iface.extends@);
    }
}

} // verus!
