use vstd::prelude::*;
use crate::span::Span;
use crate::ty::{InterfaceId, Ty, TypeId, ty_copy, ty_model};
use crate::typed_ast::TypedExprKind;

verus! {

/// A single interface bound on a generic parameter, e.g. `T: Addable`.
#[derive(Debug)]
pub struct GenericBound {
    pub param: String,
    pub iface: String,
    /// Associated type bindings of this bound, e.g. `[("Item", Ty::Int)]`.
    pub assoc_bindings: Vec<(String, Ty)>,
    /// `true` when written in the signature, `false` when inferred from the body.
    pub is_explicit: bool,
    /// Where the bound was declared, for explicit bounds.
    pub decl_span: Option<Span>,
    /// Where in the body the bound is required.
    pub source_span: Option<Span>,
    /// What in the body requires the bound; empty when unknown.
    pub source_desc: String,
}

/// One overload of a function name.
#[derive(Debug)]
pub struct FnOverload {
    pub generic_params: Vec<String>,
    pub generic_bounds: Vec<GenericBound>,
    /// Bounds inferred from how generic parameters are used in the body.
    pub inferred_bounds: Vec<GenericBound>,
    pub params: Vec<(String, Ty)>,
    pub ret: Ty,
    pub throws: bool,
    /// The symbol name used in code generation, e.g. `foo__0`.
    pub mangled_name: String,
    pub span: Span,
}

/// What a name stands for.
#[derive(Debug)]
pub enum Symbol {
    Var { ty: Ty, mutable: bool, span: Span },
    Fn {
        generic_params: Vec<String>,
        generic_bounds: Vec<GenericBound>,
        inferred_bounds: Vec<GenericBound>,
        params: Vec<(String, Ty)>,
        ret: Ty,
        throws: bool,
        span: Span,
    },
    /// Several definitions of one function name.
    FnOverloadSet { overloads: Vec<FnOverload> },
    Type { id: TypeId, span: Span },
    /// A transparent alias to a resolved type (`Self` and user self-aliases).
    TypeAlias(Ty),
    /// A struct field name in method scope; it must be written `self.field`.
    StructField { ty: Ty },
    Iface { id: InterfaceId, assoc_types: Vec<String>, span: Span },
    /// A compile-time constant, inlined at its uses.
    Const { ty: Ty, value: TypedExprKind, span: Span },
}

// ---------------------------------------------------------------------------
// Association lists
// ---------------------------------------------------------------------------

/// The value bound to `name` in an association list: the last entry with that key.
pub open spec fn assoc_get<V>(s: Seq<(String, V)>, name: Seq<char>) -> Option<V>
    decreases s.len(),
{
    if s.len() == 0 {
        None
    } else if s.last().0@ == name {
        Some(s.last().1)
    } else {
        assoc_get(s.drop_last(), name)
    }
}

/// No key occurs twice in an association list.
pub open spec fn keys_unique<V>(s: Seq<(String, V)>) -> bool {
    forall|i: int, j: int| 0 <= i < j < s.len() ==> s[i].0@ != s[j].0@
}

/// The binding of `name` in a stack of scopes, innermost (last) scope first.
pub open spec fn scopes_get(scopes: Seq<Vec<(String, Symbol)>>, name: Seq<char>) -> Option<Symbol>
    decreases scopes.len(),
{
    if scopes.len() == 0 {
        None
    } else {
        match assoc_get(scopes.last()@, name) {
            Some(s) => Some(s),
            None => scopes_get(scopes.drop_last(), name),
        }
    }
}

/// The declaration span of a symbol, for the kinds of symbols that have one.
pub open spec fn symbol_span(s: Symbol) -> Option<Span> {
    match s {
        Symbol::Var { span, .. } => Some(span),
        Symbol::Fn { span, .. } => Some(span),
        Symbol::FnOverloadSet { overloads } => if overloads@.len() > 0 {
            Some(overloads@[0].span)
        } else {
            None
        },
        Symbol::Type { span, .. } => Some(span),
        Symbol::Iface { span, .. } => Some(span),
        Symbol::Const { span, .. } => Some(span),
        Symbol::TypeAlias(_) => None,
        Symbol::StructField { .. } => None,
    }
}

/// The name starts with an underscore.
pub open spec fn underscored(name: Seq<char>) -> bool {
    name.len() > 0 && name[0] == '_'
}

proof fn lemma_assoc_get_found<V>(s: Seq<(String, V)>, i: int)
    requires
        keys_unique(s),
        0 <= i < s.len(),
    ensures
        assoc_get(s, s[i].0@) == Some(s[i].1),
    decreases s.len(),
{
    if i < s.len() - 1 {
        assert(s.last().0@ != s[i].0@);
        lemma_assoc_get_found(s.drop_last(), i);
    }
}

proof fn lemma_assoc_get_absent<V>(s: Seq<(String, V)>, name: Seq<char>)
    requires
        forall|i: int| 0 <= i < s.len() ==> s[i].0@ != name,
    ensures
        assoc_get(s, name) is None,
    decreases s.len(),
{
    if s.len() > 0 {
        lemma_assoc_get_absent(s.drop_last(), name);
    }
}

proof fn lemma_assoc_get_some<V>(s: Seq<(String, V)>, name: Seq<char>)
    requires
        assoc_get(s, name) is Some,
    ensures
        exists|i: int| 0 <= i < s.len() && s[i].0@ == name && assoc_get(s, name) == Some(s[i].1),
    decreases s.len(),
{
    if s.last().0@ != name {
        lemma_assoc_get_some(s.drop_last(), name);
        let i = choose|i: int| 0 <= i < s.drop_last().len() && s.drop_last()[i].0@ == name
            && assoc_get(s.drop_last(), name) == Some(s.drop_last()[i].1);
        assert(s[i] == s.drop_last()[i]);
    }
}

/// Replacing the value at an entry changes the binding of that entry's key only.
proof fn lemma_assoc_get_update<V>(s: Seq<(String, V)>, i: int, k: String, v: V, name: Seq<char>)
    requires
        keys_unique(s),
        0 <= i < s.len(),
        s[i].0@ == k@,
    ensures
        assoc_get(s.update(i, (k, v)), name) == if name == k@ {
            Some(v)
        } else {
            assoc_get(s, name)
        },
    decreases s.len(),
{
    let t = s.update(i, (k, v));
    if i == s.len() - 1 {
        assert(t.drop_last() =~= s.drop_last());
        if name == k@ {
        } else {
        }
    } else {
        assert(t.drop_last() =~= s.drop_last().update(i, (k, v)));
        assert(t.last() == s.last());
        assert(s.last().0@ != k@);
        lemma_assoc_get_update(s.drop_last(), i, k, v, name);
    }
}

/// Where `name` occurs in an association list, searching from the end.
fn assoc_find<V>(s: &Vec<(String, V)>, name: &String) -> (r: Option<usize>)
    ensures
        match r {
            Some(i) => i < s@.len() && s@[i as int].0@ == name@ && assoc_get(s@, name@) == Some(
                s@[i as int].1,
            ),
            None => assoc_get(s@, name@) is None && forall|j: int|
                0 <= j < s@.len() ==> s@[j].0@ != name@,
        },
{
    let mut i = s.len();
    proof {
        assert(s@.take(s@.len() as int) =~= s@);
    }
    while i > 0
        invariant
            i <= s@.len(),
            forall|j: int| i <= j < s@.len() ==> s@[j].0@ != name@,
            assoc_get(s@, name@) == assoc_get(s@.take(i as int), name@),
        decreases i,
    {
        proof {
            assert(s@.take(i as int).drop_last() =~= s@.take(i as int - 1));
        }
        if s[i - 1].0 == *name {
            return Some(i - 1);
        }
        i -= 1;
    }
    proof {
        assert(s@.take(0) =~= Seq::<(String, V)>::empty());
    }
    None
}

// ---------------------------------------------------------------------------
// Environments
// ---------------------------------------------------------------------------

/// A stack of lexical scopes, with projection pins and generic-parameter bounds
/// scoped in parallel.
#[derive(Debug)]
pub struct Env {
    scopes: Vec<Vec<(String, Symbol)>>,
    /// Per scope: `(param, assoc)` to the pinned concrete type.
    projection_pins: Vec<Vec<((String, String), Ty)>>,
    /// Per scope: generic parameter to the interfaces it is bounded by.
    generic_param_bounds: Vec<Vec<(String, Vec<String>)>>,
    /// Whether the function being analyzed is declared `throws`.
    pub throws_context: bool,
}

/// The pinned type for `(param, assoc)` in one layer: the last matching entry.
pub open spec fn pin_get(s: Seq<((String, String), Ty)>, param: Seq<char>, assoc: Seq<char>) -> Option<Ty>
    decreases s.len(),
{
    if s.len() == 0 {
        None
    } else if s.last().0.0@ == param && s.last().0.1@ == assoc {
        Some(s.last().1)
    } else {
        pin_get(s.drop_last(), param, assoc)
    }
}

/// The pinned type for `(param, assoc)`, innermost layer first.
pub open spec fn pins_get(layers: Seq<Vec<((String, String), Ty)>>, param: Seq<char>, assoc: Seq<char>) -> Option<Ty>
    decreases layers.len(),
{
    if layers.len() == 0 {
        None
    } else {
        match pin_get(layers.last()@, param, assoc) {
            Some(t) => Some(t),
            None => pins_get(layers.drop_last(), param, assoc),
        }
    }
}

/// The layers of an environment, outermost scope first: names, projection pins and
/// generic-parameter bounds.
pub struct EnvLayers {
    pub scopes: Seq<Seq<(String, Symbol)>>,
    pub pins: Seq<Seq<((String, String), Ty)>>,
    pub bounds: Seq<Seq<(String, Vec<String>)>>,
    pub throws_context: bool,
}

impl EnvLayers {
    /// The layers with a new empty innermost scope.
    pub open spec fn pushed(self) -> EnvLayers {
        EnvLayers {
            scopes: self.scopes.push(Seq::empty()),
            pins: self.pins.push(Seq::empty()),
            bounds: self.bounds.push(Seq::empty()),
            throws_context: self.throws_context,
        }
    }

    /// The layers without the innermost scope; unchanged when there is none.
    pub open spec fn popped(self) -> EnvLayers {
        EnvLayers {
            scopes: if self.scopes.len() > 0 { self.scopes.drop_last() } else { self.scopes },
            pins: if self.pins.len() > 0 { self.pins.drop_last() } else { self.pins },
            bounds: if self.bounds.len() > 0 { self.bounds.drop_last() } else { self.bounds },
            throws_context: self.throws_context,
        }
    }
}

/// Closing a scope undoes opening it: everything defined meanwhile is forgotten and
/// the outer scopes are as they were.
pub proof fn pop_scope_undoes_push_scope(v: EnvLayers)
    ensures
        v.pushed().popped() == v,
{
    assert(v.pushed().popped().scopes =~= v.scopes);
    assert(v.pushed().popped().pins =~= v.pins);
    assert(v.pushed().popped().bounds =~= v.bounds);
}

/// What `name` is bound to in the scope layers, innermost scope first.
pub open spec fn layers_binding(scopes: Seq<Seq<(String, Symbol)>>, name: Seq<char>) -> Option<Symbol>
    decreases scopes.len(),
{
    if scopes.len() == 0 {
        None
    } else {
        match assoc_get(scopes.last(), name) {
            Some(s) => Some(s),
            None => layers_binding(scopes.drop_last(), name),
        }
    }
}

/// What `param.assoc` is pinned to in the pin layers, innermost pin first.
pub open spec fn layers_pinned(pins: Seq<Seq<((String, String), Ty)>>, param: Seq<char>, assoc: Seq<char>) -> Option<Ty>
    decreases pins.len(),
{
    if pins.len() == 0 {
        None
    } else {
        match pin_get(pins.last(), param, assoc) {
            Some(t) => Some(t),
            None => layers_pinned(pins.drop_last(), param, assoc),
        }
    }
}

/// The interfaces bounding `param` in the bound layers, outer scope first, each once.
pub open spec fn layers_ifaces(bounds: Seq<Seq<(String, Vec<String>)>>, param: Seq<char>) -> Seq<Seq<char>>
    decreases bounds.len(),
{
    if bounds.len() == 0 {
        Seq::empty()
    } else {
        append_new(
            layers_ifaces(bounds.drop_last(), param),
            match assoc_get(bounds.last(), param) {
                Some(v) => v@.map_values(|s: String| s@),
                None => Seq::empty(),
            },
        )
    }
}

proof fn lemma_scopes_get_view(s: Seq<Vec<(String, Symbol)>>, n: Seq<char>)
    ensures
        scopes_get(s, n) == layers_binding(s.map_values(|v: Vec<(String, Symbol)>| v@), n),
    decreases s.len(),
{
    if s.len() > 0 {
        assert(s.drop_last().map_values(|v: Vec<(String, Symbol)>| v@) =~= s.map_values(
            |v: Vec<(String, Symbol)>| v@,
        ).drop_last());
        lemma_scopes_get_view(s.drop_last(), n);
    }
}

proof fn lemma_pins_get_view(s: Seq<Vec<((String, String), Ty)>>, p: Seq<char>, a: Seq<char>)
    ensures
        pins_get(s, p, a) == layers_pinned(s.map_values(|v: Vec<((String, String), Ty)>| v@), p, a),
    decreases s.len(),
{
    if s.len() > 0 {
        assert(s.drop_last().map_values(|v: Vec<((String, String), Ty)>| v@) =~= s.map_values(
            |v: Vec<((String, String), Ty)>| v@,
        ).drop_last());
        lemma_pins_get_view(s.drop_last(), p, a);
    }
}

proof fn lemma_collect_ifaces_view(s: Seq<Vec<(String, Vec<String>)>>, p: Seq<char>)
    ensures
        collect_ifaces(s, p) == layers_ifaces(s.map_values(|v: Vec<(String, Vec<String>)>| v@), p),
    decreases s.len(),
{
    if s.len() > 0 {
        assert(s.drop_last().map_values(|v: Vec<(String, Vec<String>)>| v@) =~= s.map_values(
            |v: Vec<(String, Vec<String>)>| v@,
        ).drop_last());
        lemma_collect_ifaces_view(s.drop_last(), p);
    }
}

/// `sc2` is `sc` with the symbol of entry `i` of scope `k` replaced.
pub open spec fn set_at(sc: Seq<Vec<(String, Symbol)>>, sc2: Seq<Vec<(String, Symbol)>>, k: int, i: int) -> bool {
    &&& 0 <= k < sc.len()
    &&& sc2.len() == sc.len()
    &&& forall|j: int| 0 <= j < sc.len() && j != k ==> sc2[j] == sc[j]
    &&& 0 <= i < sc[k]@.len()
    &&& sc2[k]@ == sc[k]@.update(i, (sc[k]@[i].0, sc2[k]@[i].1))
}

proof fn lemma_scopes_get_set(
    sc: Seq<Vec<(String, Symbol)>>,
    sc2: Seq<Vec<(String, Symbol)>>,
    k: int,
    i: int,
    name: Seq<char>,
)
    requires
        0 <= k < sc.len(),
        sc2.len() == sc.len(),
        forall|j: int| 0 <= j < sc.len() && j != k ==> sc2[j] == sc[j],
        0 <= i < sc[k]@.len(),
        sc[k]@[i].0@ == name,
        keys_unique(sc[k]@),
        sc2[k]@ == sc[k]@.update(i, (sc[k]@[i].0, sc2[k]@[i].1)),
        forall|j: int| k < j < sc.len() ==> #[trigger] assoc_get(sc[j]@, name) is None,
    ensures
        scopes_get(sc2, name) == Some(sc2[k]@[i].1),
        forall|n: Seq<char>| n != name ==> #[trigger] scopes_get(sc2, n) == scopes_get(sc, n),
    decreases sc.len(),
{
    let t = sc.len() - 1;
    lemma_assoc_get_update(sc[k]@, i, sc[k]@[i].0, sc2[k]@[i].1, name);
    assert forall|n: Seq<char>| true implies #[trigger] assoc_get(sc2[k]@, n) == if n == name {
        Some(sc2[k]@[i].1)
    } else {
        assoc_get(sc[k]@, n)
    } by {
        lemma_assoc_get_update(sc[k]@, i, sc[k]@[i].0, sc2[k]@[i].1, n);
    }
    if k < t {
        lemma_scopes_get_set(sc.drop_last(), sc2.drop_last(), k, i, name);
        assert(sc2.last() == sc.last());
        assert(assoc_get(sc[t]@, name) is None);
        assert forall|n: Seq<char>| n != name implies #[trigger] scopes_get(sc2, n) == scopes_get(sc, n) by {
            assert(scopes_get(sc2.drop_last(), n) == scopes_get(sc.drop_last(), n));
        }
    } else {
        assert(sc2.drop_last() =~= sc.drop_last());
        assert forall|n: Seq<char>| n != name implies #[trigger] scopes_get(sc2, n) == scopes_get(sc, n) by {
            assert(assoc_get(sc2[k]@, n) == assoc_get(sc[k]@, n));
            assert(sc2.last() == sc2[k]);
            assert(sc.last() == sc[k]);
        }
    }
}

impl View for Env {
    type V = EnvLayers;

    closed spec fn view(&self) -> EnvLayers {
        EnvLayers {
            scopes: self.scopes@.map_values(|v: Vec<(String, Symbol)>| v@),
            pins: self.projection_pins@.map_values(|v: Vec<((String, String), Ty)>| v@),
            bounds: self.generic_param_bounds@.map_values(|v: Vec<(String, Vec<String>)>| v@),
            throws_context: self.throws_context,
        }
    }
}

impl Env {
    /// Whether the function being analyzed is declared `throws`.
    pub closed spec fn in_throws_context(&self) -> bool {
        self.throws_context
    }

    /// The environment's bindings, pins, bounds, depth and `throws` flag are those of its
    /// layers.
    pub proof fn lemma_view(&self)
        ensures
            self.depth() == self@.scopes.len(),
            self.in_throws_context() == self@.throws_context,
            forall|n: Seq<char>| #[trigger] self.binding(n) == layers_binding(self@.scopes, n),
            forall|p: Seq<char>, a: Seq<char>| #[trigger] self.pinned(p, a) == layers_pinned(self@.pins, p, a),
            forall|p: Seq<char>| #[trigger] self.param_ifaces(p) == layers_ifaces(self@.bounds, p),
    {
        assert forall|n: Seq<char>| #[trigger] self.binding(n) == layers_binding(self@.scopes, n) by {
            lemma_scopes_get_view(self.scopes@, n);
        }
        assert forall|p: Seq<char>, a: Seq<char>| #[trigger] self.pinned(p, a) == layers_pinned(self@.pins, p, a) by {
            lemma_pins_get_view(self.projection_pins@, p, a);
        }
        assert forall|p: Seq<char>| #[trigger] self.param_ifaces(p) == layers_ifaces(self@.bounds, p) by {
            lemma_collect_ifaces_view(self.generic_param_bounds@, p);
        }
    }

    /// The number of open scopes.
    pub closed spec fn depth(&self) -> nat {
        self.scopes@.len()
    }

    /// What `name` is bound to, innermost scope first.
    pub closed spec fn binding(&self, name: Seq<char>) -> Option<Symbol> {
        scopes_get(self.scopes@, name)
    }

    /// What `name` is bound to in the innermost scope.
    pub closed spec fn current_binding(&self, name: Seq<char>) -> Option<Symbol> {
        if self.scopes@.len() == 0 {
            None
        } else {
            assoc_get(self.scopes@.last()@, name)
        }
    }

    /// The entries of the innermost scope, in definition order.
    pub closed spec fn current_entries(&self) -> Seq<(String, Symbol)> {
        if self.scopes@.len() == 0 {
            Seq::empty()
        } else {
            self.scopes@.last()@
        }
    }

    /// Every pin entry of every scope, outer scope first, each scope in definition order.
    pub closed spec fn all_pins(&self) -> Seq<((String, String), Ty)> {
        flatten_pins(self.projection_pins@)
    }

    /// The type pinned for `param.assoc`, innermost scope first.
    pub closed spec fn pinned(&self, param: Seq<char>, assoc: Seq<char>) -> Option<Ty> {
        pins_get(self.projection_pins@, param, assoc)
    }

    /// The interfaces bounding `param` over all scopes, outer first, each named once.
    pub closed spec fn param_ifaces(&self, param: Seq<char>) -> Seq<Seq<char>> {
        collect_ifaces(self.generic_param_bounds@, param)
    }

    /// The interface names registered for `param` in scope `k`.
    pub closed spec fn ifaces_at(&self, k: int, param: Seq<char>) -> Seq<Seq<char>> {
        match assoc_get(self.generic_param_bounds@[k]@, param) {
            Some(v) => v@.map_values(|s: String| s@),
            None => Seq::empty(),
        }
    }

    /// The three scope stacks have one layer per scope, and no scope binds a name twice.
    pub closed spec fn wf(&self) -> bool {
        &&& self.projection_pins@.len() == self.scopes@.len()
        &&& self.generic_param_bounds@.len() == self.scopes@.len()
        &&& forall|k: int| 0 <= k < self.scopes@.len() ==> keys_unique(#[trigger] self.scopes@[k]@)
        &&& forall|k: int|
            0 <= k < self.generic_param_bounds@.len() ==> keys_unique(
                #[trigger] self.generic_param_bounds@[k]@,
            )
    }

    /// An environment with no scopes.
    pub fn new() -> (r: Self)
        ensures
            r.wf(),
            r.depth() == 0,
            !r.in_throws_context(),
            forall|n: Seq<char>| r.binding(n) is None,
            forall|p: Seq<char>, a: Seq<char>| r.pinned(p, a) is None,
            forall|p: Seq<char>| r.param_ifaces(p) == Seq::<Seq<char>>::empty(),
            r@ == (EnvLayers {
                scopes: Seq::empty(),
                pins: Seq::empty(),
                bounds: Seq::empty(),
                throws_context: false,
            }),
    {
        let r = Env {
            scopes: Vec::new(),
            projection_pins: Vec::new(),
            generic_param_bounds: Vec::new(),
            throws_context: false,
        };
        proof {
            assert(r@.scopes =~= Seq::empty());
            assert(r@.pins =~= Seq::empty());
            assert(r@.bounds =~= Seq::empty());
        }
        r
    }

    /// Opens a new, empty innermost scope.
    pub fn push_scope(&mut self)
        requires
            old(self).wf(),
        ensures
            final(self).wf(),
            final(self).depth() == old(self).depth() + 1,
            final(self).in_throws_context() == old(self).in_throws_context(),
            forall|n: Seq<char>| final(self).binding(n) == old(self).binding(n),
            forall|n: Seq<char>| final(self).current_binding(n) is None,
            forall|p: Seq<char>, a: Seq<char>| final(self).pinned(p, a) == old(self).pinned(p, a),
            forall|p: Seq<char>| #[trigger] final(self).param_ifaces(p) == old(self).param_ifaces(p),
            final(self)@ == old(self)@.pushed(),
    {
        let ghost old_scopes = self.scopes@;
        let ghost old_pins = self.projection_pins@;
        let ghost old_bounds = self.generic_param_bounds@;
        self.scopes.push(Vec::new());
        self.projection_pins.push(Vec::new());
        self.generic_param_bounds.push(Vec::new());
        proof {
            assert(self.scopes@.drop_last() =~= old_scopes);
            assert(self.projection_pins@.drop_last() =~= old_pins);
            assert forall|n: Seq<char>| #[trigger] self.binding(n) == old(self).binding(n) by {
                assert(assoc_get(self.scopes@.last()@, n) is None);
            }
            assert forall|p: Seq<char>, a: Seq<char>| #[trigger] self.pinned(p, a) == old(self).pinned(p, a) by {
                assert(pin_get(self.projection_pins@.last()@, p, a) is None);
            }
            assert(self.generic_param_bounds@.drop_last() =~= old_bounds);
            assert forall|p: Seq<char>| #[trigger] self.param_ifaces(p) == old(self).param_ifaces(p) by {
                assert(assoc_get(self.generic_param_bounds@.last()@, p) is None);
            }
            assert(self@.scopes =~= old(self)@.pushed().scopes);
            assert(self@.pins =~= old(self)@.pushed().pins);
            assert(self@.bounds =~= old(self)@.pushed().bounds);
        }
    }

    /// Closes the innermost scope, dropping its bindings, pins and bounds.
    pub fn pop_scope(&mut self)
        requires
            old(self).wf(),
        ensures
            final(self).wf(),
            old(self).depth() > 0 ==> final(self).depth() == old(self).depth() - 1,
            old(self).depth() == 0 ==> final(self).depth() == 0,
            final(self).in_throws_context() == old(self).in_throws_context(),
            old(self).depth() > 0 ==> forall|n: Seq<char>|
                old(self).current_binding(n) is None ==> #[trigger] final(self).binding(n)
                    == old(self).binding(n),
            final(self)@ == old(self)@.popped(),
            forall|n: Seq<char>| #[trigger] final(self).binding(n) == layers_binding(old(self)@.popped().scopes, n),
            forall|p: Seq<char>, a: Seq<char>|
                #[trigger] final(self).pinned(p, a) == layers_pinned(old(self)@.popped().pins, p, a),
            forall|p: Seq<char>| #[trigger] final(self).param_ifaces(p) == layers_ifaces(old(self)@.popped().bounds, p),
    {
        let _ = self.scopes.pop();
        let _ = self.projection_pins.pop();
        let _ = self.generic_param_bounds.pop();
        assert(self@.scopes =~= old(self)@.popped().scopes);
        assert(self@.pins =~= old(self)@.popped().pins);
        assert(self@.bounds =~= old(self)@.popped().bounds);
        proof {
            self.lemma_view();
        }
    }

    /// Binds `name` to `sym` in the innermost scope, replacing an earlier binding of the
    /// same name there. Without an open scope nothing changes.
    pub fn define(&mut self, name: &str, sym: Symbol)
        requires
            old(self).wf(),
        ensures
            final(self).wf(),
            final(self).depth() == old(self).depth(),
            final(self).in_throws_context() == old(self).in_throws_context(),
            old(self).depth() > 0 ==> final(self).binding(name@) == Some(sym),
            old(self).depth() > 0 ==> final(self).current_binding(name@) == Some(sym),
            forall|n: Seq<char>| n != name@ ==> #[trigger] final(self).binding(n) == old(self).binding(n),
            forall|n: Seq<char>|
                n != name@ ==> #[trigger] final(self).current_binding(n) == old(self).current_binding(n),
            forall|p: Seq<char>, a: Seq<char>| #[trigger] final(self).pinned(p, a) == old(self).pinned(p, a),
            old(self).depth() == 0 ==> forall|n: Seq<char>| #[trigger] final(self).binding(n) is None,
            forall|p: Seq<char>| #[trigger] final(self).param_ifaces(p) == old(self).param_ifaces(p),
            forall|k: int, p: Seq<char>| #[trigger] final(self).ifaces_at(k, p) == old(self).ifaces_at(k, p),
            final(self)@.pins == old(self)@.pins,
            final(self)@.bounds == old(self)@.bounds,
            old(self).depth() > 0 ==> final(self)@.popped() == old(self)@.popped(),
            old(self).depth() == 0 ==> final(self)@ == old(self)@,
    {
        if self.scopes.len() == 0 {
            proof {
                assert forall|n: Seq<char>| #[trigger] self.binding(n) is None by {}
            }
            return;
        }
        let ghost old_scopes = self.scopes@;
        let key = String::from_str(name);
        let mut scope = self.scopes.pop().unwrap();
        let ghost s0 = scope@;
        proof {
            assert(keys_unique(old_scopes[old_scopes.len() - 1]@));
        }
        match assoc_find(&scope, &key) {
            Some(i) => {
                proof {
                    assert forall|n: Seq<char>| true implies #[trigger] assoc_get(s0.update(i as int, (key, sym)), n)
                        == if n == key@ { Some(sym) } else { assoc_get(s0, n) } by {
                        lemma_assoc_get_update(s0, i as int, key, sym, n);
                    }
                }
                scope.set(i, (key, sym));
            },
            None => {
                scope.push((key, sym));
                proof {
                    assert(scope@.drop_last() =~= s0);
                }
            },
        }
        let ghost s1 = scope@;
        self.scopes.push(scope);
        proof {
            assert(self.scopes@.drop_last() =~= old_scopes.drop_last());
            assert(keys_unique(s1));
            assert forall|k: int| 0 <= k < self.scopes@.len() implies keys_unique(#[trigger] self.scopes@[k]@) by {
                if k < self.scopes@.len() - 1 {
                    assert(self.scopes@[k] == old_scopes[k]);
                }
            }
            assert(assoc_get(s1, name@) == Some(sym));
            assert forall|n: Seq<char>| n != name@ implies #[trigger] self.binding(n) == old(self).binding(n) by {
                assert(assoc_get(s1, n) == assoc_get(s0, n));
            }
            assert(self@.popped().scopes =~= old(self)@.popped().scopes);
        }
    }

    /// What `name` is bound to, searching from the innermost scope outward.
    pub fn lookup(&self, name: &str) -> (r: Option<&Symbol>)
        requires
            self.wf(),
        ensures
            match self.binding(name@) {
                Some(s) => r matches Some(x) && *x == s,
                None => r is None,
            },
    {
        let key = String::from_str(name);
        let mut k = self.scopes.len();
        proof {
            assert(self.scopes@.take(self.scopes@.len() as int) =~= self.scopes@);
        }
        while k > 0
            invariant
                k <= self.scopes@.len(),
                key@ == name@,
                self.binding(name@) == scopes_get(self.scopes@.take(k as int), name@),
            decreases k,
        {
            proof {
                assert(self.scopes@.take(k as int).drop_last() =~= self.scopes@.take(k as int - 1));
            }
            let scope = &self.scopes[k - 1];
            proof {
                assert(self.scopes@.take(k as int).last() == self.scopes@[k - 1]);
            }
            match assoc_find(scope, &key) {
                Some(i) => {
                    return Some(&scope[i].1);
                },
                None => {},
            }
            k -= 1;
        }
        proof {
            assert(self.scopes@.take(0) =~= Seq::<Vec<(String, Symbol)>>::empty());
        }
        None
    }

    /// Where `name` is bound: the innermost scope that binds it and its entry there.
    fn locate(&self, name: &str) -> (r: Option<(usize, usize)>)
        requires
            self.wf(),
        ensures
            match r {
                Some((k, i)) => k < self.scopes@.len() && i < self.scopes@[k as int]@.len()
                    && self.scopes@[k as int]@[i as int].0@ == name@
                    && self.binding(name@) == Some(self.scopes@[k as int]@[i as int].1)
                    && forall|j: int| k < j < self.scopes@.len() ==> #[trigger] assoc_get(self.scopes@[j]@, name@) is None,
                None => self.binding(name@) is None,
            },
    {
        let key = String::from_str(name);
        let mut k = self.scopes.len();
        proof {
            assert(self.scopes@.take(self.scopes@.len() as int) =~= self.scopes@);
        }
        while k > 0
            invariant
                k <= self.scopes@.len(),
                key@ == name@,
                self.binding(name@) == scopes_get(self.scopes@.take(k as int), name@),
                forall|j: int| k <= j < self.scopes@.len() ==> #[trigger] assoc_get(self.scopes@[j]@, name@) is None,
            decreases k,
        {
            proof {
                assert(self.scopes@.take(k as int).drop_last() =~= self.scopes@.take(k as int - 1));
                assert(self.scopes@.take(k as int).last() == self.scopes@[k - 1]);
            }
            match assoc_find(&self.scopes[k - 1], &key) {
                Some(i) => {
                    return Some((k - 1, i));
                },
                None => {},
            }
            k -= 1;
        }
        proof {
            assert(self.scopes@.take(0) =~= Seq::<Vec<(String, Symbol)>>::empty());
        }
        None
    }

    /// Mutable access to what `name` is bound to, searching from the innermost scope
    /// outward.
    pub fn lookup_mut(&mut self, name: &str) -> (r: Option<&mut Symbol>)
        requires
            old(self).wf(),
        ensures
            match old(self).binding(name@) {
                Some(s) => r matches Some(x) && *x == s,
                None => r is None,
            },
            match r {
                Some(x) => final(self).binding(name@) == Some(*final(x)),
                None => final(self).binding(name@) is None,
            },
            final(self).wf(),
            final(self).depth() == old(self).depth(),
            forall|n: Seq<char>| n != name@ ==> #[trigger] final(self).binding(n) == old(self).binding(n),
            final(self)@.pins == old(self)@.pins,
            final(self)@.bounds == old(self)@.bounds,
    {
        match self.locate(name) {
            Some((k, i)) => {
                proof {
                    let sc = self.scopes@;
                    assert(keys_unique(sc[k as int]@));
                    assert forall|sc2: Seq<Vec<(String, Symbol)>>| set_at(sc, sc2, k as int, i as int) implies #[trigger] scopes_get(
                        sc2,
                        name@,
                    ) == Some(sc2[k as int]@[i as int].1) by {
                        lemma_scopes_get_set(sc, sc2, k as int, i as int, name@);
                    }
                    assert forall|sc2: Seq<Vec<(String, Symbol)>>, n: Seq<char>|
                        set_at(sc, sc2, k as int, i as int) && n != name@ implies #[trigger] scopes_get(sc2, n)
                            == scopes_get(sc, n) by {
                        lemma_scopes_get_set(sc, sc2, k as int, i as int, name@);
                    }
                }
                let r = &mut self.scopes[k][i].1;
                Some(r)
            },
            None => None,
        }
    }

    /// `true` when `name` is visible in any enclosing scope.
    pub fn would_shadow(&self, name: &str) -> (r: bool)
        requires
            self.wf(),
        ensures
            r == self.binding(name@) is Some,
    {
        self.lookup(name).is_some()
    }

    /// What `name` is bound to in the innermost scope only.
    pub fn lookup_in_current_scope(&self, name: &str) -> (r: Option<&Symbol>)
        requires
            self.wf(),
        ensures
            match self.current_binding(name@) {
                Some(s) => r matches Some(x) && *x == s,
                None => r is None,
            },
    {
        if self.scopes.len() == 0 {
            return None;
        }
        let key = String::from_str(name);
        let scope = &self.scopes[self.scopes.len() - 1];
        match assoc_find(scope, &key) {
            Some(i) => Some(&scope[i].1),
            None => None,
        }
    }

    /// The declaration span of the symbol `name` is bound to, if it has one.
    pub fn span_of(&self, name: &str) -> (r: Option<Span>)
        requires
            self.wf(),
        ensures
            r == match self.binding(name@) {
                Some(s) => symbol_span(s),
                None => None,
            },
    {
        match self.lookup(name) {
            Some(sym) => match sym {
                Symbol::Var { span, .. } => Some(*span),
                Symbol::Fn { span, .. } => Some(*span),
                Symbol::FnOverloadSet { overloads } => {
                    if overloads.len() > 0 {
                        Some(overloads[0].span)
                    } else {
                        None
                    }
                },
                Symbol::Type { span, .. } => Some(*span),
                Symbol::Iface { span, .. } => Some(*span),
                Symbol::Const { span, .. } => Some(*span),
                Symbol::TypeAlias(_) => None,
                Symbol::StructField { .. } => None,
            },
            None => None,
        }
    }

    /// The variables of the innermost scope whose names do not start with `_`, as
    /// `(name, is_mutable, declaration span)`, in definition order.
    pub fn current_scope_vars(&self) -> (r: Vec<(String, bool, Span)>)
        requires
            self.wf(),
        ensures
            r@ == scope_vars(self.current_entries()),
    {
        let mut out: Vec<(String, bool, Span)> = Vec::new();
        if self.scopes.len() == 0 {
            return out;
        }
        let scope = &self.scopes[self.scopes.len() - 1];
        let mut i: usize = 0;
        while i < scope.len()
            invariant
                i <= scope@.len(),
                scope@ == self.current_entries(),
                out@ == scope_vars(scope@.take(i as int)),
            decreases scope@.len() - i,
        {
            proof {
                assert(scope@.take(i as int + 1).drop_last() =~= scope@.take(i as int));
            }
            let entry = &scope[i];
            match &entry.1 {
                Symbol::Var { mutable, span, .. } => {
                    if !starts_with_underscore(&entry.0) {
                        out.push((entry.0.clone(), *mutable, *span));
                    }
                },
                _ => {},
            }
            i += 1;
        }
        proof {
            assert(scope@.take(scope@.len() as int) =~= scope@);
        }
        out
    }

    /// Pins `param.assoc` to `ty` in the innermost scope.
    pub fn pin_projection(&mut self, param: &str, assoc: &str, ty: Ty)
        requires
            old(self).wf(),
        ensures
            final(self).wf(),
            final(self).depth() == old(self).depth(),
            final(self).in_throws_context() == old(self).in_throws_context(),
            forall|n: Seq<char>| #[trigger] final(self).binding(n) == old(self).binding(n),
            old(self).depth() > 0 ==> final(self).pinned(param@, assoc@) == Some(ty),
            forall|p: Seq<char>, a: Seq<char>|
                !(p == param@ && a == assoc@) ==> #[trigger] final(self).pinned(p, a) == old(
                    self,
                ).pinned(p, a),
            old(self).depth() == 0 ==> final(self).pinned(param@, assoc@) == old(self).pinned(param@, assoc@),
            forall|k: int, p: Seq<char>| #[trigger] final(self).ifaces_at(k, p) == old(self).ifaces_at(k, p),
            forall|p: Seq<char>| #[trigger] final(self).param_ifaces(p) == old(self).param_ifaces(p),
            final(self)@.scopes == old(self)@.scopes,
            final(self)@.bounds == old(self)@.bounds,
            old(self).depth() > 0 ==> final(self)@.popped() == old(self)@.popped(),
            old(self).depth() == 0 ==> final(self)@ == old(self)@,
    {
        if self.projection_pins.len() == 0 {
            return;
        }
        let ghost old_pins = self.projection_pins@;
        let mut layer = self.projection_pins.pop().unwrap();
        layer.push(((String::from_str(param), String::from_str(assoc)), ty));
        self.projection_pins.push(layer);
        proof {
            assert(self.projection_pins@.drop_last() =~= old_pins.drop_last());
            assert(layer@.drop_last() =~= old_pins.last()@);
            assert(self@.popped().pins =~= old(self)@.popped().pins);
        }
    }

    /// The type pinned for `param.assoc`, searching from the innermost scope outward.
    pub fn resolve_projection(&self, param: &str, assoc: &str) -> (r: Option<&Ty>)
        requires
            self.wf(),
        ensures
            match self.pinned(param@, assoc@) {
                Some(t) => r matches Some(x) && *x == t,
                None => r is None,
            },
    {
        let p = String::from_str(param);
        let a = String::from_str(assoc);
        let mut k = self.projection_pins.len();
        proof {
            assert(self.projection_pins@.take(self.projection_pins@.len() as int) =~= self.projection_pins@);
        }
        while k > 0
            invariant
                k <= self.projection_pins@.len(),
                p@ == param@,
                a@ == assoc@,
                self.pinned(param@, assoc@) == pins_get(self.projection_pins@.take(k as int), param@, assoc@),
            decreases k,
        {
            proof {
                assert(self.projection_pins@.take(k as int).drop_last() =~= self.projection_pins@.take(k as int - 1));
            }
            let layer = &self.projection_pins[k - 1];
            let mut i = layer.len();
            proof {
                assert(layer@.take(layer@.len() as int) =~= layer@);
                assert(self.projection_pins@.take(k as int).last() == self.projection_pins@[k - 1]);
            }
            while i > 0
                invariant
                    i <= layer@.len(),
                    0 < k <= self.projection_pins@.len(),
                    *layer == self.projection_pins@[k - 1],
                    self.projection_pins@.take(k as int).last() == self.projection_pins@[k - 1],
                    self.pinned(param@, assoc@) == pins_get(self.projection_pins@.take(k as int), param@, assoc@),
                    p@ == param@,
                    a@ == assoc@,
                    pin_get(layer@, param@, assoc@) == pin_get(layer@.take(i as int), param@, assoc@),
                decreases i,
            {
                proof {
                    assert(layer@.take(i as int).drop_last() =~= layer@.take(i as int - 1));
                }
                if layer[i - 1].0.0 == p && layer[i - 1].0.1 == a {
                    proof {
                        assert(layer@.take(i as int).last() == layer@[i - 1]);
                        assert(pin_get(layer@, param@, assoc@) == Some(layer@[i - 1].1));
                        assert(pins_get(self.projection_pins@.take(k as int), param@, assoc@) == Some(layer@[i - 1].1));
                    }
                    return Some(&layer[i - 1].1);
                }
                i -= 1;
            }
            proof {
                assert(layer@.take(0) =~= Seq::<((String, String), Ty)>::empty());
            }
            k -= 1;
        }
        proof {
            assert(self.projection_pins@.take(0) =~= Seq::<Vec<((String, String), Ty)>>::empty());
        }
        None
    }

    /// All active pins, flattened outer scope first, so that a later entry for the same
    /// `(param, assoc)` overrides an earlier one.
    pub fn get_active_pins(&self) -> (r: Vec<((String, String), Ty)>)
        requires
            self.wf(),
        ensures
            pins_copied(r@, self.all_pins()),
    {
        let mut out: Vec<((String, String), Ty)> = Vec::new();
        let mut k: usize = 0;
        while k < self.projection_pins.len()
            invariant
                k <= self.projection_pins@.len(),
                pins_copied(out@, flatten_pins(self.projection_pins@.take(k as int))),
            decreases self.projection_pins@.len() - k,
        {
            let layer = &self.projection_pins[k];
            let ghost before = flatten_pins(self.projection_pins@.take(k as int));
            let mut i: usize = 0;
            while i < layer.len()
                invariant
                    i <= layer@.len(),
                    pins_copied(out@, before + layer@.take(i as int)),
                decreases layer@.len() - i,
            {
                let entry = &layer[i];
                out.push(((entry.0.0.clone(), entry.0.1.clone()), ty_copy(&entry.1)));
                proof {
                    assert(before + layer@.take(i as int + 1) =~= (before + layer@.take(i as int)).push(layer@[i as int]));
                }
                i += 1;
            }
            proof {
                assert(layer@.take(layer@.len() as int) =~= layer@);
                let t1 = self.projection_pins@.take(k as int + 1);
                assert(t1.drop_last() =~= self.projection_pins@.take(k as int));
                assert(t1.last() == self.projection_pins@[k as int]);
            }
            k += 1;
        }
        proof {
            assert(self.projection_pins@.take(self.projection_pins@.len() as int) =~= self.projection_pins@);
        }
        out
    }

    /// The interfaces bounding generic parameter `param`, gathered over all scopes
    /// (outer first), each named once.
    pub fn get_param_ifaces(&self, param: &str) -> (r: Vec<String>)
        requires
            self.wf(),
        ensures
            r@.map_values(|s: String| s@) == self.param_ifaces(param@),
    {
        let key = String::from_str(param);
        let mut out: Vec<String> = Vec::new();
        let mut k: usize = 0;
        while k < self.generic_param_bounds.len()
            invariant
                k <= self.generic_param_bounds@.len(),
                key@ == param@,
                out@.map_values(|s: String| s@) == collect_ifaces(self.generic_param_bounds@.take(k as int), param@),
            decreases self.generic_param_bounds@.len() - k,
        {
            let layer = &self.generic_param_bounds[k];
            let ghost before = out@.map_values(|s: String| s@);
            let ghost xs: Seq<Seq<char>> = match assoc_get(layer@, param@) {
                Some(v) => v@.map_values(|s: String| s@),
                None => Seq::empty(),
            };
            match assoc_find(layer, &key) {
                Some(idx) => {
                    let ifaces = &layer[idx].1;
                    let mut i: usize = 0;
                    while i < ifaces.len()
                        invariant
                            i <= ifaces@.len(),
                            xs == ifaces@.map_values(|s: String| s@),
                            out@.map_values(|s: String| s@) == append_new(before, xs.take(i as int)),
                        decreases ifaces@.len() - i,
                    {
                        proof {
                            assert(xs.take(i as int + 1).drop_last() =~= xs.take(i as int));
                            assert(xs.take(i as int + 1).last() == ifaces@[i as int]@);
                        }
                        let mut present = false;
                        let mut j: usize = 0;
                        while j < out.len()
                            invariant
                                j <= out@.len(),
                                i < ifaces@.len(),
                                present == exists|t: int| 0 <= t < j && out@[t]@ == ifaces@[i as int]@,
                            decreases out@.len() - j,
                        {
                            if out[j] == ifaces[i] {
                                present = true;
                            }
                            j += 1;
                        }
                        let ghost m0 = out@.map_values(|s: String| s@);
                        proof {
                            if present {
                                let t = choose|t: int| 0 <= t < out@.len() && out@[t]@ == ifaces@[i as int]@;
                                assert(m0[t] == ifaces@[i as int]@);
                            } else {
                                assert forall|t: int| 0 <= t < m0.len() implies m0[t] != ifaces@[i as int]@ by {
                                    assert(m0[t] == out@[t]@);
                                }
                            }
                        }
                        if !present {
                            out.push(ifaces[i].clone());
                            proof {
                                assert(out@.map_values(|s: String| s@) =~= m0.push(ifaces@[i as int]@));
                            }
                        }
                        i += 1;
                    }
                    proof {
                        assert(xs.take(xs.len() as int) =~= xs);
                    }
                },
                None => {},
            }
            proof {
                let t1 = self.generic_param_bounds@.take(k as int + 1);
                assert(t1.drop_last() =~= self.generic_param_bounds@.take(k as int));
                assert(t1.last() == self.generic_param_bounds@[k as int]);
            }
            k += 1;
        }
        proof {
            assert(self.generic_param_bounds@.take(self.generic_param_bounds@.len() as int) =~= self.generic_param_bounds@);
        }
        out
    }

    /// Records that generic parameter `param` is bounded by `iface` in the innermost scope.
    pub fn register_param_iface(&mut self, param: &str, iface: &str)
        requires
            old(self).wf(),
        ensures
            final(self).wf(),
            final(self).depth() == old(self).depth(),
            final(self).in_throws_context() == old(self).in_throws_context(),
            forall|n: Seq<char>| #[trigger] final(self).binding(n) == old(self).binding(n),
            forall|p: Seq<char>, a: Seq<char>| #[trigger] final(self).pinned(p, a) == old(self).pinned(p, a),
            old(self).depth() > 0 ==> final(self).ifaces_at(old(self).depth() - 1, param@)
                == old(self).ifaces_at(old(self).depth() - 1, param@).push(iface@),
            forall|k: int, p: Seq<char>|
                0 <= k < old(self).depth() && !(k == old(self).depth() - 1 && p == param@)
                    ==> #[trigger] final(self).ifaces_at(k, p) == old(self).ifaces_at(k, p),
            old(self).depth() > 0 ==> final(self).param_ifaces(param@) == (if old(self).param_ifaces(
                param@,
            ).contains(iface@) {
                old(self).param_ifaces(param@)
            } else {
                old(self).param_ifaces(param@).push(iface@)
            }),
            forall|p: Seq<char>| p != param@ ==> #[trigger] final(self).param_ifaces(p) == old(self).param_ifaces(p),
            old(self).depth() == 0 ==> final(self).param_ifaces(param@) == old(self).param_ifaces(param@),
            final(self)@.scopes == old(self)@.scopes,
            final(self)@.pins == old(self)@.pins,
            old(self).depth() > 0 ==> final(self)@.popped() == old(self)@.popped(),
            old(self).depth() == 0 ==> final(self)@ == old(self)@,
    {
        if self.generic_param_bounds.len() == 0 {
            return;
        }
        let ghost old_b = self.generic_param_bounds@;
        let key = String::from_str(param);
        let mut layer = self.generic_param_bounds.pop().unwrap();
        let ghost l0 = layer@;
        proof {
            assert(keys_unique(old_b[old_b.len() - 1]@));
        }
        match assoc_find(&layer, &key) {
            Some(i) => {
                let (k, mut list) = layer.remove(i);
                let ghost list0 = list@;
                list.push(String::from_str(iface));
                proof {
                    assert(list@.map_values(|s: String| s@) =~= list0.map_values(|s: String| s@).push(iface@));
                }
                layer.insert(i, (k, list));
                proof {
                    assert(layer@ =~= l0.update(i as int, (k, list)));
                    lemma_assoc_get_update(l0, i as int, k, list, param@);
                    assert forall|p: Seq<char>| p != param@ implies #[trigger] assoc_get(layer@, p) == assoc_get(l0, p) by {
                        lemma_assoc_get_update(l0, i as int, k, list, p);
                    }
                    assert forall|x: int, y: int| 0 <= x < y < layer@.len() implies layer@[x].0@ != layer@[y].0@ by {
                        assert(layer@[x].0@ == l0[x].0@);
                        assert(layer@[y].0@ == l0[y].0@);
                    }
                }
            },
            None => {
                let mut list: Vec<String> = Vec::new();
                list.push(String::from_str(iface));
                layer.push((key, list));
                proof {
                    assert(layer@.drop_last() =~= l0);
                    assert forall|p: Seq<char>| p != param@ implies #[trigger] assoc_get(layer@, p) == assoc_get(l0, p) by {
                        assert(layer@.drop_last() =~= l0);
                    }
                    assert(list@.map_values(|s: String| s@) =~= Seq::<Seq<char>>::empty().push(iface@));
                }
            },
        }
        self.generic_param_bounds.push(layer);
        proof {
            assert(self.generic_param_bounds@.drop_last() =~= old_b.drop_last());
            assert forall|k: int, p: Seq<char>|
                0 <= k < old(self).depth() && !(k == old(self).depth() - 1 && p == param@) implies #[trigger] self.ifaces_at(
                k,
                p,
            ) == old(self).ifaces_at(k, p) by {
                if k < old_b.len() - 1 {
                    assert(self.generic_param_bounds@[k] == old_b[k]);
                } else {
                    assert(assoc_get(layer@, p) == assoc_get(l0, p));
                }
            }
            assert forall|k: int| 0 <= k < self.generic_param_bounds@.len() implies keys_unique(
                #[trigger] self.generic_param_bounds@[k]@,
            ) by {
                if k < self.generic_param_bounds@.len() - 1 {
                    assert(self.generic_param_bounds@[k] == old_b[k]);
                }
            }
            assert(self@.popped().bounds =~= old(self)@.popped().bounds);
            let d = old_b.len() - 1;
            let xs_old = old(self).ifaces_at(d, param@);
            assert(self.ifaces_at(d, param@) == xs_old.push(iface@));
            assert(self.ifaces_at(d, param@) == match assoc_get(self.generic_param_bounds@.last()@, param@) {
                Some(v) => v@.map_values(|s: String| s@),
                None => Seq::<Seq<char>>::empty(),
            });
            assert(xs_old == match assoc_get(old_b.last()@, param@) {
                Some(v) => v@.map_values(|s: String| s@),
                None => Seq::<Seq<char>>::empty(),
            });
            assert(xs_old.push(iface@).drop_last() =~= xs_old);
            assert forall|p: Seq<char>| p != param@ implies #[trigger] self.param_ifaces(p) == old(self).param_ifaces(p) by {
                assert(self.ifaces_at(d, p) == old(self).ifaces_at(d, p));
                assert(assoc_get(layer@, p) == assoc_get(l0, p));
            }
        }
    }
}

/// Two environments with the same layers answer alike: the same depth, bindings,
/// projection pins and interface bounds.
pub proof fn equal_layers_agree(a: &Env, b: &Env)
    requires
        a@ == b@,
    ensures
        a.depth() == b.depth(),
        forall|n: Seq<char>| #[trigger] a.binding(n) == b.binding(n),
        forall|p: Seq<char>, q: Seq<char>| #[trigger] a.pinned(p, q) == b.pinned(p, q),
        forall|p: Seq<char>| #[trigger] a.param_ifaces(p) == b.param_ifaces(p),
{
    a.lemma_view();
    b.lemma_view();
}

/// Closing a scope forgets what was defined, pinned or registered inside it: open a
/// scope on `outer`, change the environment only within that scope (each of `define`,
/// `pin_projection` and `register_param_iface` keeps the layers below the innermost
/// one), close it, and every lookup answers as it did on `outer`.
pub proof fn closing_scope_restores_lookups(outer: &Env, opened: &Env, edited: &Env, closed: &Env)
    requires
        opened@ == outer@.pushed(),
        edited@.popped() == opened@.popped(),
        closed@ == edited@.popped(),
    ensures
        closed@ == outer@,
        closed.depth() == outer.depth(),
        forall|n: Seq<char>| #[trigger] closed.binding(n) == outer.binding(n),
        forall|p: Seq<char>, q: Seq<char>| #[trigger] closed.pinned(p, q) == outer.pinned(p, q),
        forall|p: Seq<char>| #[trigger] closed.param_ifaces(p) == outer.param_ifaces(p),
{
    pop_scope_undoes_push_scope(outer@);
    equal_layers_agree(closed, outer);
}

/// Appends to `acc` the names of `xs` that it does not hold yet, in order.
pub open spec fn append_new(acc: Seq<Seq<char>>, xs: Seq<Seq<char>>) -> Seq<Seq<char>>
    decreases xs.len(),
{
    if xs.len() == 0 {
        acc
    } else {
        let a = append_new(acc, xs.drop_last());
        if a.contains(xs.last()) {
            a
        } else {
            a.push(xs.last())
        }
    }
}

/// The interfaces bounding `param` across the first `k` scopes, outer scope first,
/// each named once, in order of first appearance.
pub open spec fn collect_ifaces(layers: Seq<Vec<(String, Vec<String>)>>, param: Seq<char>) -> Seq<Seq<char>>
    decreases layers.len(),
{
    if layers.len() == 0 {
        Seq::empty()
    } else {
        append_new(
            collect_ifaces(layers.drop_last(), param),
            match assoc_get(layers.last()@, param) {
                Some(v) => v@.map_values(|s: String| s@),
                None => Seq::empty(),
            },
        )
    }
}

/// The pin entries of all layers, outer layer first.
pub open spec fn flatten_pins(layers: Seq<Vec<((String, String), Ty)>>) -> Seq<((String, String), Ty)>
    decreases layers.len(),
{
    if layers.len() == 0 {
        Seq::empty()
    } else {
        flatten_pins(layers.drop_last()) + layers.last()@
    }
}

/// `r` is an entry-by-entry copy of `s`: the same keys and the same types.
pub open spec fn pins_copied(r: Seq<((String, String), Ty)>, s: Seq<((String, String), Ty)>) -> bool {
    &&& r.len() == s.len()
    &&& forall|i: int|
        0 <= i < r.len() ==> #[trigger] r[i].0.0@ == s[i].0.0@ && r[i].0.1@ == s[i].0.1@ && ty_model(r[i].1)
            == ty_model(s[i].1)
}

/// The variables of a scope whose names do not start with `_`, in order.
pub open spec fn scope_vars(s: Seq<(String, Symbol)>) -> Seq<(String, bool, Span)>
    decreases s.len(),
{
    if s.len() == 0 {
        Seq::empty()
    } else {
        let rest = scope_vars(s.drop_last());
        match s.last().1 {
            Symbol::Var { mutable, span, .. } => if underscored(s.last().0@) {
                rest
            } else {
                rest.push((s.last().0, mutable, span))
            },
            _ => rest,
        }
    }
}

/// The name starts with `_`.
fn starts_with_underscore(name: &String) -> (r: bool)
    ensures
        r == underscored(name@),
{
    let s = name.as_str();
    if s.unicode_len() == 0 {
        false
    } else {
        s.get_char(0) == '_'
    }
}


/// `name` is a key of some scope at position `k` or beyond.
pub open spec fn key_from(scopes: Seq<Vec<(String, Symbol)>>, k: int, name: Seq<char>) -> bool {
    exists|m: int, i: int| k <= m < scopes.len() && 0 <= i < scopes[m]@.len() && (#[trigger] scopes[m]@[i]).0@ == name
}

proof fn lemma_scopes_get_inner_absent(scopes: Seq<Vec<(String, Symbol)>>, name: Seq<char>, k: int)
    requires
        0 <= k <= scopes.len(),
        forall|m: int| k <= m < scopes.len() ==> #[trigger] assoc_get(scopes[m]@, name) is None,
    ensures
        scopes_get(scopes, name) == scopes_get(scopes.take(k), name),
    decreases scopes.len() - k,
{
    if k == scopes.len() {
        assert(scopes.take(k) =~= scopes);
    } else {
        assert(assoc_get(scopes[scopes.len() - 1]@, name) is None);
        assert(scopes.drop_last().take(k) =~= scopes.take(k));
        assert forall|m: int| k <= m < scopes.drop_last().len() implies #[trigger] assoc_get(
            scopes.drop_last()[m]@,
            name,
        ) is None by {
            assert(scopes.drop_last()[m] == scopes[m]);
        }
        lemma_scopes_get_inner_absent(scopes.drop_last(), name, k);
    }
}

proof fn lemma_scopes_get_some(scopes: Seq<Vec<(String, Symbol)>>, name: Seq<char>)
    requires
        scopes_get(scopes, name) is Some,
    ensures
        key_from(scopes, 0, name),
    decreases scopes.len(),
{
    match assoc_get(scopes.last()@, name) {
        Some(_) => {
            lemma_assoc_get_some(scopes.last()@, name);
            let i = choose|i: int| 0 <= i < scopes.last()@.len() && scopes.last()@[i].0@ == name
                && assoc_get(scopes.last()@, name) == Some(scopes.last()@[i].1);
            assert(scopes[scopes.len() - 1]@[i].0@ == name);
        },
        None => {
            lemma_scopes_get_some(scopes.drop_last(), name);
            let (m, i) = choose|m: int, i: int| 0 <= m < scopes.drop_last().len() && 0 <= i < scopes.drop_last()[m]@.len()
                && (#[trigger] scopes.drop_last()[m]@[i]).0@ == name;
            assert(scopes[m] == scopes.drop_last()[m]);
        },
    }
}

/// Whether `name` is the text of one of the strings in `s`.
pub open spec fn listed_str(s: Seq<&str>, name: Seq<char>) -> bool {
    exists|i: int| 0 <= i < s.len() && (#[trigger] s[i])@ == name
}

/// Whether `name` is a key among the first `j` entries of `scope`.
pub open spec fn key_before(scope: Seq<(String, Symbol)>, j: int, name: Seq<char>) -> bool {
    exists|x: int| 0 <= x < j && (#[trigger] scope[x]).0@ == name
}

proof fn lemma_listed_str_push(s: Seq<&str>, x: &str, name: Seq<char>)
    ensures
        listed_str(s.push(x), name) <==> (listed_str(s, name) || x@ == name),
{
    if listed_str(s, name) {
        let i = choose|i: int| 0 <= i < s.len() && (#[trigger] s[i])@ == name;
        assert(s.push(x)[i] == s[i]);
    }
    if x@ == name {
        assert(s.push(x)[s.len() as int] == x);
    }
    if listed_str(s.push(x), name) {
        let i = choose|i: int| 0 <= i < s.push(x).len() && (#[trigger] s.push(x)[i])@ == name;
        if i < s.len() {
            assert(s[i] == s.push(x)[i]);
        }
    }
}

proof fn lemma_key_before_step(scope: Seq<(String, Symbol)>, j: int, name: Seq<char>)
    requires
        0 <= j < scope.len(),
    ensures
        key_before(scope, j + 1, name) <==> (key_before(scope, j, name) || scope[j].0@ == name),
{
    if key_before(scope, j + 1, name) {
        let x = choose|x: int| 0 <= x < j + 1 && (#[trigger] scope[x]).0@ == name;
        if x < j {
            assert(key_before(scope, j, name));
        }
    }
}

proof fn lemma_key_from_step(scopes: Seq<Vec<(String, Symbol)>>, k: int, name: Seq<char>)
    requires
        0 <= k < scopes.len(),
    ensures
        key_from(scopes, k, name) <==> (key_from(scopes, k + 1, name) || key_before(
            scopes[k]@,
            scopes[k]@.len() as int,
            name,
        )),
{
    if key_from(scopes, k, name) {
        let (m, i) = choose|m: int, i: int|
            k <= m < scopes.len() && 0 <= i < scopes[m]@.len() && (#[trigger] scopes[m]@[i]).0@ == name;
        if m > k {
            assert(key_from(scopes, k + 1, name));
        } else {
            assert(scopes[k]@[i].0@ == name);
        }
    }
    if key_before(scopes[k]@, scopes[k]@.len() as int, name) {
        let x = choose|x: int| 0 <= x < scopes[k]@.len() && (#[trigger] scopes[k]@[x]).0@ == name;
        assert(scopes[k]@[x].0@ == name);
    }
    if key_from(scopes, k + 1, name) {
        let (m, i) = choose|m: int, i: int|
            k + 1 <= m < scopes.len() && 0 <= i < scopes[m]@.len() && (#[trigger] scopes[m]@[i]).0@ == name;
        assert(scopes[m]@[i].0@ == name);
    }
}

impl Env {
    /// The name is bound, does not start with `_`, and is not a struct field name.
    pub open spec fn suggestable(&self, name: Seq<char>) -> bool {
        &&& self.binding(name) is Some
        &&& !underscored(name)
        &&& !(self.binding(name)->Some_0 is StructField)
    }

    /// Every name that resolves in the environment, once each, innermost scope first;
    /// names starting with `_` and struct field names are left out.
    #[verifier::rlimit(40)]
    pub fn all_names(&self) -> (r: Vec<&str>)
        requires
            self.wf(),
        ensures
            forall|i: int, j: int| 0 <= i < j < r@.len() ==> (#[trigger] r@[i])@ != (#[trigger] r@[j])@,
            forall|name: Seq<char>| listed_str(r@, name) <==> self.suggestable(name),
    {
        let ghost sc = self.scopes@;
        let mut seen: Vec<&str> = Vec::new();
        let mut names: Vec<&str> = Vec::new();
        let mut k: usize = self.scopes.len();
        while k > 0
            invariant
                k <= sc.len(),
                sc == self.scopes@,
                self.wf(),
                forall|name: Seq<char>| #![trigger listed_str(seen@, name)] listed_str(seen@, name) <==> key_from(sc, k as int, name),
                forall|i: int, j: int| 0 <= i < j < names@.len() ==> (#[trigger] names@[i])@ != (#[trigger] names@[j])@,
                forall|name: Seq<char>| #![trigger listed_str(names@, name)]
                    listed_str(names@, name) <==> (key_from(sc, k as int, name) && self.suggestable(name)),
            decreases k,
        {
            let scope = &self.scopes[k - 1];
            let ghost km = k as int - 1;
            let mut j: usize = 0;
            proof {
                assert forall|name: Seq<char>| !key_before(scope@, 0, name) by {}
            }
            while j < scope.len()
                invariant
                    j <= scope@.len(),
                    0 <= km < sc.len(),
                    k == km + 1,
                    sc == self.scopes@,
                    scope@ == sc[km]@,
                    self.wf(),
                    forall|name: Seq<char>| #![trigger listed_str(seen@, name)]
                        listed_str(seen@, name) <==> (key_from(sc, k as int, name) || key_before(scope@, j as int, name)),
                    forall|i: int, j2: int|
                        0 <= i < j2 < names@.len() ==> (#[trigger] names@[i])@ != (#[trigger] names@[j2])@,
                    forall|name: Seq<char>| #![trigger listed_str(names@, name)]
                        listed_str(names@, name) <==> ((key_from(sc, k as int, name) || key_before(
                            scope@,
                            j as int,
                            name,
                        )) && self.suggestable(name)),
                decreases scope@.len() - j,
            {
                let entry = &scope[j];
                let key: &str = entry.0.as_str();
                let mut already = false;
                let mut t: usize = 0;
                while t < seen.len()
                    invariant
                        t <= seen@.len(),
                        already == exists|i: int| 0 <= i < t && (#[trigger] seen@[i])@ == key@,
                    decreases seen.len() - t,
                {
                    if seen[t].to_owned() == key.to_owned() {
                        already = true;
                    }
                    t += 1;
                }
                let ghost seen0 = seen@;
                let ghost names0 = names@;
                proof {
                    assert(already == listed_str(seen0, key@));
                }
                if !already {
                    seen.push(key);
                    proof {
                        // no inner scope binds the key, so this entry is its binding
                        assert forall|m: int| k <= m < sc.len() implies #[trigger] assoc_get(sc[m]@, key@) is None by {
                            assert forall|x: int| 0 <= x < sc[m]@.len() implies sc[m]@[x].0@ != key@ by {
                                if sc[m]@[x].0@ == key@ {
                                    assert(key_from(sc, k as int, key@));
                                }
                            }
                            lemma_assoc_get_absent(sc[m]@, key@);
                        }
                        lemma_scopes_get_inner_absent(sc, key@, k as int);
                        assert(keys_unique(sc[km]@));
                        lemma_assoc_get_found(sc[km]@, j as int);
                        assert(sc.take(k as int).last() == sc[km]);
                        assert(self.binding(key@) == Some(entry.1));
                    }
                }
                let under = starts_with_underscore(&entry.0);
                let is_field = match &entry.1 {
                    Symbol::StructField { .. } => true,
                    _ => false,
                };
                let keep = !already && !under && !is_field;
                if keep {
                    proof {
                        assert(listed_str(names0, key@) ==> listed_str(seen0, key@));
                    }
                    names.push(key);
                }
                proof {
                    assert forall|name: Seq<char>| #![trigger listed_str(seen@, name)]
                        listed_str(seen@, name) <==> (key_from(sc, k as int, name) || key_before(
                            scope@,
                            j + 1,
                            name,
                        )) by {
                        lemma_key_before_step(scope@, j as int, name);
                        if !already {
                            lemma_listed_str_push(seen0, key, name);
                        }
                    }
                    assert forall|name: Seq<char>| #![trigger listed_str(names@, name)]
                        listed_str(names@, name) <==> ((key_from(sc, k as int, name) || key_before(
                            scope@,
                            j + 1,
                            name,
                        )) && self.suggestable(name)) by {
                        lemma_key_before_step(scope@, j as int, name);
                        assert(listed_str(seen0, name) <==> (key_from(sc, k as int, name) || key_before(
                            scope@,
                            j as int,
                            name,
                        )));
                        if keep {
                            lemma_listed_str_push(names0, key, name);
                        } else {
                            assert(names@ == names0);
                        }
                    }
                    if keep {
                        assert forall|i: int, j2: int|
                            0 <= i < j2 < names@.len() implies (#[trigger] names@[i])@ != (#[trigger] names@[j2])@ by {
                            assert(names@[i] == names0[i] || i == names0.len());
                            if j2 < names0.len() {
                                assert(names@[j2] == names0[j2]);
                            } else if names0[i]@ == key@ {
                                assert(listed_str(names0, key@));
                            }
                        }
                    }
                }
                j += 1;
            }
            proof {
                assert forall|name: Seq<char>| #[trigger] key_from(sc, km, name) <==> (key_from(sc, k as int, name) || key_before(
                    scope@,
                    scope@.len() as int,
                    name,
                )) by {
                    lemma_key_from_step(sc, km, name);
                }
            }
            k -= 1;
        }
        proof {
            assert forall|name: Seq<char>| self.suggestable(name) implies key_from(sc, 0, name) by {
                lemma_scopes_get_some(sc, name);
            }
        }
        names
    }
}
/// Whether `name` is the name of one of the pairs in `s`.
pub open spec fn listed_pair(s: Seq<(&str, &Symbol)>, name: Seq<char>) -> bool {
    exists|i: int| 0 <= i < s.len() && (#[trigger] s[i]).0@ == name
}

proof fn lemma_listed_pair_push(s: Seq<(&str, &Symbol)>, x: (&str, &Symbol), name: Seq<char>)
    ensures
        listed_pair(s.push(x), name) <==> (listed_pair(s, name) || x.0@ == name),
{
    if listed_pair(s, name) {
        let i = choose|i: int| 0 <= i < s.len() && (#[trigger] s[i]).0@ == name;
        assert(s.push(x)[i] == s[i]);
    }
    if x.0@ == name {
        assert(s.push(x)[s.len() as int] == x);
    }
    if listed_pair(s.push(x), name) {
        let i = choose|i: int| 0 <= i < s.push(x).len() && (#[trigger] s.push(x)[i]).0@ == name;
        if i < s.len() {
            assert(s[i] == s.push(x)[i]);
        }
    }
}

impl Env {
    /// Every name visible in the environment with the symbol it resolves to, once each,
    /// innermost scope first.
    #[verifier::rlimit(40)]
    pub fn get_global_scope_symbols(&self) -> (r: Vec<(&str, &Symbol)>)
        requires
            self.wf(),
        ensures
            forall|i: int, j: int| 0 <= i < j < r@.len() ==> (#[trigger] r@[i]).0@ != (#[trigger] r@[j]).0@,
            forall|i: int| 0 <= i < r@.len() ==> self.binding((#[trigger] r@[i]).0@) == Some(*r@[i].1),
            forall|name: Seq<char>| listed_pair(r@, name) <==> self.binding(name) is Some,
    {
        let ghost sc = self.scopes@;
        let mut result: Vec<(&str, &Symbol)> = Vec::new();
        let mut k: usize = self.scopes.len();
        while k > 0
            invariant
                k <= sc.len(),
                sc == self.scopes@,
                self.wf(),
                forall|name: Seq<char>| #![trigger listed_pair(result@, name)]
                    listed_pair(result@, name) <==> key_from(sc, k as int, name),
                forall|i: int, j: int|
                    0 <= i < j < result@.len() ==> (#[trigger] result@[i]).0@ != (#[trigger] result@[j]).0@,
                forall|i: int|
                    0 <= i < result@.len() ==> self.binding((#[trigger] result@[i]).0@) == Some(*result@[i].1),
            decreases k,
        {
            let scope = &self.scopes[k - 1];
            let ghost km = k as int - 1;
            let mut j: usize = 0;
            proof {
                assert forall|name: Seq<char>| !key_before(scope@, 0, name) by {}
            }
            while j < scope.len()
                invariant
                    j <= scope@.len(),
                    0 <= km < sc.len(),
                    k == km + 1,
                    sc == self.scopes@,
                    scope@ == sc[km]@,
                    self.wf(),
                    forall|name: Seq<char>| #![trigger listed_pair(result@, name)]
                        listed_pair(result@, name) <==> (key_from(sc, k as int, name) || key_before(
                            scope@,
                            j as int,
                            name,
                        )),
                    forall|i: int, j2: int|
                        0 <= i < j2 < result@.len() ==> (#[trigger] result@[i]).0@ != (#[trigger] result@[j2]).0@,
                    forall|i: int|
                        0 <= i < result@.len() ==> self.binding((#[trigger] result@[i]).0@) == Some(*result@[i].1),
                decreases scope@.len() - j,
            {
                let entry = &scope[j];
                let key: &str = entry.0.as_str();
                let mut already = false;
                let mut t: usize = 0;
                while t < result.len()
                    invariant
                        t <= result@.len(),
                        already == exists|i: int| 0 <= i < t && (#[trigger] result@[i]).0@ == key@,
                    decreases result.len() - t,
                {
                    if result[t].0.to_owned() == key.to_owned() {
                        already = true;
                    }
                    t += 1;
                }
                let ghost r0 = result@;
                proof {
                    assert(already == listed_pair(r0, key@));
                }
                if !already {
                    proof {
                        assert forall|m: int| k <= m < sc.len() implies #[trigger] assoc_get(sc[m]@, key@) is None by {
                            assert forall|x: int| 0 <= x < sc[m]@.len() implies sc[m]@[x].0@ != key@ by {
                                if sc[m]@[x].0@ == key@ {
                                    assert(key_from(sc, k as int, key@));
                                }
                            }
                            lemma_assoc_get_absent(sc[m]@, key@);
                        }
                        lemma_scopes_get_inner_absent(sc, key@, k as int);
                        assert(keys_unique(sc[km]@));
                        lemma_assoc_get_found(sc[km]@, j as int);
                        assert(sc.take(k as int).last() == sc[km]);
                        assert(self.binding(key@) == Some(entry.1));
                    }
                    result.push((key, &entry.1));
                    proof {
                        assert forall|i: int, j2: int|
                            0 <= i < j2 < result@.len() implies (#[trigger] result@[i]).0@ != (#[trigger] result@[j2]).0@ by {
                            if j2 == r0.len() {
                                assert(result@[i] == r0[i]);
                                if r0[i].0@ == key@ {
                                    assert(listed_pair(r0, key@));
                                }
                            } else {
                                assert(result@[i] == r0[i]);
                                assert(result@[j2] == r0[j2]);
                            }
                        }
                        assert forall|i: int|
                            0 <= i < result@.len() implies self.binding((#[trigger] result@[i]).0@) == Some(*result@[i].1) by {
                            if i < r0.len() {
                                assert(result@[i] == r0[i]);
                            }
                        }
                    }
                }
                proof {
                    assert forall|name: Seq<char>| #![trigger listed_pair(result@, name)]
                        listed_pair(result@, name) <==> (key_from(sc, k as int, name) || key_before(
                            scope@,
                            j + 1,
                            name,
                        )) by {
                        lemma_key_before_step(scope@, j as int, name);
                        assert(listed_pair(r0, name) <==> (key_from(sc, k as int, name) || key_before(
                            scope@,
                            j as int,
                            name,
                        )));
                        if !already {
                            lemma_listed_pair_push(r0, (key, &entry.1), name);
                        }
                    }
                }
                j += 1;
            }
            proof {
                assert forall|name: Seq<char>| #[trigger] key_from(sc, km, name) <==> (key_from(sc, k as int, name) || key_before(
                    scope@,
                    scope@.len() as int,
                    name,
                )) by {
                    lemma_key_from_step(sc, km, name);
                }
            }
            k -= 1;
        }
        proof {
            assert forall|name: Seq<char>| self.binding(name) is Some implies key_from(sc, 0, name) by {
                lemma_scopes_get_some(sc, name);
            }
            assert forall|name: Seq<char>| listed_pair(result@, name) implies self.binding(name) is Some by {
                let i = choose|i: int| 0 <= i < result@.len() && (#[trigger] result@[i]).0@ == name;
                assert(self.binding(result@[i].0@) == Some(*result@[i].1));
            }
        }
        result
    }
}
} // verus!
