use vstd::prelude::*;

verus! {

/// Identifier of a nominal type in the type registry.
#[derive(Clone, Copy, Debug, PartialEq, Eq, Structural)]
pub struct TypeId(pub u32);

/// Identifier of an interface in the type registry.
#[derive(Clone, Copy, Debug, PartialEq, Eq, Structural)]
pub struct InterfaceId(pub u32);

/// Semantic types.
#[derive(Debug)]
pub enum Ty {
    Int,
    Float,
    Bool,
    Str,
    Void,
    Unknown,
    Named(TypeId, String, Vec<Ty>),
    GenericParam(String),
    Interface(InterfaceId, String),
    Projection { base: String, assoc: String },
    Compound(Vec<Ty>),
    Tuple(Vec<Ty>),
    Callable(Vec<Ty>, Box<Ty>),
    Union(Vec<Ty>),
    Ref(Box<Ty>, bool),
}

/// The mathematical model of a type: names become character sequences and type
/// lists become sequences of models. Two types are the same exactly when their
/// models are equal.
pub enum TyModel {
    Int,
    Float,
    Bool,
    Str,
    Void,
    Unknown,
    Named(TypeId, Seq<char>, Seq<TyModel>),
    GenericParam(Seq<char>),
    Interface(InterfaceId, Seq<char>),
    Projection(Seq<char>, Seq<char>),
    Compound(Seq<TyModel>),
    Tuple(Seq<TyModel>),
    Callable(Seq<TyModel>, Box<TyModel>),
    Union(Seq<TyModel>),
    Ref(Box<TyModel>, bool),
}

pub open spec fn tys_model(s: Seq<Ty>) -> Seq<TyModel>
    decreases s, 0nat,
{
    if s.len() == 0 {
        Seq::empty()
    } else {
        tys_model(s.drop_last()).push(ty_model(s.last()))
    }
}

pub open spec fn ty_model(t: Ty) -> TyModel
    decreases t, 1nat,
{
    match t {
        Ty::Int => TyModel::Int,
        Ty::Float => TyModel::Float,
        Ty::Bool => TyModel::Bool,
        Ty::Str => TyModel::Str,
        Ty::Void => TyModel::Void,
        Ty::Unknown => TyModel::Unknown,
        Ty::Named(id, n, args) => TyModel::Named(id, n@, tys_model(args@)),
        Ty::GenericParam(n) => TyModel::GenericParam(n@),
        Ty::Interface(id, n) => TyModel::Interface(id, n@),
        Ty::Projection { base, assoc } => TyModel::Projection(base@, assoc@),
        Ty::Compound(v) => TyModel::Compound(tys_model(v@)),
        Ty::Tuple(v) => TyModel::Tuple(tys_model(v@)),
        Ty::Callable(p, r) => TyModel::Callable(tys_model(p@), Box::new(ty_model(*r))),
        Ty::Union(v) => TyModel::Union(tys_model(v@)),
        Ty::Ref(inner, m) => TyModel::Ref(Box::new(ty_model(*inner)), m),
    }
}

/// The model of a type list has one entry per type, the model of that type.
pub proof fn lemma_tys_model_index(s: Seq<Ty>)
    ensures
        tys_model(s).len() == s.len(),
        forall|i: int| 0 <= i < s.len() ==> #[trigger] tys_model(s)[i] == ty_model(s[i]),
    decreases s.len(),
{
    if s.len() > 0 {
        lemma_tys_model_index(s.drop_last());
    }
}

/// Two types are the same type.
pub open spec fn ty_same(a: Ty, b: Ty) -> bool {
    ty_model(a) == ty_model(b)
}

/// Compares two type lists element by element.
pub fn tys_eq(a: &Vec<Ty>, b: &Vec<Ty>) -> (r: bool)
    ensures
        r == (tys_model(a@) == tys_model(b@)),
    decreases a@, 0nat,
{
    proof {
        lemma_tys_model_index(a@);
        lemma_tys_model_index(b@);
    }
    if a.len() != b.len() {
        return false;
    }
    let mut i: usize = 0;
    while i < a.len()
        invariant
            i <= a.len(),
            a.len() == b.len(),
            tys_model(a@).len() == a.len(),
            tys_model(b@).len() == b.len(),
            forall|j: int| 0 <= j < a.len() ==> #[trigger] tys_model(a@)[j] == ty_model(a@[j]),
            forall|j: int| 0 <= j < b.len() ==> #[trigger] tys_model(b@)[j] == ty_model(b@[j]),
            forall|j: int| 0 <= j < i ==> ty_model(a@[j]) == ty_model(b@[j]),
        decreases a.len() - i,
    {
        proof {
            assert(decreases_to!(a@ => a@[i as int]));
        }
        if !ty_eq(&a[i], &b[i]) {
            assert(tys_model(a@)[i as int] != tys_model(b@)[i as int]);
            return false;
        }
        i += 1;
    }
    assert(tys_model(a@) =~= tys_model(b@));
    true
}

/// Compares two types; `true` exactly when they are the same type.
pub fn ty_eq(a: &Ty, b: &Ty) -> (r: bool)
    ensures
        r == ty_same(*a, *b),
    decreases *a, 0nat,
{
    match (a, b) {
        (Ty::Int, Ty::Int) => true,
        (Ty::Float, Ty::Float) => true,
        (Ty::Bool, Ty::Bool) => true,
        (Ty::Str, Ty::Str) => true,
        (Ty::Void, Ty::Void) => true,
        (Ty::Unknown, Ty::Unknown) => true,
        (Ty::Named(i1, n1, a1), Ty::Named(i2, n2, a2)) => {
            i1.0 == i2.0 && *n1 == *n2 && tys_eq(a1, a2)
        },
        (Ty::GenericParam(n1), Ty::GenericParam(n2)) => *n1 == *n2,
        (Ty::Interface(i1, n1), Ty::Interface(i2, n2)) => i1.0 == i2.0 && *n1 == *n2,
        (Ty::Projection { base: b1, assoc: s1 }, Ty::Projection { base: b2, assoc: s2 }) => {
            *b1 == *b2 && *s1 == *s2
        },
        (Ty::Compound(a1), Ty::Compound(a2)) => tys_eq(a1, a2),
        (Ty::Tuple(a1), Ty::Tuple(a2)) => tys_eq(a1, a2),
        (Ty::Callable(p1, r1), Ty::Callable(p2, r2)) => tys_eq(p1, p2) && ty_eq(r1, r2),
        (Ty::Union(a1), Ty::Union(a2)) => tys_eq(a1, a2),
        (Ty::Ref(t1, m1), Ty::Ref(t2, m2)) => *m1 == *m2 && ty_eq(t1, t2),
        _ => false,
    }
}

/// Builds a copy of a type list.
pub fn tys_copy(a: &Vec<Ty>) -> (r: Vec<Ty>)
    ensures
        tys_model(r@) == tys_model(a@),
    decreases a@, 0nat,
{
    proof {
        lemma_tys_model_index(a@);
    }
    let mut out: Vec<Ty> = Vec::new();
    let mut i: usize = 0;
    while i < a.len()
        invariant
            i <= a.len(),
            out.len() == i,
            tys_model(a@).len() == a.len(),
            forall|j: int| 0 <= j < a.len() ==> #[trigger] tys_model(a@)[j] == ty_model(a@[j]),
            forall|j: int| 0 <= j < i ==> ty_model(out@[j]) == ty_model(a@[j]),
        decreases a.len() - i,
    {
        proof {
            assert(decreases_to!(a@ => a@[i as int]));
        }
        let t = ty_copy(&a[i]);
        out.push(t);
        i += 1;
    }
    proof {
        lemma_tys_model_index(out@);
    }
    assert(tys_model(out@) =~= tys_model(a@));
    out
}

/// Builds a copy of a type.
pub fn ty_copy(a: &Ty) -> (r: Ty)
    ensures
        ty_model(r) == ty_model(*a),
    decreases *a, 0nat,
{
    match a {
        Ty::Int => Ty::Int,
        Ty::Float => Ty::Float,
        Ty::Bool => Ty::Bool,
        Ty::Str => Ty::Str,
        Ty::Void => Ty::Void,
        Ty::Unknown => Ty::Unknown,
        Ty::Named(i, n, args) => Ty::Named(*i, n.clone(), tys_copy(args)),
        Ty::GenericParam(n) => Ty::GenericParam(n.clone()),
        Ty::Interface(i, n) => Ty::Interface(*i, n.clone()),
        Ty::Projection { base, assoc } => Ty::Projection { base: base.clone(), assoc: assoc.clone() },
        Ty::Compound(v) => Ty::Compound(tys_copy(v)),
        Ty::Tuple(v) => Ty::Tuple(tys_copy(v)),
        Ty::Callable(p, r) => Ty::Callable(tys_copy(p), Box::new(ty_copy(r))),
        Ty::Union(v) => Ty::Union(tys_copy(v)),
        Ty::Ref(t, m) => Ty::Ref(Box::new(ty_copy(t)), *m),
    }
}

/// How a type is written in messages: the primitives by their names, a named type by
/// its name followed by its arguments in brackets (`Map[str, int]`), a generic
/// parameter or interface by its name, a projection as `Base.Assoc`, a compound bound
/// as `A + B`, a tuple as `(A, B)`, a callable as `fn(A, B) -> R`, a union as `A | B`,
/// a reference as `&T` or `&mut T`, and an unknown type as `unknown`.
pub open spec fn ty_text(t: TyModel) -> Seq<char>
    decreases t, 0nat, 0int,
{
    match t {
        TyModel::Int => "int"@,
        TyModel::Float => "float"@,
        TyModel::Bool => "bool"@,
        TyModel::Str => "str"@,
        TyModel::Void => "void"@,
        TyModel::Unknown => "unknown"@,
        TyModel::Named(_, name, args) => if args.len() == 0 {
            name
        } else {
            name + "["@ + tys_text(args, ", "@, args.len() as int) + "]"@
        },
        TyModel::GenericParam(name) => name,
        TyModel::Interface(_, name) => name,
        TyModel::Projection(base, assoc) => base + "."@ + assoc,
        TyModel::Compound(parts) => tys_text(parts, " + "@, parts.len() as int),
        TyModel::Tuple(parts) => "("@ + tys_text(parts, ", "@, parts.len() as int) + ")"@,
        TyModel::Callable(params, ret) => "fn("@ + tys_text(params, ", "@, params.len() as int)
            + ") -> "@ + ty_text(*ret),
        TyModel::Union(parts) => tys_text(parts, " | "@, parts.len() as int),
        TyModel::Ref(inner, mutable) => (if mutable {
            "&mut "@
        } else {
            "&"@
        }) + ty_text(*inner),
    }
}

/// The first `n` types written out, separated by `sep`.
pub open spec fn tys_text(v: Seq<TyModel>, sep: Seq<char>, n: int) -> Seq<char>
    decreases v, 0nat, n,
{
    if n <= 0 || n > v.len() {
        Seq::empty()
    } else if n == 1 {
        ty_text(v[0])
    } else {
        tys_text(v, sep, n - 1) + sep + ty_text(v[n - 1])
    }
}

/// Appends the types of `v` written out, separated by `sep`.
fn append_tys(s: &mut String, v: &Vec<Ty>, sep: &str, Ghost(outer): Ghost<Ty>)
    requires
        decreases_to!(outer => *v),
    ensures
        final(s)@ == old(s)@ + tys_text(tys_model(v@), sep@, v@.len() as int),
    decreases outer, 0nat,
{
    proof {
        lemma_tys_model_index(v@);
    }
    let ghost m = tys_model(v@);
    let mut i: usize = 0;
    while i < v.len()
        invariant
            i <= v@.len(),
            m == tys_model(v@),
            m.len() == v@.len(),
            forall|j: int| 0 <= j < v@.len() ==> #[trigger] m[j] == ty_model(v@[j]),
            decreases_to!(outer => *v),
            s@ == old(s)@ + tys_text(m, sep@, i as int),
        decreases v@.len() - i,
    {
        if i > 0 {
            s.append(sep);
        }
        proof {
            assert(decreases_to!(*v => v@));
            assert(decreases_to!(v@ => v@[i as int]));
            assert(decreases_to!(outer => v@[i as int]));
        }
        append_ty(s, &v[i]);
        proof {
            assert(m[i as int] == ty_model(v@[i as int]));
            assert(s@ =~= old(s)@ + tys_text(m, sep@, i as int + 1));
        }
        i += 1;
    }
}

/// Appends a type written out as in messages.
fn append_ty(s: &mut String, t: &Ty)
    ensures
        final(s)@ == old(s)@ + ty_text(ty_model(*t)),
    decreases *t, 1nat,
{
    match t {
        Ty::Int => s.append("int"),
        Ty::Float => s.append("float"),
        Ty::Bool => s.append("bool"),
        Ty::Str => s.append("str"),
        Ty::Void => s.append("void"),
        Ty::Unknown => s.append("unknown"),
        Ty::Named(_, name, args) => {
            s.append(name.as_str());
            if args.len() > 0 {
                s.append("[");
                append_tys(s, args, ", ", Ghost(*t));
                s.append("]");
            }
            proof {
                lemma_tys_model_index(args@);
                assert(s@ =~= old(s)@ + ty_text(ty_model(*t)));
            }
        },
        Ty::GenericParam(name) => s.append(name.as_str()),
        Ty::Interface(_, name) => s.append(name.as_str()),
        Ty::Projection { base, assoc } => {
            s.append(base.as_str());
            s.append(".");
            s.append(assoc.as_str());
            assert(s@ =~= old(s)@ + ty_text(ty_model(*t)));
        },
        Ty::Compound(parts) => {
            proof {
                lemma_tys_model_index(parts@);
            }
            append_tys(s, parts, " + ", Ghost(*t));
        },
        Ty::Tuple(parts) => {
            proof {
                lemma_tys_model_index(parts@);
            }
            s.append("(");
            append_tys(s, parts, ", ", Ghost(*t));
            s.append(")");
            assert(s@ =~= old(s)@ + ty_text(ty_model(*t)));
        },
        Ty::Callable(params, ret) => {
            proof {
                lemma_tys_model_index(params@);
            }
            s.append("fn(");
            append_tys(s, params, ", ", Ghost(*t));
            s.append(") -> ");
            append_ty(s, ret);
            assert(s@ =~= old(s)@ + ty_text(ty_model(*t)));
        },
        Ty::Union(parts) => {
            proof {
                lemma_tys_model_index(parts@);
            }
            append_tys(s, parts, " | ", Ghost(*t));
        },
        Ty::Ref(inner, mutable) => {
            if *mutable {
                s.append("&mut ");
            } else {
                s.append("&");
            }
            append_ty(s, inner);
            assert(s@ =~= old(s)@ + ty_text(ty_model(*t)));
        },
    }
    proof {
        assert(s@ =~= old(s)@ + ty_text(ty_model(*t)));
    }
}

/// A type written out as in messages.
pub fn ty_to_string(t: &Ty) -> (r: String)
    ensures
        r@ == ty_text(ty_model(*t)),
{
    let mut s = String::new();
    append_ty(&mut s, t);
    assert(s@ =~= ty_text(ty_model(*t)));
    s
}

} // verus!
