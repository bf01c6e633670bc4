use vstd::prelude::*;
use vstd::string::*;
use crate::ast::{Expr, HookName, TypeExpr};
use crate::error::decimal;
use crate::span::Span;

verus! {

// The text of type expressions, hook names and the values inside them in the form of
// Rust's derived `Debug` (single-line), used in conformance messages.

/// One lowercase hexadecimal digit.
pub open spec fn hex_digit(d: nat) -> Seq<char> {
    if d < 10 {
        decimal(d)
    } else if d == 10 {
        "a"@
    } else if d == 11 {
        "b"@
    } else if d == 12 {
        "c"@
    } else if d == 13 {
        "d"@
    } else if d == 14 {
        "e"@
    } else {
        "f"@
    }
}

/// A number below 256 in lowercase hexadecimal, without leading zeros.
pub open spec fn hex_byte(n: nat) -> Seq<char> {
    if n < 16 {
        hex_digit(n)
    } else {
        hex_digit(n / 16) + hex_digit(n % 16)
    }
}

/// How one character of a string is shown inside its quotes: `\0`, `\t`, `\r`, `\n`,
/// backslash and double quote by their escapes, the other ASCII control characters as
/// `\u{..}`, and every other character as itself.
pub open spec fn escape_char(c: char) -> Seq<char> {
    if c == '\0' {
        "\\0"@
    } else if c == '\t' {
        "\\t"@
    } else if c == '\r' {
        "\\r"@
    } else if c == '\n' {
        "\\n"@
    } else if c == '\\' {
        "\\\\"@
    } else if c == '"' {
        "\\\""@
    } else if (c as int) < 0x20 || c as int == 0x7f {
        "\\u{"@ + hex_byte(c as nat) + "}"@
    } else {
        seq![c]
    }
}

/// The escaped characters of a string, in order.
pub open spec fn escape_chars(s: Seq<char>) -> Seq<char>
    decreases s.len(),
{
    if s.len() == 0 {
        Seq::empty()
    } else {
        escape_chars(s.drop_last()) + escape_char(s.last())
    }
}

/// A string in double quotes with its characters escaped.
pub open spec fn str_debug(s: Seq<char>) -> Seq<char> {
    "\""@ + escape_chars(s) + "\""@
}

/// A signed integer in decimal.
pub open spec fn int_debug(n: int) -> Seq<char> {
    if n < 0 {
        "-"@ + decimal((-n) as nat)
    } else {
        decimal(n as nat)
    }
}

/// A boolean as `true` or `false`.
pub open spec fn bool_debug(b: bool) -> Seq<char> {
    if b {
        "true"@
    } else {
        "false"@
    }
}

/// A source span as `Span { start: .., end: .. }`.
pub open spec fn span_debug(sp: Span) -> Seq<char> {
    "Span { start: "@ + decimal(sp.start as nat) + ", end: "@ + decimal(sp.end as nat) + " }"@
}

/// A surface expression, e.g. `Int(3, Span { start: 0, end: 1 })`.
pub open spec fn expr_debug(e: Expr) -> Seq<char> {
    match e {
        Expr::Int(n, sp) => "Int("@ + int_debug(n as int) + ", "@ + span_debug(sp) + ")"@,
        Expr::Float(b, sp) => "Float("@ + decimal(b as nat) + ", "@ + span_debug(sp) + ")"@,
        Expr::Bool(b, sp) => "Bool("@ + bool_debug(b) + ", "@ + span_debug(sp) + ")"@,
        Expr::Str(s, sp) => "Str("@ + str_debug(s@) + ", "@ + span_debug(sp) + ")"@,
        Expr::Ident(s, sp) => "Ident("@ + str_debug(s@) + ", "@ + span_debug(sp) + ")"@,
    }
}

/// A hook name, e.g. `Named("drop")` or `Op("+")`.
pub open spec fn hook_name_debug(h: HookName) -> Seq<char> {
    match h {
        HookName::Named(s) => "Named("@ + str_debug(s@) + ")"@,
        HookName::Op(s) => "Op("@ + str_debug(s@) + ")"@,
    }
}

/// A type expression in the form of its derived `Debug`, e.g.
/// `Tuple([], Span { start: 0, end: 2 })`.
pub open spec fn type_expr_debug(t: TypeExpr) -> Seq<char>
    decreases t, 0nat, 0int,
{
    match t {
        TypeExpr::Named { name, generics, bindings, span } => "Named { name: "@ + str_debug(name@)
            + ", generics: ["@ + te_list(generics@, generics@.len() as int) + "], bindings: ["@
            + binding_list(bindings@, bindings@.len() as int) + "], span: "@ + span_debug(span) + " }"@,
        TypeExpr::Tuple(v, sp) => "Tuple(["@ + te_list(v@, v@.len() as int) + "], "@ + span_debug(sp)
            + ")"@,
        TypeExpr::Callable { params, ret, span } => "Callable { params: ["@ + te_list(
            params@,
            params@.len() as int,
        ) + "], ret: "@ + type_expr_debug(*ret) + ", span: "@ + span_debug(span) + " }"@,
        TypeExpr::Union(v, sp) => "Union(["@ + te_list(v@, v@.len() as int) + "], "@ + span_debug(sp)
            + ")"@,
        TypeExpr::Ref { inner, mutable, span } => "Ref { inner: "@ + type_expr_debug(*inner)
            + ", mutable: "@ + bool_debug(mutable) + ", span: "@ + span_debug(span) + " }"@,
        TypeExpr::Projection { base, assoc, span } => "Projection { base: "@ + str_debug(base@)
            + ", assoc: "@ + str_debug(assoc@) + ", span: "@ + span_debug(span) + " }"@,
        TypeExpr::GenSplice(e, sp) => "GenSplice("@ + expr_debug(*e) + ", "@ + span_debug(sp) + ")"@,
    }
}

/// The first `n` type expressions, separated by `, `.
pub open spec fn te_list(v: Seq<TypeExpr>, n: int) -> Seq<char>
    decreases v, 0nat, n,
{
    if n <= 0 || n > v.len() {
        Seq::empty()
    } else if n == 1 {
        type_expr_debug(v[0])
    } else {
        te_list(v, n - 1) + ", "@ + type_expr_debug(v[n - 1])
    }
}

/// The first `n` associated-type bindings as `("Name", <type>)`, separated by `, `.
pub open spec fn binding_list(v: Seq<(String, TypeExpr)>, n: int) -> Seq<char>
    decreases v, 0nat, n,
{
    if n <= 0 || n > v.len() {
        Seq::empty()
    } else {
        let item = "("@ + str_debug(v[n - 1].0@) + ", "@ + type_expr_debug(v[n - 1].1) + ")"@;
        if n == 1 {
            item
        } else {
            binding_list(v, n - 1) + ", "@ + item
        }
    }
}

/// Appends a number in decimal.
fn append_u64(s: &mut String, n: u64)
    ensures
        final(s)@ == old(s)@ + decimal(n as nat),
    decreases n,
{
    if n >= 10 {
        append_u64(s, n / 10);
    }
    let d = n % 10;
    let t = if d == 0 {
        "0"
    } else if d == 1 {
        "1"
    } else if d == 2 {
        "2"
    } else if d == 3 {
        "3"
    } else if d == 4 {
        "4"
    } else if d == 5 {
        "5"
    } else if d == 6 {
        "6"
    } else if d == 7 {
        "7"
    } else if d == 8 {
        "8"
    } else {
        "9"
    };
    s.append(t);
    proof {
        reveal_strlit("0");
        reveal_strlit("1");
        reveal_strlit("2");
        reveal_strlit("3");
        reveal_strlit("4");
        reveal_strlit("5");
        reveal_strlit("6");
        reveal_strlit("7");
        reveal_strlit("8");
        reveal_strlit("9");
        assert(t@ == decimal(d as nat));
        if n >= 10 {
            assert(decimal(n as nat) == decimal((n / 10) as nat) + decimal((n % 10) as nat));
        }
    }
}

/// Appends one lowercase hexadecimal digit.
fn append_hex_digit(s: &mut String, d: u32)
    requires
        d < 16,
    ensures
        final(s)@ == old(s)@ + hex_digit(d as nat),
{
    if d < 10 {
        append_u64(s, d as u64);
    } else if d == 10 {
        s.append("a");
    } else if d == 11 {
        s.append("b");
    } else if d == 12 {
        s.append("c");
    } else if d == 13 {
        s.append("d");
    } else if d == 14 {
        s.append("e");
    } else {
        s.append("f");
    }
}

/// Appends the escaped characters of `text`.
fn append_escaped(s: &mut String, text: &str)
    ensures
        final(s)@ == old(s)@ + escape_chars(text@),
{
    let n = text.unicode_len();
    let mut i: usize = 0;
    proof {
        assert(text@.take(0) =~= Seq::<char>::empty());
    }
    while i < n
        invariant
            n == text@.len(),
            i <= n,
            s@ == old(s)@ + escape_chars(text@.take(i as int)),
        decreases n - i,
    {
        let c = text.get_char(i);
        let ghost before = s@;
        if c == '\0' {
            s.append("\\0");
        } else if c == '\t' {
            s.append("\\t");
        } else if c == '\r' {
            s.append("\\r");
        } else if c == '\n' {
            s.append("\\n");
        } else if c == '\\' {
            s.append("\\\\");
        } else if c == '"' {
            s.append("\\\"");
        } else if (c as u32) < 0x20 || (c as u32) == 0x7f {
            s.append("\\u{");
            let v = c as u32;
            if v >= 16 {
                append_hex_digit(s, v / 16);
            }
            append_hex_digit(s, v % 16);
            s.append("}");
        } else {
            s.append(text.substring_char(i, i + 1));
        }
        proof {
            assert(text@.take(i as int + 1).drop_last() =~= text@.take(i as int));
            assert(text@.take(i as int + 1).last() == c);
            assert(s@ =~= before + escape_char(c));
        }
        i += 1;
    }
    proof {
        assert(text@.take(n as int) =~= text@);
    }
}

/// Appends a string in double quotes with its characters escaped.
fn append_str_debug(s: &mut String, text: &str)
    ensures
        final(s)@ == old(s)@ + str_debug(text@),
{
    s.append("\"");
    append_escaped(s, text);
    s.append("\"");
    proof {
        assert(s@ =~= old(s)@ + str_debug(text@));
    }
}

/// Appends a source span.
fn append_span(s: &mut String, sp: Span)
    ensures
        final(s)@ == old(s)@ + span_debug(sp),
{
    s.append("Span { start: ");
    append_u64(s, sp.start as u64);
    s.append(", end: ");
    append_u64(s, sp.end as u64);
    s.append(" }");
    proof {
        assert(s@ =~= old(s)@ + span_debug(sp));
    }
}

/// Appends a boolean.
fn append_bool(s: &mut String, b: bool)
    ensures
        final(s)@ == old(s)@ + bool_debug(b),
{
    if b {
        s.append("true");
    } else {
        s.append("false");
    }
}

/// Appends a signed integer in decimal.
fn append_i64(s: &mut String, n: i64)
    ensures
        final(s)@ == old(s)@ + int_debug(n as int),
{
    if n < 0 {
        s.append("-");
        let m: u64 = if n == i64::MIN {
            0x8000_0000_0000_0000u64
        } else {
            (-n) as u64
        };
        append_u64(s, m);
        proof {
            assert(s@ =~= old(s)@ + int_debug(n as int));
        }
    } else {
        append_u64(s, n as u64);
    }
}

/// Appends a surface expression.
fn append_expr(s: &mut String, e: &Expr)
    ensures
        final(s)@ == old(s)@ + expr_debug(*e),
{
    match e {
        Expr::Int(n, sp) => {
            s.append("Int(");
            append_i64(s, *n);
            s.append(", ");
            append_span(s, *sp);
            s.append(")");
        },
        Expr::Float(b, sp) => {
            s.append("Float(");
            append_u64(s, *b);
            s.append(", ");
            append_span(s, *sp);
            s.append(")");
        },
        Expr::Bool(b, sp) => {
            s.append("Bool(");
            append_bool(s, *b);
            s.append(", ");
            append_span(s, *sp);
            s.append(")");
        },
        Expr::Str(t, sp) => {
            s.append("Str(");
            append_str_debug(s, t.as_str());
            s.append(", ");
            append_span(s, *sp);
            s.append(")");
        },
        Expr::Ident(t, sp) => {
            s.append("Ident(");
            append_str_debug(s, t.as_str());
            s.append(", ");
            append_span(s, *sp);
            s.append(")");
        },
    }
    proof {
        assert(s@ =~= old(s)@ + expr_debug(*e));
    }
}

/// The text of a hook name in the form of its derived `Debug`.
pub fn hook_name_debug_text(h: &HookName) -> (r: String)
    ensures
        r@ == hook_name_debug(*h),
{
    let mut s = String::new();
    match h {
        HookName::Named(t) => {
            s.append("Named(");
            append_str_debug(&mut s, t.as_str());
        },
        HookName::Op(t) => {
            s.append("Op(");
            append_str_debug(&mut s, t.as_str());
        },
    }
    s.append(")");
    proof {
        assert(s@ =~= hook_name_debug(*h));
    }
    s
}

/// Appends a list of type expressions separated by `, `.
fn append_te_list(s: &mut String, v: &Vec<TypeExpr>, Ghost(outer): Ghost<TypeExpr>)
    requires
        decreases_to!(outer => *v),
    ensures
        final(s)@ == old(s)@ + te_list(v@, v@.len() as int),
    decreases outer, 0nat,
{
    let mut i: usize = 0;
    while i < v.len()
        invariant
            i <= v@.len(),
            decreases_to!(outer => *v),
            s@ == old(s)@ + te_list(v@, i as int),
        decreases v@.len() - i,
    {
        let ghost before = s@;
        if i > 0 {
            s.append(", ");
        }
        proof {
            assert(decreases_to!(*v => v@));
            assert(decreases_to!(v@ => v@[i as int]));
            assert(decreases_to!(outer => v@[i as int]));
        }
        append_type_expr(s, &v[i]);
        proof {
            assert(s@ =~= old(s)@ + te_list(v@, i as int + 1));
        }
        i += 1;
    }
}

/// Appends a list of associated-type bindings separated by `, `.
fn append_binding_list(s: &mut String, v: &Vec<(String, TypeExpr)>, Ghost(outer): Ghost<TypeExpr>)
    requires
        decreases_to!(outer => *v),
    ensures
        final(s)@ == old(s)@ + binding_list(v@, v@.len() as int),
    decreases outer, 0nat,
{
    let mut i: usize = 0;
    while i < v.len()
        invariant
            i <= v@.len(),
            decreases_to!(outer => *v),
            s@ == old(s)@ + binding_list(v@, i as int),
        decreases v@.len() - i,
    {
        if i > 0 {
            s.append(", ");
        }
        s.append("(");
        append_str_debug(s, v[i].0.as_str());
        s.append(", ");
        proof {
            assert(decreases_to!(*v => v@));
            assert(decreases_to!(v@ => v@[i as int]));
            assert(decreases_to!(v@[i as int] => v@[i as int].1));
            assert(decreases_to!(outer => v@[i as int].1));
        }
        append_type_expr(s, &v[i].1);
        s.append(")");
        proof {
            assert(s@ =~= old(s)@ + binding_list(v@, i as int + 1));
        }
        i += 1;
    }
}

/// Appends a type expression in the form of its derived `Debug`.
fn append_type_expr(s: &mut String, t: &TypeExpr)
    ensures
        final(s)@ == old(s)@ + type_expr_debug(*t),
    decreases *t, 1nat,
{
    match t {
        TypeExpr::Named { name, generics, bindings, span } => {
            s.append("Named { name: ");
            append_str_debug(s, name.as_str());
            s.append(", generics: [");
            append_te_list(s, generics, Ghost(*t));
            s.append("], bindings: [");
            append_binding_list(s, bindings, Ghost(*t));
            s.append("], span: ");
            append_span(s, *span);
            s.append(" }");
        },
        TypeExpr::Tuple(v, sp) => {
            s.append("Tuple([");
            append_te_list(s, v, Ghost(*t));
            s.append("], ");
            append_span(s, *sp);
            s.append(")");
        },
        TypeExpr::Callable { params, ret, span } => {
            s.append("Callable { params: [");
            append_te_list(s, params, Ghost(*t));
            s.append("], ret: ");
            append_type_expr(s, ret);
            s.append(", span: ");
            append_span(s, *span);
            s.append(" }");
        },
        TypeExpr::Union(v, sp) => {
            s.append("Union([");
            append_te_list(s, v, Ghost(*t));
            s.append("], ");
            append_span(s, *sp);
            s.append(")");
        },
        TypeExpr::Ref { inner, mutable, span } => {
            s.append("Ref { inner: ");
            append_type_expr(s, inner);
            s.append(", mutable: ");
            append_bool(s, *mutable);
            s.append(", span: ");
            append_span(s, *span);
            s.append(" }");
        },
        TypeExpr::Projection { base, assoc, span } => {
            s.append("Projection { base: ");
            append_str_debug(s, base.as_str());
            s.append(", assoc: ");
            append_str_debug(s, assoc.as_str());
            s.append(", span: ");
            append_span(s, *span);
            s.append(" }");
        },
        TypeExpr::GenSplice(e, sp) => {
            s.append("GenSplice(");
            append_expr(s, e);
            s.append(", ");
            append_span(s, *sp);
            s.append(")");
        },
    }
    proof {
        assert(s@ =~= old(s)@ + type_expr_debug(*t));
    }
}

/// The text of a type expression in the form of its derived `Debug`.
pub fn type_expr_debug_text(t: &TypeExpr) -> (r: String)
    ensures
        r@ == type_expr_debug(*t),
{
    let mut s = String::new();
    append_type_expr(&mut s, t);
    assert(s@ =~= type_expr_debug(*t));
    s
}

} // verus!
