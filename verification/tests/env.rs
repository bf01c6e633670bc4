use kiln::env::{Env, Symbol};
use kiln::span::Span;
use kiln::ty::Ty;

fn s() -> Span {
    Span { start: 0, end: 0 }
}

fn var(ty: Ty) -> Symbol {
    Symbol::Var { ty, mutable: false, span: s() }
}

#[test]
fn lookup_finds_current_scope() {
    let mut env = Env::new();
    env.push_scope();
    env.define("x", var(Ty::Int));
    assert!(matches!(env.lookup("x"), Some(Symbol::Var { ty: Ty::Int, .. })));
    env.pop_scope();
}

#[test]
fn lookup_finds_outer_scope() {
    let mut env = Env::new();
    env.push_scope();
    env.define("x", var(Ty::Int));
    env.push_scope();
    assert!(env.lookup("x").is_some());
    env.pop_scope();
    env.pop_scope();
}

#[test]
fn would_shadow_detects_outer_binding() {
    let mut env = Env::new();
    env.push_scope();
    env.define("x", var(Ty::Int));
    env.push_scope();
    assert!(env.would_shadow("x"));
    assert!(!env.would_shadow("y"));
    env.pop_scope();
    env.pop_scope();
}

#[test]
fn inner_definition_shadows_and_pop_restores() {
    let mut env = Env::new();
    env.push_scope();
    env.define("x", var(Ty::Int));
    env.push_scope();
    env.define("x", var(Ty::Bool));
    assert!(matches!(env.lookup("x"), Some(Symbol::Var { ty: Ty::Bool, .. })));
    assert!(env.lookup_in_current_scope("x").is_some());
    env.pop_scope();
    assert!(matches!(env.lookup("x"), Some(Symbol::Var { ty: Ty::Int, .. })));
}

#[test]
fn redefinition_replaces_in_same_scope() {
    let mut env = Env::new();
    env.push_scope();
    env.define("x", var(Ty::Int));
    env.define("x", Symbol::Var { ty: Ty::Str, mutable: true, span: Span::new(4, 5) });
    let vars = env.current_scope_vars();
    assert_eq!(vars.len(), 1);
    assert_eq!(vars[0], ("x".to_string(), true, Span::new(4, 5)));
    assert_eq!(env.span_of("x"), Some(Span::new(4, 5)));
}

#[test]
fn define_without_scope_is_ignored() {
    let mut env = Env::new();
    env.define("x", var(Ty::Int));
    assert!(env.lookup("x").is_none());
}

#[test]
fn underscored_and_non_variable_names_are_not_scope_vars() {
    let mut env = Env::new();
    env.push_scope();
    env.define("_tmp", var(Ty::Int));
    env.define("T", Symbol::TypeAlias(Ty::Int));
    env.define("y", var(Ty::Int));
    let vars = env.current_scope_vars();
    assert_eq!(vars.len(), 1);
    assert_eq!(vars[0].0, "y");
    assert_eq!(env.span_of("T"), None);
}

#[test]
fn projection_pins_resolve_innermost_first() {
    let mut env = Env::new();
    env.push_scope();
    env.pin_projection("T", "Item", Ty::Int);
    env.push_scope();
    assert!(matches!(env.resolve_projection("T", "Item"), Some(Ty::Int)));
    env.pin_projection("T", "Item", Ty::Str);
    assert!(matches!(env.resolve_projection("T", "Item"), Some(Ty::Str)));
    assert!(env.resolve_projection("T", "Key").is_none());
    let pins = env.get_active_pins();
    assert_eq!(pins.len(), 2);
    env.pop_scope();
    assert!(matches!(env.resolve_projection("T", "Item"), Some(Ty::Int)));
}

#[test]
fn param_ifaces_merge_scopes_without_duplicates() {
    let mut env = Env::new();
    env.push_scope();
    env.register_param_iface("T", "Eq");
    env.push_scope();
    env.register_param_iface("T", "Hash");
    env.register_param_iface("T", "Eq");
    env.register_param_iface("U", "Ord");
    assert_eq!(env.get_param_ifaces("T"), vec!["Eq".to_string(), "Hash".to_string()]);
    assert_eq!(env.get_param_ifaces("U"), vec!["Ord".to_string()]);
    assert!(env.get_param_ifaces("V").is_empty());
}

#[test]
fn all_names_lists_each_visible_name_once_innermost_first() {
    let mut env = Env::new();
    env.push_scope();
    env.define("a", var(Ty::Int));
    env.define("_hidden", var(Ty::Int));
    env.define("shared", var(Ty::Int));
    env.push_scope();
    env.define("shared", var(Ty::Bool));
    env.define("field", Symbol::StructField { ty: Ty::Int });
    env.define("b", var(Ty::Int));
    let names = env.all_names();
    assert_eq!(names, vec!["shared", "b", "a"]);
}

#[test]
fn all_names_of_empty_env_is_empty() {
    let env = Env::new();
    assert!(env.all_names().is_empty());
}

#[test]
fn push_then_pop_leaves_bindings_unchanged() {
    let mut env = Env::new();
    env.push_scope();
    env.define("x", var(Ty::Int));
    env.push_scope();
    env.define("x", var(Ty::Bool));
    env.define("y", var(Ty::Int));
    env.pop_scope();
    assert!(matches!(env.lookup("x"), Some(Symbol::Var { ty: Ty::Int, .. })));
    assert!(env.lookup("y").is_none());
}

#[test]
fn global_scope_symbols_innermost_binding_wins() {
    let mut env = Env::new();
    env.push_scope();
    env.define("x", var(Ty::Int));
    env.define("_y", var(Ty::Int));
    env.push_scope();
    env.define("x", var(Ty::Bool));
    let syms = env.get_global_scope_symbols();
    assert_eq!(syms.len(), 2);
    assert_eq!(syms[0].0, "x");
    assert!(matches!(syms[0].1, Symbol::Var { ty: Ty::Bool, .. }));
    assert_eq!(syms[1].0, "_y");
}

#[test]
fn closing_scope_forgets_pins_and_bounds() {
    let mut env = Env::new();
    env.push_scope();
    env.define("x", var(Ty::Int));
    env.pin_projection("T", "Item", Ty::Int);
    env.register_param_iface("T", "Eq");
    env.push_scope();
    env.define("x", var(Ty::Bool));
    env.pin_projection("T", "Item", Ty::Str);
    env.pin_projection("U", "Item", Ty::Bool);
    env.register_param_iface("T", "Ord");
    env.register_param_iface("U", "Hash");
    assert_eq!(env.get_param_ifaces("T"), vec!["Eq".to_string(), "Ord".to_string()]);
    env.pop_scope();
    assert!(matches!(env.lookup("x"), Some(Symbol::Var { ty: Ty::Int, .. })));
    assert!(matches!(env.resolve_projection("T", "Item"), Some(Ty::Int)));
    assert!(env.resolve_projection("U", "Item").is_none());
    assert_eq!(env.get_param_ifaces("T"), vec!["Eq".to_string()]);
    assert!(env.get_param_ifaces("U").is_empty());
}

#[test]
fn fresh_env_has_no_pins_or_bounds() {
    let env = Env::new();
    assert!(env.resolve_projection("T", "Item").is_none());
    assert!(env.get_param_ifaces("T").is_empty());
}

#[test]
fn lookup_mut_changes_the_innermost_binding() {
    let mut env = Env::new();
    env.push_scope();
    env.define("x", var(Ty::Int));
    env.push_scope();
    env.define("x", var(Ty::Bool));
    env.define("y", var(Ty::Int));
    match env.lookup_mut("x") {
        Some(sym) => *sym = var(Ty::Str),
        None => panic!("x is bound"),
    }
    assert!(env.lookup_mut("z").is_none());
    assert!(matches!(env.lookup("x"), Some(Symbol::Var { ty: Ty::Str, .. })));
    assert!(matches!(env.lookup("y"), Some(Symbol::Var { ty: Ty::Int, .. })));
    env.pop_scope();
    assert!(matches!(env.lookup("x"), Some(Symbol::Var { ty: Ty::Int, .. })));
}
