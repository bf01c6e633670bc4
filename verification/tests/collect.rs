use kiln::ast::{
    ImportDecl,
    Block, EnumDef, EnumVariant, FnDef, InterfaceDef, InterfaceItem, InterfaceItemKind, Item,
    SourceFile, StructDef, TypeAliasDef, TypeExpr,
};
use kiln::collect::collect_top_level;
use kiln::imports::{import_file_path, import_module_key, next_import_file};
use kiln::env::{Env, Symbol};
use kiln::error::AnalysisError;
use kiln::solve::{TypeKind, TypeRegistry};
use kiln::span::Span;
use kiln::ty::Ty;

fn s() -> Span {
    Span { start: 0, end: 0 }
}

fn make_struct(name: &str) -> Item {
    Item::Struct(StructDef {
        annotations: vec![],
        is_builtin: false,
        name: name.to_string(),
        generic_params: vec![],
        interfaces: vec![],
        fields: vec![],
        methods: vec![],
        decls: vec![],
        inline_hooks: vec![],
        span: s(),
    })
}

fn make_fn(name: &str, span: Span) -> Item {
    Item::Function(FnDef {
        annotations: vec![],
        name: name.into(),
        generic_params: vec![],
        params: vec![],
        variadic: None,
        return_type: TypeExpr::Named { name: "int".into(), generics: vec![], bindings: vec![], span: s() },
        throws: false,
        body: Block { stmts: vec![], span: s() },
        is_declaration: false,
        span,
    })
}

#[test]
fn collects_struct_and_function() {
    let source = SourceFile { items: vec![make_struct("Point"), make_fn("add", s())], span: s() };
    let mut env = Env::new();
    let mut reg = TypeRegistry::new();
    let errors = collect_top_level(&source, &mut env, &mut reg);
    assert!(errors.is_empty(), "{errors:?}");
    assert!(env.lookup("Point").is_some());
    assert!(env.lookup("add").is_some());
}

#[test]
fn duplicate_name_is_error() {
    let source = SourceFile { items: vec![make_struct("Foo"), make_struct("Foo")], span: s() };
    let mut env = Env::new();
    let mut reg = TypeRegistry::new();
    let errors = collect_top_level(&source, &mut env, &mut reg);
    assert_eq!(errors.len(), 1);
}

#[test]
fn overloads_are_kept_and_other_clashes_reported() {
    let source = SourceFile {
        items: vec![
            make_fn("f", Span { start: 1, end: 2 }),
            make_fn("f", Span { start: 3, end: 4 }),
            make_struct("f"),
            make_struct("S"),
            make_fn("S", Span { start: 5, end: 6 }),
            make_fn("outer", Span { start: 7, end: 8 }),
        ],
        span: s(),
    };
    let mut env = Env::new();
    env.push_scope();
    env.define("outer", Symbol::Var { ty: Ty::Int, mutable: false, span: s() });
    let mut reg = TypeRegistry::new();
    let errors = collect_top_level(&source, &mut env, &mut reg);
    let names: Vec<(String, Span)> = errors
        .iter()
        .map(|e| match e {
            AnalysisError::DuplicateName { name, span } => (name.clone(), *span),
            _ => panic!("unexpected error"),
        })
        .collect();
    assert_eq!(names, vec![("f".to_string(), s()), ("S".to_string(), Span { start: 5, end: 6 }), ("outer".to_string(), Span { start: 7, end: 8 })]);
    assert!(matches!(env.lookup_in_current_scope("f"), Some(Symbol::Fn { .. })));
    assert_eq!(reg.types.len(), 1);
    env.pop_scope();
    assert!(env.lookup("S").is_none());
    assert!(matches!(env.lookup("outer"), Some(Symbol::Var { .. })));
}

#[test]
fn types_and_interfaces_get_ids_in_order() {
    let source = SourceFile {
        items: vec![
            make_struct("A"),
            Item::Interface(InterfaceDef {
                name: "I".into(),
                generic_params: vec![],
                extends: vec![],
                items: vec![InterfaceItem { kind: InterfaceItemKind::AssocType { name: "Item".into(), bounds: vec![] }, span: s() }],
                span: s(),
            }),
            Item::Enum(EnumDef {
                annotations: vec![],
                name: "E".into(),
                generic_params: vec![],
                interfaces: vec![],
                variants: vec![EnumVariant { name: "X".into(), fields: vec![], span: s() }],
                methods: vec![],
                span: s(),
            }),
            Item::TypeAlias(TypeAliasDef { name: "T".into(), ty: TypeExpr::Tuple(vec![], s()), span: s() }),
        ],
        span: s(),
    };
    let mut env = Env::new();
    let mut reg = TypeRegistry::new();
    assert!(collect_top_level(&source, &mut env, &mut reg).is_empty());
    assert!(matches!(env.lookup("A"), Some(Symbol::Type { id, .. }) if id.0 == 0));
    assert!(matches!(env.lookup("E"), Some(Symbol::Type { id, .. }) if id.0 == 1));
    assert!(matches!(env.lookup("T"), Some(Symbol::Type { id, .. }) if id.0 == 2));
    match env.lookup("I") {
        Some(Symbol::Iface { id, assoc_types, .. }) => {
            assert_eq!(id.0, 0);
            assert_eq!(assoc_types, &vec!["Item".to_string()]);
        }
        _ => panic!("I is an interface"),
    }
    assert!(matches!(&reg.types[1].2, TypeKind::Enum { variant_names } if variant_names == &vec!["X".to_string()]));
}

#[test]
fn import_files_skip_stdlib_and_seen_files() {
    use_imports();
}

fn use_imports() {
    let imp = |parts: &[&str]| ImportDecl { path: parts.iter().map(|p| p.to_string()).collect(), span: s() };
    let base = vec!["proj".to_string(), "src".to_string()];
    let keys = vec!["std.io".to_string()];
    assert_eq!(import_module_key(&imp(&["std", "io"])), "std.io");
    assert!(next_import_file(&imp(&["std", "io"]), &base, &keys, &vec![]).is_none());
    let f = next_import_file(&imp(&["util", "math"]), &base, &keys, &vec![]).unwrap();
    assert_eq!(f, vec!["proj", "src", "util", "math.kn"]);
    assert_eq!(import_file_path(&base, &imp(&["a.b"])), vec!["proj", "src", "a.kn"]);
    assert!(next_import_file(&imp(&["util", "math"]), &base, &keys, &vec![f.clone()]).is_none());
    let p = std::path::Path::new("proj/src/util").join("math").with_extension("kn");
    let parts: Vec<String> = p.iter().map(|c| c.to_string_lossy().into_owned()).collect();
    assert_eq!(parts, f);
}
