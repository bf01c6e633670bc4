use kiln::ast::HookName;
use kiln::purity::{build_impure_set, tag_impure_functions};
use kiln::span::Span;
use kiln::ty::Ty;
use kiln::typed_ast::{
    TypedBlock, TypedExpr, TypedExprKind, TypedFile, TypedFnDef, TypedHookDef, TypedImplBlock,
    TypedItem, TypedStmt,
};

fn s() -> Span {
    Span { start: 0, end: 0 }
}

fn call(name: &str) -> TypedStmt {
    TypedStmt::Expr(TypedExpr {
        kind: TypedExprKind::Call {
            callee: Box::new(TypedExpr { kind: TypedExprKind::Ident(name.into()), ty: Ty::Void, span: s() }),
            args: vec![],
            fn_name: name.into(),
            generic_bounds: vec![],
            generic_params: vec![],
            param_tys: vec![],
        },
        ty: Ty::Void,
        span: s(),
    })
}

fn func(name: &str, body: Vec<TypedStmt>, is_impure: bool) -> TypedFnDef {
    TypedFnDef {
        name: name.into(),
        params: vec![],
        variadic: None,
        return_type: Ty::Void,
        body: TypedBlock { stmts: body, span: s() },
        is_builtin: false,
        is_inline: false,
        is_declaration: false,
        is_entry: false,
        is_impure,
        span: s(),
    }
}

fn sorted(mut v: Vec<String>) -> Vec<String> {
    v.sort();
    v
}

fn sample_file() -> TypedFile {
    let hook = TypedHookDef {
        is_static: false,
        is_impure: false,
        name: HookName::Op("+".into()),
        params: vec![],
        return_type: Ty::Void,
        body: TypedBlock { stmts: vec![call("caller")], span: s() },
        span: s(),
    };
    TypedFile {
        items: vec![
            TypedItem::Function(func("io", vec![], true)),
            TypedItem::Function(func("caller", vec![call("io")], false)),
            TypedItem::Function(func("indirect", vec![call("caller")], false)),
            TypedItem::Function(func("pure", vec![call("helper")], false)),
            TypedItem::Function(func("helper", vec![], false)),
            TypedItem::ImplBlock(TypedImplBlock {
                interface: "Addable".into(),
                for_type: "P".into(),
                for_type_ty: Ty::Unknown,
                methods: vec![],
                hooks: vec![hook],
                span: s(),
            }),
        ],
        span: s(),
    }
}

#[test]
fn impurity_spreads_to_callers_transitively() {
    let set = sorted(build_impure_set(&sample_file()));
    assert_eq!(
        set,
        vec!["__hook_op_+".to_string(), "caller".to_string(), "indirect".to_string(), "io".to_string()]
    );
}

#[test]
fn tagging_marks_functions_and_hooks() {
    let file = sample_file();
    let set = build_impure_set(&file);
    let tagged = tag_impure_functions(file, &set);
    let flags: Vec<bool> = tagged
        .items
        .iter()
        .map(|it| match it {
            TypedItem::Function(f) => f.is_impure,
            TypedItem::ImplBlock(ib) => ib.hooks[0].is_impure,
            _ => false,
        })
        .collect();
    assert_eq!(flags, vec![true, true, true, false, false, true]);
}

#[test]
fn spawn_is_impure_without_any_seed() {
    let spawn = TypedStmt::Expr(TypedExpr {
        kind: TypedExprKind::Spawn(Box::new(TypedExpr { kind: TypedExprKind::Int(1), ty: Ty::Int, span: s() })),
        ty: Ty::Void,
        span: s(),
    });
    let file = TypedFile { items: vec![TypedItem::Function(func("t", vec![spawn], false))], span: s() };
    assert_eq!(build_impure_set(&file), vec!["t".to_string()]);
}
