use kiln::ast::{
    Block, FnDef, GenericParam, GenericParamKind, HookDef, HookName, ImplBlock, ImplKind,
    InterfaceDef, InterfaceItem, InterfaceItemKind, Param, StructDef, TypeExpr, Variance, Field,
    EnumDef,
};
use kiln::conformance::{check_enum_conformance, check_impl_completeness, check_struct_conformance};
use kiln::error::AnalysisError;
use kiln::span::Span;
fn s() -> Span {
    Span { start: 0, end: 0 }
}
fn named(n: &str) -> TypeExpr {
    TypeExpr::Named {
        name: n.into(),
        generics: vec![],
        bindings: vec![],
        span: s(),
    }
}

fn exception_iface() -> InterfaceDef {
    InterfaceDef {
        name: "Exception".into(),
        generic_params: vec![],
        extends: vec![],
        items: vec![InterfaceItem {
            kind: InterfaceItemKind::Field {
                name: "message".into(),
                ty: named("str"),
            },
            span: s(),
        }],
        span: s(),
    }
}

fn addable_iface() -> InterfaceDef {
    InterfaceDef {
        name: "Addable".into(),
        generic_params: vec![],
        extends: vec![],
        items: vec![InterfaceItem {
            kind: InterfaceItemKind::Hook {
                annotations: vec![],
                name: HookName::Op("+".into()),
                params: vec![],
                return_type: None,
                default: None,
            },
            span: s(),
        }],
        span: s(),
    }
}

fn point_struct() -> StructDef {
    StructDef {
        annotations: vec![],
        is_builtin: false,
        name: "Point".into(),
        generic_params: vec![],
        interfaces: vec![named("Addable")],
        fields: vec![],
        methods: vec![],
        decls: vec![],
        inline_hooks: vec![],
        span: s(),
    }
}

fn addable_impl_for_point() -> ImplBlock {
    ImplBlock {
        self_alias: None,
        generic_params: vec![],
        interface: named("Addable"),
        for_type: named("Point"),
        methods: vec![],
        hooks: vec![HookDef {
            annotations: vec![],
            name: HookName::Op("+".into()),
            params: vec![],
            return_type: None,
            body: Block {
                stmts: vec![],
                span: s(),
            },
            span: s(),
        }],
        assoc_bindings: vec![],
        kind: ImplKind::Plain,
        span: s(),
    }
}

#[test]
fn ok_when_required_field_present() {
    let st = StructDef {
        annotations: vec![],
        is_builtin: false,
        name: "ValueError".into(),
        generic_params: vec![],
        interfaces: vec![named("Exception")],
        fields: vec![Field {
            annotations: vec![],
            is_priv: false,
            name: "message".into(),
            ty: named("str"),
            default: None,
            span: s(),
        }],
        methods: vec![],
        decls: vec![],
        inline_hooks: vec![],
        span: s(),
    };
    let mut errs = vec![];
    check_struct_conformance(&st, &[exception_iface()], &[], &mut errs);
    assert!(errs.is_empty(), "{errs:?}");
}

#[test]
fn error_when_required_field_missing() {
    let st = StructDef {
        annotations: vec![],
        is_builtin: false,
        name: "BadError".into(),
        generic_params: vec![],
        interfaces: vec![named("Exception")],
        fields: vec![],
        methods: vec![],
        decls: vec![],
        inline_hooks: vec![],
        span: s(),
    };
    let mut errs = vec![];
    check_struct_conformance(&st, &[exception_iface()], &[], &mut errs);
    assert_eq!(errs.len(), 1);
}

#[test]
fn error_when_required_hook_missing() {
    let st = point_struct();
    let mut errs = vec![];
    check_struct_conformance(&st, &[addable_iface()], &[], &mut errs);
    assert_eq!(errs.len(), 1, "expected one error for missing hook");
    let detail = match &errs[0] {
        AnalysisError::MissingConformance { detail, .. } => detail.clone(),
        _ => panic!("wrong error kind: {:?}", errs[0]),
    };
    assert!(
        detail.contains('+'),
        "detail should mention the hook name: {detail}"
    );
}

#[test]
fn ok_when_required_hook_provided_in_impl_block() {
    let st = point_struct();
    let impl_block = addable_impl_for_point();
    let mut errs = vec![];
    check_struct_conformance(&st, &[addable_iface()], &[impl_block], &mut errs);
    assert!(errs.is_empty(), "{errs:?}");
}

#[test]
fn regression_bug3_hook_conformance_validated() {
    // Bug 3: check_struct_conformance always passed &[] for hooks, so a
    // completely empty impl block would not produce any error for missing hooks.
    let st = point_struct();
    let empty_impl = ImplBlock {
        self_alias: None,
        generic_params: vec![],
        interface: named("Addable"),
        for_type: named("Point"),
        methods: vec![],
        hooks: vec![],
        assoc_bindings: vec![],
        kind: ImplKind::Plain,
        span: s(),
    };
    let mut errs = vec![];
    check_struct_conformance(&st, &[addable_iface()], &[empty_impl], &mut errs);
    assert_eq!(
        errs.len(),
        1,
        "should detect missing hook even in empty impl block"
    );
}

fn printable_iface() -> InterfaceDef {
    InterfaceDef {
        name: "Printable".into(),
        generic_params: vec![],
        extends: vec![],
        items: vec![InterfaceItem {
            kind: InterfaceItemKind::Method(FnDef {
                annotations: vec![],
                name: "print".into(),
                generic_params: vec![],
                params: vec![],
                variadic: None,
                return_type: named("void"),
                throws: false,
                body: Block {
                    stmts: vec![],
                    span: s(),
                },
                is_declaration: false,
                span: s(),
            }),
            span: s(),
        }],
        span: s(),
    }
}

#[test]
fn error_when_impl_block_missing_required_hook() {
    let empty_impl = ImplBlock {
        self_alias: None,
        generic_params: vec![],
        interface: named("Addable"),
        for_type: named("Point"),
        methods: vec![],
        hooks: vec![],
        assoc_bindings: vec![],
        kind: ImplKind::Plain,
        span: s(),
    };
    let mut errs = vec![];
    check_impl_completeness(&empty_impl, &[addable_iface()], &[], &mut errs);
    assert_eq!(
        errs.len(),
        1,
        "expected error for missing hook in impl block"
    );
}

#[test]
fn ok_when_impl_block_has_required_hook() {
    let impl_block = addable_impl_for_point();
    let mut errs = vec![];
    check_impl_completeness(&impl_block, &[addable_iface()], &[], &mut errs);
    assert!(errs.is_empty(), "{errs:?}");
}

#[test]
fn error_when_impl_block_missing_required_method() {
    let empty_impl = ImplBlock {
        self_alias: None,
        generic_params: vec![],
        interface: named("Printable"),
        for_type: named("Point"),
        methods: vec![],
        hooks: vec![],
        assoc_bindings: vec![],
        kind: ImplKind::Plain,
        span: s(),
    };
    let mut errs = vec![];
    check_impl_completeness(&empty_impl, &[printable_iface()], &[], &mut errs);
    assert_eq!(
        errs.len(),
        1,
        "expected error for missing method in impl block"
    );
}

#[test]
fn ok_when_impl_block_has_required_method() {
    let impl_with_method = ImplBlock {
        self_alias: None,
        generic_params: vec![],
        interface: named("Printable"),
        for_type: named("Point"),
        methods: vec![FnDef {
            annotations: vec![],
            name: "print".into(),
            generic_params: vec![],
            params: vec![],
            variadic: None,
            return_type: named("void"),
            throws: false,
            body: Block {
                stmts: vec![],
                span: s(),
            },
            is_declaration: false,
            span: s(),
        }],
        hooks: vec![],
        assoc_bindings: vec![],
        kind: ImplKind::Plain,
        span: s(),
    };
    let mut errs = vec![];
    check_impl_completeness(&impl_with_method, &[printable_iface()], &[], &mut errs);
    assert!(errs.is_empty(), "{errs:?}");
}

#[test]
fn regression_bug4_impl_block_completeness_validated() {
    // Bug 4: impl blocks were type-checked but never validated for completeness
    // against the interface. An empty impl block should error.
    let empty_impl = ImplBlock {
        self_alias: None,
        generic_params: vec![],
        interface: named("Addable"),
        for_type: named("Point"),
        methods: vec![],
        hooks: vec![],
        assoc_bindings: vec![],
        kind: ImplKind::Plain,
        span: s(),
    };
    let mut errs = vec![];
    check_impl_completeness(&empty_impl, &[addable_iface()], &[], &mut errs);
    assert!(
        !errs.is_empty(),
        "empty impl block should fail completeness check"
    );
}

// ---- Binding enforcement tests -------------------------------------------

fn addable_with_iface() -> InterfaceDef {
    // interface AddableWith[Rhs] { type Output; hook +(rhs: Rhs) -> Output }
    InterfaceDef {
        name: "AddableWith".into(),
        generic_params: vec![GenericParam {
            kind: GenericParamKind::Type,
            name: "Rhs".into(),
            variance: Variance::Invariant,
            bounds: vec![],
            span: s(),
        }],
        extends: vec![],
        items: vec![
            InterfaceItem {
                kind: InterfaceItemKind::AssocType {
                    name: "Output".into(),
                    bounds: vec![],
                },
                span: s(),
            },
            InterfaceItem {
                kind: InterfaceItemKind::Hook {
                    annotations: vec![],
                    name: HookName::Op("+".into()),
                    params: vec![Param {
                        name: "rhs".into(),
                        ty: named("Rhs"),
                        mutable: false,
                        span: s(),
                    }],
                    return_type: Some(named("Output")),
                    default: None,
                },
                span: s(),
            },
        ],
        span: s(),
    }
}

fn closed_addable_iface() -> InterfaceDef {
    // interface Addable: AddableWith[Self, Output=Self] { hook +(rhs: Self) -> Self }
    InterfaceDef {
        name: "Addable".into(),
        generic_params: vec![],
        extends: vec![TypeExpr::Named {
            name: "AddableWith".into(),
            generics: vec![named("Self")],
            bindings: vec![("Output".into(), named("Self"))],
            span: s(),
        }],
        items: vec![InterfaceItem {
            kind: InterfaceItemKind::Hook {
                annotations: vec![],
                name: HookName::Op("+".into()),
                params: vec![Param {
                    name: "rhs".into(),
                    ty: named("Self"),
                    mutable: false,
                    span: s(),
                }],
                return_type: Some(named("Self")),
                default: None,
            },
            span: s(),
        }],
        span: s(),
    }
}

fn addable_with_impl_returning(for_ty: &str, ret: &str) -> ImplBlock {
    // impl AddableWith[for_ty] for for_ty { hook +(rhs: for_ty) -> ret {} }
    ImplBlock {
        self_alias: None,
        generic_params: vec![],
        interface: TypeExpr::Named {
            name: "AddableWith".into(),
            generics: vec![named(for_ty)],
            bindings: vec![],
            span: s(),
        },
        for_type: named(for_ty),
        methods: vec![],
        hooks: vec![HookDef {
            annotations: vec![],
            name: HookName::Op("+".into()),
            params: vec![Param {
                name: "rhs".into(),
                ty: named(for_ty),
                mutable: false,
                span: s(),
            }],
            return_type: Some(named(ret)),
            body: Block {
                stmts: vec![],
                span: s(),
            },
            span: s(),
        }],
        assoc_bindings: vec![],
        kind: ImplKind::Plain,
        span: s(),
    }
}

fn addable_impl_for(ty: &str) -> ImplBlock {
    ImplBlock {
        self_alias: None,
        generic_params: vec![],
        interface: named("Addable"),
        for_type: named(ty),
        methods: vec![],
        hooks: vec![HookDef {
            annotations: vec![],
            name: HookName::Op("+".into()),
            params: vec![Param {
                name: "rhs".into(),
                ty: named(ty),
                mutable: false,
                span: s(),
            }],
            return_type: Some(named(ty)),
            body: Block {
                stmts: vec![],
                span: s(),
            },
            span: s(),
        }],
        assoc_bindings: vec![],
        kind: ImplKind::Plain,
        span: s(),
    }
}

// ---- Parent-impl hook merge tests ------------------------------------------

fn with_hook_iface() -> InterfaceDef {
    // interface WithHook { hook do_thing() -> void }
    InterfaceDef {
        name: "WithHook".into(),
        generic_params: vec![],
        extends: vec![],
        items: vec![InterfaceItem {
            kind: InterfaceItemKind::Hook {
                annotations: vec![],
                name: HookName::Named("do_thing".into()),
                params: vec![],
                return_type: None,
                default: None,
            },
            span: s(),
        }],
        span: s(),
    }
}

fn wrapper_iface() -> InterfaceDef {
    // interface Wrapper: WithHook {}
    InterfaceDef {
        name: "Wrapper".into(),
        generic_params: vec![],
        extends: vec![named("WithHook")],
        items: vec![],
        span: s(),
    }
}

fn foo_struct() -> StructDef {
    StructDef {
        annotations: vec![],
        is_builtin: false,
        name: "Foo".into(),
        generic_params: vec![],
        interfaces: vec![named("Wrapper")],
        fields: vec![],
        methods: vec![],
        decls: vec![],
        inline_hooks: vec![],
        span: s(),
    }
}

fn with_hook_impl_for_foo() -> ImplBlock {
    // impl WithHook for Foo { hook do_thing() {} }
    ImplBlock {
        self_alias: None,
        generic_params: vec![],
        interface: named("WithHook"),
        for_type: named("Foo"),
        methods: vec![],
        hooks: vec![HookDef {
            annotations: vec![],
            name: HookName::Named("do_thing".into()),
            params: vec![],
            return_type: None,
            body: Block {
                stmts: vec![],
                span: s(),
            },
            span: s(),
        }],
        assoc_bindings: vec![],
        kind: ImplKind::Plain,
        span: s(),
    }
}

#[test]
fn parent_iface_hooks_satisfied_by_separate_impl() {
    // struct Foo: Wrapper {}  +  impl WithHook for Foo { hook do_thing {} }
    // The hook lives in the parent-interface impl, not the child impl.
    // Conformance check should locate it and pass.
    let st = foo_struct();
    let ifaces = vec![wrapper_iface(), with_hook_iface()];
    let impls = vec![with_hook_impl_for_foo()];
    let mut errs = vec![];
    check_struct_conformance(&st, &ifaces, &impls, &mut errs);
    assert!(
        errs.is_empty(),
        "hook in parent-iface impl should satisfy parent requirement: {errs:?}"
    );
}

#[test]
fn parent_iface_hooks_still_fail_when_missing() {
    // Same setup but no impl at all -- must still error.
    let st = foo_struct();
    let ifaces = vec![wrapper_iface(), with_hook_iface()];
    let mut errs = vec![];
    check_struct_conformance(&st, &ifaces, &[], &mut errs);
    assert!(
        !errs.is_empty(),
        "missing hook should still produce an error"
    );
}

#[test]
fn check_impl_completeness_walks_parent_interfaces() {
    // impl Wrapper for Foo {} -- empty, but Wrapper: WithHook requires do_thing.
    // check_impl_completeness must walk parent interfaces and error when
    // do_thing is not provided in any impl block for Foo.
    let empty_wrapper_impl = ImplBlock {
        self_alias: None,
        generic_params: vec![],
        interface: named("Wrapper"),
        for_type: named("Foo"),
        methods: vec![],
        hooks: vec![],
        assoc_bindings: vec![],
        kind: ImplKind::Plain,
        span: s(),
    };
    let ifaces = vec![wrapper_iface(), with_hook_iface()];
    let mut errs = vec![];
    check_impl_completeness(&empty_wrapper_impl, &ifaces, &[], &mut errs);
    assert!(
        !errs.is_empty(),
        "check_impl_completeness must error when parent-required hook is missing"
    );
}

#[test]
fn check_impl_completeness_walks_parent_interfaces_satisfied_by_separate_impl() {
    // impl Wrapper for Foo {} + impl WithHook for Foo { hook do_thing {} }
    // check_impl_completeness should pass because do_thing exists in another impl.
    let empty_wrapper_impl = ImplBlock {
        self_alias: None,
        generic_params: vec![],
        interface: named("Wrapper"),
        for_type: named("Foo"),
        methods: vec![],
        hooks: vec![],
        assoc_bindings: vec![],
        kind: ImplKind::Plain,
        span: s(),
    };
    let ifaces = vec![wrapper_iface(), with_hook_iface()];
    let impls = vec![with_hook_impl_for_foo()];
    let mut errs = vec![];
    check_impl_completeness(&empty_wrapper_impl, &ifaces, &impls, &mut errs);
    assert!(
        errs.is_empty(),
        "parent hook satisfied by separate impl should pass: {errs:?}"
    );
}

#[test]
fn binding_satisfied_when_output_equals_self() {
    // impl AddableWith[MyNum] for MyNum { hook + -> MyNum } -- Output=MyNum matches Self=MyNum
    let correct_with_impl = addable_with_impl_returning("MyNum", "MyNum");
    let addable_impl = addable_impl_for("MyNum");
    let mut errs = vec![];
    check_impl_completeness(
        &addable_impl,
        &[closed_addable_iface(), addable_with_iface()],
        &[correct_with_impl],
        &mut errs,
    );
    assert!(
        errs.is_empty(),
        "Output=MyNum should satisfy Output=Self for MyNum: {errs:?}"
    );
}

#[test]
fn binding_violated_when_output_differs_from_self() {
    // impl AddableWith[MyNum] for MyNum { hook + -> str } -- Output=str, but Self=MyNum
    let wrong_with_impl = addable_with_impl_returning("MyNum", "str");
    let addable_impl = addable_impl_for("MyNum");
    let mut errs = vec![];
    check_impl_completeness(
        &addable_impl,
        &[closed_addable_iface(), addable_with_iface()],
        &[wrong_with_impl],
        &mut errs,
    );
    assert_eq!(
        errs.len(),
        1,
        "Output=str violates Output=Self for MyNum: {errs:?}"
    );
    let detail = match &errs[0] {
        AnalysisError::MissingConformance { detail, .. } => detail.clone(),
        _ => panic!("wrong error kind: {:?}", errs[0]),
    };
    assert!(
        detail.contains("Output"),
        "error should mention assoc type name: {detail}"
    );
}

fn detail_of(e: &AnalysisError) -> String {
    match e {
        AnalysisError::MissingConformance { detail, .. } => detail.clone(),
        _ => panic!("wrong error kind: {:?}", e),
    }
}

fn eq_iface() -> InterfaceDef {
    InterfaceDef {
        name: "Equatable".into(),
        generic_params: vec![],
        extends: vec![],
        items: vec![InterfaceItem {
            kind: InterfaceItemKind::Hook {
                annotations: vec![],
                name: HookName::Op("==".into()),
                params: vec![Param { name: "rhs".into(), ty: named("Self"), mutable: false, span: s() }],
                return_type: Some(named("bool")),
                default: None,
            },
            span: s(),
        }],
        span: s(),
    }
}

fn eq_impl(params: Vec<Param>, ret: &str) -> ImplBlock {
    ImplBlock {
        self_alias: None,
        generic_params: vec![],
        interface: named("Equatable"),
        for_type: named("Point"),
        methods: vec![],
        hooks: vec![HookDef {
            annotations: vec![],
            name: HookName::Op("==".into()),
            params,
            return_type: Some(named(ret)),
            body: Block { stmts: vec![], span: s() },
            span: s(),
        }],
        assoc_bindings: vec![],
        kind: ImplKind::Plain,
        span: s(),
    }
}

#[test]
fn unknown_declared_interface_is_reported() {
    let mut st = point_struct();
    st.interfaces = vec![named("Nope")];
    let mut errs = vec![];
    check_struct_conformance(&st, &[addable_iface()], &[], &mut errs);
    assert_eq!(errs.len(), 1);
    assert_eq!(detail_of(&errs[0]), "interface not found");
}

#[test]
fn hook_parameter_count_mismatch_is_reported() {
    let ib = eq_impl(vec![], "bool");
    let mut errs = vec![];
    check_impl_completeness(&ib, &[eq_iface()], &[], &mut errs);
    assert_eq!(errs.len(), 1);
    assert_eq!(detail_of(&errs[0]), "hook `==` has 0 parameter(s) but `Equatable` requires 1");
}

#[test]
fn hook_parameter_and_return_type_mismatch_are_reported() {
    let ib = eq_impl(vec![Param { name: "rhs".into(), ty: named("int"), mutable: false, span: s() }], "int");
    let mut errs = vec![];
    check_impl_completeness(&ib, &[eq_iface()], &[], &mut errs);
    assert_eq!(errs.len(), 2);
    assert_eq!(detail_of(&errs[0]), "hook `==` parameter `rhs`: expected `Point`, found `int`");
    assert_eq!(detail_of(&errs[1]), "hook `==` return type: expected `bool`, found `int`");
}

#[test]
fn self_in_impl_matches_interface_self() {
    let ib = eq_impl(vec![Param { name: "rhs".into(), ty: named("Self"), mutable: false, span: s() }], "bool");
    let mut errs = vec![];
    check_impl_completeness(&ib, &[eq_iface()], &[], &mut errs);
    assert!(errs.is_empty(), "{errs:?}");
}

#[test]
fn enum_without_required_hook_is_reported() {
    let en = EnumDef {
        annotations: vec![],
        name: "Color".into(),
        generic_params: vec![],
        interfaces: vec![named("Addable")],
        variants: vec![],
        methods: vec![],
        span: s(),
    };
    let mut errs = vec![];
    check_enum_conformance(&en, &[addable_iface()], &[], &mut errs);
    assert_eq!(errs.len(), 1);
    assert_eq!(detail_of(&errs[0]), "missing required hook `Op(\"+\")`");
}
