use kiln::error::AnalysisError;
use kiln::span::Span;

fn s() -> Span {
    Span::new(0, 1)
}

#[test]
fn caret_label_type_mismatch() {
    let e = AnalysisError::TypeMismatch {
        expected: "bool".to_string(),
        found: "int".to_string(),
        span: s(),
        decl_span: None,
    };
    assert_eq!(e.caret_label(), Some("expected `bool`".to_string()));
}

#[test]
fn caret_label_undefined_name() {
    let e = AnalysisError::UndefinedName { name: "ghost".to_string(), span: s(), did_you_mean: None };
    assert_eq!(e.caret_label(), Some("`ghost` not found".to_string()));
}

#[test]
fn caret_label_unused_variable() {
    let e = AnalysisError::UnusedVariable { name: "x".to_string(), span: s() };
    assert_eq!(e.caret_label(), Some("`x` unused".to_string()));
}

#[test]
fn caret_label_none_for_non_exhaustive_match() {
    let e = AnalysisError::NonExhaustiveMatch { span: s() };
    assert_eq!(e.caret_label(), None);
}

#[test]
fn arity_message_prints_counts_in_decimal() {
    let e = AnalysisError::ArityMismatch { expected: 120, found: 7, span: s(), fn_span: Some(Span::new(3, 9)) };
    assert_eq!(e.message(), "wrong number of arguments: expected 120, found 7");
    assert_eq!(e.caret_label(), Some("expected 120, found 7".to_string()));
    assert_eq!(e.code(), "E002a");
    assert_eq!(e.kind(), "type error");
    let notes = e.note_info();
    assert_eq!(notes.len(), 1);
    assert_eq!(notes[0].0, "function defined here");
    assert_eq!(notes[0].1, Some(Span::new(3, 9)));
    assert_eq!(e.span(), s());
}

#[test]
fn undefined_name_suggestion_is_in_message_and_notes() {
    let e = AnalysisError::UndefinedName {
        name: "lenght".to_string(),
        span: s(),
        did_you_mean: Some(("length".to_string(), Some(Span::new(4, 10)))),
    };
    assert_eq!(e.message(), "undefined name `lenght` -- did you mean `length`?");
    assert_eq!(e.code(), "E001");
    let notes = e.note_info();
    assert_eq!(notes, vec![("`length` declared here".to_string(), Some(Span::new(4, 10)))]);
}

#[test]
fn warnings_have_warning_kind() {
    let e = AnalysisError::UnreachableCode { span: s(), terminator_span: Span::new(5, 6) };
    assert_eq!(e.kind(), "warning");
    assert_eq!(e.code(), "W007");
    assert_eq!(e.message(), "unreachable statement");
    assert_eq!(e.note_info().len(), 1);
}

#[test]
fn warning_codes_start_with_w_and_codes_differ() {
    let sp = Span { start: 0, end: 1 };
    let errs = vec![
        AnalysisError::DivisionByZero { span: sp },
        AnalysisError::NonExhaustiveMatch { span: sp },
        AnalysisError::TautologicalCondition { span: sp },
        AnalysisError::UnreachableCode { span: sp, terminator_span: sp },
        AnalysisError::ArityMismatch { expected: 1, found: 2, span: sp, fn_span: None },
        AnalysisError::TypeMismatch { expected: "int".to_string(), found: "str".to_string(), span: sp, decl_span: None },
        AnalysisError::UnusedVariable { name: "x".to_string(), span: sp },
    ];
    for e in &errs {
        assert_eq!(e.code().starts_with('W'), e.kind() == "warning");
    }
    for i in 0..errs.len() {
        for j in 0..errs.len() {
            if i != j {
                assert_ne!(errs[i].code(), errs[j].code());
            }
        }
    }
}

#[test]
fn type_mismatch_with_decl_span_produces_note() {
    let decl = Span { start: 1, end: 5 };
    let err = AnalysisError::TypeMismatch {
        expected: "int".into(),
        found: "str".into(),
        span: Span { start: 10, end: 15 },
        decl_span: Some(decl),
    };
    let notes = err.note_info();
    assert!(!notes.is_empty(), "expected notes for TypeMismatch with decl_span");
    assert_eq!(notes[0].0, "expected type declared here");
    assert_eq!(notes[0].1, Some(decl));
}

#[test]
fn type_mismatch_without_decl_span_produces_no_note() {
    let err = AnalysisError::TypeMismatch {
        expected: "int".into(),
        found: "str".into(),
        span: Span { start: 10, end: 15 },
        decl_span: None,
    };
    let notes = err.note_info();
    assert!(notes.is_empty(), "expected no notes for TypeMismatch without decl_span");
}

#[test]
fn arity_mismatch_with_fn_span_produces_note() {
    let fn_span = Span { start: 20, end: 30 };
    let err = AnalysisError::ArityMismatch {
        expected: 2,
        found: 3,
        span: Span { start: 40, end: 50 },
        fn_span: Some(fn_span),
    };
    let notes = err.note_info();
    assert!(!notes.is_empty(), "expected notes for ArityMismatch with fn_span");
    assert_eq!(notes[0].0, "function defined here");
    assert_eq!(notes[0].1, Some(fn_span));
}

#[test]
fn arity_mismatch_without_fn_span_produces_no_note() {
    let err = AnalysisError::ArityMismatch {
        expected: 2,
        found: 3,
        span: Span { start: 40, end: 50 },
        fn_span: None,
    };
    let notes = err.note_info();
    assert!(notes.is_empty(), "expected no notes for ArityMismatch without fn_span");
}

#[test]
fn missing_conformance_with_iface_span_produces_note() {
    let iface_span = Span { start: 5, end: 10 };
    let err = AnalysisError::MissingConformance {
        ty: "MyStruct".into(),
        iface: "Addable".into(),
        detail: "missing required hook `+`".into(),
        span: Span { start: 50, end: 60 },
        iface_span: Some(iface_span),
    };
    let notes = err.note_info();
    assert!(!notes.is_empty(), "expected notes for MissingConformance with iface_span");
    assert_eq!(notes[0].0, "interface required here");
    assert_eq!(notes[0].1, Some(iface_span));
}

#[test]
fn missing_conformance_without_iface_span_produces_no_note() {
    let err = AnalysisError::MissingConformance {
        ty: "MyStruct".into(),
        iface: "Addable".into(),
        detail: "missing required hook `+`".into(),
        span: Span { start: 50, end: 60 },
        iface_span: None,
    };
    let notes = err.note_info();
    assert!(notes.is_empty(), "expected no notes for MissingConformance without iface_span");
}
