use kiln::env::GenericBound;
use kiln::infer_bounds::minimize_bounds;
use kiln::solve::{ConformanceEntry, TypeRegistry};

fn bound(param: &str, iface: &str) -> GenericBound {
    GenericBound {
        param: param.into(),
        iface: iface.into(),
        assoc_bindings: vec![],
        is_explicit: false,
        decl_span: None,
        source_span: None,
        source_desc: String::new(),
    }
}

#[test]
fn minimize_drops_implied_bound() {
    let mut reg = TypeRegistry::new();
    reg.register_conformance("int", "Ord", ConformanceEntry { bounds: vec![], bindings: vec![] });
    reg.register_interface_supers("Ord", vec!["PartialOrd".to_string()]);
    reg.precompute_transitive_closures();
    let bounds = vec![bound("T", "Ord"), bound("T", "PartialOrd")];
    let minimized = minimize_bounds(bounds, &reg);
    assert_eq!(minimized.len(), 1, "PartialOrd should be dropped: {minimized:?}");
    assert_eq!(minimized[0].iface, "Ord");
}

#[test]
fn minimize_keeps_unrelated_bounds() {
    let reg = TypeRegistry::new();
    let bounds = vec![bound("T", "Addable"), bound("T", "Display")];
    let minimized = minimize_bounds(bounds, &reg);
    assert_eq!(minimized.len(), 2, "both unrelated bounds should be kept: {minimized:?}");
}

#[test]
fn minimize_only_compares_bounds_on_the_same_parameter() {
    let mut reg = TypeRegistry::new();
    reg.register_interface_supers("Ord", vec!["PartialOrd".to_string()]);
    reg.register_interface_supers("PartialOrd", vec!["Eq".to_string()]);
    let bounds = vec![bound("T", "Eq"), bound("U", "Ord"), bound("T", "Ord"), bound("U", "Display")];
    let minimized = minimize_bounds(bounds, &reg);
    let kept: Vec<(String, String)> = minimized.iter().map(|b| (b.param.clone(), b.iface.clone())).collect();
    assert_eq!(kept, vec![("U".into(), "Ord".into()), ("T".into(), "Ord".into()), ("U".into(), "Display".into())]);
}
