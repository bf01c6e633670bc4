use kiln::opt_notes::{change_count, drain_notes, note, reset_changes, set_verbose, OptNotes};

#[test]
fn notes_are_kept_only_when_verbose() {
    let mut st = OptNotes::new();
    note(&mut st, "quiet".to_string());
    assert_eq!(change_count(&st), 1);
    assert!(drain_notes(&mut st).is_empty());
    set_verbose(&mut st, true);
    note(&mut st, "a".to_string());
    note(&mut st, "b".to_string());
    assert_eq!(change_count(&st), 3);
    assert_eq!(drain_notes(&mut st), vec!["a".to_string(), "b".to_string()]);
    assert!(drain_notes(&mut st).is_empty());
    reset_changes(&mut st);
    assert_eq!(change_count(&st), 0);
}
