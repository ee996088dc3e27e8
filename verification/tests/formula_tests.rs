use snowlv::formula::{FormulaCheck, FormulaEditorState};

fn state(formula: &str) -> FormulaEditorState<Vec<u32>> {
    FormulaEditorState {
        is_open: true,
        name: "Boost".to_string(),
        formula: formula.to_string(),
        unit: String::new(),
        description: String::new(),
        validation_error: None,
        preview_values: Some(vec![1, 2]),
        editing_template_id: None,
    }
}

#[test]
fn empty_formula_clears_error_and_preview() {
    let mut s = state("");
    s.validation_error = Some("old".to_string());
    s.validate_current_formula(FormulaCheck::Invalid { error: "ignored".to_string() });
    assert_eq!(s.validation_error, None);
    assert_eq!(s.preview_values, None);
}

#[test]
fn valid_formula_shows_new_preview() {
    let mut s = state("MAP - 100");
    s.validation_error = Some("old".to_string());
    s.validate_current_formula(FormulaCheck::Valid { preview: Some(vec![7]) });
    assert_eq!(s.validation_error, None);
    assert_eq!(s.preview_values, Some(vec![7]));
}

#[test]
fn valid_formula_without_preview_keeps_the_old_one() {
    let mut s = state("MAP - 100");
    s.validate_current_formula(FormulaCheck::Valid { preview: None });
    assert_eq!(s.preview_values, Some(vec![1, 2]));
}

#[test]
fn invalid_formula_shows_error_and_drops_preview() {
    let mut s = state("MAP +");
    s.validate_current_formula(FormulaCheck::Invalid { error: "unexpected end".to_string() });
    assert_eq!(s.validation_error, Some("unexpected end".to_string()));
    assert_eq!(s.preview_values, None);
    assert!(!s.can_save());
}

#[test]
fn can_save_needs_name_formula_and_no_error() {
    let mut s = state("MAP - 100");
    assert!(s.can_save());
    s.name.clear();
    assert!(!s.can_save());
    let t = state("");
    assert!(!t.can_save());
}
