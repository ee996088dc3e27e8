//! State of the computed-channel formula editor.

use vstd::prelude::*;

verus! {

/// What checking a formula against the available channels gave: valid, with
/// the preview values it produced on the current file when there were any, or
/// invalid with the reason.
pub enum FormulaCheck<P> {
    Valid { preview: Option<P> },
    Invalid { error: String },
}

/// The formula editor dialog: the template being written, the outcome of
/// the last check and the preview of the formula's values (of type `P`).
pub struct FormulaEditorState<P> {
    pub is_open: bool,
    pub name: String,
    pub formula: String,
    pub unit: String,
    pub description: String,
    pub validation_error: Option<String>,
    pub preview_values: Option<P>,
    pub editing_template_id: Option<String>,
}

impl<P> FormulaEditorState<P> {
    /// Record the check of the current formula: an empty formula clears the
    /// error and the preview; a valid one clears the error and shows the new
    /// preview when there is one, keeping the old one otherwise; an invalid
    /// one shows the error and drops the preview.
    pub fn validate_current_formula(&mut self, check: FormulaCheck<P>)
        ensures
            final(self).is_open == old(self).is_open,
            final(self).name == old(self).name,
            final(self).formula == old(self).formula,
            final(self).unit == old(self).unit,
            final(self).description == old(self).description,
            final(self).editing_template_id == old(self).editing_template_id,
            old(self).formula@.len() == 0 ==> final(self).validation_error is None
                && final(self).preview_values is None,
            old(self).formula@.len() > 0 ==> match check {
                FormulaCheck::Valid { preview } => {
                    &&& final(self).validation_error is None
                    &&& final(self).preview_values == match preview {
                        Some(p) => Some(p),
                        None => old(self).preview_values,
                    }
                },
                FormulaCheck::Invalid { error } => {
                    &&& final(self).validation_error == Some(error)
                    &&& final(self).preview_values is None
                },
            },
    {
        if self.formula.as_str().is_empty() {
            self.validation_error = None;
            self.preview_values = None;
            return;
        }
        match check {
            FormulaCheck::Valid { preview } => {
                self.validation_error = None;
                if let Some(values) = preview {
                    self.preview_values = Some(values);
                }
            },
            FormulaCheck::Invalid { error } => {
                self.validation_error = Some(error);
                self.preview_values = None;
            },
        }
    }

    /// Whether the template may be saved: it has a name and a formula, and the
    /// formula passed its last check.
    pub fn can_save(&self) -> (r: bool)
        ensures
            r == (self.name@.len() > 0 && self.formula@.len() > 0 && self.validation_error is None),
    {
        !self.name.as_str().is_empty() && !self.formula.as_str().is_empty() && self.validation_error.is_none()
    }
}

} // verus!
