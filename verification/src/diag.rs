//! Structured diagnostics: every user-visible failure report carries the
//! action being attempted, the entity it concerned, and the cause.

use vstd::prelude::*;

verus! {

/// One user-visible failure report. The library only produces these;
/// rendering them on the terminal is the caller's business.
pub struct Diagnostic {
    pub action: String,
    pub subject: String,
    pub cause: String,
}

/// The mathematical content of a [`Diagnostic`].
#[verifier::ext_equal]
pub ghost struct DiagnosticModel {
    pub action: Seq<char>,
    pub subject: Seq<char>,
    pub cause: Seq<char>,
}

impl View for Diagnostic {
    type V = DiagnosticModel;

    open spec fn view(&self) -> DiagnosticModel {
        DiagnosticModel { action: self.action@, subject: self.subject@, cause: self.cause@ }
    }
}

/// The models of a sequence of diagnostics, in order.
pub open spec fn diagnostic_models(diagnostics: Seq<Diagnostic>) -> Seq<DiagnosticModel> {
    Seq::new(diagnostics.len(), |i: int| diagnostics[i]@)
}

impl Diagnostic {
    /// Builds a diagnostic from its three parts.
    pub fn new(action: String, subject: String, cause: String) -> (diagnostic: Diagnostic)
        ensures
            diagnostic@ == (DiagnosticModel { action: action@, subject: subject@, cause: cause@ }),
    {
        Diagnostic { action, subject, cause }
    }
}

} // verus!
