//! Diagnostics the transformer accumulates instead of aborting.
//!
//! Every problem found during one transform invocation becomes a
//! [`Diagnostic`] value: a kind, a message, the place it points at, and an
//! optional remediation hint. The canonical value of each diagnostic the
//! transformer can emit is fixed here as a spec function, so every contract
//! can say exactly which diagnostic is produced and when.

use vstd::prelude::*;

verus! {

/// What went wrong.
#[derive(Clone, Copy, Debug, PartialEq, Eq, Structural)]
pub enum DiagnosticKind {
    /// The cleanup directive matches none of the three accepted forms.
    SpecGrammarError,
    /// The container lacks the required test-scope marker attribute.
    MissingMarkerError,
    /// One item could not be re-synthesized after rewriting.
    ItemReconstructionError,
}

/// The place a diagnostic points at.
#[derive(Clone, Copy, Debug, PartialEq, Eq, Structural)]
pub enum Site {
    /// The cleanup directive as a whole.
    Directive,
    /// The container as a whole.
    Container,
    /// The item at this position in the container's item list.
    Item(usize),
}

/// One reported problem. None of them halts the transform.
#[derive(Debug, PartialEq, Eq)]
pub struct Diagnostic {
    pub kind: DiagnosticKind,
    pub message: String,
    pub site: Site,
    pub help: Option<String>,
}

/// The mathematical value of a [`Diagnostic`].
pub struct DiagnosticV {
    pub kind: DiagnosticKind,
    pub message: Seq<char>,
    pub site: Site,
    pub help: Option<Seq<char>>,
}

impl DeepView for Diagnostic {
    type V = DiagnosticV;

    open spec fn deep_view(&self) -> DiagnosticV {
        DiagnosticV {
            kind: self.kind,
            message: self.message@,
            site: self.site,
            help: self.help.deep_view(),
        }
    }
}

/// The diagnostic for a directive that matches none of the accepted forms.
pub open spec fn grammar_error_diag() -> DiagnosticV {
    DiagnosticV {
        kind: DiagnosticKind::SpecGrammarError,
        message: "expected identifier, function call or closure"@,
        site: Site::Directive,
        help: Option::Some(
            "provide an identifier (e.g. clean_up), a function call (e.g. clean_up(10)) or a closure (e.g. || clean_up())"@,
        ),
    }
}

/// The diagnostic for a container without the test-scope marker.
pub open spec fn missing_marker_diag() -> DiagnosticV {
    DiagnosticV {
        kind: DiagnosticKind::MissingMarkerError,
        message: "module should be marked with the `#[cfg(test)]` attribute"@,
        site: Site::Container,
        help: Option::Some("add `#[cfg(test)]` to the module"@),
    }
}

/// The diagnostic for an item that cannot be re-synthesized.
pub open spec fn reconstruction_error_diag(index: int) -> DiagnosticV {
    DiagnosticV {
        kind: DiagnosticKind::ItemReconstructionError,
        message: "item could not be reconstructed"@,
        site: Site::Item(index as usize),
        help: Option::None,
    }
}

impl Diagnostic {
    /// Builds the grammar-failure diagnostic.
    pub fn grammar_error() -> (d: Diagnostic)
        ensures
            d.deep_view() == grammar_error_diag(),
    {
        Diagnostic {
            kind: DiagnosticKind::SpecGrammarError,
            message: "expected identifier, function call or closure".to_owned(),
            site: Site::Directive,
            help: Option::Some(
                "provide an identifier (e.g. clean_up), a function call (e.g. clean_up(10)) or a closure (e.g. || clean_up())".to_owned(),
            ),
        }
    }

    /// Builds the missing-marker diagnostic.
    pub fn missing_marker() -> (d: Diagnostic)
        ensures
            d.deep_view() == missing_marker_diag(),
    {
        Diagnostic {
            kind: DiagnosticKind::MissingMarkerError,
            message: "module should be marked with the `#[cfg(test)]` attribute".to_owned(),
            site: Site::Container,
            help: Option::Some("add `#[cfg(test)]` to the module".to_owned()),
        }
    }

    /// Builds the reconstruction-failure diagnostic for the item at `index`.
    pub fn reconstruction_error(index: usize) -> (d: Diagnostic)
        ensures
            d.deep_view() == reconstruction_error_diag(index as int),
    {
        Diagnostic {
            kind: DiagnosticKind::ItemReconstructionError,
            message: "item could not be reconstructed".to_owned(),
            site: Site::Item(index),
            help: Option::None,
        }
    }
}

} // verus!
