//! A compile-time source transformer for test containers.
//!
//! Given a module-like container of items and a cleanup directive written as
//! a raw token sequence, the transformer rewrites every test-marked function
//! so that its body ends with an invocation of the requested cleanup
//! operation. Everything else in the container passes through unchanged, and
//! every problem found on the way is reported as a diagnostic value rather
//! than aborting the transform.

pub mod container;
pub mod diagnostic;
pub mod directive;
pub mod laws;
pub mod rewriter;
pub mod token;

use vstd::prelude::*;

use crate::container::{assert_test_mod, has_marker, TestContainer, TestContainerV};
use crate::diagnostic::{grammar_error_diag, missing_marker_diag, Diagnostic, DiagnosticV};
use crate::directive::{resolve, CleanupSpec};
use crate::rewriter::{clean, reconstruction_diags, rewritten_items};
use crate::token::{lemma_vec_append_deep_view, lemma_vec_push_deep_view, Token, TokenV};

verus! {

/// The marker diagnostics of one invocation: one missing-marker report when
/// the container lacks the test-scope marker, none otherwise.
pub open spec fn marker_diags(c: TestContainerV) -> Seq<DiagnosticV> {
    if has_marker(c) {
        Seq::empty()
    } else {
        seq![missing_marker_diag()]
    }
}

/// The grammar diagnostics of one invocation: one report when the directive
/// matches none of the three accepted forms, none otherwise.
pub open spec fn grammar_diags(directive: Seq<TokenV>) -> Seq<DiagnosticV> {
    if resolve(directive) is Unresolved {
        seq![grammar_error_diag()]
    } else {
        Seq::empty()
    }
}

/// Every diagnostic of one invocation, in the order reported: the marker
/// check first, then the directive grammar, then one report per item that
/// could not be re-synthesized.
pub open spec fn transform_diags(directive: Seq<TokenV>, c: TestContainerV) -> Seq<DiagnosticV> {
    marker_diags(c) + grammar_diags(directive) + reconstruction_diags(c.items)
}

/// The whole transform: resolves the directive by ordered trial-parsing,
/// checks the container for the test-scope marker, rewrites every
/// test-marked function to end with the injected invocation, and returns
/// the rewritten container together with every diagnostic of the pass.
/// No failure aborts it: the output is always as complete as possible.
pub fn cleanup(directive: &Vec<Token>, container: TestContainer) -> (r: (
    TestContainer,
    Vec<Diagnostic>,
))
    ensures
        r.0.deep_view().attrs == container.deep_view().attrs,
        r.0.deep_view().items == rewritten_items(
            container.deep_view().items,
            resolve(directive.deep_view()),
        ),
        r.1.deep_view() == transform_diags(directive.deep_view(), container.deep_view()),
{
    let ghost cv = container.deep_view();
    let ghost dv = directive.deep_view();
    let mut diags: Vec<Diagnostic> = Vec::new();
    match assert_test_mod(&container) {
        Option::Some(d) => {
            let ghost pre = diags;
            let ghost pushed = d;
            diags.push(d);
            proof {
                lemma_vec_push_deep_view(pre, diags, pushed);
                assert(diags.deep_view() =~= marker_diags(cv));
            }
        },
        Option::None => {
            proof {
                assert(diags.deep_view() =~= marker_diags(cv));
            }
        },
    }
    let (cs, grammar_diag) = CleanupSpec::parse(directive);
    match grammar_diag {
        Option::Some(d) => {
            let ghost pre = diags;
            let ghost pushed = d;
            diags.push(d);
            proof {
                lemma_vec_push_deep_view(pre, diags, pushed);
                assert(diags.deep_view() =~= marker_diags(cv) + grammar_diags(dv));
            }
        },
        Option::None => {
            proof {
                assert(diags.deep_view() =~= marker_diags(cv) + grammar_diags(dv));
            }
        },
    }
    let (rewritten, mut recon) = clean(container, &cs);
    let ghost pre = diags;
    let ghost other = recon;
    diags.append(&mut recon);
    proof {
        lemma_vec_append_deep_view(pre, diags, other);
        assert(diags.deep_view() =~= transform_diags(dv, cv));
    }
    (rewritten, diags)
}

} // verus!
