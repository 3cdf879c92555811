//! The laws the transformer obeys, each proved once and for all inputs.

use vstd::prelude::*;

use crate::container::{has_marker, ItemV, TestContainerV};
use crate::diagnostic::{missing_marker_diag, DiagnosticKind, DiagnosticV};
use crate::directive::{invocation_tokens, CleanupSpecV};
use crate::rewriter::{
    is_test_function, reconstruction_diags, rewrite_item, rewritten_items,
};
use crate::token::TokenV;
use crate::{marker_diags, transform_diags};

verus! {

/// Every reconstruction diagnostic carries the reconstruction kind.
proof fn lemma_reconstruction_diags_kind(items: Seq<ItemV>)
    ensures
        forall|i: int|
            0 <= i < reconstruction_diags(items).len() ==> (#[trigger] reconstruction_diags(
                items,
            )[i]).kind == DiagnosticKind::ItemReconstructionError,
    decreases items.len(),
{
    if items.len() > 0 {
        lemma_reconstruction_diags_kind(items.drop_last());
    }
}

/// A container without the test-scope marker is reported exactly once: the
/// missing-marker diagnostic stands first, and no other diagnostic of the
/// pass carries that kind. The rewritten item list is unaffected, as the
/// contract of `cleanup` states it for every container, marked or not.
pub proof fn lemma_missing_marker_reported_once(directive: Seq<TokenV>, c: TestContainerV)
    requires
        !has_marker(c),
    ensures
        transform_diags(directive, c).len() >= 1,
        transform_diags(directive, c)[0] == missing_marker_diag(),
        forall|i: int|
            1 <= i < transform_diags(directive, c).len() ==> (#[trigger] transform_diags(
                directive,
                c,
            )[i]).kind != DiagnosticKind::MissingMarkerError,
{
    lemma_reconstruction_diags_kind(c.items);
    assert(marker_diags(c) == seq![missing_marker_diag()]);
}

/// A container with zero test-marked functions passes through structurally
/// unchanged, whatever the directive resolved to, and yields no
/// reconstruction diagnostic: the rewriter is a pure no-op on non-test
/// items.
pub proof fn lemma_no_test_functions_identity(items: Seq<ItemV>, s: CleanupSpecV)
    requires
        forall|i: int| 0 <= i < items.len() ==> !is_test_function(#[trigger] items[i]),
    ensures
        rewritten_items(items, s) == items,
        reconstruction_diags(items) == Seq::<DiagnosticV>::empty(),
    decreases items.len(),
{
    if items.len() == 0 {
        assert(rewritten_items(items, s) =~= items);
        assert(reconstruction_diags(items) =~= Seq::<DiagnosticV>::empty());
    } else {
        assert(forall|i: int|
            0 <= i < items.drop_last().len() ==> !is_test_function(
                #[trigger] items.drop_last()[i],
            ));
        lemma_no_test_functions_identity(items.drop_last(), s);
        assert(!is_test_function(items.last()));
        assert(rewrite_item(items.last(), s) == items.last());
        assert(rewritten_items(items, s) =~= items);
    }
}

/// The transform is not idempotent: rewriting an already rewritten test
/// function appends the invocation statement a second time, so a second
/// pass never returns what the first one produced once the directive
/// resolved. This is the expected behaviour, not a defect.
pub proof fn lemma_rewrite_twice_double_injects(it: ItemV, s: CleanupSpecV)
    requires
        is_test_function(it),
        !(s is Unresolved),
    ensures
        rewrite_item(rewrite_item(it, s), s)->Function_body == it->Function_body
            + invocation_tokens(s) + seq![TokenV::Punct(';')] + invocation_tokens(s)
            + seq![TokenV::Punct(';')],
        rewrite_item(rewrite_item(it, s), s) != rewrite_item(it, s),
{
    let once = rewrite_item(it, s);
    assert(is_test_function(once));
    let twice = rewrite_item(once, s);
    assert(twice->Function_body =~= it->Function_body + invocation_tokens(s) + seq![
        TokenV::Punct(';'),
    ] + invocation_tokens(s) + seq![TokenV::Punct(';')]);
    assert(twice->Function_body.len() > once->Function_body.len());
}

} // verus!
