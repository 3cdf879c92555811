//! The container rewriter.
//!
//! Given the resolved cleanup directive and the container's item list, the
//! rewriter walks the items in order. A function carrying the `test` marker
//! attribute gets the injected invocation appended to its body, with its
//! attributes, visibility and signature preserved verbatim; every other item
//! passes through unchanged. A test function whose structure cannot be
//! re-synthesized is dropped, with one diagnostic scoped to it, and the rest
//! of the container is still processed.

use vstd::prelude::*;

use crate::container::{Attr, AttrV, Item, ItemV, TestContainer};
use crate::diagnostic::{reconstruction_error_diag, Diagnostic, DiagnosticV};
use crate::directive::{invocation_tokens, CleanupSpec, CleanupSpecV};
use crate::token::{lemma_vec_push_deep_view, Token, TokenV};

verus! {

/// Whether an attribute marks its function as a test case.
pub open spec fn is_test_attr(a: AttrV) -> bool {
    a.path == "test"@
}

/// Whether an attribute list carries the test marker.
pub open spec fn has_test_marker(attrs: Seq<AttrV>) -> bool {
    exists|i: int| 0 <= i < attrs.len() && is_test_attr(attrs[i])
}

/// Whether an item is a function carrying the test marker attribute.
pub open spec fn is_test_function(it: ItemV) -> bool {
    match it {
        ItemV::Function { attrs, .. } => has_test_marker(attrs),
        ItemV::Other { .. } => false,
    }
}

/// Whether an item can be re-synthesized after rewriting: a function needs
/// a signature to be put back together.
pub open spec fn reconstructible(it: ItemV) -> bool {
    match it {
        ItemV::Function { sig, .. } => sig.len() > 0,
        ItemV::Other { .. } => true,
    }
}

/// A test function's body after rewriting: the original statements followed
/// by the injected invocation as one statement. An unresolved directive
/// injects nothing.
pub open spec fn rewritten_body(body: Seq<TokenV>, s: CleanupSpecV) -> Seq<TokenV> {
    if s is Unresolved {
        body
    } else {
        body + invocation_tokens(s) + seq![TokenV::Punct(';')]
    }
}

/// One item after rewriting: only a test-marked function changes, and only
/// its body.
pub open spec fn rewrite_item(it: ItemV, s: CleanupSpecV) -> ItemV {
    if is_test_function(it) {
        match it {
            ItemV::Function { attrs, vis, sig, body } => ItemV::Function {
                attrs,
                vis,
                sig,
                body: rewritten_body(body, s),
            },
            ItemV::Other { tokens } => ItemV::Other { tokens },
        }
    } else {
        it
    }
}

/// The item list after rewriting: order kept, every test-marked function
/// rewritten, and a test-marked function that cannot be re-synthesized
/// dropped.
pub open spec fn rewritten_items(items: Seq<ItemV>, s: CleanupSpecV) -> Seq<ItemV>
    decreases items.len(),
{
    if items.len() == 0 {
        Seq::empty()
    } else {
        let prefix = rewritten_items(items.drop_last(), s);
        let last = items.last();
        if is_test_function(last) && !reconstructible(last) {
            prefix
        } else {
            prefix.push(rewrite_item(last, s))
        }
    }
}

/// The reconstruction diagnostics of one pass: one per dropped item, in
/// item order, each pointing at the item's position in the input.
pub open spec fn reconstruction_diags(items: Seq<ItemV>) -> Seq<DiagnosticV>
    decreases items.len(),
{
    if items.len() == 0 {
        Seq::empty()
    } else {
        let prefix = reconstruction_diags(items.drop_last());
        let last = items.last();
        if is_test_function(last) && !reconstructible(last) {
            prefix.push(reconstruction_error_diag(items.len() - 1))
        } else {
            prefix
        }
    }
}

/// Whether this attribute list carries the test marker.
fn has_test_attr(attrs: &Vec<Attr>) -> (r: bool)
    ensures
        r == has_test_marker(attrs.deep_view()),
{
    let test_name: String = "test".to_owned();
    let mut i: usize = 0;
    while i < attrs.len()
        invariant
            i <= attrs.len(),
            test_name@ == "test"@,
            forall|j: int| 0 <= j < i ==> !is_test_attr(attrs.deep_view()[j]),
        decreases attrs.len() - i,
    {
        if attrs[i].path == test_name {
            proof {
                assert(is_test_attr(attrs.deep_view()[i as int]));
            }
            return true;
        }
        i = i + 1;
    }
    false
}

/// Rewrites the container's items against the resolved directive: test
/// functions get the invocation appended, everything else passes through,
/// and a test function that cannot be re-synthesized is dropped with one
/// diagnostic, without stopping the pass.
pub fn clean(container: TestContainer, cs: &CleanupSpec) -> (r: (TestContainer, Vec<Diagnostic>))
    ensures
        r.0.deep_view().attrs == container.deep_view().attrs,
        r.0.deep_view().items == rewritten_items(
            container.deep_view().items,
            cs.deep_view(),
        ),
        r.1.deep_view() == reconstruction_diags(container.deep_view().items),
{
    let TestContainer { attrs, items } = container;
    let ghost orig = items@;
    let ghost origv = items.deep_view();
    let mut rest = items;
    let total: usize = rest.len();
    proof {
        assert(orig.len() == total);
    }
    let mut out: Vec<Item> = Vec::new();
    let mut diags: Vec<Diagnostic> = Vec::new();
    let mut idx: usize = 0;
    proof {
        assert(rest@ =~= orig.skip(0));
        assert(origv.take(0) =~= Seq::<ItemV>::empty());
        assert(out.deep_view() =~= rewritten_items(origv.take(0), cs.deep_view()));
        assert(diags.deep_view() =~= reconstruction_diags(origv.take(0)));
    }
    while rest.len() > 0
        invariant
            idx <= orig.len() <= usize::MAX,
            idx + rest@.len() == orig.len(),
            rest@ == orig.skip(idx as int),
            origv.len() == orig.len(),
            forall|q: int| 0 <= q < orig.len() ==> origv[q] == orig[q].deep_view(),
            out.deep_view() == rewritten_items(origv.take(idx as int), cs.deep_view()),
            diags.deep_view() == reconstruction_diags(origv.take(idx as int)),
        decreases rest@.len(),
    {
        let it = rest.remove(0);
        let ghost itv = it.deep_view();
        proof {
            assert(orig.skip(idx as int)[0] == orig[idx as int]);
            assert(rest@ =~= orig.skip(idx as int + 1));
            assert(itv == origv[idx as int]);
            assert(origv.take(idx as int + 1).drop_last() =~= origv.take(idx as int));
            assert(origv.take(idx as int + 1).last() == origv[idx as int]);
        }
        let ghost out_pre = out;
        let ghost diags_pre = diags;
        match it {
            Item::Function { attrs: fattrs, vis, sig, body } => {
                proof {
                    assert(itv == (ItemV::Function {
                        attrs: fattrs.deep_view(),
                        vis: vis.deep_view(),
                        sig: sig.deep_view(),
                        body: body.deep_view(),
                    }));
                }
                let marked = has_test_attr(&fattrs);
                proof {
                    assert(marked == is_test_function(itv));
                }
                if marked {
                    if sig.len() > 0 {
                        let ghost bodyv = body.deep_view();
                        let mut new_body = body;
                        let inject = match cs {
                            CleanupSpec::Unresolved => false,
                            _ => true,
                        };
                        if inject {
                            cs.to_tokens(&mut new_body);
                            let ghost mid = new_body;
                            new_body.push(Token::Punct(';'));
                            proof {
                                lemma_vec_push_deep_view(mid, new_body, Token::Punct(';'));
                                assert(new_body.deep_view() =~= rewritten_body(
                                    bodyv,
                                    cs.deep_view(),
                                ));
                            }
                        }
                        let rebuilt = Item::Function { attrs: fattrs, vis, sig, body: new_body };
                        let ghost rv = rebuilt;
                        out.push(rebuilt);
                        proof {
                            lemma_vec_push_deep_view(out_pre, out, rv);
                            assert(rv.deep_view() == rewrite_item(itv, cs.deep_view()));
                        }
                    } else {
                        let d = Diagnostic::reconstruction_error(idx);
                        let ghost dv = d;
                        diags.push(d);
                        proof {
                            lemma_vec_push_deep_view(diags_pre, diags, dv);
                            assert(!reconstructible(itv));
                        }
                    }
                } else {
                    let rebuilt = Item::Function { attrs: fattrs, vis, sig, body };
                    let ghost rv = rebuilt;
                    out.push(rebuilt);
                    proof {
                        lemma_vec_push_deep_view(out_pre, out, rv);
                        assert(rv.deep_view() == rewrite_item(itv, cs.deep_view()));
                    }
                }
            },
            Item::Other { tokens } => {
                let rebuilt = Item::Other { tokens };
                let ghost rv = rebuilt;
                out.push(rebuilt);
                proof {
                    lemma_vec_push_deep_view(out_pre, out, rv);
                    assert(rv.deep_view() == rewrite_item(itv, cs.deep_view()));
                }
            },
        }
        idx = idx + 1;
    }
    proof {
        assert(origv.take(orig.len() as int) =~= origv);
    }
    (TestContainer { attrs, items: out }, diags)
}

} // verus!
