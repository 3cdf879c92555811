//! The test container and its validation.
//!
//! A container is an ordered sequence of items under a set of attributes.
//! An item is either a function, held as its attributes, visibility,
//! signature and body, or an opaque item whose inside is never inspected.
//! The validator checks that the container carries the test-scope marker
//! attribute `cfg(test)`; a missing marker is reported and the transform
//! continues.

use vstd::prelude::*;

use crate::diagnostic::{missing_marker_diag, Diagnostic};
use crate::token::{tok_v, Token, TokenV};

verus! {

/// One attribute: its path and, for a list attribute such as `cfg(test)`,
/// the tokens between its parentheses.
#[derive(Debug, PartialEq, Eq)]
pub struct Attr {
    pub path: String,
    pub args: Option<Vec<Token>>,
}

/// The mathematical value of an [`Attr`].
pub struct AttrV {
    pub path: Seq<char>,
    pub args: Option<Seq<TokenV>>,
}

impl DeepView for Attr {
    type V = AttrV;

    open spec fn deep_view(&self) -> AttrV {
        AttrV { path: self.path@, args: self.args.deep_view() }
    }
}

/// One item of a container.
#[derive(Debug, PartialEq, Eq)]
pub enum Item {
    /// A function, split into the parts the rewriter reads and preserves.
    Function { attrs: Vec<Attr>, vis: Vec<Token>, sig: Vec<Token>, body: Vec<Token> },
    /// Anything else, passed through unmodified.
    Other { tokens: Vec<Token> },
}

/// The mathematical value of an [`Item`].
pub enum ItemV {
    Function { attrs: Seq<AttrV>, vis: Seq<TokenV>, sig: Seq<TokenV>, body: Seq<TokenV> },
    Other { tokens: Seq<TokenV> },
}

impl DeepView for Item {
    type V = ItemV;

    open spec fn deep_view(&self) -> ItemV {
        match self {
            Item::Function { attrs, vis, sig, body } => ItemV::Function {
                attrs: attrs.deep_view(),
                vis: vis.deep_view(),
                sig: sig.deep_view(),
                body: body.deep_view(),
            },
            Item::Other { tokens } => ItemV::Other { tokens: tokens.deep_view() },
        }
    }
}

/// A container of test-case definitions: its attributes and its ordered
/// items.
#[derive(Debug, PartialEq, Eq)]
pub struct TestContainer {
    pub attrs: Vec<Attr>,
    pub items: Vec<Item>,
}

/// The mathematical value of a [`TestContainer`].
pub struct TestContainerV {
    pub attrs: Seq<AttrV>,
    pub items: Seq<ItemV>,
}

impl DeepView for TestContainer {
    type V = TestContainerV;

    open spec fn deep_view(&self) -> TestContainerV {
        TestContainerV { attrs: self.attrs.deep_view(), items: self.items.deep_view() }
    }
}

/// Whether an attribute is the test-scope marker: exactly `cfg(test)`.
pub open spec fn is_marker_attr(a: AttrV) -> bool {
    a.path == "cfg"@ && a.args == Option::Some(seq![TokenV::Ident("test"@)])
}

/// Whether a container carries the test-scope marker attribute.
pub open spec fn has_marker(c: TestContainerV) -> bool {
    exists|i: int| 0 <= i < c.attrs.len() && is_marker_attr(c.attrs[i])
}

/// Whether this attribute is the test-scope marker `cfg(test)`.
fn attr_is_marker(a: &Attr) -> (r: bool)
    ensures
        r == is_marker_attr(a.deep_view()),
{
    let cfg: String = "cfg".to_owned();
    if !(a.path == cfg) {
        return false;
    }
    match &a.args {
        Option::Some(ts) => {
            if ts.len() != 1 {
                proof {
                    assert(a.deep_view().args matches Option::Some(s) && s.len() != 1);
                }
                return false;
            }
            match &ts[0] {
                Token::Ident(name) => {
                    let test_name: String = "test".to_owned();
                    if *name == test_name {
                        proof {
                            assert(ts.deep_view() =~= seq![TokenV::Ident("test"@)]);
                        }
                        true
                    } else {
                        proof {
                            assert(ts.deep_view()[0] == tok_v(ts@[0]));
                        }
                        false
                    }
                },
                _ => {
                    proof {
                        assert(ts.deep_view()[0] == tok_v(ts@[0]));
                    }
                    false
                },
            }
        },
        Option::None => false,
    }
}

/// Checks that the container is marked with the `cfg(test)` attribute and
/// reports the missing-marker diagnostic when it is not. The transform goes
/// on either way.
pub fn assert_test_mod(container: &TestContainer) -> (r: Option<Diagnostic>)
    ensures
        r is None <==> has_marker(container.deep_view()),
        r matches Option::Some(d) ==> d.deep_view() == missing_marker_diag(),
{
    let mut i: usize = 0;
    while i < container.attrs.len()
        invariant
            i <= container.attrs.len(),
            forall|j: int|
                0 <= j < i ==> !is_marker_attr(container.deep_view().attrs[j]),
        decreases container.attrs.len() - i,
    {
        if attr_is_marker(&container.attrs[i]) {
            proof {
                assert(is_marker_attr(container.deep_view().attrs[i as int]));
            }
            return Option::None;
        }
        i = i + 1;
    }
    Option::Some(Diagnostic::missing_marker())
}

} // verus!
