//! The token model every component of the transformer works on.
//!
//! A directive, a signature, a function body and an opaque item are all plain
//! sequences of [`Token`]s. A token is an identifier, a punctuation
//! character, a literal, or a delimited group holding a nested sequence.

use vstd::prelude::*;

verus! {

/// The delimiter of a token group.
#[derive(Clone, Copy, Debug, PartialEq, Eq, Structural)]
pub enum Delim {
    Paren,
    Brace,
    Bracket,
}

/// One token of source text.
#[derive(Debug, PartialEq, Eq)]
pub enum Token {
    /// An identifier or keyword, held as its text.
    Ident(String),
    /// A single punctuation character.
    Punct(char),
    /// A literal (number, string, ...), held as its text.
    Literal(String),
    /// A delimited group of nested tokens.
    Group(Delim, Vec<Token>),
}

/// The mathematical value of a [`Token`]: the same tree over `Seq`.
pub enum TokenV {
    Ident(Seq<char>),
    Punct(char),
    Literal(Seq<char>),
    Group(Delim, Seq<TokenV>),
}

/// The mathematical value of a token: identifier and literal text become
/// sequences of characters, group contents become sequences of token values.
pub open spec fn tok_v(t: Token) -> TokenV
    decreases t,
{
    match t {
        Token::Ident(s) => TokenV::Ident(s@),
        Token::Punct(c) => TokenV::Punct(c),
        Token::Literal(s) => TokenV::Literal(s@),
        Token::Group(d, ts) => {
            proof {
                assert(decreases_to!(t => ts));
                assert(decreases_to!(ts => ts@));
            }
            TokenV::Group(d, toks_v(ts@))
        },
    }
}

/// The mathematical value of a token sequence, element by element.
pub open spec fn toks_v(ts: Seq<Token>) -> Seq<TokenV>
    decreases ts,
{
    if ts.len() == 0 {
        Seq::empty()
    } else {
        seq![tok_v(ts[0])] + toks_v(ts.drop_first())
    }
}

/// `toks_v` maps the sequence element by element.
pub proof fn lemma_toks_v_index(ts: Seq<Token>)
    ensures
        toks_v(ts).len() == ts.len(),
        forall|i: int| 0 <= i < ts.len() ==> toks_v(ts)[i] == tok_v(ts[i]),
    decreases ts.len(),
{
    if ts.len() > 0 {
        lemma_toks_v_index(ts.drop_first());
    }
}

impl DeepView for Token {
    type V = TokenV;

    open spec fn deep_view(&self) -> TokenV {
        tok_v(*self)
    }
}

/// The deep view of a token vector and the value of its element sequence
/// agree.
pub proof fn lemma_vec_deep_view_is_toks_v(v: Vec<Token>)
    ensures
        v.deep_view() == toks_v(v@),
{
    lemma_toks_v_index(v@);
    assert(v.deep_view() =~= toks_v(v@));
}

/// Pushing one element extends the deep view by that element's deep view.
pub proof fn lemma_vec_push_deep_view<T: DeepView>(pre: Vec<T>, post: Vec<T>, x: T)
    requires
        post@ == pre@.push(x),
    ensures
        post.deep_view() == pre.deep_view().push(x.deep_view()),
{
    assert(forall|q: int| 0 <= q < pre@.len() ==> pre.deep_view()[q] == pre@[q].deep_view());
    assert(forall|q: int| 0 <= q < post@.len() ==> post.deep_view()[q] == post@[q].deep_view());
    assert(post.deep_view() =~= pre.deep_view().push(x.deep_view()));
}

/// Concatenating two vectors concatenates their deep views.
pub proof fn lemma_vec_append_deep_view<T: DeepView>(pre: Vec<T>, post: Vec<T>, other: Vec<T>)
    requires
        post@ == pre@ + other@,
    ensures
        post.deep_view() == pre.deep_view() + other.deep_view(),
{
    assert(forall|q: int| 0 <= q < pre@.len() ==> pre.deep_view()[q] == pre@[q].deep_view());
    assert(forall|q: int| 0 <= q < other@.len() ==> other.deep_view()[q] == other@[q].deep_view());
    assert(forall|q: int| 0 <= q < post@.len() ==> post.deep_view()[q] == post@[q].deep_view());
    assert(post.deep_view() =~= pre.deep_view() + other.deep_view());
}

impl Token {
    /// Builds a fresh token with the same mathematical value.
    pub fn duplicate(&self) -> (r: Token)
        ensures
            r.deep_view() == self.deep_view(),
        decreases *self,
    {
        match self {
            Token::Ident(s) => Token::Ident(s.clone()),
            Token::Punct(c) => Token::Punct(*c),
            Token::Literal(s) => Token::Literal(s.clone()),
            Token::Group(d, ts) => {
                proof {
                    assert(decreases_to!(*self => *ts));
                    assert(decreases_to!(*ts => ts@));
                }
                let fresh = duplicate_tokens(ts);
                proof {
                    lemma_vec_deep_view_is_toks_v(fresh);
                    lemma_vec_deep_view_is_toks_v(*ts);
                }
                Token::Group(*d, fresh)
            },
        }
    }
}

/// Builds a fresh token sequence with the same mathematical value.
pub fn duplicate_tokens(ts: &Vec<Token>) -> (r: Vec<Token>)
    ensures
        r.deep_view() == ts.deep_view(),
    decreases ts@,
{
    let mut out: Vec<Token> = Vec::new();
    let mut i: usize = 0;
    while i < ts.len()
        invariant
            i <= ts.len(),
            out.len() == i,
            forall|j: int| 0 <= j < i ==> out@[j].deep_view() == ts@[j].deep_view(),
        decreases ts.len() - i,
    {
        out.push(ts[i].duplicate());
        i = i + 1;
    }
    proof {
        assert(out.deep_view() =~= ts.deep_view());
    }
    out
}

} // verus!
