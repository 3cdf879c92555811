//! The cleanup directive: its grammar and its resolved representation.
//!
//! A directive is a token sequence in one of three forms, tried in order:
//! a call expression `name(arguments)`, a bare identifier `name`, or a
//! closure `|parameters| body`. The order matters because a bare name is a
//! textual prefix of a call expression. A directive matching none of the
//! forms resolves to [`CleanupSpec::Unresolved`] with one grammar
//! diagnostic, and the transform continues best-effort.

use vstd::prelude::*;

use crate::diagnostic::{grammar_error_diag, Diagnostic};
use crate::token::{
    duplicate_tokens, lemma_vec_deep_view_is_toks_v, tok_v, toks_v, Delim,
    Token, TokenV,
};

verus! {

/// The resolved cleanup directive. Exactly one variant is active per
/// transform invocation; it never changes afterwards.
#[derive(Debug, PartialEq, Eq)]
pub enum CleanupSpec {
    /// The directive failed to parse; nothing is injected.
    Unresolved,
    /// A bare name, to be called with no arguments.
    NamedCall(String),
    /// A call with its argument list, injected verbatim.
    CallExpression(String, Vec<Vec<Token>>),
    /// A closure, wrapped as an anonymous function and invoked immediately.
    ClosureExpression(Vec<Token>, Vec<Token>),
}

/// The mathematical value of a [`CleanupSpec`].
pub enum CleanupSpecV {
    Unresolved,
    NamedCall(Seq<char>),
    CallExpression(Seq<char>, Seq<Seq<TokenV>>),
    ClosureExpression(Seq<TokenV>, Seq<TokenV>),
}

impl DeepView for CleanupSpec {
    type V = CleanupSpecV;

    open spec fn deep_view(&self) -> CleanupSpecV {
        match self {
            CleanupSpec::Unresolved => CleanupSpecV::Unresolved,
            CleanupSpec::NamedCall(name) => CleanupSpecV::NamedCall(name@),
            CleanupSpec::CallExpression(name, args) => CleanupSpecV::CallExpression(
                name@,
                args.deep_view(),
            ),
            CleanupSpec::ClosureExpression(params, body) => CleanupSpecV::ClosureExpression(
                params.deep_view(),
                body.deep_view(),
            ),
        }
    }
}

/// Whether a token is the argument separator.
pub open spec fn is_comma(t: TokenV) -> bool {
    t == TokenV::Punct(',')
}

/// Whether a token is a closure-parameter delimiter.
pub open spec fn is_pipe(t: TokenV) -> bool {
    t == TokenV::Punct('|')
}

/// Splits an argument list on commas, one scanned token at a time; `cur`
/// accumulates the argument read so far. An empty argument between two
/// commas, or before one, fails the split; a trailing comma is accepted.
pub open spec fn split_args_from(ts: Seq<TokenV>, cur: Seq<TokenV>) -> Option<Seq<Seq<TokenV>>>
    decreases ts.len(),
{
    if ts.len() == 0 {
        if cur.len() == 0 {
            Option::Some(Seq::empty())
        } else {
            Option::Some(seq![cur])
        }
    } else if is_comma(ts[0]) {
        if cur.len() == 0 {
            Option::None
        } else {
            match split_args_from(ts.drop_first(), Seq::empty()) {
                Option::Some(rest) => Option::Some(seq![cur] + rest),
                Option::None => Option::None,
            }
        }
    } else {
        split_args_from(ts.drop_first(), cur.push(ts[0]))
    }
}

/// The argument lists of a call directive's parenthesized group, or `None`
/// when the group is not a comma-separated list of non-empty arguments.
pub open spec fn split_args(ts: Seq<TokenV>) -> Option<Seq<Seq<TokenV>>> {
    split_args_from(ts, Seq::empty())
}

/// First form: the whole directive is `name ( arguments )`.
pub open spec fn is_call_form(ts: Seq<TokenV>) -> bool {
    &&& ts.len() == 2
    &&& ts[0] is Ident
    &&& ts[1] matches TokenV::Group(Delim::Paren, inner) && split_args(inner) is Some
}

/// The callee name of a call-form directive.
pub open spec fn call_name(ts: Seq<TokenV>) -> Seq<char> {
    ts[0]->Ident_0
}

/// The split argument lists of a call-form directive.
pub open spec fn call_args(ts: Seq<TokenV>) -> Seq<Seq<TokenV>> {
    match ts[1] {
        TokenV::Group(d, inner) => match split_args(inner) {
            Option::Some(args) => args,
            Option::None => Seq::empty(),
        },
        _ => Seq::empty(),
    }
}

/// Second form: the whole directive is one bare identifier.
pub open spec fn is_name_form(ts: Seq<TokenV>) -> bool {
    ts.len() == 1 && ts[0] is Ident
}

/// The position of the first pipe in a token sequence.
pub open spec fn first_pipe(ts: Seq<TokenV>) -> Option<int>
    decreases ts.len(),
{
    if ts.len() == 0 {
        Option::None
    } else if is_pipe(ts[0]) {
        Option::Some(0)
    } else {
        match first_pipe(ts.drop_first()) {
            Option::Some(i) => Option::Some(i + 1),
            Option::None => Option::None,
        }
    }
}

/// What `first_pipe` finds is the first pipe, and it finds one whenever one
/// is there.
pub proof fn lemma_first_pipe(ts: Seq<TokenV>)
    ensures
        first_pipe(ts) matches Option::Some(i) ==> 0 <= i < ts.len() && is_pipe(ts[i])
            && forall|k: int| 0 <= k < i ==> !is_pipe(ts[k]),
        first_pipe(ts) is None ==> forall|k: int| 0 <= k < ts.len() ==> !is_pipe(ts[k]),
    decreases ts.len(),
{
    if ts.len() > 0 && !is_pipe(ts[0]) {
        let d = ts.drop_first();
        lemma_first_pipe(d);
        match first_pipe(d) {
            Option::Some(j) => {
                assert(first_pipe(ts) == Option::Some(j + 1));
                assert(is_pipe(ts[j + 1])) by {
                    assert(d[j] == ts[j + 1]);
                }
                assert forall|k: int| 0 <= k < j + 1 implies !is_pipe(ts[k]) by {
                    if k > 0 {
                        assert(d[k - 1] == ts[k]);
                        assert(!is_pipe(d[k - 1]));
                    }
                }
            },
            Option::None => {
                assert forall|k: int| 0 <= k < ts.len() implies !is_pipe(ts[k]) by {
                    if k > 0 {
                        assert(d[k - 1] == ts[k]);
                        assert(!is_pipe(d[k - 1]));
                    }
                }
            },
        }
    }
}

/// Third form: the whole directive is `| parameters | body` with a
/// non-empty body; the parameters are the tokens between the first two
/// pipes.
pub open spec fn is_closure_form(ts: Seq<TokenV>) -> bool {
    &&& ts.len() >= 1
    &&& is_pipe(ts[0])
    &&& first_pipe(ts.drop_first()) matches Option::Some(j) && j + 2 < ts.len()
}

/// The parameter tokens of a closure-form directive.
pub open spec fn closure_params(ts: Seq<TokenV>) -> Seq<TokenV> {
    match first_pipe(ts.drop_first()) {
        Option::Some(j) => ts.subrange(1, j + 1),
        Option::None => Seq::empty(),
    }
}

/// The body tokens of a closure-form directive.
pub open spec fn closure_body(ts: Seq<TokenV>) -> Seq<TokenV> {
    match first_pipe(ts.drop_first()) {
        Option::Some(j) => ts.subrange(j + 2, ts.len() as int),
        Option::None => Seq::empty(),
    }
}

/// The ordered trial-parse over the three accepted directive forms: a call
/// expression wins over a bare name, a bare name over a closure, and a
/// directive matching no form stays unresolved.
pub open spec fn resolve(ts: Seq<TokenV>) -> CleanupSpecV {
    if is_call_form(ts) {
        CleanupSpecV::CallExpression(call_name(ts), call_args(ts))
    } else if is_name_form(ts) {
        CleanupSpecV::NamedCall(ts[0]->Ident_0)
    } else if is_closure_form(ts) {
        CleanupSpecV::ClosureExpression(closure_params(ts), closure_body(ts))
    } else {
        CleanupSpecV::Unresolved
    }
}

/// The argument lists joined back into one token sequence, with one comma
/// between neighbouring arguments.
pub open spec fn args_joined(args: Seq<Seq<TokenV>>) -> Seq<TokenV>
    decreases args.len(),
{
    if args.len() == 0 {
        Seq::empty()
    } else if args.len() == 1 {
        args[0]
    } else {
        args_joined(args.drop_last()) + seq![TokenV::Punct(',')] + args.last()
    }
}

/// The invocation expression a resolved directive injects at the end of a
/// test function's body: `name()` for a bare name, `name(arguments)` for a
/// call, `(|parameters| body)()` for a closure, and nothing at all for an
/// unresolved directive.
pub open spec fn invocation_tokens(s: CleanupSpecV) -> Seq<TokenV> {
    match s {
        CleanupSpecV::Unresolved => Seq::empty(),
        CleanupSpecV::NamedCall(name) => seq![
            TokenV::Ident(name),
            TokenV::Group(Delim::Paren, Seq::empty()),
        ],
        CleanupSpecV::CallExpression(name, args) => seq![
            TokenV::Ident(name),
            TokenV::Group(Delim::Paren, args_joined(args)),
        ],
        CleanupSpecV::ClosureExpression(params, body) => seq![
            TokenV::Group(
                Delim::Paren,
                seq![TokenV::Punct('|')] + params + seq![TokenV::Punct('|')] + body,
            ),
            TokenV::Group(Delim::Paren, Seq::empty()),
        ],
    }
}

/// Joins argument lists back into one token sequence, one comma between
/// neighbouring arguments.
fn join_arguments(args: &Vec<Vec<Token>>) -> (r: Vec<Token>)
    ensures
        r.deep_view() == args_joined(args.deep_view()),
{
    let mut out: Vec<Token> = Vec::new();
    let mut i: usize = 0;
    proof {
        assert(out.deep_view() =~= args_joined(args.deep_view().take(0)));
    }
    while i < args.len()
        invariant
            i <= args.len(),
            out.deep_view() == args_joined(args.deep_view().take(i as int)),
        decreases args.len() - i,
    {
        if i > 0 {
            out.push(Token::Punct(','));
        }
        let mut dup = duplicate_tokens(&args[i]);
        let ghost dv = dup@;
        let ghost ddv = dup.deep_view();
        out.append(&mut dup);
        proof {
            let av = args.deep_view();
            let pre = av.take(i as int);
            let post = av.take(i as int + 1);
            assert(post.drop_last() =~= pre);
            assert(post.last() == av[i as int]);
            assert(ddv == av[i as int]);
            assert(forall|k: int| 0 <= k < dv.len() ==> ddv[k] == tok_v(dv[k]));
            if i == 0 {
                assert(args_joined(post) == av[0]);
            } else {
                assert(args_joined(post) == args_joined(pre) + seq![TokenV::Punct(',')] + av[
                    i as int
                ]);
            }
            assert(out.deep_view().len() == out@.len());
            assert(out@.len() > 0 ==> out.deep_view()[0] == tok_v(out@[0]));
            assert(out.deep_view().len() == args_joined(post).len());
            assert(out.deep_view() =~= args_joined(post));
        }
        i = i + 1;
    }
    proof {
        assert(args.deep_view().take(args.len() as int) =~= args.deep_view());
    }
    out
}

/// Whether a token is the given punctuation character.
fn is_punct(t: &Token, c: char) -> (r: bool)
    ensures
        r == (tok_v(*t) == TokenV::Punct(c)),
{
    match t {
        Token::Punct(p) => *p == c,
        _ => false,
    }
}

/// Splits the tokens inside a call directive's parentheses on commas.
fn split_arguments(inner: &Vec<Token>) -> (r: Option<Vec<Vec<Token>>>)
    ensures
        r matches Option::Some(args) ==> split_args(inner.deep_view()) == Option::Some(
            args.deep_view(),
        ),
        r is None ==> split_args(inner.deep_view()) is None,
{
    let ghost iv = inner.deep_view();
    let mut out: Vec<Vec<Token>> = Vec::new();
    let mut cur: Vec<Token> = Vec::new();
    let mut i: usize = 0;
    proof {
        assert(iv.skip(0) =~= iv);
        assert(cur.deep_view() =~= Seq::<TokenV>::empty());
        assert(out.deep_view() =~= Seq::<Seq<TokenV>>::empty());
    }
    while i < inner.len()
        invariant
            i <= inner.len(),
            iv == inner.deep_view(),
            match split_args_from(iv.skip(i as int), cur.deep_view()) {
                Option::Some(rest) => split_args(iv) == Option::Some(out.deep_view() + rest),
                Option::None => split_args(iv) is None,
            },
        decreases inner.len() - i,
    {
        let ghost remaining = iv.skip(i as int);
        let ghost cdv = cur.deep_view();
        let ghost odv = out.deep_view();
        proof {
            assert(remaining.len() == iv.len() - i);
            assert(remaining[0] == iv[i as int]);
            assert(remaining.drop_first() =~= iv.skip(i as int + 1));
        }
        if is_punct(&inner[i], ',') {
            if cur.len() == 0 {
                proof {
                    assert(cdv.len() == 0);
                    assert(split_args_from(remaining, cdv) is None);
                }
                return Option::None;
            }
            proof {
                assert(cdv.len() == cur@.len());
            }
            out.push(cur);
            cur = Vec::new();
            proof {
                assert(out.deep_view().len() == out@.len());
                assert(out.deep_view()[out@.len() - 1] == cdv);
                assert(out.deep_view() =~= odv.push(cdv));
                assert(cur.deep_view() =~= Seq::<TokenV>::empty());
                match split_args_from(iv.skip(i as int + 1), Seq::empty()) {
                    Option::Some(rest) => {
                        assert(split_args_from(remaining, cdv) == Option::Some(
                            seq![cdv] + rest,
                        ));
                        assert(odv + (seq![cdv] + rest) =~= odv.push(cdv) + rest);
                    },
                    Option::None => {
                        assert(split_args_from(remaining, cdv) is None);
                    },
                }
            }
        } else {
            cur.push(inner[i].duplicate());
            proof {
                assert(cur.deep_view().len() == cur@.len());
                assert(cur.deep_view()[cur@.len() - 1] == tok_v(inner@[i as int]));
                assert(cur.deep_view() =~= cdv.push(remaining[0]));
                assert(split_args_from(remaining, cdv) == split_args_from(
                    iv.skip(i as int + 1),
                    cdv.push(remaining[0]),
                ));
            }
        }
        i = i + 1;
    }
    let ghost cdv = cur.deep_view();
    let ghost odv = out.deep_view();
    proof {
        assert(iv.skip(iv.len() as int) =~= Seq::<TokenV>::empty());
    }
    if cur.len() > 0 {
        out.push(cur);
        proof {
            assert(out.deep_view().len() == out@.len());
            assert(out.deep_view()[out@.len() - 1] == cdv);
            assert(out.deep_view() =~= odv.push(cdv));
            assert(split_args_from(Seq::empty(), cdv) == Option::Some(seq![cdv]));
            assert(odv + seq![cdv] =~= odv.push(cdv));
        }
    } else {
        proof {
            assert(cdv.len() == 0);
            assert(split_args_from(Seq::empty(), cdv) == Option::Some(
                Seq::<Seq<TokenV>>::empty(),
            ));
            assert(odv + Seq::<Seq<TokenV>>::empty() =~= odv);
        }
    }
    Option::Some(out)
}

impl CleanupSpec {
    /// Resolves a directive by ordered trial-parsing: first as a call
    /// expression, then as a bare identifier, then as a closure, each form
    /// required to cover the whole input. A directive matching no form
    /// yields the unresolved sentinel and one grammar diagnostic, so the
    /// transform can continue best-effort.
    pub fn parse(tokens: &Vec<Token>) -> (r: (CleanupSpec, Option<Diagnostic>))
        ensures
            r.0.deep_view() == resolve(tokens.deep_view()),
            r.1 is Some <==> resolve(tokens.deep_view()) is Unresolved,
            r.1 matches Option::Some(d) ==> d.deep_view() == grammar_error_diag(),
    {
        let ghost tv = tokens.deep_view();
        if tokens.len() == 2 {
            // Only the call form spans exactly two tokens.
            proof {
                assert(!is_name_form(tv));
                assert(is_closure_form(tv) ==> false) by {
                    if is_closure_form(tv) {
                        lemma_first_pipe(tv.drop_first());
                    }
                }
            }
            match (&tokens[0], &tokens[1]) {
                (Token::Ident(name), Token::Group(Delim::Paren, inner)) => {
                    proof {
                        assert(tv[0] is Ident);
                        assert(tv[1] == TokenV::Group(Delim::Paren, toks_v(inner@)));
                        lemma_vec_deep_view_is_toks_v(*inner);
                    }
                    match split_arguments(inner) {
                        Option::Some(args) => {
                            proof {
                                assert(is_call_form(tv));
                                assert(call_name(tv) == name@);
                            }
                            (CleanupSpec::CallExpression(name.clone(), args), Option::None)
                        },
                        Option::None => {
                            proof {
                                assert(!is_call_form(tv));
                            }
                            (CleanupSpec::Unresolved, Option::Some(Diagnostic::grammar_error()))
                        },
                    }
                },
                _ => {
                    proof {
                        assert(!is_call_form(tv));
                    }
                    (CleanupSpec::Unresolved, Option::Some(Diagnostic::grammar_error()))
                },
            }
        } else if tokens.len() == 1 {
            proof {
                assert(!is_call_form(tv));
                assert(is_closure_form(tv) ==> false) by {
                    if is_closure_form(tv) {
                        lemma_first_pipe(tv.drop_first());
                    }
                }
            }
            match &tokens[0] {
                Token::Ident(name) => {
                    proof {
                        assert(is_name_form(tv));
                    }
                    (CleanupSpec::NamedCall(name.clone()), Option::None)
                },
                _ => {
                    proof {
                        assert(!is_name_form(tv));
                    }
                    (CleanupSpec::Unresolved, Option::Some(Diagnostic::grammar_error()))
                },
            }
        } else {
            proof {
                assert(!is_call_form(tv));
                assert(!is_name_form(tv));
            }
            if tokens.len() >= 3 && is_punct(&tokens[0], '|') {
                // Scan for the closing pipe of the parameter list.
                let mut j: usize = 1;
                while j < tokens.len() && !is_punct(&tokens[j], '|')
                    invariant
                        1 <= j <= tokens.len(),
                        tv == tokens.deep_view(),
                        tokens.len() >= 3,
                        forall|k: int| 1 <= k < j ==> !is_pipe(tv[k]),
                    decreases tokens.len() - j,
                {
                    j = j + 1;
                }
                proof {
                    lemma_first_pipe(tv.drop_first());
                    assert(forall|k: int|
                        0 <= k < tv.drop_first().len() ==> tv.drop_first()[k] == tv[k + 1]);
                }
                if j == tokens.len() {
                    proof {
                        match first_pipe(tv.drop_first()) {
                            Option::Some(p) => {
                                assert(is_pipe(tv[p + 1]));
                                assert(false);
                            },
                            Option::None => {},
                        }
                        assert(!is_closure_form(tv));
                    }
                    (CleanupSpec::Unresolved, Option::Some(Diagnostic::grammar_error()))
                } else {
                    proof {
                        assert(is_pipe(tv[j as int]));
                        match first_pipe(tv.drop_first()) {
                            Option::Some(p) => {
                                assert(is_pipe(tv[p + 1]));
                                if p + 1 > j {
                                    assert(!is_pipe(tv.drop_first()[j - 1]));
                                }
                                assert(p == j - 1);
                            },
                            Option::None => {
                                assert(!is_pipe(tv.drop_first()[j - 1]));
                                assert(false);
                            },
                        }
                        assert(first_pipe(tv.drop_first()) == Option::Some(j - 1));
                    }
                    if j + 1 < tokens.len() {
                        proof {
                            assert(is_closure_form(tv));
                        }
                        let mut params: Vec<Token> = Vec::new();
                        let mut k: usize = 1;
                        while k < j
                            invariant
                                1 <= k <= j < tokens.len(),
                                tv == tokens.deep_view(),
                                params.deep_view() =~= tv.subrange(1, k as int),
                            decreases j - k,
                        {
                            let ghost before = params@;
                            let ghost before_dv = params.deep_view();
                            let fresh = tokens[k].duplicate();
                            let ghost fv = fresh.deep_view();
                            params.push(fresh);
                            proof {
                                assert(forall|q: int|
                                    0 <= q < before.len() ==> before_dv[q] == tok_v(before[q]));
                                assert(forall|q: int|
                                    0 <= q < params@.len() ==> params.deep_view()[q] == tok_v(
                                        params@[q],
                                    ));
                                assert(params.deep_view() =~= before_dv.push(fv));
                                assert(before_dv.push(fv) =~= tv.subrange(1, k as int + 1));
                            }
                            k = k + 1;
                        }
                        let mut body: Vec<Token> = Vec::new();
                        let mut m: usize = j + 1;
                        while m < tokens.len()
                            invariant
                                j + 1 <= m <= tokens.len(),
                                tv == tokens.deep_view(),
                                body.deep_view() =~= tv.subrange(j as int + 1, m as int),
                            decreases tokens.len() - m,
                        {
                            let ghost before = body@;
                            let ghost before_dv = body.deep_view();
                            let fresh = tokens[m].duplicate();
                            let ghost fv = fresh.deep_view();
                            body.push(fresh);
                            proof {
                                assert(forall|q: int|
                                    0 <= q < before.len() ==> before_dv[q] == tok_v(before[q]));
                                assert(forall|q: int|
                                    0 <= q < body@.len() ==> body.deep_view()[q] == tok_v(
                                        body@[q],
                                    ));
                                assert(body.deep_view() =~= before_dv.push(fv));
                                assert(before_dv.push(fv) =~= tv.subrange(j as int + 1, m as int + 1));
                            }
                            m = m + 1;
                        }
                        proof {
                            assert(closure_params(tv) == tv.subrange(1, j as int));
                            assert(closure_body(tv) == tv.subrange(j as int + 1, tv.len() as int));
                        }
                        (CleanupSpec::ClosureExpression(params, body), Option::None)
                    } else {
                        proof {
                            assert(!is_closure_form(tv));
                        }
                        (CleanupSpec::Unresolved, Option::Some(Diagnostic::grammar_error()))
                    }
                }
            } else {
                proof {
                    assert(!is_closure_form(tv)) by {
                        if tv.len() >= 3 {
                            assert(!is_pipe(tv[0]));
                        } else if is_closure_form(tv) {
                            lemma_first_pipe(tv.drop_first());
                        }
                    }
                }
                (CleanupSpec::Unresolved, Option::Some(Diagnostic::grammar_error()))
            }
        }
    }

    /// Appends the injected invocation expression of this resolved directive
    /// to a token sequence; an unresolved directive appends nothing.
    pub fn to_tokens(&self, tokens: &mut Vec<Token>)
        ensures
            final(tokens).deep_view() == old(tokens).deep_view() + invocation_tokens(
                self.deep_view(),
            ),
    {
        match self {
            CleanupSpec::Unresolved => {
                proof {
                    assert(tokens.deep_view() =~= old(tokens).deep_view() + invocation_tokens(
                        self.deep_view(),
                    ));
                }
            },
            CleanupSpec::NamedCall(name) => {
                tokens.push(Token::Ident(name.clone()));
                tokens.push(Token::Group(Delim::Paren, Vec::new()));
                proof {
                    assert(tokens.deep_view() =~= old(tokens).deep_view() + invocation_tokens(
                        self.deep_view(),
                    ));
                }
            },
            CleanupSpec::CallExpression(name, args) => {
                tokens.push(Token::Ident(name.clone()));
                let joined = join_arguments(args);
                proof {
                    lemma_vec_deep_view_is_toks_v(joined);
                }
                let ghost jv = joined@;
                tokens.push(Token::Group(Delim::Paren, joined));
                proof {
                    assert(tokens.deep_view() =~= old(tokens).deep_view() + invocation_tokens(
                        self.deep_view(),
                    ));
                }
            },
            CleanupSpec::ClosureExpression(params, body) => {
                let mut inner: Vec<Token> = Vec::new();
                inner.push(Token::Punct('|'));
                let mut front = duplicate_tokens(params);
                inner.append(&mut front);
                inner.push(Token::Punct('|'));
                let mut back = duplicate_tokens(body);
                inner.append(&mut back);
                proof {
                    lemma_vec_deep_view_is_toks_v(inner);
                    assert(inner.deep_view() =~= seq![TokenV::Punct('|')] + params.deep_view()
                        + seq![TokenV::Punct('|')] + body.deep_view());
                }
                let ghost iv = inner@;
                tokens.push(Token::Group(Delim::Paren, inner));
                tokens.push(Token::Group(Delim::Paren, Vec::new()));
                proof {
                    assert(tokens.deep_view() =~= old(tokens).deep_view() + invocation_tokens(
                        self.deep_view(),
                    ));
                }
            },
        }
    }

    /// Builds the bare-name variant.
    pub fn with_call(name: String) -> (r: Self)
        ensures
            r.deep_view() == CleanupSpecV::NamedCall(name@),
    {
        CleanupSpec::NamedCall(name)
    }

    /// Builds the call-with-arguments variant.
    pub fn with_call_args(name: String, args: Vec<Vec<Token>>) -> (r: Self)
        ensures
            r.deep_view() == CleanupSpecV::CallExpression(name@, args.deep_view()),
    {
        CleanupSpec::CallExpression(name, args)
    }

    /// Builds the closure variant.
    pub fn with_closure(params: Vec<Token>, body: Vec<Token>) -> (r: Self)
        ensures
            r.deep_view() == CleanupSpecV::ClosureExpression(params.deep_view(), body.deep_view()),
    {
        CleanupSpec::ClosureExpression(params, body)
    }
}

} // verus!
