//! Directive parsing: the three accepted forms, their precedence, and the
//! grammar diagnostic.

use after_test::diagnostic::{Diagnostic, DiagnosticKind, Site};
use after_test::directive::CleanupSpec;
use after_test::token::{Delim, Token};

fn ident(s: &str) -> Token {
    Token::Ident(s.to_string())
}

fn lit(s: &str) -> Token {
    Token::Literal(s.to_string())
}

fn paren(tokens: Vec<Token>) -> Token {
    Token::Group(Delim::Paren, tokens)
}

fn brace(tokens: Vec<Token>) -> Token {
    Token::Group(Delim::Brace, tokens)
}

fn pipe() -> Token {
    Token::Punct('|')
}

#[test]
fn test_call_with_arguments_resolves_to_call_expression() {
    let directive = vec![ident("foo"), paren(vec![lit("1"), Token::Punct(','), lit("2")])];
    let (spec, diag) = CleanupSpec::parse(&directive);
    assert!(diag.is_none());
    assert!(!matches!(spec, CleanupSpec::NamedCall(_)));
    assert_eq!(
        spec,
        CleanupSpec::CallExpression("foo".to_string(), vec![vec![lit("1")], vec![lit("2")]])
    );
}

#[test]
fn test_bare_identifier_resolves_to_named_call() {
    let directive = vec![ident("foo")];
    let (spec, diag) = CleanupSpec::parse(&directive);
    assert!(diag.is_none());
    assert_eq!(spec, CleanupSpec::NamedCall("foo".to_string()));
}

#[test]
fn test_closure_resolves_to_closure_expression() {
    let body = brace(vec![ident("do_something"), paren(vec![]), Token::Punct(';')]);
    let directive = vec![pipe(), pipe(), body.duplicate()];
    let (spec, diag) = CleanupSpec::parse(&directive);
    assert!(diag.is_none());
    assert_eq!(spec, CleanupSpec::ClosureExpression(vec![], vec![body]));
}

#[test]
fn test_closure_with_parameters() {
    let directive = vec![pipe(), ident("x"), Token::Punct(','), ident("y"), pipe(), ident("x")];
    let (spec, _) = CleanupSpec::parse(&directive);
    assert_eq!(
        spec,
        CleanupSpec::ClosureExpression(
            vec![ident("x"), Token::Punct(','), ident("y")],
            vec![ident("x")]
        )
    );
}

#[test]
fn test_stray_token_fails_all_three_forms() {
    let directive = vec![ident("foo"), ident("bar")];
    let (spec, diag) = CleanupSpec::parse(&directive);
    assert_eq!(spec, CleanupSpec::Unresolved);
    let d = diag.expect("one grammar diagnostic");
    assert_eq!(d.kind, DiagnosticKind::SpecGrammarError);
    assert_eq!(d.site, Site::Directive);
    assert_eq!(d.message, "expected identifier, function call or closure");
    assert!(d.help.is_some());
}

#[test]
fn test_empty_directive_is_unresolved() {
    let directive: Vec<Token> = vec![];
    let (spec, diag) = CleanupSpec::parse(&directive);
    assert_eq!(spec, CleanupSpec::Unresolved);
    assert!(diag.is_some());
}

#[test]
fn test_call_without_arguments() {
    let directive = vec![ident("foo"), paren(vec![])];
    let (spec, diag) = CleanupSpec::parse(&directive);
    assert!(diag.is_none());
    assert_eq!(spec, CleanupSpec::CallExpression("foo".to_string(), vec![]));
}

#[test]
fn test_call_with_trailing_comma() {
    let directive = vec![ident("foo"), paren(vec![lit("1"), Token::Punct(',')])];
    let (spec, _) = CleanupSpec::parse(&directive);
    assert_eq!(
        spec,
        CleanupSpec::CallExpression("foo".to_string(), vec![vec![lit("1")]])
    );
}

#[test]
fn test_call_with_empty_argument_is_unresolved() {
    let directive = vec![ident("foo"), paren(vec![Token::Punct(',')])];
    let (spec, diag) = CleanupSpec::parse(&directive);
    assert_eq!(spec, CleanupSpec::Unresolved);
    assert_eq!(diag.expect("diagnostic").kind, DiagnosticKind::SpecGrammarError);
}

#[test]
fn test_call_with_doubled_comma_is_unresolved() {
    let directive = vec![
        ident("foo"),
        paren(vec![lit("1"), Token::Punct(','), Token::Punct(','), lit("2")]),
    ];
    let (spec, diag) = CleanupSpec::parse(&directive);
    assert_eq!(spec, CleanupSpec::Unresolved);
    assert!(diag.is_some());
}

#[test]
fn test_closure_without_body_is_unresolved() {
    let directive = vec![pipe(), ident("x"), pipe()];
    let (spec, diag) = CleanupSpec::parse(&directive);
    assert_eq!(spec, CleanupSpec::Unresolved);
    assert!(diag.is_some());
}

#[test]
fn test_closure_without_closing_pipe_is_unresolved() {
    let directive = vec![pipe(), ident("x"), ident("y")];
    let (spec, diag) = CleanupSpec::parse(&directive);
    assert_eq!(spec, CleanupSpec::Unresolved);
    assert!(diag.is_some());
}

#[test]
fn test_to_tokens_named_call() {
    let spec = CleanupSpec::with_call("clean_up".to_string());
    let mut out: Vec<Token> = vec![];
    spec.to_tokens(&mut out);
    assert_eq!(out, vec![ident("clean_up"), paren(vec![])]);
}

#[test]
fn test_to_tokens_call_with_arguments() {
    let spec = CleanupSpec::with_call_args(
        "clean_up".to_string(),
        vec![vec![lit("10")], vec![ident("x")]],
    );
    let mut out: Vec<Token> = vec![];
    spec.to_tokens(&mut out);
    assert_eq!(
        out,
        vec![
            ident("clean_up"),
            paren(vec![lit("10"), Token::Punct(','), ident("x")])
        ]
    );
}

#[test]
fn test_to_tokens_closure() {
    let spec = CleanupSpec::with_closure(vec![], vec![ident("log"), paren(vec![lit("\"done\"")])]);
    let mut out: Vec<Token> = vec![];
    spec.to_tokens(&mut out);
    assert_eq!(
        out,
        vec![
            paren(vec![pipe(), pipe(), ident("log"), paren(vec![lit("\"done\"")])]),
            paren(vec![]),
        ]
    );
}

#[test]
fn test_to_tokens_unresolved_appends_nothing() {
    let spec = CleanupSpec::Unresolved;
    let mut out: Vec<Token> = vec![ident("keep")];
    spec.to_tokens(&mut out);
    assert_eq!(out, vec![ident("keep")]);
}

#[test]
fn test_duplicate_keeps_the_token_tree() {
    let token = paren(vec![ident("a"), brace(vec![lit("1")])]);
    let copy = token.duplicate();
    assert_eq!(copy, token);
}

#[test]
fn test_grammar_diagnostic_once_per_invocation() {
    let diag = Diagnostic::grammar_error();
    assert_eq!(diag.kind, DiagnosticKind::SpecGrammarError);
    assert_eq!(diag.site, Site::Directive);
}
