//! The whole transform: marker validation, rewriting, diagnostics, and the
//! behaviour of repeated application.

use after_test::cleanup;
use after_test::container::{Attr, Item, TestContainer};
use after_test::diagnostic::{DiagnosticKind, Site};
use after_test::token::{Delim, Token};

fn ident(s: &str) -> Token {
    Token::Ident(s.to_string())
}

fn lit(s: &str) -> Token {
    Token::Literal(s.to_string())
}

fn paren(tokens: Vec<Token>) -> Token {
    Token::Group(Delim::Paren, tokens)
}

fn punct(c: char) -> Token {
    Token::Punct(c)
}

fn marker_attr() -> Attr {
    Attr { path: "cfg".to_string(), args: Some(vec![ident("test")]) }
}

fn test_attr() -> Attr {
    Attr { path: "test".to_string(), args: None }
}

fn fn_sig(name: &str) -> Vec<Token> {
    vec![ident("fn"), ident(name), paren(vec![])]
}

/// The body of a test function that bumps a shared counter by `amount`.
fn increment_body(amount: &str) -> Vec<Token> {
    vec![
        ident("let"),
        ident("mut"),
        ident("zero"),
        punct('='),
        ident("lock_zero"),
        paren(vec![]),
        punct(';'),
        punct('*'),
        ident("zero"),
        punct('+'),
        punct('='),
        lit(amount),
        punct(';'),
    ]
}

fn test_function(name: &str, body: Vec<Token>) -> Item {
    Item::Function { attrs: vec![test_attr()], vis: vec![], sig: fn_sig(name), body }
}

/// The `resources` module: a cleanup helper plus two counting tests, marked
/// as a test scope.
fn resources_container() -> TestContainer {
    TestContainer {
        attrs: vec![marker_attr()],
        items: vec![
            Item::Other { tokens: vec![ident("static"), ident("ZERO"), punct(';')] },
            Item::Function {
                attrs: vec![],
                vis: vec![],
                sig: fn_sig("clean_resources"),
                body: vec![punct('*'), ident("zero"), punct('='), lit("0"), punct(';')],
            },
            test_function("test_increment", increment_body("1")),
            test_function("test_increment_double", increment_body("2")),
        ],
    }
}

fn injected_call(name: &str) -> Vec<Token> {
    vec![ident(name), paren(vec![]), punct(';')]
}

fn with_suffix(mut body: Vec<Token>, suffix: Vec<Token>) -> Vec<Token> {
    body.extend(suffix);
    body
}

#[test]
fn test_increment() {
    let directive = vec![ident("clean_resources")];
    let (out, diags) = cleanup(&directive, resources_container());
    assert!(diags.is_empty());
    assert_eq!(
        out.items[2],
        test_function(
            "test_increment",
            with_suffix(increment_body("1"), injected_call("clean_resources"))
        )
    );
}

#[test]
fn test_increment_double() {
    let directive = vec![ident("clean_resources")];
    let (out, diags) = cleanup(&directive, resources_container());
    assert!(diags.is_empty());
    assert_eq!(
        out.items[3],
        test_function(
            "test_increment_double",
            with_suffix(increment_body("2"), injected_call("clean_resources"))
        )
    );
}

#[test]
fn test_non_test_items_pass_through() {
    let directive = vec![ident("clean_resources")];
    let reference = resources_container();
    let (out, _) = cleanup(&directive, resources_container());
    assert_eq!(out.attrs, reference.attrs);
    assert_eq!(out.items.len(), 4);
    assert_eq!(out.items[0], reference.items[0]);
    assert_eq!(out.items[1], reference.items[1]);
}

#[test]
fn test_missing_marker_reported_once_and_still_transformed() {
    let directive = vec![ident("clean_up")];
    let container = TestContainer {
        attrs: vec![],
        items: vec![test_function("a_test", vec![lit("1"), punct(';')])],
    };
    let (out, diags) = cleanup(&directive, container);
    let marker_reports = diags
        .iter()
        .filter(|d| d.kind == DiagnosticKind::MissingMarkerError)
        .count();
    assert_eq!(marker_reports, 1);
    assert_eq!(diags.len(), 1);
    assert_eq!(diags[0].site, Site::Container);
    assert_eq!(
        out.items[0],
        test_function(
            "a_test",
            with_suffix(vec![lit("1"), punct(';')], injected_call("clean_up"))
        )
    );
}

#[test]
fn test_zero_test_functions_is_identity() {
    let directive = vec![ident("clean_up"), paren(vec![lit("3")])];
    let container = TestContainer {
        attrs: vec![marker_attr()],
        items: vec![
            Item::Other { tokens: vec![ident("struct"), ident("S"), punct(';')] },
            Item::Function {
                attrs: vec![],
                vis: vec![ident("pub")],
                sig: fn_sig("helper"),
                body: vec![lit("42")],
            },
        ],
    };
    let reference = TestContainer {
        attrs: vec![marker_attr()],
        items: vec![
            Item::Other { tokens: vec![ident("struct"), ident("S"), punct(';')] },
            Item::Function {
                attrs: vec![],
                vis: vec![ident("pub")],
                sig: fn_sig("helper"),
                body: vec![lit("42")],
            },
        ],
    };
    let (out, diags) = cleanup(&directive, container);
    assert!(diags.is_empty());
    assert_eq!(out, reference);
}

#[test]
fn test_transform_is_not_idempotent() {
    let directive = vec![ident("clean_up")];
    let container = TestContainer {
        attrs: vec![marker_attr()],
        items: vec![test_function("a_test", vec![])],
    };
    let (once, _) = cleanup(&directive, container);
    let expected_once = test_function("a_test", injected_call("clean_up"));
    assert_eq!(once.items[0], expected_once);
    let (twice, _) = cleanup(&directive, once);
    let expected_twice = test_function(
        "a_test",
        with_suffix(injected_call("clean_up"), injected_call("clean_up")),
    );
    assert_eq!(twice.items[0], expected_twice);
    assert_ne!(twice.items[0], expected_once);
}

#[test]
fn test_end_to_end_named_call() {
    let directive = vec![ident("cleanup")];
    let body = vec![ident("let"), ident("x"), punct('='), lit("1"), punct(';')];
    let container = TestContainer {
        attrs: vec![marker_attr()],
        items: vec![test_function("a_test", body)],
    };
    let (out, diags) = cleanup(&directive, container);
    assert!(diags.is_empty());
    let expected_body = vec![
        ident("let"),
        ident("x"),
        punct('='),
        lit("1"),
        punct(';'),
        ident("cleanup"),
        paren(vec![]),
        punct(';'),
    ];
    assert_eq!(out.items[0], test_function("a_test", expected_body));
}

#[test]
fn test_end_to_end_closure() {
    let directive = vec![
        punct('|'),
        punct('|'),
        ident("log"),
        paren(vec![lit("\"done\"")]),
    ];
    let body = vec![ident("let"), ident("x"), punct('='), lit("1"), punct(';')];
    let container = TestContainer {
        attrs: vec![marker_attr()],
        items: vec![test_function("a_test", body)],
    };
    let (out, diags) = cleanup(&directive, container);
    assert!(diags.is_empty());
    let expected_body = vec![
        ident("let"),
        ident("x"),
        punct('='),
        lit("1"),
        punct(';'),
        paren(vec![punct('|'), punct('|'), ident("log"), paren(vec![lit("\"done\"")])]),
        paren(vec![]),
        punct(';'),
    ];
    assert_eq!(out.items[0], test_function("a_test", expected_body));
}

#[test]
fn test_call_arguments_injected_verbatim() {
    let directive = vec![ident("clean_up"), paren(vec![lit("10"), punct(','), ident("x")])];
    let container = TestContainer {
        attrs: vec![marker_attr()],
        items: vec![test_function("a_test", vec![])],
    };
    let (out, diags) = cleanup(&directive, container);
    assert!(diags.is_empty());
    let expected_body = vec![
        ident("clean_up"),
        paren(vec![lit("10"), punct(','), ident("x")]),
        punct(';'),
    ];
    assert_eq!(out.items[0], test_function("a_test", expected_body));
}

#[test]
fn test_unresolved_directive_leaves_bodies_unchanged() {
    let directive = vec![ident("foo"), ident("bar")];
    let container = TestContainer {
        attrs: vec![marker_attr()],
        items: vec![test_function("a_test", vec![lit("1")])],
    };
    let (out, diags) = cleanup(&directive, container);
    assert_eq!(diags.len(), 1);
    assert_eq!(diags[0].kind, DiagnosticKind::SpecGrammarError);
    assert_eq!(out.items[0], test_function("a_test", vec![lit("1")]));
}

#[test]
fn test_malformed_test_function_dropped_with_diagnostic() {
    let directive = vec![ident("clean_up")];
    let container = TestContainer {
        attrs: vec![marker_attr()],
        items: vec![
            Item::Other { tokens: vec![ident("before")] },
            Item::Function { attrs: vec![test_attr()], vis: vec![], sig: vec![], body: vec![] },
            test_function("kept", vec![]),
        ],
    };
    let (out, diags) = cleanup(&directive, container);
    assert_eq!(diags.len(), 1);
    assert_eq!(diags[0].kind, DiagnosticKind::ItemReconstructionError);
    assert_eq!(diags[0].site, Site::Item(1));
    assert_eq!(out.items.len(), 2);
    assert_eq!(out.items[0], Item::Other { tokens: vec![ident("before")] });
    assert_eq!(out.items[1], test_function("kept", injected_call("clean_up")));
}

#[test]
fn test_marker_check_accepts_marked_container() {
    let container = resources_container();
    assert!(after_test::container::assert_test_mod(&container).is_none());
}

#[test]
fn test_marker_check_rejects_unmarked_container() {
    let container = TestContainer {
        attrs: vec![Attr { path: "cfg".to_string(), args: Some(vec![ident("feature")]) }],
        items: vec![],
    };
    let diag = after_test::container::assert_test_mod(&container).expect("diagnostic");
    assert_eq!(diag.kind, DiagnosticKind::MissingMarkerError);
    assert_eq!(
        diag.message,
        "module should be marked with the `#[cfg(test)]` attribute"
    );
    assert_eq!(diag.help.as_deref(), Some("add `#[cfg(test)]` to the module"));
}
