use fieldx_plus::args::ChildArgs;
use fieldx_plus::args::UnwrapPolicy;
use fieldx_plus::codegen::FXPlusArgs;
use fieldx_plus::codegen::RcStateArg;
use fieldx_plus::descriptor::AppDescriptor;
use fieldx_plus::diag::DiagKind;
use fieldx_plus::render::render_tokens;
use fieldx_plus::tokens::Delim;
use fieldx_plus::tokens::Span;
use fieldx_plus::tokens::Token;
use fieldx_plus::tokens::group_token;
use fieldx_plus::tokens::id_token;
use fieldx_plus::tokens::lit_token;
use fieldx_plus::tokens::punct_token;
use fieldx_plus::tokens::str_token;
use fieldx_plus::typath::TypeRepr;
use fieldx_plus::typath::type_repr_tokens;

fn sp() -> Span {
    Span::none()
}

fn unwrap_diag<T>(r: Result<T, fieldx_plus::diag::Diag>) -> fieldx_plus::diag::Diag {
    match r {
        Ok(_) => panic!("expected a rejection"),
        Err(d) => d,
    }
}

fn id(s: &str) -> Token {
    id_token(s, sp())
}

fn pu(c: char) -> Token {
    punct_token(c, sp())
}

fn grp(inner: Vec<Token>) -> Token {
    group_token(Delim::Paren, inner, sp())
}

fn parse_child(toks: Vec<Token>) -> Result<ChildArgs, fieldx_plus::diag::Diag> {
    ChildArgs::parse(&toks, AppDescriptor::descriptor())
}

#[test]
fn test_child_args() {
    // Node as up_node, unwrap
    let toks = vec![id("Node"), id("as"), id("up_node"), pu(','), id("unwrap")];
    let cargs = parse_child(toks).unwrap();
    let ty = type_repr_tokens(&cargs.inner.parent_type, sp());
    assert_eq!(render_tokens(&ty), "Node");
    assert_eq!(cargs.parent_base_ident(), "up_node");
    assert!(cargs.inner.unwrap_parent.as_ref().unwrap().is_set());
}

#[test]
fn test_args() {
    // app, parent, rc, lock
    let toks = vec![
        id("app"),
        pu(','),
        id("parent"),
        pu(','),
        id("rc"),
        pu(','),
        id("lock"),
    ];
    let args = FXPlusArgs::parse(&toks).unwrap();
    assert!(args.app.is_some());
    assert!(args.parent.is_some());
    assert!(matches!(args.rc, RcStateArg::RcOn { .. }));
    let std_texts: Vec<String> = args.std_args.iter().map(|c| render_tokens(c)).collect();
    assert!(std_texts.contains(&"lock".to_string()));
}

#[test]
fn default_is_weak_option() {
    // App  (no flags at all): weak storage, no policy
    let cargs = parse_child(vec![id("App")]).unwrap();
    assert!(cargs.inner.rc_strong.is_none());
    assert!(cargs.inner.unwrap_parent.is_none());
    assert_eq!(cargs.parent_base_ident(), "app");
}

#[test]
fn strong_and_unwrap_rejected() {
    // App, rc_strong, unwrap  =>  mutual-exclusion error naming both spots
    let toks = vec![
        id("App"),
        pu(','),
        id("rc_strong"),
        pu(','),
        id("unwrap"),
    ];
    let err = unwrap_diag(parse_child(toks));
    assert_eq!(err.kind, DiagKind::ExclusiveArgs);
    assert_eq!(err.spans.len(), 2);
}

#[test]
fn strong_with_disabled_unwrap_ok() {
    // rc_strong beside unwrap(off) is not a conflict
    let toks = vec![
        id("App"),
        pu(','),
        id("rc_strong"),
        pu(','),
        id("unwrap"),
        grp(vec![id("off")]),
    ];
    let cargs = parse_child(toks).unwrap();
    assert!(cargs.inner.rc_strong.as_ref().unwrap().on);
    assert!(!cargs.inner.unwrap_parent.as_ref().unwrap().is_set());
}

#[test]
fn legacy_spellings_parse_alike() {
    // unwrap(or(E, v)) and unwrap(error(E, v)) resolve to the same policy
    let mk = |kw: &str| {
        let toks = vec![
            id("App"),
            pu(','),
            id("unwrap"),
            grp(vec![id(kw), grp(vec![id("E"), pu(','), id("v")])]),
        ];
        parse_child(toks).unwrap()
    };
    let a = mk("or");
    let b = mk("error");
    match (
        &a.inner.unwrap_parent.as_ref().unwrap().policy,
        &b.inner.unwrap_parent.as_ref().unwrap().policy,
    ) {
        (
            UnwrapPolicy::MapOrError { error_type: e1, .. },
            UnwrapPolicy::MapOrError { error_type: e2, .. },
        ) => {
            assert_eq!(e1.segs[0].name, "E");
            assert_eq!(e2.segs[0].name, "E");
        },
        _ => panic!("both spellings must resolve to the error-mapping policy"),
    }
    let c = mk("or_else");
    let d = mk("map");
    assert!(matches!(
        c.inner.unwrap_parent.as_ref().unwrap().policy,
        UnwrapPolicy::MapOrElseError { .. }
    ));
    assert!(matches!(
        d.inner.unwrap_parent.as_ref().unwrap().policy,
        UnwrapPolicy::MapOrElseError { .. }
    ));
}

#[test]
fn expect_needs_message() {
    let toks = vec![id("App"), pu(','), id("unwrap"), grp(vec![id("expect")])];
    let err = unwrap_diag(parse_child(toks));
    assert_eq!(err.kind, DiagKind::MissingExpectMessage);
}

#[test]
fn error_form_needs_two_arguments() {
    let toks = vec![
        id("App"),
        pu(','),
        id("unwrap"),
        grp(vec![id("or"), grp(vec![id("E")])]),
    ];
    let err = unwrap_diag(parse_child(toks));
    assert_eq!(err.kind, DiagKind::BadArity);
}

#[test]
fn error_type_must_be_a_path() {
    let toks = vec![
        id("App"),
        pu(','),
        id("unwrap"),
        grp(vec![id("or"), grp(vec![lit_token("1", sp()), pu(','), id("v")])]),
    ];
    let err = unwrap_diag(parse_child(toks));
    assert_eq!(err.kind, DiagKind::ExpectedErrorType);
}

#[test]
fn closure_not_accepted_for_value_form() {
    let toks = vec![
        id("App"),
        pu(','),
        id("unwrap"),
        grp(vec![
            id("or"),
            grp(vec![id("E"), pu(','), pu('|'), pu('|'), id("v")]),
        ]),
    ];
    let err = unwrap_diag(parse_child(toks));
    assert_eq!(err.kind, DiagKind::ClosureNotAllowed);
}

#[test]
fn closure_accepted_for_closure_form() {
    let toks = vec![
        id("App"),
        pu(','),
        id("unwrap"),
        grp(vec![
            id("or_else"),
            grp(vec![id("E"), pu(','), pu('|'), pu('|'), id("v")]),
        ]),
    ];
    assert!(parse_child(toks).is_ok());
}

#[test]
fn literal_in_unwrap_rejected() {
    let toks = vec![
        id("App"),
        pu(','),
        id("unwrap"),
        grp(vec![str_token("x", sp())]),
    ];
    let err = unwrap_diag(parse_child(toks));
    assert_eq!(err.kind, DiagKind::UnexpectedLiteral);
}

#[test]
fn duplicate_argument_rejected() {
    let toks = vec![
        id("App"),
        pu(','),
        id("unwrap"),
        pu(','),
        id("unwrap"),
    ];
    let err = unwrap_diag(parse_child(toks));
    assert_eq!(err.kind, DiagKind::DuplicateArg);
}

#[test]
fn unknown_argument_rejected() {
    let toks = vec![id("App"), pu(','), id("bogus")];
    let err = unwrap_diag(parse_child(toks));
    assert_eq!(err.kind, DiagKind::UnknownArg);
}

#[test]
fn alias_needs_identifier() {
    let toks = vec![id("App"), id("as"), pu(',')];
    let err = unwrap_diag(parse_child(toks));
    assert_eq!(err.kind, DiagKind::ExpectedIdent);
}

#[test]
fn comma_expected_after_type() {
    let toks = vec![id("App"), id("junk")];
    let err = unwrap_diag(parse_child(toks));
    assert_eq!(err.kind, DiagKind::ExpectedComma);
}

#[test]
fn type_expected_first() {
    let toks = vec![pu(','), id("unwrap")];
    let err = unwrap_diag(parse_child(toks));
    assert_eq!(err.kind, DiagKind::ExpectedType);
}

#[test]
fn tuple_type_accepted_verbatim() {
    // (u8, u16) is no path type, but Rust's own grammar accepts it
    let toks = vec![grp(vec![id("u8"), pu(','), id("u16")])];
    let cargs = parse_child(toks).unwrap();
    assert!(matches!(cargs.inner.parent_type, TypeRepr::Opaque(_)));
    let ty = type_repr_tokens(&cargs.inner.parent_type, sp());
    assert_eq!(render_tokens(&ty), "(u8 , u16)");
}

#[test]
fn garbage_type_rejected() {
    let toks = vec![pu('%')];
    let err = unwrap_diag(parse_child(toks));
    assert_eq!(err.kind, DiagKind::ExpectedType);
}

#[test]
fn generic_owner_type_parses_structurally() {
    // Parent<T, U> as up
    let toks = vec![
        id("Parent"),
        pu('<'),
        id("T"),
        pu(','),
        id("U"),
        pu('>'),
        id("as"),
        id("up"),
    ];
    let cargs = parse_child(toks).unwrap();
    assert!(matches!(cargs.inner.parent_type, TypeRepr::Path(_)));
    assert_eq!(cargs.parent_base_ident(), "up");
    let ty = type_repr_tokens(&cargs.inner.parent_type, sp());
    assert_eq!(render_tokens(&ty), "Parent < T , U >");
}

#[test]
fn bad_expression_shape_rejected() {
    // or_else(E, @ #) — no Rust expression at all
    let toks = vec![
        id("App"),
        pu(','),
        id("unwrap"),
        grp(vec![
            id("or_else"),
            grp(vec![id("E"), pu(','), pu('@'), pu('#')]),
        ]),
    ];
    let err = unwrap_diag(parse_child(toks));
    assert_eq!(err.kind, DiagKind::BadExprShape);
}

#[test]
fn string_literals_render_escaped() {
    let toks = vec![str_token("a\"b\\", sp())];
    assert_eq!(render_tokens(&toks), "\"a\\\"b\\\\\"");
}

#[test]
fn diagnostics_have_text() {
    let toks = vec![pu('%')];
    let err = unwrap_diag(parse_child(toks));
    assert!(!err.message().is_empty());
}

#[test]
fn opaque_type_with_alias() {
    // (u8, u16) as pair, unwrap: the alias survives a non-structural type
    let toks = vec![
        grp(vec![id("u8"), pu(','), id("u16")]),
        id("as"),
        id("pair"),
        pu(','),
        id("unwrap"),
    ];
    let cargs = parse_child(toks).unwrap();
    assert!(matches!(cargs.inner.parent_type, TypeRepr::Opaque(_)));
    assert_eq!(cargs.parent_base_ident(), "pair");
    assert!(cargs.inner.unwrap_parent.is_some());
}

#[test]
fn trait_object_owner_accepted_verbatim() {
    // dyn Trait: beyond the structural subset, vouched for by Rust's grammar
    let toks = vec![id("dyn"), id("Trait"), pu(','), id("unwrap")];
    let cargs = parse_child(toks).unwrap();
    assert!(matches!(cargs.inner.parent_type, TypeRepr::Opaque(_)));
    let ty = type_repr_tokens(&cargs.inner.parent_type, sp());
    assert_eq!(render_tokens(&ty), "dyn Trait");
}

#[test]
fn bounded_owner_accepted_verbatim() {
    // A + Send: the structural parser stops at A; the whole form still parses
    let toks = vec![id("A"), pu('+'), id("Send"), pu(','), id("unwrap")];
    let cargs = parse_child(toks).unwrap();
    assert!(matches!(cargs.inner.parent_type, TypeRepr::Opaque(_)));
    let ty = type_repr_tokens(&cargs.inner.parent_type, sp());
    assert_eq!(render_tokens(&ty), "A + Send");
}

#[test]
fn reference_owner_with_lifetime() {
    // &'x App: the lifetime quote stays glued to its identifier
    let toks = vec![pu('&'), pu('\''), id("x"), id("App")];
    let cargs = parse_child(toks).unwrap();
    assert!(matches!(cargs.inner.parent_type, TypeRepr::Opaque(_)));
    let ty = type_repr_tokens(&cargs.inner.parent_type, sp());
    assert_eq!(render_tokens(&ty), "& 'x App");
}

#[test]
fn interior_path_owner_accepted_verbatim() {
    // (a::B, C): an interior path separator inside a tuple type
    let toks = vec![grp(vec![id("a"), pu(':'), pu(':'), id("B"), pu(','), id("C")])];
    let cargs = parse_child(toks).unwrap();
    let ty = type_repr_tokens(&cargs.inner.parent_type, sp());
    assert_eq!(render_tokens(&ty), "(a :: B , C)");
}

#[test]
fn path_separators_render_adjacent() {
    let toks = vec![id("a"), pu(':'), pu(':'), id("B")];
    assert_eq!(render_tokens(&toks), "a :: B");
}
