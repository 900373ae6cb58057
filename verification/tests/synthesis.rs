use fieldx_plus::app::AgentStruct;
use fieldx_plus::app::AppStruct;
use fieldx_plus::app::app_producer::AppArgs;
use fieldx_plus::app::app_producer::AppProducer;
use fieldx_plus::app::obj_producer::AgentArgs;
use fieldx_plus::app::obj_producer::AgentProducer;
use fieldx_plus::args::ChildArgs;
use fieldx_plus::builder_sugar::FieldInit;
use fieldx_plus::builder_sugar::build_chain;
use fieldx_plus::builder_sugar::builder_chain;
use fieldx_plus::codegen::FXPlusArgs;
use fieldx_plus::codegen::FXPlusProducer;
use fieldx_plus::codegen::FXPlusStruct;
use fieldx_plus::codegen::FlagStateArg;
use fieldx_plus::codegen::RcStateArg;
use fieldx_plus::descriptor::AppDescriptor;
use fieldx_plus::descriptor::Role;
use fieldx_plus::descriptor::SyncMode;
use fieldx_plus::render::render_tokens;
use fieldx_plus::synth::GeneratedFragment;
use fieldx_plus::synth::synthesize_relationship;
use fieldx_plus::tokens::Delim;
use fieldx_plus::tokens::Span;
use fieldx_plus::tokens::Token;
use fieldx_plus::tokens::group_token;
use fieldx_plus::tokens::id_token;
use fieldx_plus::tokens::lit_token;
use fieldx_plus::tokens::punct_token;
use fieldx_plus::tokens::str_token;
use fieldx_plus::typath::PathSeg;
use fieldx_plus::typath::TypePath;
use fieldx_plus::typath::parse_type_at;
use fieldx_plus::typath::render_type_tokens;

fn sp() -> Span {
    Span::none()
}

fn unwrap_diag<T>(r: Result<T, fieldx_plus::diag::Diag>) -> fieldx_plus::diag::Diag {
    match r {
        Ok(_) => panic!("expected a rejection"),
        Err(d) => d,
    }
}

fn id(s: &str) -> Token {
    id_token(s, sp())
}

fn pu(c: char) -> Token {
    punct_token(c, sp())
}

fn grp(inner: Vec<Token>) -> Token {
    group_token(Delim::Paren, inner, sp())
}

fn agent_fragment(toks: Vec<Token>, mode: SyncMode) -> GeneratedFragment {
    let args = ChildArgs::parse(&toks, AppDescriptor::descriptor()).unwrap();
    synthesize_relationship(&args, mode, false).unwrap()
}

#[test]
fn panic_policy_scenario() {
    // agent(App, unwrap): bare strong return type, body panics when gone
    let frag = agent_fragment(vec![id("App"), pu(','), id("unwrap")], SyncMode::Nonsync);
    assert_eq!(frag.trait_impl.accessor.name, "app");
    assert_eq!(render_tokens(&frag.accessor_ret), ":: std :: rc :: Rc < App >");
    assert_eq!(
        render_tokens(&frag.trait_impl.accessor.body),
        ":: std :: rc :: Weak :: upgrade (& self . __app) . unwrap ()"
    );
}

#[test]
fn expect_policy_scenario() {
    // agent(App, unwrap(expect("owner gone"))): panics with that message
    let frag = agent_fragment(
        vec![
            id("App"),
            pu(','),
            id("unwrap"),
            grp(vec![id("expect"), grp(vec![str_token("owner gone", sp())])]),
        ],
        SyncMode::Nonsync,
    );
    assert_eq!(render_tokens(&frag.accessor_ret), ":: std :: rc :: Rc < App >");
    let body = render_tokens(&frag.trait_impl.accessor.body);
    assert!(body.ends_with(". expect (\"owner gone\")"), "{body}");
}

#[test]
fn error_policy_scenario() {
    // agent(App, unwrap(error(MyErr, MyErr::Gone))): Result-returning accessor
    let frag = agent_fragment(
        vec![
            id("App"),
            pu(','),
            id("unwrap"),
            grp(vec![
                id("error"),
                grp(vec![
                    id("MyErr"),
                    pu(','),
                    id("MyErr"),
                    pu(':'),
                    pu(':'),
                    id("Gone"),
                ]),
            ]),
        ],
        SyncMode::Nonsync,
    );
    assert_eq!(
        render_tokens(&frag.accessor_ret),
        ":: std :: result :: Result < :: std :: rc :: Rc < App > , MyErr >"
    );
    let body = render_tokens(&frag.trait_impl.accessor.body);
    assert!(body.ends_with(". ok_or (MyErr :: Gone)"), "{body}");
}

#[test]
fn strong_storage_scenario() {
    // agent(App, rc_strong): bare strong type, no failure path at all
    let frag = agent_fragment(vec![id("App"), pu(','), id("rc_strong")], SyncMode::Nonsync);
    assert_eq!(render_tokens(&frag.accessor_ret), ":: std :: rc :: Rc < App >");
    let body = render_tokens(&frag.trait_impl.accessor.body);
    assert_eq!(body, ":: std :: rc :: Rc :: clone (& self . __app)");
    assert!(!body.contains("unwrap"));
    assert!(!body.contains("expect"));
    assert!(!body.contains("ok_or"));
    let down = render_tokens(&frag.trait_impl.downgrade.body);
    assert_eq!(down, ":: std :: rc :: Rc :: downgrade (& self . __app)");
}

#[test]
fn no_policy_gives_option() {
    // agent(App): the conservative default returns an Option
    let frag = agent_fragment(vec![id("App")], SyncMode::Nonsync);
    assert_eq!(
        render_tokens(&frag.accessor_ret),
        ":: std :: option :: Option < :: std :: rc :: Rc < App > >"
    );
    let body = render_tokens(&frag.trait_impl.accessor.body);
    assert_eq!(body, ":: std :: rc :: Weak :: upgrade (& self . __app)");
}

#[test]
fn sync_mode_selects_atomic_pair() {
    let frag = agent_fragment(vec![id("App"), pu(','), id("rc_strong")], SyncMode::Sync);
    assert_eq!(render_tokens(&frag.accessor_ret), ":: std :: sync :: Arc < App >");
}

#[test]
fn assoc_type_matches_return_type() {
    // the capability trait's strong associated type equals the accessor's
    // declared return type, whatever the policy
    let cases: Vec<Vec<Token>> = vec![
        vec![id("App")],
        vec![id("App"), pu(','), id("unwrap")],
        vec![id("App"), pu(','), id("rc_strong")],
        vec![
            id("App"),
            pu(','),
            id("unwrap"),
            grp(vec![id("or"), grp(vec![id("E"), pu(','), id("E"), pu(':'), pu(':'), id("V")])]),
        ],
    ];
    for toks in cases {
        let frag = agent_fragment(toks, SyncMode::Nonsync);
        assert_eq!(
            render_tokens(&frag.trait_impl.rc_assoc.ty),
            render_tokens(&frag.accessor_ret)
        );
    }
}

#[test]
fn legacy_spellings_generate_identical_code() {
    // unwrap(error(E, V)) and unwrap(or(E, V)): same body, same return type
    let mk = |kw: &str| {
        agent_fragment(
            vec![
                id("App"),
                pu(','),
                id("unwrap"),
                grp(vec![
                    id(kw),
                    grp(vec![id("E"), pu(','), id("E"), pu(':'), pu(':'), id("V")]),
                ]),
            ],
            SyncMode::Nonsync,
        )
    };
    let a = mk("error");
    let b = mk("or");
    assert_eq!(
        render_tokens(&a.trait_impl.accessor.body),
        render_tokens(&b.trait_impl.accessor.body)
    );
    assert_eq!(render_tokens(&a.accessor_ret), render_tokens(&b.accessor_ret));
    let c = mk("map");
    let d = mk("or_else");
    assert_eq!(
        render_tokens(&c.trait_impl.accessor.body),
        render_tokens(&d.trait_impl.accessor.body)
    );
}

#[test]
fn bare_method_name_calls_self() {
    // map(E, foo): sugar for calling self.foo()
    let frag = agent_fragment(
        vec![
            id("App"),
            pu(','),
            id("unwrap"),
            grp(vec![id("map"), grp(vec![id("E"), pu(','), id("foo")])]),
        ],
        SyncMode::Nonsync,
    );
    let body = render_tokens(&frag.trait_impl.accessor.body);
    assert!(body.contains("|| self . foo ()"), "{body}");
    assert!(!body.contains("self . self"));
}

#[test]
fn bare_call_goes_to_self() {
    // map(E, foo(42)): self.foo(42), never self.self.foo(42)
    let frag = agent_fragment(
        vec![
            id("App"),
            pu(','),
            id("unwrap"),
            grp(vec![
                id("map"),
                grp(vec![id("E"), pu(','), id("foo"), grp(vec![lit_token("42", sp())])]),
            ]),
        ],
        SyncMode::Nonsync,
    );
    let body = render_tokens(&frag.trait_impl.accessor.body);
    assert!(body.contains("|| self . foo (42)"), "{body}");
    assert!(!body.contains("self . self"));
}

#[test]
fn return_type_reparses_to_itself() {
    // re-parsing the textual form of the synthesized return type gives the
    // same type back, for each policy shape
    let cases: Vec<Vec<Token>> = vec![
        vec![id("App")],
        vec![id("App"), pu(','), id("unwrap")],
        vec![id("App"), pu(','), id("rc_strong")],
        vec![
            id("App"),
            pu(','),
            id("unwrap"),
            grp(vec![id("error"), grp(vec![id("MyErr"), pu(','), id("v")])]),
        ],
    ];
    for toks in cases {
        let frag = agent_fragment(toks, SyncMode::Nonsync);
        let (ty, used) = parse_type_at(&frag.accessor_ret, 0).unwrap();
        assert_eq!(used, frag.accessor_ret.len());
        let again = render_type_tokens(&ty, sp());
        assert_eq!(render_tokens(&again), render_tokens(&frag.accessor_ret));
    }
}

fn empty_struct(ident: &str) -> FXPlusStruct {
    FXPlusStruct {
        vis: Vec::new(),
        ident: ident.to_string(),
        generics: Vec::new(),
        where_clause: Vec::new(),
        attrs: Vec::new(),
        fields: Vec::new(),
    }
}

#[test]
fn test_post_build() {
    // parent, builder(post_build): the builder sub-argument passes through
    // to the framework untouched, and no extra bare `builder` is added
    let toks = vec![
        id("parent"),
        pu(','),
        id("builder"),
        grp(vec![id("post_build")]),
    ];
    let args = FXPlusArgs::parse(&toks).unwrap();
    assert!(args.builder);
    let producer = FXPlusProducer::new(args, empty_struct("Foo"));
    let out = producer.produce(false).unwrap();
    let texts: Vec<String> = out.fxstruct_args.iter().map(|c| render_tokens(c)).collect();
    assert!(texts.contains(&"builder (post_build)".to_string()), "{texts:?}");
    assert_eq!(texts.iter().filter(|t| t.starts_with("builder")).count(), 1);
    assert!(out.parent_impl.is_some());
}

#[test]
fn owner_gets_reference_counting() {
    let toks = vec![id("app")];
    let args = FXPlusArgs::parse(&toks).unwrap();
    let out = FXPlusProducer::new(args, empty_struct("Application")).produce(false).unwrap();
    let texts: Vec<String> = out.fxstruct_args.iter().map(|c| render_tokens(c)).collect();
    assert!(texts.contains(&"rc (\"myself\")".to_string()), "{texts:?}");
    let p = out.parent_impl.unwrap();
    assert_eq!(render_tokens(&p.trait_path), ":: fieldx_plus :: Parent");
    assert_eq!(render_tokens(&p.downgrade.body), "self . myself_downgrade ()");
}

#[test]
fn rc_cannot_be_disabled_for_owner() {
    let toks = vec![id("app"), pu(','), id("rc"), grp(vec![id("off")])];
    let args = FXPlusArgs::parse(&toks).unwrap();
    let err = unwrap_diag(FXPlusProducer::new(args, empty_struct("Application")).produce(false));
    assert_eq!(err.kind, fieldx_plus::diag::DiagKind::RcDisabled);
}

#[test]
fn new_not_allowed_for_dependent() {
    let toks = vec![
        id("agent"),
        grp(vec![id("App")]),
        pu(','),
        id("new"),
    ];
    let args = FXPlusArgs::parse(&toks).unwrap();
    let err = unwrap_diag(FXPlusProducer::new(args, empty_struct("Agent")).produce(false));
    assert_eq!(err.kind, fieldx_plus::diag::DiagKind::NewNotAllowed);
}

#[test]
fn dependent_gets_builder_and_no_new() {
    let toks = vec![id("agent"), grp(vec![id("App"), pu(','), id("unwrap")])];
    let args = FXPlusArgs::parse(&toks).unwrap();
    let out = FXPlusProducer::new(args, empty_struct("Worker")).produce(false).unwrap();
    let texts: Vec<String> = out.fxstruct_args.iter().map(|c| render_tokens(c)).collect();
    assert!(texts.contains(&"new (off)".to_string()), "{texts:?}");
    assert!(texts.contains(&"builder".to_string()), "{texts:?}");
    let frag = out.agent_fragment.unwrap();
    assert_eq!(frag.field.name, "__app");
    assert_eq!(render_tokens(&frag.field.ty), ":: std :: rc :: Weak < App >");
    let attrs = render_tokens(&frag.field.attrs);
    assert!(attrs.contains("lazy (off)"), "{attrs}");
    assert!(attrs.contains("builder (\"app\")"), "{attrs}");
}

#[test]
fn app_producer_output() {
    let producer = AppProducer::new();
    let args = AppArgs {
        need_default: FlagStateArg::FlagAbsent,
        rc: RcStateArg::RcAbsent,
        sync: true,
        extra_args: Vec::new(),
    };
    let s = AppStruct {
        vis: Vec::new(),
        ident: "Application".to_string(),
        attrs: Vec::new(),
        generics: Vec::new(),
        where_clause: Vec::new(),
        fields: Vec::new(),
    };
    let out = producer.produce(s, args, false);
    let texts: Vec<String> = out.fxs_args.iter().map(|c| render_tokens(c)).collect();
    assert!(texts.contains(&"sync".to_string()));
    assert!(texts.contains(&"rc (\"myself\")".to_string()));
    assert!(texts.contains(&"default".to_string()));
    assert_eq!(render_tokens(&out.app_method.body), "self . myself () . unwrap ()");
    assert_eq!(render_tokens(&out.app_method.ret), ":: std :: sync :: Arc < Self >");
    assert_eq!(
        render_tokens(&out.app_downgrade_method.body),
        "self . myself_downgrade ()"
    );
}

#[test]
fn agent_producer_output() {
    // App, sync, unwrap, post_build(setup)
    let toks = vec![
        id("App"),
        pu(','),
        id("sync"),
        pu(','),
        id("unwrap"),
        pu(','),
        id("post_build"),
        grp(vec![id("setup")]),
    ];
    let args = AgentArgs::from_list(&toks).unwrap();
    assert!(args.needs_unwrap());
    assert!(args.is_sync());
    let s = AgentStruct {
        vis: Vec::new(),
        ident: "Worker".to_string(),
        attrs: Vec::new(),
        generics: Vec::new(),
        where_clause: Vec::new(),
        fields: Vec::new(),
    };
    let producer = AgentProducer::new();
    let out = producer.produce(s, args, false).unwrap();
    let texts: Vec<String> = out.fxs_args.iter().map(|c| render_tokens(c)).collect();
    assert!(texts.contains(&"sync".to_string()));
    assert!(texts.contains(&"no_new".to_string()));
    assert!(texts.contains(&"builder ()".to_string()));
    assert_eq!(
        render_tokens(&out.app_method.body),
        "self . __app . upgrade () . unwrap ()"
    );
    assert_eq!(render_tokens(&out.post_build_method.body), "self . setup ()");
    assert_eq!(render_tokens(&out.app_field.ty), ":: std :: sync :: Weak < App >");
}

#[test]
fn agent_args_need_owner_type() {
    let err = unwrap_diag(AgentArgs::from_list(&Vec::new()));
    assert_eq!(err.kind, fieldx_plus::diag::DiagKind::MissingOwnerType);
}

fn plain_type(name: &str) -> TypePath {
    TypePath {
        lead: false,
        segs: vec![PathSeg { name: name.to_string(), args: Vec::new() }],
    }
}

#[test]
fn builder_shortcut_seeds_owner() {
    let ty = plain_type("NetService");
    let owner_weak = vec![id("self"), pu('.'), id("app_downgrade"), grp(Vec::new())];
    let inits = vec![
        FieldInit { name: "port".to_string(), value: vec![lit_token("4242", sp())], span: sp() },
        FieldInit {
            name: "name".to_string(),
            value: vec![str_token("app service", sp())],
            span: sp(),
        },
    ];
    let chain = builder_chain(&ty, Role::Application, &owner_weak, &inits, sp());
    assert_eq!(
        render_tokens(&chain),
        "NetService :: builder () . app (self . app_downgrade ()) . port (4242) . name (\"app service\")"
    );
    let done = build_chain(&ty, Role::Application, &owner_weak, &inits, sp());
    let chain_text = render_tokens(&chain);
    let done_text = render_tokens(&done);
    assert!(done_text.starts_with(&chain_text));
    assert_eq!(done_text, format!("{chain_text} . build ()"));
}

#[test]
fn builder_shortcut_parent_flavor() {
    let ty = plain_type("Node");
    let owner_weak = vec![id("w")];
    let chain = builder_chain(&ty, Role::Parent, &owner_weak, &Vec::new(), sp());
    assert_eq!(render_tokens(&chain), "Node :: builder () . parent (w)");
}

#[test]
fn user_struct_passes_through_unchanged() {
    let toks = vec![id("agent"), grp(vec![id("App"), pu(','), id("unwrap")])];
    let args = FXPlusArgs::parse(&toks).unwrap();
    let mut s = empty_struct("Worker");
    s.generics = vec![pu('<'), id("T"), pu('>')];
    s.fields = vec![fieldx_plus::codegen::UserField {
        toks: vec![id("count"), pu(':'), id("u32")],
        span: sp(),
    }];
    let out = FXPlusProducer::new(args, s).produce(false).unwrap();
    assert_eq!(render_tokens(&out.plus_struct.generics), "< T >");
    assert_eq!(out.plus_struct.fields.len(), 1);
    assert_eq!(render_tokens(&out.plus_struct.fields[0].toks), "count : u32");
}

#[test]
fn variant_call_expression_used_verbatim() {
    // unwrap(or(MyError, MyError::appgone("something"))): an enum-variant
    // constructor call passes the expression gate and is used verbatim
    let frag = agent_fragment(
        vec![
            id("App"),
            pu(','),
            id("unwrap"),
            grp(vec![
                id("or"),
                grp(vec![
                    id("MyError"),
                    pu(','),
                    id("MyError"),
                    pu(':'),
                    pu(':'),
                    id("appgone"),
                    grp(vec![str_token("something", sp())]),
                ]),
            ]),
        ],
        SyncMode::Nonsync,
    );
    let body = render_tokens(&frag.trait_impl.accessor.body);
    assert!(body.ends_with(". ok_or (MyError :: appgone (\"something\"))"), "{body}");
}
