//! The standalone owner-annotation producer: an application struct is made
//! reference counted and given the inherent `app`/`app_downgrade` accessors
//! over the framework-generated self-reference.

use vstd::prelude::*;
use crate::app::AppStruct;
use crate::args::chunks_view;
use crate::args::lemma_chunks_view_index;
use crate::args::lemma_chunks_view_len;
use crate::args::lemma_chunks_view_push;
use crate::args::meta_chunks;
use crate::args::spec_meta_chunks;
use crate::codegen::RcStateArg;
use crate::codegen::FlagStateArg;
use crate::codegen::SRcState;
use crate::codegen::SFlagState;
use crate::codegen::rc_state_view;
use crate::codegen::flag_state_view;
use crate::descriptor::SyncMode;
use crate::synth::FnDecl;
use crate::synth::extend_tokens;
use crate::synth::spec_strong_ref;
use crate::synth::spec_weak_ref;
use crate::synth::spec_wrap;
use crate::synth::strong_ref_tokens;
use crate::synth::weak_ref_tokens;
use crate::synth::wrap_tokens;
use crate::tokens::Delim;
use crate::tokens::Span;
use crate::tokens::Tok;
use crate::tokens::Token;
use crate::tokens::duplicate_tokens;
use crate::tokens::group_token;
use crate::tokens::id_token;
use crate::tokens::is_ident;
use crate::tokens::lemma_toks_view_index;
use crate::tokens::lemma_toks_view_len;
use crate::tokens::lemma_toks_view_push;
use crate::tokens::punct_token;
use crate::tokens::str_token;
use crate::tokens::toks_view;

verus! {

/// The mathematical view of the standalone owner annotation's arguments.
pub ghost struct SAppArgs {
    pub need_default: SFlagState,
    pub rc: SRcState,
    pub sync: bool,
    pub extra: Seq<Seq<Tok>>,
}

/// The standalone owner annotation's arguments: the default-constructor
/// switch, the reference-counting helper, the sync mode, and everything
/// else verbatim for pass-through.
pub struct AppArgs {
    pub need_default: FlagStateArg,
    pub rc: RcStateArg,
    pub sync: bool,
    pub extra_args: Vec<Vec<Token>>,
}

pub open spec fn app_args_view(a: AppArgs) -> SAppArgs {
    SAppArgs {
        need_default: flag_state_view(a.need_default),
        rc: rc_state_view(a.rc),
        sync: a.sync,
        extra: chunks_view(a.extra_args@),
    }
}

impl View for AppArgs {
    type V = SAppArgs;

    open spec fn view(&self) -> SAppArgs {
        app_args_view(*self)
    }
}

impl AppArgs {
    /// The reference-counting helper as given.
    pub fn rc(&self) -> (r: &RcStateArg)
        ensures
            r == &self.rc,
    {
        &self.rc
    }

    /// Whether the atomically counted primitives are selected.
    pub fn is_sync(&self) -> (r: bool)
        ensures
            r == self.sync,
    {
        self.sync
    }

    /// The selected reference-counting mode.
    pub fn sync_mode(&self) -> (m: SyncMode)
        ensures
            m == spec_app_mode(self@),
    {
        if self.sync {
            SyncMode::Sync
        } else {
            SyncMode::Nonsync
        }
    }

    /// The self-accessor name the framework will generate.
    pub fn myself_name(&self) -> (r: String)
        ensures
            r@ == spec_app_myself(self@),
    {
        match &self.rc {
            RcStateArg::RcOn { name: Option::Some(n), span: _ } => n.clone(),
            _ => "myself".to_owned(),
        }
    }
}

/// The selected reference-counting mode.
pub open spec fn spec_app_mode(a: SAppArgs) -> SyncMode {
    if a.sync {
        SyncMode::Sync
    } else {
        SyncMode::Nonsync
    }
}

/// The self-accessor name.
pub open spec fn spec_app_myself(a: SAppArgs) -> Seq<char> {
    match a.rc {
        SRcState::RcOn(Option::Some(n)) => n,
        _ => "myself"@,
    }
}

/// The arguments handed to the framework for an application struct: the
/// sync selection, enforced reference counting, the serialization
/// switch-off, the default constructor unless disabled, then the
/// pass-through arguments.
pub open spec fn spec_app_fxs_args(a: SAppArgs, serde: bool) -> Seq<Seq<Tok>> {
    (if a.sync {
        seq![seq![Tok::Id("sync"@)]]
    } else {
        Seq::<Seq<Tok>>::empty()
    }) + seq![
        seq![
            Tok::Id("rc"@),
            Tok::Grp(Delim::Paren, seq![Tok::LitStr(spec_app_myself(a))]),
        ],
    ] + (if serde {
        seq![seq![Tok::Id("serde"@), crate::codegen::spec_off_grp()]]
    } else {
        Seq::<Seq<Tok>>::empty()
    }) + (if !(a.need_default is FlagOff) {
        seq![seq![Tok::Id("default"@)]]
    } else {
        Seq::<Seq<Tok>>::empty()
    }) + a.extra
}

/// `self . name ( )` as a spec token sequence.
pub open spec fn spec_self_call_toks(name: Seq<char>) -> Seq<Tok> {
    seq![Tok::Id("self"@), Tok::Pu('.'), Tok::Id(name), Tok::Grp(Delim::Paren, Seq::empty())]
}

/// The synthesis output for a standalone application struct.
pub struct AppProduceOutput {
    pub fxs_args: Vec<Vec<Token>>,
    pub app_method: FnDecl,
    pub app_downgrade_method: FnDecl,
    pub app_struct: AppStruct,
}

/// Everything a produced application struct guarantees.
pub open spec fn spec_app_produce_ok(out: AppProduceOutput, a: SAppArgs, serde: bool) -> bool {
    let m = spec_app_mode(a);
    &&& chunks_view(out.fxs_args@) == spec_app_fxs_args(a, serde)
    &&& out.app_method.name@ == "app"@
    &&& out.app_method.self_borrow
    &&& toks_view(out.app_method.params@) == Seq::<Tok>::empty()
    &&& toks_view(out.app_method.ret@) == spec_wrap(spec_strong_ref(m), seq![Tok::Id("Self"@)])
    &&& toks_view(out.app_method.body@) == spec_self_call_toks(spec_app_myself(a)) + seq![
        Tok::Pu('.'),
        Tok::Id("unwrap"@),
        Tok::Grp(Delim::Paren, Seq::empty()),
    ]
    &&& out.app_downgrade_method.name@ == "app_downgrade"@
    &&& out.app_downgrade_method.self_borrow
    &&& toks_view(out.app_downgrade_method.params@) == Seq::<Tok>::empty()
    &&& toks_view(out.app_downgrade_method.ret@) == spec_wrap(
        spec_weak_ref(m),
        seq![Tok::Id("Self"@)],
    )
    &&& toks_view(out.app_downgrade_method.body@) == spec_self_call_toks(
        spec_app_myself(a) + "_downgrade"@,
    )
}

/// The standalone application-annotation producer.
pub struct AppProducer {}

impl AppProducer {
    /// Make a producer.
    pub fn new() -> (r: AppProducer)
        ensures
            r == (AppProducer {  }),
    {
        AppProducer {  }
    }

    /// Compose the accessor methods and framework arguments for an
    /// application struct, which is preserved verbatim.
    #[verifier::rlimit(100)]
    #[verifier::spinoff_prover]
    pub fn produce(&self, app_struct: AppStruct, args: AppArgs, serde_enabled: bool) -> (r:
        AppProduceOutput)
        ensures
            spec_app_produce_ok(r, args@, serde_enabled),
            r.app_struct == app_struct,
    {
        let ghost a = args@;
        let span = Span::none();
        let mode = args.sync_mode();
        let myself = args.myself_name();

        let mut fxs: Vec<Vec<Token>> = Vec::new();
        proof {
            assert(chunks_view(fxs@) =~= Seq::<Seq<Tok>>::empty());
        }
        if args.sync {
            let mut chunk: Vec<Token> = Vec::new();
            proof {
                assert(toks_view(chunk@) =~= Seq::<Tok>::empty());
            }
            push_tok3(&mut chunk, id_token("sync", span));
            proof {
                assert(toks_view(chunk@) =~= seq![Tok::Id("sync"@)]);
                lemma_chunks_view_push(fxs@, chunk);
            }
            fxs.push(chunk);
        }
        let mut rc_chunk: Vec<Token> = Vec::new();
        proof {
            assert(toks_view(rc_chunk@) =~= Seq::<Tok>::empty());
        }
        push_tok3(&mut rc_chunk, id_token("rc", span));
        let mut name_toks: Vec<Token> = Vec::new();
        proof {
            assert(toks_view(name_toks@) =~= Seq::<Tok>::empty());
        }
        push_tok3(&mut name_toks, str_token(myself.as_str(), span));
        proof {
            assert(toks_view(name_toks@) =~= seq![Tok::LitStr(spec_app_myself(a))]);
        }
        push_tok3(&mut rc_chunk, group_token(Delim::Paren, name_toks, span));
        proof {
            assert(toks_view(rc_chunk@) =~= seq![
                Tok::Id("rc"@),
                Tok::Grp(Delim::Paren, seq![Tok::LitStr(spec_app_myself(a))]),
            ]);
            lemma_chunks_view_push(fxs@, rc_chunk);
        }
        fxs.push(rc_chunk);
        if serde_enabled {
            let mut chunk: Vec<Token> = Vec::new();
            proof {
                assert(toks_view(chunk@) =~= Seq::<Tok>::empty());
            }
            push_tok3(&mut chunk, id_token("serde", span));
            push_tok3(&mut chunk, off_grp(span));
            proof {
                assert(toks_view(chunk@) =~= seq![
                    Tok::Id("serde"@),
                    crate::codegen::spec_off_grp(),
                ]);
                lemma_chunks_view_push(fxs@, chunk);
            }
            fxs.push(chunk);
        }
        let default_off = matches!(args.need_default, FlagStateArg::FlagOff { .. });
        if !default_off {
            let mut chunk: Vec<Token> = Vec::new();
            proof {
                assert(toks_view(chunk@) =~= Seq::<Tok>::empty());
            }
            push_tok3(&mut chunk, id_token("default", span));
            proof {
                assert(toks_view(chunk@) =~= seq![Tok::Id("default"@)]);
                lemma_chunks_view_push(fxs@, chunk);
            }
            fxs.push(chunk);
        }
        let mut i: usize = 0;
        let ghost mid = chunks_view(fxs@);
        while i < args.extra_args.len()
            invariant
                i <= args.extra_args@.len(),
                chunks_view(fxs@) =~= mid + chunks_view(args.extra_args@.take(i as int)),
            decreases args.extra_args@.len() - i,
        {
            let c = duplicate_tokens(&args.extra_args[i]);
            proof {
                lemma_chunks_view_push(fxs@, c);
                lemma_chunks_view_push(
                    args.extra_args@.take(i as int),
                    args.extra_args@[i as int],
                );
                assert(args.extra_args@.take(i as int).push(args.extra_args@[i as int])
                    =~= args.extra_args@.take(i + 1));
                lemma_chunks_view_index(args.extra_args@, i as int);
            }
            fxs.push(c);
            i = i + 1;
        }
        proof {
            assert(args.extra_args@.take(args.extra_args@.len() as int) =~= args.extra_args@);
            assert(chunks_view(fxs@) =~= spec_app_fxs_args(a, serde_enabled));
        }

        // app(): clone the framework-held strong self-reference
        let mut app_body = self_call_tokens(myself.as_str(), span);
        push_tok3(&mut app_body, punct_token('.', span));
        push_tok3(&mut app_body, id_token("unwrap", span));
        push_tok3(&mut app_body, group_token(Delim::Paren, Vec::new(), span));
        proof {
            assert(toks_view(Seq::<Token>::empty()) =~= Seq::<Tok>::empty());
            assert(toks_view(app_body@) =~= spec_self_call_toks(spec_app_myself(a)) + seq![
                Tok::Pu('.'),
                Tok::Id("unwrap"@),
                Tok::Grp(Delim::Paren, Seq::empty()),
            ]);
        }
        let mut self_toks: Vec<Token> = Vec::new();
        proof {
            assert(toks_view(self_toks@) =~= Seq::<Tok>::empty());
        }
        push_tok3(&mut self_toks, id_token("Self", span));
        proof {
            assert(toks_view(self_toks@) =~= seq![Tok::Id("Self"@)]);
        }
        let app_method = FnDecl {
            name: "app".to_owned(),
            self_borrow: true,
            params: Vec::new(),
            ret: wrap_tokens(strong_ref_tokens(mode, span), self_toks, span),
            body: app_body,
            span,
        };

        // app_downgrade(): hand out a weak self-reference
        let mut down_name = myself.clone();
        down_name.append("_downgrade");
        let down_body = self_call_tokens(down_name.as_str(), span);
        let mut self_toks2: Vec<Token> = Vec::new();
        proof {
            assert(toks_view(self_toks2@) =~= Seq::<Tok>::empty());
        }
        push_tok3(&mut self_toks2, id_token("Self", span));
        proof {
            assert(toks_view(self_toks2@) =~= seq![Tok::Id("Self"@)]);
        }
        let app_downgrade_method = FnDecl {
            name: "app_downgrade".to_owned(),
            self_borrow: true,
            params: Vec::new(),
            ret: wrap_tokens(weak_ref_tokens(mode, span), self_toks2, span),
            body: down_body,
            span,
        };
        proof {
            assert(toks_view(Seq::<Token>::empty()) =~= Seq::<Tok>::empty());
        }
        AppProduceOutput { fxs_args: fxs, app_method, app_downgrade_method, app_struct }
    }
}

fn push_tok3(out: &mut Vec<Token>, t: Token)
    ensures
        toks_view(final(out)@) == toks_view(old(out)@).push(t@),
{
    proof {
        lemma_toks_view_push(out@, t);
    }
    out.push(t);
}

fn off_grp(span: Span) -> (t: Token)
    ensures
        t@ == crate::codegen::spec_off_grp(),
{
    let mut inner: Vec<Token> = Vec::new();
    proof {
        assert(toks_view(inner@) =~= Seq::<Tok>::empty());
    }
    push_tok3(&mut inner, id_token("off", span));
    proof {
        assert(toks_view(inner@) =~= seq![Tok::Id("off"@)]);
    }
    group_token(Delim::Paren, inner, span)
}

/// `self . name ( )` as tokens.
fn self_call_tokens(name: &str, span: Span) -> (r: Vec<Token>)
    ensures
        toks_view(r@) == spec_self_call_toks(name@),
{
    let mut out: Vec<Token> = Vec::new();
    proof {
        assert(toks_view(out@) =~= Seq::<Tok>::empty());
    }
    push_tok3(&mut out, id_token("self", span));
    push_tok3(&mut out, punct_token('.', span));
    push_tok3(&mut out, id_token(name, span));
    push_tok3(&mut out, group_token(Delim::Paren, Vec::new(), span));
    proof {
        assert(toks_view(Seq::<Token>::empty()) =~= Seq::<Tok>::empty());
        assert(toks_view(out@) =~= spec_self_call_toks(name@));
    }
    out
}

} // verus!
