//! The standalone dependent-annotation producer: an agent struct gets the
//! weak storage field for its application, the builder-driven constructor,
//! the post-build hook, and the `Agent` capability implementation whose
//! accessor return type the upgrade policy selects.

use vstd::prelude::*;
use crate::app::AgentStruct;
use crate::args::SUnwrap;
use crate::args::UnwrapArg;
use crate::args::UnwrapPolicy;
use crate::args::SChildArgs;
use crate::args::chunks_view;
use crate::args::lemma_chunks_view_index;
use crate::args::lemma_chunks_view_len;
use crate::args::lemma_chunks_view_push;
use crate::args::meta_chunks;
use crate::args::parse_unwrap_arg;
use crate::args::spec_meta_chunks;
use crate::args::spec_parse_unwrap;
use crate::args::unwrap_view;
use crate::codegen::RcStateArg;
use crate::codegen::SRcState;
use crate::codegen::rc_state_view;
use crate::codegen::spec_off_grp;
use crate::codegen::spec_rc_from_group;
use crate::descriptor::SyncMode;
use crate::diag::Diag;
use crate::diag::DiagKind;
use crate::expr::TranslateAs;
use crate::expr::translate_or_expr;
use crate::extern_syn::syn_parses_type;
use crate::extern_syn::syn_type_ok;
use crate::render::render_tokens;
use crate::render::spec_render_text;
use crate::synth::FieldDecl;
use crate::synth::FnDecl;
use crate::synth::extend_tokens;
use crate::synth::spec_accessor_ret;
use crate::synth::spec_field_attrs;
use crate::synth::spec_self_assoc;
use crate::synth::spec_self_field_arg;
use crate::synth::spec_strong_ref;
use crate::synth::spec_translate_ok;
use crate::synth::spec_upgrade_suffix;
use crate::synth::spec_weak_ref;
use crate::synth::spec_wrap;
use crate::synth::strong_ref_tokens;
use crate::synth::weak_ref_tokens;
use crate::synth::wrap_tokens;
use crate::tokens::Delim;
use crate::tokens::Span;
use crate::tokens::Tok;
use crate::tokens::Token;
use crate::tokens::TokenKind;
use crate::tokens::duplicate_tokens;
use crate::tokens::group_token;
use crate::tokens::id_token;
use crate::tokens::is_ident;
use crate::tokens::lemma_toks_size_elem;
use crate::tokens::lemma_toks_size_len;
use crate::tokens::lemma_toks_view_index;
use crate::tokens::lemma_toks_view_len;
use crate::tokens::lemma_toks_view_push;
use crate::tokens::punct_token;
use crate::tokens::str_token;
use crate::tokens::toks_size;
use crate::tokens::toks_view;
use crate::typath::STyRepr;
use crate::typath::TypeRepr;
use crate::typath::parse_type_at;
use crate::typath::spec_parse_ty;
use crate::typath::type_parse_fuel;
use crate::typath::type_repr_tokens;

verus! {

/// The mathematical view of the standalone dependent annotation.
pub ghost struct SAgentArgs {
    pub app_type: STyRepr,
    pub sync: bool,
    pub rc: SRcState,
    pub rc_orig: Option<Seq<Tok>>,
    pub unwrap: Option<SUnwrap>,
    pub builder_args: Option<Seq<Tok>>,
    pub post_build: Option<Seq<char>>,
    pub extra: Seq<Seq<Tok>>,
}

/// The standalone dependent annotation's arguments: the owner application
/// type first, then the sync mode, the reference-counting helper (kept
/// verbatim for pass-through), the upgrade policy, builder sub-arguments,
/// the post-build hook, and everything else verbatim.
pub struct AgentArgs {
    pub app_type: TypeRepr,
    pub sync: bool,
    pub rc: RcStateArg,
    pub rc_orig: Option<Vec<Token>>,
    pub unwrap: Option<UnwrapArg>,
    pub builder_args: Option<Vec<Token>>,
    pub post_build: Option<String>,
    pub extra_args: Vec<Vec<Token>>,
}

pub open spec fn agent_args_view(a: AgentArgs) -> SAgentArgs {
    SAgentArgs {
        app_type: a.app_type@,
        sync: a.sync,
        rc: rc_state_view(a.rc),
        rc_orig: match a.rc_orig {
            Option::Some(o) => Option::Some(toks_view(o@)),
            Option::None => Option::None,
        },
        unwrap: match a.unwrap {
            Option::Some(u) => Option::Some(unwrap_view(u)),
            Option::None => Option::None,
        },
        builder_args: match a.builder_args {
            Option::Some(b) => Option::Some(toks_view(b@)),
            Option::None => Option::None,
        },
        post_build: match a.post_build {
            Option::Some(p) => Option::Some(p@),
            Option::None => Option::None,
        },
        extra: chunks_view(a.extra_args@),
    }
}

impl View for AgentArgs {
    type V = SAgentArgs;

    open spec fn view(&self) -> SAgentArgs {
        agent_args_view(*self)
    }
}

/// The policy in force: present and not switched off.
pub open spec fn spec_effective_unwrap(a: SAgentArgs) -> Option<SUnwrap> {
    match a.unwrap {
        Option::Some(u) => if !u.off {
            Option::Some(u)
        } else {
            Option::None
        },
        Option::None => Option::None,
    }
}

/// The dependent configuration this annotation amounts to: weak storage of
/// the application under the default accessor name, with the policy in
/// force.
pub open spec fn spec_agent_child_view(a: SAgentArgs) -> SChildArgs {
    SChildArgs {
        parent: a.app_type,
        alias: Option::None,
        rc_strong: Option::None,
        unwrap: spec_effective_unwrap(a),
    }
}

impl AgentArgs {
    /// Whether an upgrade policy is in force.
    pub fn needs_unwrap(&self) -> (r: bool)
        ensures
            r == (spec_effective_unwrap(self@) is Some),
    {
        match &self.unwrap {
            Option::Some(u) => !u.off,
            Option::None => false,
        }
    }

    /// The reference-counting helper as given.
    pub fn rc(&self) -> (r: &RcStateArg)
        ensures
            r == &self.rc,
    {
        &self.rc
    }

    /// Whether the atomically counted primitives are selected.
    pub fn is_sync(&self) -> (r: bool)
        ensures
            r == self.sync,
    {
        self.sync
    }

    /// The selected reference-counting mode.
    pub fn sync_mode(&self) -> (m: SyncMode)
        ensures
            m == spec_agent_mode(self@),
    {
        if self.sync {
            SyncMode::Sync
        } else {
            SyncMode::Nonsync
        }
    }
}

/// The selected reference-counting mode.
pub open spec fn spec_agent_mode(a: SAgentArgs) -> SyncMode {
    if a.sync {
        SyncMode::Sync
    } else {
        SyncMode::Nonsync
    }
}

/// How one argument after the owner type updates the parse state.
pub open spec fn spec_agent_chunk_step(acc: SAgentArgs, c: Seq<Tok>) -> Result<
    SAgentArgs,
    DiagKind,
> {
    if c.len() == 1 && c[0] == Tok::Id("sync"@) {
        Result::Ok(SAgentArgs { sync: true, ..acc })
    } else if c.len() == 1 && c[0] == Tok::Id("rc"@) {
        Result::Ok(
            SAgentArgs {
                rc: SRcState::RcOn(Option::None),
                rc_orig: Option::Some(c),
                ..acc
            },
        )
    } else if c.len() == 2 && c[0] == Tok::Id("rc"@) && c[1] is Grp && c[1]->Grp_0
        == Delim::Paren {
        Result::Ok(
            SAgentArgs { rc: spec_rc_from_group(c[1]->Grp_1), rc_orig: Option::Some(c), ..acc },
        )
    } else if c.len() == 1 && c[0] == Tok::Id("unwrap"@) {
        Result::Ok(
            SAgentArgs {
                unwrap: Option::Some(
                    SUnwrap { off: false, policy: crate::args::SPolicy::SPanic },
                ),
                ..acc
            },
        )
    } else if c.len() == 2 && c[0] == Tok::Id("unwrap"@) && c[1] is Grp && c[1]->Grp_0
        == Delim::Paren {
        match spec_parse_unwrap(c[1]->Grp_1) {
            Result::Err(k) => Result::Err(k),
            Result::Ok(u) => Result::Ok(SAgentArgs { unwrap: Option::Some(u), ..acc }),
        }
    } else if c.len() == 1 && c[0] == Tok::Id("builder"@) {
        Result::Ok(SAgentArgs { builder_args: Option::Some(Seq::empty()), ..acc })
    } else if c.len() == 2 && c[0] == Tok::Id("builder"@) && c[1] is Grp && c[1]->Grp_0
        == Delim::Paren {
        Result::Ok(SAgentArgs { builder_args: Option::Some(c[1]->Grp_1), ..acc })
    } else if c.len() >= 1 && c[0] == Tok::Id("post_build"@) {
        if c.len() == 2 && c[1] is Grp && c[1]->Grp_0 == Delim::Paren && (c[1]->Grp_1).len() == 1
            && ((c[1]->Grp_1)[0] is LitStr || (c[1]->Grp_1)[0] is Id) {
            let t = (c[1]->Grp_1)[0];
            let name = if t is LitStr {
                t->LitStr_0
            } else {
                t->Id_0
            };
            Result::Ok(SAgentArgs { post_build: Option::Some(name), ..acc })
        } else {
            Result::Err(DiagKind::BadArity)
        }
    } else if c.len() == 0 {
        Result::Err(DiagKind::UnknownArg)
    } else {
        Result::Ok(SAgentArgs { extra: acc.extra.push(c), ..acc })
    }
}

/// Fold the arguments after the owner type.
pub open spec fn spec_agent_items(cs: Seq<Seq<Tok>>, acc: SAgentArgs) -> Result<
    SAgentArgs,
    DiagKind,
>
    decreases cs.len(),
{
    if cs.len() == 0 {
        Result::Ok(acc)
    } else {
        match spec_agent_chunk_step(acc, cs[0]) {
            Result::Err(k) => Result::Err(k),
            Result::Ok(a2) => spec_agent_items(cs.drop_first(), a2),
        }
    }
}

/// The empty state with the given owner type.
pub open spec fn spec_agent_init(t: STyRepr) -> SAgentArgs {
    SAgentArgs {
        app_type: t,
        sync: false,
        rc: SRcState::RcAbsent,
        rc_orig: Option::None,
        unwrap: Option::None,
        builder_args: Option::None,
        post_build: Option::None,
        extra: Seq::empty(),
    }
}

/// The whole standalone dependent annotation: the owner type as the first
/// argument, then the argument list.
/// The owner type read from the first argument: a structural path where it
/// covers the whole chunk, else the verbatim chunk where Rust's own grammar
/// accepts it.
pub open spec fn spec_agent_owner(c0: Seq<Tok>) -> Option<STyRepr> {
    match spec_parse_ty(c0, type_parse_fuel(c0.len())) {
        Option::Some((t, n)) => if n == c0.len() {
            Option::Some(STyRepr::RPath(t))
        } else if c0.len() > 0 && syn_type_ok(spec_render_text(c0)) {
            Option::Some(STyRepr::ROpaque(c0))
        } else {
            Option::None
        },
        Option::None => if c0.len() > 0 && syn_type_ok(spec_render_text(c0)) {
            Option::Some(STyRepr::ROpaque(c0))
        } else {
            Option::None
        },
    }
}

pub open spec fn spec_parse_agent(ts: Seq<Tok>) -> Result<SAgentArgs, DiagKind> {
    let cs = spec_meta_chunks(ts);
    if cs.len() == 0 {
        Result::Err(DiagKind::MissingOwnerType)
    } else {
        match spec_agent_owner(cs[0]) {
            Option::None => Result::Err(DiagKind::MissingOwnerType),
            Option::Some(t) => spec_agent_items(cs.drop_first(), spec_agent_init(t)),
        }
    }
}

/// Read the owner type from the first argument chunk.
fn agent_owner(c0: &Vec<Token>) -> (r: Option<TypeRepr>)
    requires
        3 * toks_size(toks_view(c0@)) + 3 <= usize::MAX,
    ensures
        match r {
            Option::Some(p) => spec_agent_owner(toks_view(c0@)) == Option::Some(p@),
            Option::None => spec_agent_owner(toks_view(c0@)) is None,
        },
{
    proof {
        lemma_toks_view_len(c0@);
        lemma_toks_size_len(toks_view(c0@));
    }
    let ghost c0v = toks_view(c0@);
    let tyres = parse_type_at(c0, 0);
    proof {
        assert(c0v.skip(0) =~= c0v);
    }
    match tyres {
        Option::Some((t, cnt)) => {
            if cnt == c0.len() {
                return Option::Some(TypeRepr::Path(t));
            }
            let text = render_tokens(c0);
            if c0.len() > 0 && syn_parses_type(text.as_str()) {
                Option::Some(TypeRepr::Opaque(duplicate_tokens(c0)))
            } else {
                Option::None
            }
        },
        Option::None => {
            let text = render_tokens(c0);
            if c0.len() > 0 && syn_parses_type(text.as_str()) {
                Option::Some(TypeRepr::Opaque(duplicate_tokens(c0)))
            } else {
                Option::None
            }
        },
    }
}

impl AgentArgs {
    /// Parse the standalone dependent annotation's argument list: the owner
    /// application type first, then the remaining arguments.
    #[verifier::rlimit(100)]
    #[verifier::spinoff_prover]
    pub fn from_list(toks: &Vec<Token>) -> (r: Result<AgentArgs, Diag>)
        requires
            3 * toks_size(toks_view(toks@)) + 3 <= usize::MAX,
        ensures
            match r {
                Result::Ok(args) => spec_parse_agent(toks_view(toks@)) == Result::<
                    SAgentArgs,
                    DiagKind,
                >::Ok(args@),
                Result::Err(d) => spec_parse_agent(toks_view(toks@)) == Result::<
                    SAgentArgs,
                    DiagKind,
                >::Err(d.kind) && d.spans@.len() >= 1,
            },
    {
        proof {
            lemma_toks_view_len(toks@);
        }
        let ghost tsv = toks_view(toks@);
        let cs = meta_chunks(toks);
        let ghost csv = chunks_view(cs@);
        proof {
            lemma_chunks_view_len(cs@);
        }
        let n = cs.len();
        if n == 0 {
            return Result::Err(Diag::new(DiagKind::MissingOwnerType, Span::none()));
        }
        proof {
            lemma_chunks_view_index(cs@, 0);
            lemma_toks_view_len(cs@[0]@);
            lemma_toks_size_len(csv[0]);
        }
        let c0 = &cs[0];
        let span0 = if c0.len() > 0 {
            c0[0].span
        } else {
            Span::none()
        };
        let app_type: TypeRepr = match agent_owner(c0) {
            Option::Some(p) => p,
            Option::None => {
                return Result::Err(Diag::new(DiagKind::MissingOwnerType, span0));
            },
        };
        proof {
            assert(spec_parse_agent(tsv) == spec_agent_items(
                csv.drop_first(),
                spec_agent_init(app_type@),
            ));
        }
        let mut out = AgentArgs {
            app_type,
            sync: false,
            rc: RcStateArg::RcAbsent,
            rc_orig: Option::None,
            unwrap: Option::None,
            builder_args: Option::None,
            post_build: Option::None,
            extra_args: Vec::new(),
        };
        proof {
            assert(chunks_view(out.extra_args@) =~= Seq::<Seq<Tok>>::empty());
            assert(out@ == spec_agent_init(out.app_type@));
            assert(csv.skip(1).skip(0) =~= csv.skip(1));
            assert(csv.drop_first() =~= csv.skip(1));
        }
        let mut i: usize = 1;
        while i < n
            invariant
                n == cs@.len(),
                1 <= i <= n,
                csv == chunks_view(cs@),
                csv.len() == n,
                forall|j: int|
                    0 <= j < csv.len() ==> toks_size(#[trigger] csv[j]) <= toks_size(tsv),
                3 * toks_size(tsv) + 3 <= usize::MAX,
                tsv == toks_view(toks@),
                csv == spec_meta_chunks(tsv),
                spec_parse_agent(tsv) == spec_agent_items(csv.skip(i as int), out@),
            decreases n - i,
        {
            proof {
                lemma_chunks_view_index(cs@, i as int);
                lemma_toks_view_len(cs@[i as int]@);
                assert(csv.skip(i as int)[0] == csv[i as int]);
                assert(csv.skip(i as int).drop_first() =~= csv.skip(i + 1));
                assert(csv.skip(i as int).len() == csv.len() - i);
                if cs@[i as int]@.len() > 0 {
                    lemma_toks_view_index(cs@[i as int]@, 0);
                }
                if cs@[i as int]@.len() > 1 {
                    lemma_toks_view_index(cs@[i as int]@, 1);
                }
            }
            let ghost acc0 = out@;
            let c = &cs[i];
            let clen = c.len();
            if clen == 1 && is_ident(&c[0], "sync") {
                out.sync = true;
            } else if clen == 1 && is_ident(&c[0], "rc") {
                out.rc = RcStateArg::RcOn { name: Option::None, span: c[0].span };
                out.rc_orig = Option::Some(duplicate_tokens(c));
            } else if clen == 2 && is_ident(&c[0], "rc") && is_paren(&c[1]) {
                let inner = paren_contents(&c[1]);
                out.rc = crate::codegen::rc_from_group_pub(&inner, c[0].span);
                out.rc_orig = Option::Some(duplicate_tokens(c));
            } else if clen == 1 && is_ident(&c[0], "unwrap") {
                out.unwrap = Option::Some(
                    UnwrapArg { off: false, policy: UnwrapPolicy::Panic, span: c[0].span },
                );
            } else if clen == 2 && is_ident(&c[0], "unwrap") && is_paren(&c[1]) {
                let inner = paren_contents(&c[1]);
                proof {
                    lemma_toks_size_elem(csv[i as int], 1);
                }
                match parse_unwrap_arg(inner, c[0].span) {
                    Result::Err(d) => {
                        return Result::Err(d);
                    },
                    Result::Ok(u) => {
                        out.unwrap = Option::Some(u);
                    },
                }
            } else if clen == 1 && is_ident(&c[0], "builder") {
                out.builder_args = Option::Some(Vec::new());
                proof {
                    assert(toks_view(Seq::<Token>::empty()) =~= Seq::<Tok>::empty());
                }
            } else if clen == 2 && is_ident(&c[0], "builder") && is_paren(&c[1]) {
                out.builder_args = Option::Some(paren_contents(&c[1]));
            } else if clen >= 1 && is_ident(&c[0], "post_build") {
                if clen == 2 && is_paren(&c[1]) {
                    let inner = paren_contents(&c[1]);
                    proof {
                        lemma_toks_view_len(inner@);
                        if inner@.len() > 0 {
                            lemma_toks_view_index(inner@, 0);
                        }
                    }
                    if inner.len() == 1 {
                        match &inner[0].kind {
                            TokenKind::StrLit(nm) => {
                                out.post_build = Option::Some(nm.clone());
                            },
                            TokenKind::Ident(nm) => {
                                out.post_build = Option::Some(nm.clone());
                            },
                            _ => {
                                return Result::Err(Diag::new(DiagKind::BadArity, c[0].span));
                            },
                        }
                    } else {
                        return Result::Err(Diag::new(DiagKind::BadArity, c[0].span));
                    }
                } else {
                    return Result::Err(Diag::new(DiagKind::BadArity, c[0].span));
                }
            } else if clen == 0 {
                return Result::Err(Diag::new(DiagKind::UnknownArg, Span::none()));
            } else {
                let dup = duplicate_tokens(c);
                proof {
                    lemma_chunks_view_push(out.extra_args@, dup);
                }
                out.extra_args.push(dup);
            }
            proof {
                assert(spec_agent_chunk_step(acc0, csv[i as int]) == Result::<
                    SAgentArgs,
                    DiagKind,
                >::Ok(out@));
            }
            i = i + 1;
        }
        proof {
            assert(csv.skip(n as int) =~= Seq::<Seq<Tok>>::empty());
        }
        Result::Ok(out)
    }
}

fn is_paren(t: &Token) -> (r: bool)
    ensures
        r == (t@ is Grp && t@->Grp_0 == Delim::Paren),
{
    matches!(&t.kind, TokenKind::Group(Delim::Paren, _))
}

fn paren_contents(t: &Token) -> (r: Vec<Token>)
    requires
        t@ is Grp,
    ensures
        toks_view(r@) == t@->Grp_1,
{
    match &t.kind {
        TokenKind::Group(_, inner) => duplicate_tokens(inner),
        _ => Vec::new(),
    }
}

/// The synthesis output for a standalone agent struct.
pub struct AgentProduceOutput {
    pub fxs_args: Vec<Vec<Token>>,
    pub app_field: FieldDecl,
    pub post_build_method: FnDecl,
    pub app_type_assoc: Vec<Token>,
    pub weak_type_assoc: Vec<Token>,
    pub app_method: FnDecl,
    pub app_downgrade_method: FnDecl,
    pub agent_struct: AgentStruct,
}

/// The arguments handed to the framework for an agent struct: the sync
/// selection, constructor suppression, the builder with its sub-arguments,
/// the serialization switch-off, the reference-counting helper verbatim if
/// given, then the pass-through arguments.
pub open spec fn spec_agent_fxs_args(a: SAgentArgs, serde: bool) -> Seq<Seq<Tok>> {
    (if a.sync {
        seq![seq![Tok::Id("sync"@)]]
    } else {
        Seq::<Seq<Tok>>::empty()
    }) + seq![seq![Tok::Id("no_new"@)]] + seq![
        seq![
            Tok::Id("builder"@),
            Tok::Grp(
                Delim::Paren,
                match a.builder_args {
                    Option::Some(b) => b,
                    Option::None => Seq::empty(),
                },
            ),
        ],
    ] + (if serde {
        seq![seq![Tok::Id("serde"@), spec_off_grp()]]
    } else {
        Seq::<Seq<Tok>>::empty()
    }) + (match a.rc_orig {
        Option::Some(o) => seq![o],
        Option::None => Seq::<Seq<Tok>>::empty(),
    }) + a.extra
}

/// `self . __app . upgrade ( )` followed by the policy's transform.
pub open spec fn spec_agent_app_body(a: SAgentArgs) -> Seq<Tok> {
    seq![
        Tok::Id("self"@),
        Tok::Pu('.'),
        Tok::Id("__app"@),
        Tok::Pu('.'),
        Tok::Id("upgrade"@),
        Tok::Grp(Delim::Paren, Seq::empty()),
    ] + spec_upgrade_suffix(spec_effective_unwrap(a))
}

/// The receiver of the post-build hook: a strong self reference when the
/// agent itself is reference counted, a plain borrow otherwise.
pub open spec fn spec_post_build_params(a: SAgentArgs) -> Seq<Tok> {
    if a.rc is RcOn {
        seq![Tok::Id("self"@), Tok::Pu(':'), Tok::Pu('&')] + spec_wrap(
            spec_strong_ref(spec_agent_mode(a)),
            seq![Tok::Id("Self"@)],
        )
    } else {
        seq![Tok::Pu('&'), Tok::Id("self"@)]
    }
}

/// Everything a produced agent struct guarantees: the accessor's return
/// type is the policy's choice and the trait's associated type matches it
/// exactly.
pub open spec fn spec_agent_produce_ok(out: AgentProduceOutput, a: SAgentArgs, serde: bool) -> bool {
    let m = spec_agent_mode(a);
    let ca = spec_agent_child_view(a);
    &&& chunks_view(out.fxs_args@) == spec_agent_fxs_args(a, serde)
    &&& out.app_field.name@ == "__app"@
    &&& toks_view(out.app_field.ty@) == spec_wrap(
        spec_weak_ref(m),
        crate::typath::spec_type_repr_tokens(a.app_type),
    )
    &&& toks_view(out.app_field.attrs@) == spec_field_attrs("app"@, serde)
    &&& toks_view(out.app_type_assoc@) == spec_accessor_ret(ca, m)
    &&& toks_view(out.weak_type_assoc@) == spec_wrap(
        spec_weak_ref(m),
        crate::typath::spec_type_repr_tokens(a.app_type),
    )
    &&& out.app_method.name@ == "app"@
    &&& out.app_method.self_borrow
    &&& toks_view(out.app_method.params@) == Seq::<Tok>::empty()
    &&& toks_view(out.app_method.ret@) == spec_self_assoc("AppType"@)
    &&& toks_view(out.app_method.body@) == spec_agent_app_body(a)
    &&& out.app_downgrade_method.name@ == "app_downgrade"@
    &&& out.app_downgrade_method.self_borrow
    &&& toks_view(out.app_downgrade_method.ret@) == spec_self_assoc("WeakType"@)
    &&& toks_view(out.app_downgrade_method.body@) == spec_weak_ref(m) + seq![
        Tok::Pu(':'),
        Tok::Pu(':'),
        Tok::Id("clone"@),
    ] + spec_self_field_arg("__app"@)
    &&& out.post_build_method.name@ == "__fx_app_post_build"@
    &&& toks_view(out.post_build_method.params@) == spec_post_build_params(a)
    &&& toks_view(out.post_build_method.body@) == (match a.post_build {
        Option::Some(mname) => seq![
            Tok::Id("self"@),
            Tok::Pu('.'),
            Tok::Id(mname),
            Tok::Grp(Delim::Paren, Seq::empty()),
        ],
        Option::None => Seq::<Tok>::empty(),
    })
}

/// The standalone agent-annotation producer.
pub struct AgentProducer {}

impl AgentProducer {
    /// Make a producer.
    pub fn new() -> (r: AgentProducer)
        ensures
            r == (AgentProducer {  }),
    {
        AgentProducer {  }
    }

    /// Compose the storage field, the post-build hook and the `Agent`
    /// capability implementation for an agent struct, which is preserved
    /// verbatim. The one rejection: a closure where `ok_or` needs a plain
    /// value.
    #[verifier::rlimit(100)]
    #[verifier::spinoff_prover]
    pub fn produce(&self, agent_struct: AgentStruct, args: AgentArgs, serde_enabled: bool) -> (r:
        Result<AgentProduceOutput, Diag>)
        ensures
            match r {
                Result::Ok(out) => spec_translate_ok(spec_agent_child_view(args@))
                    && spec_agent_produce_ok(out, args@, serde_enabled) && out.agent_struct
                    == agent_struct,
                Result::Err(d) => !spec_translate_ok(spec_agent_child_view(args@)) && d.kind
                    == DiagKind::ClosureNotAllowed && d.spans@.len() >= 1,
            },
    {
        let ghost a = args@;
        let span = Span::none();
        let mode = args.sync_mode();

        // the policy's failure transform
        let suffix: Vec<Token> = if args.needs_unwrap() {
            let u = args.unwrap.as_ref().unwrap();
            match &u.policy {
                UnwrapPolicy::Panic => {
                    let mut out: Vec<Token> = Vec::new();
                    proof {
                        assert(toks_view(out@) =~= Seq::<Tok>::empty());
                    }
                    push_tok4(&mut out, punct_token('.', span));
                    push_tok4(&mut out, id_token("unwrap", span));
                    push_tok4(&mut out, group_token(Delim::Paren, Vec::new(), span));
                    proof {
                        assert(toks_view(Seq::<Token>::empty()) =~= Seq::<Tok>::empty());
                        assert(toks_view(out@) =~= spec_upgrade_suffix(spec_effective_unwrap(a)));
                    }
                    out
                },
                UnwrapPolicy::Expect { message, span: espan } => {
                    let mut out: Vec<Token> = Vec::new();
                    proof {
                        assert(toks_view(out@) =~= Seq::<Tok>::empty());
                    }
                    push_tok4(&mut out, punct_token('.', span));
                    push_tok4(&mut out, id_token("expect", span));
                    let mut marg: Vec<Token> = Vec::new();
                    proof {
                        assert(toks_view(marg@) =~= Seq::<Tok>::empty());
                    }
                    push_tok4(&mut marg, str_token(message.as_str(), *espan));
                    proof {
                        assert(toks_view(marg@) =~= seq![Tok::LitStr(message@)]);
                    }
                    push_tok4(&mut out, group_token(Delim::Paren, marg, span));
                    proof {
                        assert(toks_view(out@) =~= spec_upgrade_suffix(spec_effective_unwrap(a)));
                    }
                    out
                },
                UnwrapPolicy::MapOrError { error_type: _, expr, span: espan } => {
                    let trans = translate_or_expr(expr, TranslateAs::Or, *espan);
                    match trans {
                        Result::Err(d) => {
                            return Result::Err(d);
                        },
                        Result::Ok(toks) => {
                            let mut out: Vec<Token> = Vec::new();
                            proof {
                                assert(toks_view(out@) =~= Seq::<Tok>::empty());
                            }
                            push_tok4(&mut out, punct_token('.', span));
                            push_tok4(&mut out, id_token("ok_or", span));
                            let ghost tv = toks_view(toks@);
                            push_tok4(&mut out, group_token(Delim::Paren, toks, span));
                            proof {
                                assert(toks_view(out@) =~= seq![
                                    Tok::Pu('.'),
                                    Tok::Id("ok_or"@),
                                    Tok::Grp(Delim::Paren, tv),
                                ]);
                            }
                            out
                        },
                    }
                },
                UnwrapPolicy::MapOrElseError { error_type: _, expr, span: espan } => {
                    let trans = translate_or_expr(expr, TranslateAs::OrElse, *espan);
                    match trans {
                        Result::Err(d) => {
                            proof {
                                assert(false);
                            }
                            return Result::Err(d);
                        },
                        Result::Ok(toks) => {
                            let mut out: Vec<Token> = Vec::new();
                            proof {
                                assert(toks_view(out@) =~= Seq::<Tok>::empty());
                            }
                            push_tok4(&mut out, punct_token('.', span));
                            push_tok4(&mut out, id_token("ok_or_else", span));
                            let ghost tv = toks_view(toks@);
                            push_tok4(&mut out, group_token(Delim::Paren, toks, span));
                            proof {
                                assert(toks_view(out@) =~= seq![
                                    Tok::Pu('.'),
                                    Tok::Id("ok_or_else"@),
                                    Tok::Grp(Delim::Paren, tv),
                                ]);
                            }
                            out
                        },
                    }
                },
            }
        } else {
            let out: Vec<Token> = Vec::new();
            proof {
                assert(toks_view(out@) =~= Seq::<Tok>::empty());
            }
            out
        };

        // the framework arguments
        let fxs = build_agent_fxs_args(&args, serde_enabled);

        // the storage field
        let owner = type_repr_tokens(&args.app_type, span);
        let field_ty = wrap_tokens(weak_ref_tokens(mode, span), owner, span);
        let app_name = "app".to_owned();
        let app_field = FieldDecl {
            name: "__app".to_owned(),
            ty: field_ty,
            attrs: crate::synth::field_attr_tokens_pub(&app_name, serde_enabled, span),
            span,
        };

        // the accessor and its declared return type
        let ca = crate::args::ChildArgs {
            inner: crate::args::ChildArgsInner {
                parent_type: crate::typath::duplicate_type_repr(&args.app_type),
                parent_base_ident: Option::None,
                rc_strong: Option::None,
                unwrap_parent: if args.needs_unwrap() {
                    args.unwrap
                } else {
                    Option::None
                },
            },
            role: crate::descriptor::Role::Application,
            span,
        };
        proof {
            assert(ca@ == spec_agent_child_view(a));
        }
        let app_type_assoc = crate::synth::accessor_ret_tokens_pub(&ca, mode, span);
        let owner2 = type_repr_tokens(&ca.inner.parent_type, span);
        let weak_type_assoc = wrap_tokens(weak_ref_tokens(mode, span), owner2, span);

        let mut app_body: Vec<Token> = Vec::new();
        proof {
            assert(toks_view(app_body@) =~= Seq::<Tok>::empty());
        }
        push_tok4(&mut app_body, id_token("self", span));
        push_tok4(&mut app_body, punct_token('.', span));
        push_tok4(&mut app_body, id_token("__app", span));
        push_tok4(&mut app_body, punct_token('.', span));
        push_tok4(&mut app_body, id_token("upgrade", span));
        push_tok4(&mut app_body, group_token(Delim::Paren, Vec::new(), span));
        let ghost upgraded = toks_view(app_body@);
        extend_tokens(&mut app_body, suffix);
        proof {
            assert(toks_view(Seq::<Token>::empty()) =~= Seq::<Tok>::empty());
            assert(toks_view(app_body@) =~= spec_agent_app_body(a));
        }
        let app_method = FnDecl {
            name: "app".to_owned(),
            self_borrow: true,
            params: Vec::new(),
            ret: self_assoc("AppType", span),
            body: app_body,
            span,
        };

        let down_body = crate::synth::ref_call_tokens_pub(
            weak_ref_tokens(mode, span),
            "clone",
            &"__app".to_owned(),
            span,
        );
        let app_downgrade_method = FnDecl {
            name: "app_downgrade".to_owned(),
            self_borrow: true,
            params: Vec::new(),
            ret: self_assoc("WeakType", span),
            body: down_body,
            span,
        };

        // the post-build hook
        let rc_on = matches!(args.rc, RcStateArg::RcOn { .. });
        let mut pb_params: Vec<Token> = Vec::new();
        proof {
            assert(toks_view(pb_params@) =~= Seq::<Tok>::empty());
        }
        if rc_on {
            push_tok4(&mut pb_params, id_token("self", span));
            push_tok4(&mut pb_params, punct_token(':', span));
            push_tok4(&mut pb_params, punct_token('&', span));
            let mut self_toks: Vec<Token> = Vec::new();
            proof {
                assert(toks_view(self_toks@) =~= Seq::<Tok>::empty());
            }
            push_tok4(&mut self_toks, id_token("Self", span));
            proof {
                assert(toks_view(self_toks@) =~= seq![Tok::Id("Self"@)]);
            }
            let strong_self = wrap_tokens(strong_ref_tokens(mode, span), self_toks, span);
            extend_tokens(&mut pb_params, strong_self);
            proof {
                assert(toks_view(pb_params@) =~= spec_post_build_params(a));
            }
        } else {
            push_tok4(&mut pb_params, punct_token('&', span));
            push_tok4(&mut pb_params, id_token("self", span));
            proof {
                assert(toks_view(pb_params@) =~= spec_post_build_params(a));
            }
        }
        let mut pb_body: Vec<Token> = Vec::new();
        proof {
            assert(toks_view(pb_body@) =~= Seq::<Tok>::empty());
        }
        match &args.post_build {
            Option::Some(mname) => {
                push_tok4(&mut pb_body, id_token("self", span));
                push_tok4(&mut pb_body, punct_token('.', span));
                push_tok4(&mut pb_body, id_token(mname.as_str(), span));
                push_tok4(&mut pb_body, group_token(Delim::Paren, Vec::new(), span));
                proof {
                    assert(toks_view(Seq::<Token>::empty()) =~= Seq::<Tok>::empty());
                    assert(toks_view(pb_body@) =~= seq![
                        Tok::Id("self"@),
                        Tok::Pu('.'),
                        Tok::Id(mname@),
                        Tok::Grp(Delim::Paren, Seq::empty()),
                    ]);
                }
            },
            Option::None => {},
        }
        let post_build_method = FnDecl {
            name: "__fx_app_post_build".to_owned(),
            self_borrow: false,
            params: pb_params,
            ret: Vec::new(),
            body: pb_body,
            span,
        };
        proof {
            assert(toks_view(Seq::<Token>::empty()) =~= Seq::<Tok>::empty());
        }
        Result::Ok(
            AgentProduceOutput {
                fxs_args: fxs,
                app_field,
                post_build_method,
                app_type_assoc,
                weak_type_assoc,
                app_method,
                app_downgrade_method,
                agent_struct,
            },
        )
    }
}

fn push_tok4(out: &mut Vec<Token>, t: Token)
    ensures
        toks_view(final(out)@) == toks_view(old(out)@).push(t@),
{
    proof {
        lemma_toks_view_push(out@, t);
    }
    out.push(t);
}

fn off_grp2(span: Span) -> (t: Token)
    ensures
        t@ == spec_off_grp(),
{
    let mut inner: Vec<Token> = Vec::new();
    proof {
        assert(toks_view(inner@) =~= Seq::<Tok>::empty());
    }
    push_tok4(&mut inner, id_token("off", span));
    proof {
        assert(toks_view(inner@) =~= seq![Tok::Id("off"@)]);
    }
    group_token(Delim::Paren, inner, span)
}

fn self_assoc(name: &str, span: Span) -> (r: Vec<Token>)
    ensures
        toks_view(r@) == spec_self_assoc(name@),
{
    let mut out: Vec<Token> = Vec::new();
    proof {
        assert(toks_view(out@) =~= Seq::<Tok>::empty());
    }
    push_tok4(&mut out, id_token("Self", span));
    push_tok4(&mut out, punct_token(':', span));
    push_tok4(&mut out, punct_token(':', span));
    push_tok4(&mut out, id_token(name, span));
    proof {
        assert(toks_view(out@) =~= spec_self_assoc(name@));
    }
    out
}

/// The argument list handed to the framework for an agent struct.
#[verifier::rlimit(100)]
#[verifier::spinoff_prover]
fn build_agent_fxs_args(args: &AgentArgs, serde_enabled: bool) -> (r: Vec<Vec<Token>>)
    ensures
        chunks_view(r@) == spec_agent_fxs_args(args@, serde_enabled),
{
    let ghost a = args@;
    let span = Span::none();
    let mut fxs: Vec<Vec<Token>> = Vec::new();
    proof {
        assert(chunks_view(fxs@) =~= Seq::<Seq<Tok>>::empty());
    }
    if args.sync {
        let mut chunk: Vec<Token> = Vec::new();
        proof {
            assert(toks_view(chunk@) =~= Seq::<Tok>::empty());
        }
        push_tok4(&mut chunk, id_token("sync", span));
        proof {
            assert(toks_view(chunk@) =~= seq![Tok::Id("sync"@)]);
            lemma_chunks_view_push(fxs@, chunk);
        }
        fxs.push(chunk);
    }
    let mut chunk: Vec<Token> = Vec::new();
    proof {
        assert(toks_view(chunk@) =~= Seq::<Tok>::empty());
    }
    push_tok4(&mut chunk, id_token("no_new", span));
    proof {
        assert(toks_view(chunk@) =~= seq![Tok::Id("no_new"@)]);
        lemma_chunks_view_push(fxs@, chunk);
    }
    fxs.push(chunk);
    let mut bchunk: Vec<Token> = Vec::new();
    proof {
        assert(toks_view(bchunk@) =~= Seq::<Tok>::empty());
    }
    push_tok4(&mut bchunk, id_token("builder", span));
    let binner: Vec<Token> = match &args.builder_args {
        Option::Some(b) => duplicate_tokens(b),
        Option::None => {
            let v: Vec<Token> = Vec::new();
            proof {
                assert(toks_view(v@) =~= Seq::<Tok>::empty());
            }
            v
        },
    };
    let ghost binner_v = toks_view(binner@);
    push_tok4(&mut bchunk, group_token(Delim::Paren, binner, span));
    proof {
        assert(toks_view(bchunk@) =~= seq![
            Tok::Id("builder"@),
            Tok::Grp(Delim::Paren, binner_v),
        ]);
        lemma_chunks_view_push(fxs@, bchunk);
    }
    fxs.push(bchunk);
    if serde_enabled {
        let mut chunk2: Vec<Token> = Vec::new();
        proof {
            assert(toks_view(chunk2@) =~= Seq::<Tok>::empty());
        }
        push_tok4(&mut chunk2, id_token("serde", span));
        push_tok4(&mut chunk2, off_grp2(span));
        proof {
            assert(toks_view(chunk2@) =~= seq![Tok::Id("serde"@), spec_off_grp()]);
            lemma_chunks_view_push(fxs@, chunk2);
        }
        fxs.push(chunk2);
    }
    match &args.rc_orig {
        Option::Some(o) => {
            let dup = duplicate_tokens(o);
            proof {
                lemma_chunks_view_push(fxs@, dup);
            }
            fxs.push(dup);
        },
        Option::None => {},
    }
    let mut i: usize = 0;
    let ghost mid = chunks_view(fxs@);
    proof {
        assert(mid + a.extra =~~= spec_agent_fxs_args(a, serde_enabled));
    }
    while i < args.extra_args.len()
        invariant
            i <= args.extra_args@.len(),
            chunks_view(fxs@) =~= mid + chunks_view(args.extra_args@.take(i as int)),
        decreases args.extra_args@.len() - i,
    {
        let c = duplicate_tokens(&args.extra_args[i]);
        proof {
            lemma_chunks_view_push(fxs@, c);
            lemma_chunks_view_push(
                args.extra_args@.take(i as int),
                args.extra_args@[i as int],
            );
            assert(args.extra_args@.take(i as int).push(args.extra_args@[i as int])
                =~= args.extra_args@.take(i + 1));
            lemma_chunks_view_index(args.extra_args@, i as int);
        }
        fxs.push(c);
        i = i + 1;
    }
    proof {
        assert(args.extra_args@.take(args.extra_args@.len() as int) =~= args.extra_args@);
        assert(chunks_view(fxs@) =~= mid + a.extra);
        assert(chunks_view(fxs@) =~= spec_agent_fxs_args(a, serde_enabled));
    }
    fxs
}

} // verus!
