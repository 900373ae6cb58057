//! The struct orchestrator: parse the whole annotation argument list
//! (owner flags, dependent configurations, and the arguments passed through
//! to the external struct/builder framework), then compose the synthesized
//! fragments with the user's struct into one augmented definition.

use vstd::prelude::*;
use crate::args::ChildArgs;
use crate::args::SChildArgs;
use crate::args::chunks_view;
use crate::args::lemma_chunks_view_index;
use crate::args::lemma_chunks_view_len;
use crate::args::lemma_chunks_view_push;
use crate::args::meta_chunks;
use crate::args::spec_meta_chunks;
use crate::args::spec_parse_child;
use crate::descriptor::AppDescriptor;
use crate::descriptor::ParentDescriptor;
use crate::descriptor::Role;
use crate::descriptor::SyncMode;
use crate::diag::Diag;
use crate::diag::DiagKind;
use crate::synth::GeneratedFragment;
use crate::synth::FnDecl;
use crate::synth::spec_fragment_ok;
use crate::synth::spec_translate_ok;
use crate::synth::spec_wrap;
use crate::synth::synthesize_relationship;
use crate::synth::weak_ref_tokens;
use crate::synth::wrap_tokens;
use crate::synth::extend_tokens;
use crate::tokens::Delim;
use crate::tokens::Span;
use crate::tokens::Tok;
use crate::tokens::Token;
use crate::tokens::TokenKind;
use crate::tokens::duplicate_tokens;
use crate::tokens::group_token;
use crate::tokens::id_token;
use crate::tokens::is_ident;
use crate::tokens::lemma_toks_size_elem;
use crate::tokens::lemma_toks_size_len;
use crate::tokens::lemma_toks_view_index;
use crate::tokens::lemma_toks_view_len;
use crate::tokens::lemma_toks_view_push;
use crate::tokens::punct_token;
use crate::tokens::str_token;
use crate::tokens::toks_size;
use crate::tokens::toks_view;

verus! {

/// The `rc` argument's state in the pass-through list.
pub ghost enum SRcState {
    RcAbsent,
    RcOn(Option<Seq<char>>),
    RcOff,
}

/// A plain on/off flag's state in the pass-through list.
pub ghost enum SFlagState {
    FlagAbsent,
    FlagOn,
    FlagOff,
}

/// The mathematical view of the whole annotation argument list.
pub ghost struct SPlusArgs {
    pub app: bool,
    pub parent: bool,
    pub agent: Option<SChildArgs>,
    pub child: Option<SChildArgs>,
    pub sync: bool,
    pub rc: SRcState,
    pub new_state: SFlagState,
    pub builder: bool,
    pub std: Seq<Seq<Tok>>,
}

/// The `rc` argument as given.
pub enum RcStateArg {
    RcAbsent,
    RcOn { name: Option<String>, span: Span },
    RcOff { span: Span },
}

/// A plain flag as given.
pub enum FlagStateArg {
    FlagAbsent,
    FlagOn { span: Span },
    FlagOff { span: Span },
}

pub open spec fn rc_state_view(r: RcStateArg) -> SRcState {
    match r {
        RcStateArg::RcAbsent => SRcState::RcAbsent,
        RcStateArg::RcOn { name, span } => SRcState::RcOn(
            match name {
                Option::Some(n) => Option::Some(n@),
                Option::None => Option::None,
            },
        ),
        RcStateArg::RcOff { span } => SRcState::RcOff,
    }
}

pub open spec fn flag_state_view(f: FlagStateArg) -> SFlagState {
    match f {
        FlagStateArg::FlagAbsent => SFlagState::FlagAbsent,
        FlagStateArg::FlagOn { span } => SFlagState::FlagOn,
        FlagStateArg::FlagOff { span } => SFlagState::FlagOff,
    }
}

/// The parsed annotation argument list: the role arguments the orchestrator
/// acts on, the recognized framework arguments it must inspect, and every
/// framework argument verbatim for pass-through.
pub struct FXPlusArgs {
    pub app: Option<Span>,
    pub parent: Option<Span>,
    pub agent: Option<ChildArgs>,
    pub child: Option<ChildArgs>,
    pub sync: bool,
    pub rc: RcStateArg,
    pub new_state: FlagStateArg,
    pub builder: bool,
    pub std_args: Vec<Vec<Token>>,
}

pub open spec fn plus_args_view(a: FXPlusArgs) -> SPlusArgs {
    SPlusArgs {
        app: a.app is Some,
        parent: a.parent is Some,
        agent: match a.agent {
            Option::Some(c) => Option::Some(c@),
            Option::None => Option::None,
        },
        child: match a.child {
            Option::Some(c) => Option::Some(c@),
            Option::None => Option::None,
        },
        sync: a.sync,
        rc: rc_state_view(a.rc),
        new_state: flag_state_view(a.new_state),
        builder: a.builder,
        std: chunks_view(a.std_args@),
    }
}

impl View for FXPlusArgs {
    type V = SPlusArgs;

    open spec fn view(&self) -> SPlusArgs {
        plus_args_view(*self)
    }
}

impl FXPlusArgs {
    /// Whether the struct takes an owner role.
    pub fn is_parentish(&self) -> (r: bool)
        ensures
            r == (self@.app || self@.parent),
    {
        self.app.is_some() || self.parent.is_some()
    }

    /// Whether the struct takes a dependent role.
    pub fn is_childish(&self) -> (r: bool)
        ensures
            r == (self@.agent is Some || self@.child is Some),
    {
        self.agent.is_some() || self.child.is_some()
    }

    /// The reference-counting mode the annotation selects.
    pub fn sync_mode(&self) -> (m: SyncMode)
        ensures
            m == spec_sync_mode(self@),
    {
        if self.sync {
            SyncMode::Sync
        } else {
            SyncMode::Nonsync
        }
    }
}

/// The reference-counting mode: atomically counted when `sync` is given.
pub open spec fn spec_sync_mode(a: SPlusArgs) -> SyncMode {
    if a.sync {
        SyncMode::Sync
    } else {
        SyncMode::Nonsync
    }
}

/// The empty argument list.
pub open spec fn spec_empty_plus() -> SPlusArgs {
    SPlusArgs {
        app: false,
        parent: false,
        agent: Option::None,
        child: Option::None,
        sync: false,
        rc: SRcState::RcAbsent,
        new_state: SFlagState::FlagAbsent,
        builder: false,
        std: Seq::empty(),
    }
}

/// `(off)` as the view of one group token.
pub open spec fn spec_off_grp() -> Tok {
    Tok::Grp(Delim::Paren, seq![Tok::Id("off"@)])
}

/// The `rc` state read from `rc(...)`: `off` disables it, a single
/// identifier or string names the self-accessor, anything else keeps it
/// enabled unnamed.
pub open spec fn spec_rc_from_group(inner: Seq<Tok>) -> SRcState {
    if inner == seq![Tok::Id("off"@)] {
        SRcState::RcOff
    } else if inner.len() == 1 && inner[0] is Id {
        SRcState::RcOn(Option::Some(inner[0]->Id_0))
    } else if inner.len() == 1 && inner[0] is LitStr {
        SRcState::RcOn(Option::Some(inner[0]->LitStr_0))
    } else {
        SRcState::RcOn(Option::None)
    }
}

/// How one comma-separated argument updates the parse state. Role
/// arguments are consumed; everything else passes through verbatim to the
/// external framework, with `sync`, `rc`, `new` and `builder` additionally
/// recognized because the orchestrator must act on them.
pub open spec fn spec_plus_chunk_step(acc: SPlusArgs, c: Seq<Tok>) -> Result<SPlusArgs, DiagKind> {
    if c.len() == 1 && c[0] == Tok::Id("app"@) {
        if acc.app {
            Result::Err(DiagKind::DuplicateArg)
        } else {
            Result::Ok(SPlusArgs { app: true, ..acc })
        }
    } else if c.len() == 1 && c[0] == Tok::Id("parent"@) {
        if acc.parent {
            Result::Err(DiagKind::DuplicateArg)
        } else {
            Result::Ok(SPlusArgs { parent: true, ..acc })
        }
    } else if c.len() == 2 && c[0] == Tok::Id("app"@) && c[1] == spec_off_grp() {
        Result::Ok(acc)
    } else if c.len() == 2 && c[0] == Tok::Id("parent"@) && c[1] == spec_off_grp() {
        Result::Ok(acc)
    } else if c.len() == 2 && c[0] == Tok::Id("agent"@) && c[1] is Grp && c[1]->Grp_0
        == Delim::Paren {
        if acc.agent is Some {
            Result::Err(DiagKind::DuplicateArg)
        } else {
            match spec_parse_child(c[1]->Grp_1) {
                Result::Err(k) => Result::Err(k),
                Result::Ok(a) => Result::Ok(SPlusArgs { agent: Option::Some(a), ..acc }),
            }
        }
    } else if c.len() == 2 && c[0] == Tok::Id("child"@) && c[1] is Grp && c[1]->Grp_0
        == Delim::Paren {
        if acc.child is Some {
            Result::Err(DiagKind::DuplicateArg)
        } else {
            match spec_parse_child(c[1]->Grp_1) {
                Result::Err(k) => Result::Err(k),
                Result::Ok(a) => Result::Ok(SPlusArgs { child: Option::Some(a), ..acc }),
            }
        }
    } else if c.len() == 0 {
        Result::Err(DiagKind::UnknownArg)
    } else {
        let acc2 = SPlusArgs { std: acc.std.push(c), ..acc };
        if c.len() == 1 && c[0] == Tok::Id("sync"@) {
            Result::Ok(SPlusArgs { sync: true, ..acc2 })
        } else if c.len() == 1 && c[0] == Tok::Id("rc"@) {
            Result::Ok(SPlusArgs { rc: SRcState::RcOn(Option::None), ..acc2 })
        } else if c.len() == 2 && c[0] == Tok::Id("rc"@) && c[1] is Grp && c[1]->Grp_0
            == Delim::Paren {
            Result::Ok(SPlusArgs { rc: spec_rc_from_group(c[1]->Grp_1), ..acc2 })
        } else if c.len() == 1 && c[0] == Tok::Id("new"@) {
            Result::Ok(SPlusArgs { new_state: SFlagState::FlagOn, ..acc2 })
        } else if c.len() == 2 && c[0] == Tok::Id("new"@) && c[1] is Grp && c[1]->Grp_0
            == Delim::Paren {
            if c[1] == spec_off_grp() {
                Result::Ok(SPlusArgs { new_state: SFlagState::FlagOff, ..acc2 })
            } else {
                Result::Ok(SPlusArgs { new_state: SFlagState::FlagOn, ..acc2 })
            }
        } else if c.len() >= 1 && c[0] == Tok::Id("builder"@) {
            Result::Ok(SPlusArgs { builder: true, ..acc2 })
        } else {
            Result::Ok(acc2)
        }
    }
}

/// Fold the argument chunks.
pub open spec fn spec_plus_items(cs: Seq<Seq<Tok>>, acc: SPlusArgs) -> Result<SPlusArgs, DiagKind>
    decreases cs.len(),
{
    if cs.len() == 0 {
        Result::Ok(acc)
    } else {
        match spec_plus_chunk_step(acc, cs[0]) {
            Result::Err(k) => Result::Err(k),
            Result::Ok(a2) => spec_plus_items(cs.drop_first(), a2),
        }
    }
}

/// The whole annotation argument list.
pub open spec fn spec_parse_plus(ts: Seq<Tok>) -> Result<SPlusArgs, DiagKind> {
    spec_plus_items(spec_meta_chunks(ts), spec_empty_plus())
}

fn is_off_grp_token(t: &Token) -> (r: bool)
    ensures
        r == (t@ == spec_off_grp()),
{
    match &t.kind {
        TokenKind::Group(Delim::Paren, inner) => {
            proof {
                lemma_toks_view_len(inner@);
                if inner@.len() > 0 {
                    lemma_toks_view_index(inner@, 0);
                }
            }
            if inner.len() == 1 && is_ident(&inner[0], "off") {
                proof {
                    assert(toks_view(inner@) =~= seq![Tok::Id("off"@)]);
                }
                true
            } else {
                proof {
                    assert(toks_view(inner@) != seq![Tok::Id("off"@)]) by {
                        if inner@.len() == 1 {
                            assert(toks_view(inner@)[0] == crate::tokens::tok_view(inner@[0]));
                        }
                    }
                }
                false
            }
        },
        _ => false,
    }
}

pub(crate) fn rc_from_group_pub(inner: &Vec<Token>, span: Span) -> (r: RcStateArg)
    ensures
        rc_state_view(r) == spec_rc_from_group(toks_view(inner@)),
{
    proof {
        lemma_toks_view_len(inner@);
        if inner@.len() > 0 {
            lemma_toks_view_index(inner@, 0);
        }
    }
    if inner.len() == 1 && is_ident(&inner[0], "off") {
        proof {
            assert(toks_view(inner@) =~= seq![Tok::Id("off"@)]);
        }
        return RcStateArg::RcOff { span };
    }
    proof {
        if inner@.len() == 1 {
            assert(toks_view(inner@)[0] == crate::tokens::tok_view(inner@[0]));
        }
        assert(toks_view(inner@) != seq![Tok::Id("off"@)] || inner@.len() != 1 || true);
    }
    if inner.len() == 1 {
        proof {
            assert(toks_view(inner@) != seq![Tok::Id("off"@)] ==> true);
        }
        match &inner[0].kind {
            TokenKind::Ident(n) => {
                proof {
                    assert(toks_view(inner@) != seq![Tok::Id("off"@)]) by {
                        assert(toks_view(inner@)[0] == Tok::Id(n@));
                        assert(n@ != "off"@);
                    }
                }
                return RcStateArg::RcOn { name: Option::Some(n.clone()), span };
            },
            TokenKind::StrLit(n) => {
                proof {
                    assert(toks_view(inner@) != seq![Tok::Id("off"@)]) by {
                        assert(toks_view(inner@)[0] == Tok::LitStr(n@));
                    }
                }
                return RcStateArg::RcOn { name: Option::Some(n.clone()), span };
            },
            _ => {
                proof {
                    assert(toks_view(inner@) != seq![Tok::Id("off"@)]) by {
                        assert(toks_view(inner@)[0] == crate::tokens::tok_view(inner@[0]));
                    }
                }
                return RcStateArg::RcOn { name: Option::None, span };
            },
        }
    }
    proof {
        assert(toks_view(inner@) != seq![Tok::Id("off"@)]) by {
            assert(toks_view(inner@).len() != 1);
        }
    }
    RcStateArg::RcOn { name: Option::None, span }
}

impl FXPlusArgs {
    /// Parse the whole annotation argument list.
    #[verifier::rlimit(100)]
    #[verifier::spinoff_prover]
    pub fn parse(toks: &Vec<Token>) -> (r: Result<FXPlusArgs, Diag>)
        requires
            3 * toks_size(toks_view(toks@)) + 3 <= usize::MAX,
        ensures
            match r {
                Result::Ok(args) => spec_parse_plus(toks_view(toks@)) == Result::<
                    SPlusArgs,
                    DiagKind,
                >::Ok(args@) && (args.agent matches Option::Some(c) ==> c.role
                    == Role::Application) && (args.child matches Option::Some(c) ==> c.role
                    == Role::Parent),
                Result::Err(d) => spec_parse_plus(toks_view(toks@)) == Result::<
                    SPlusArgs,
                    DiagKind,
                >::Err(d.kind) && d.spans@.len() >= 1 && (d.kind == DiagKind::ExclusiveArgs
                    ==> d.spans@.len() == 2),
            },
    {
        proof {
            lemma_toks_view_len(toks@);
        }
        let ghost tsv = toks_view(toks@);
        let cs = meta_chunks(toks);
        let ghost csv = chunks_view(cs@);
        proof {
            lemma_chunks_view_len(cs@);
            assert(csv.skip(0) =~= csv);
        }
        let n = cs.len();
        let mut out = FXPlusArgs {
            app: Option::None,
            parent: Option::None,
            agent: Option::None,
            child: Option::None,
            sync: false,
            rc: RcStateArg::RcAbsent,
            new_state: FlagStateArg::FlagAbsent,
            builder: false,
            std_args: Vec::new(),
        };
        proof {
            assert(chunks_view(out.std_args@) =~= Seq::<Seq<Tok>>::empty());
            assert(out@ == spec_empty_plus());
        }
        let mut i: usize = 0;
        while i < n
            invariant
                n == cs@.len(),
                i <= n,
                csv == chunks_view(cs@),
                csv.len() == n,
                forall|j: int|
                    0 <= j < csv.len() ==> toks_size(#[trigger] csv[j]) <= toks_size(tsv),
                3 * toks_size(tsv) + 3 <= usize::MAX,
                tsv == toks_view(toks@),
                csv == spec_meta_chunks(tsv),
                spec_plus_items(csv, spec_empty_plus()) == spec_plus_items(
                    csv.skip(i as int),
                    out@,
                ),
                out.agent matches Option::Some(c) ==> c.role == Role::Application,
                out.child matches Option::Some(c) ==> c.role == Role::Parent,
            decreases n - i,
        {
            proof {
                lemma_chunks_view_index(cs@, i as int);
                lemma_toks_view_len(cs@[i as int]@);
                assert(csv.skip(i as int)[0] == csv[i as int]);
                assert(csv.skip(i as int).drop_first() =~= csv.skip(i + 1));
                assert(csv.skip(i as int).len() == csv.len() - i);
                if cs@[i as int]@.len() > 0 {
                    lemma_toks_view_index(cs@[i as int]@, 0);
                }
                if cs@[i as int]@.len() > 1 {
                    lemma_toks_view_index(cs@[i as int]@, 1);
                }
            }
            let ghost acc0 = out@;
            let c = &cs[i];
            let clen = c.len();
            if clen == 1 && is_ident(&c[0], "app") {
                if out.app.is_some() {
                    return Result::Err(Diag::new(DiagKind::DuplicateArg, c[0].span));
                }
                out.app = Option::Some(c[0].span);
            } else if clen == 1 && is_ident(&c[0], "parent") {
                if out.parent.is_some() {
                    return Result::Err(Diag::new(DiagKind::DuplicateArg, c[0].span));
                }
                out.parent = Option::Some(c[0].span);
            } else if clen == 2 && is_ident(&c[0], "app") && is_off_grp_token(&c[1]) {
            } else if clen == 2 && is_ident(&c[0], "parent") && is_off_grp_token(&c[1]) {
            } else if clen == 2 && is_ident(&c[0], "agent") && is_paren_grp(&c[1]) {
                if out.agent.is_some() {
                    return Result::Err(Diag::new(DiagKind::DuplicateArg, c[0].span));
                }
                let inner = paren_inner(&c[1]);
                proof {
                    lemma_toks_size_elem(csv[i as int], 1);
                }
                match ChildArgs::parse(&inner, AppDescriptor::descriptor()) {
                    Result::Err(d) => {
                        return Result::Err(d);
                    },
                    Result::Ok(a) => {
                        out.agent = Option::Some(a);
                    },
                }
            } else if clen == 2 && is_ident(&c[0], "child") && is_paren_grp(&c[1]) {
                if out.child.is_some() {
                    return Result::Err(Diag::new(DiagKind::DuplicateArg, c[0].span));
                }
                let inner = paren_inner(&c[1]);
                proof {
                    lemma_toks_size_elem(csv[i as int], 1);
                }
                match ChildArgs::parse(&inner, ParentDescriptor::descriptor()) {
                    Result::Err(d) => {
                        return Result::Err(d);
                    },
                    Result::Ok(a) => {
                        out.child = Option::Some(a);
                    },
                }
            } else if clen == 0 {
                return Result::Err(Diag::new(DiagKind::UnknownArg, Span::none()));
            } else {
                let dup = duplicate_tokens(c);
                proof {
                    lemma_chunks_view_push(out.std_args@, dup);
                }
                out.std_args.push(dup);
                if clen == 1 && is_ident(&c[0], "sync") {
                    out.sync = true;
                } else if clen == 1 && is_ident(&c[0], "rc") {
                    out.rc = RcStateArg::RcOn { name: Option::None, span: c[0].span };
                } else if clen == 2 && is_ident(&c[0], "rc") && is_paren_grp(&c[1]) {
                    let inner = paren_inner(&c[1]);
                    out.rc = rc_from_group_pub(&inner, c[0].span);
                } else if clen == 1 && is_ident(&c[0], "new") {
                    out.new_state = FlagStateArg::FlagOn { span: c[0].span };
                } else if clen == 2 && is_ident(&c[0], "new") && is_paren_grp(&c[1]) {
                    if is_off_grp_token(&c[1]) {
                        out.new_state = FlagStateArg::FlagOff { span: c[0].span };
                    } else {
                        out.new_state = FlagStateArg::FlagOn { span: c[0].span };
                    }
                } else if clen >= 1 && is_ident(&c[0], "builder") {
                    out.builder = true;
                }
            }
            proof {
                assert(spec_plus_chunk_step(acc0, csv[i as int]) == Result::<
                    SPlusArgs,
                    DiagKind,
                >::Ok(out@));
            }
            i = i + 1;
        }
        proof {
            assert(csv.skip(n as int) =~= Seq::<Seq<Tok>>::empty());
        }
        Result::Ok(out)
    }
}

/// `true` iff `t` is a parenthesized group.
fn is_paren_grp(t: &Token) -> (r: bool)
    ensures
        r == (t@ is Grp && t@->Grp_0 == Delim::Paren),
{
    matches!(&t.kind, TokenKind::Group(Delim::Paren, _))
}

/// The contents of a group token, copied.
fn paren_inner(t: &Token) -> (r: Vec<Token>)
    requires
        t@ is Grp,
    ensures
        toks_view(r@) == t@->Grp_1,
{
    match &t.kind {
        TokenKind::Group(_, inner) => duplicate_tokens(inner),
        _ => Vec::new(),
    }
}

/// One field of the user's struct, verbatim: its attributes, visibility,
/// name and type as given.
pub struct UserField {
    pub toks: Vec<Token>,
    pub span: Span,
}

/// The user's struct as received: every part the orchestrator must hand
/// back unchanged is held verbatim.
pub struct FXPlusStruct {
    pub vis: Vec<Token>,
    pub ident: String,
    pub generics: Vec<Token>,
    pub where_clause: Vec<Token>,
    pub attrs: Vec<Token>,
    pub fields: Vec<UserField>,
}

/// The owner-side trait implementation: the weak self type and the
/// self-downgrade method used by the builder shortcut.
pub struct ParentTraitImpl {
    pub trait_path: Vec<Token>,
    pub weak_self_ty: Vec<Token>,
    pub downgrade: FnDecl,
    pub span: Span,
}

/// The path of the owner-side capability trait.
pub open spec fn spec_parent_trait_path() -> Seq<Tok> {
    seq![
        Tok::Pu(':'),
        Tok::Pu(':'),
        Tok::Id("fieldx_plus"@),
        Tok::Pu(':'),
        Tok::Pu(':'),
        Tok::Id("Parent"@),
    ]
}

/// `WeakSelf` for the owner: the weak primitive applied to `Self`.
pub open spec fn spec_weak_self_ty(m: SyncMode) -> Seq<Tok> {
    spec_wrap(crate::synth::spec_weak_ref(m), seq![Tok::Id("Self"@)])
}

/// The owner's self-downgrade body: `self . myself_downgrade ( )`.
pub open spec fn spec_myself_downgrade_body() -> Seq<Tok> {
    seq![
        Tok::Id("self"@),
        Tok::Pu('.'),
        Tok::Id("myself_downgrade"@),
        Tok::Grp(Delim::Paren, Seq::empty()),
    ]
}

/// Everything the owner-side implementation must satisfy.
pub open spec fn spec_parent_impl_ok(p: ParentTraitImpl, m: SyncMode) -> bool {
    &&& toks_view(p.trait_path@) == spec_parent_trait_path()
    &&& toks_view(p.weak_self_ty@) == spec_weak_self_ty(m)
    &&& p.downgrade.name@ == "__fxplus_myself_downgrade"@
    &&& p.downgrade.self_borrow
    &&& toks_view(p.downgrade.params@) == Seq::<Tok>::empty()
    &&& toks_view(p.downgrade.ret@) == spec_weak_self_ty(m)
    &&& toks_view(p.downgrade.body@) == spec_myself_downgrade_body()
}

/// Whether the annotation names an owner role.
pub open spec fn spec_parentish(a: SPlusArgs) -> bool {
    a.app || a.parent
}

/// Whether the annotation names a dependent role.
pub open spec fn spec_childish(a: SPlusArgs) -> bool {
    a.agent is Some || a.child is Some
}

/// The self-accessor name the framework is told to use.
pub open spec fn spec_myself_name(a: SPlusArgs) -> Seq<char> {
    match a.rc {
        SRcState::RcOn(Option::Some(n)) => n,
        _ => "myself"@,
    }
}

/// The arguments the orchestrator adds for the framework, in order: the
/// serialization switch-off, reference counting for an owner, and the
/// constructor suppression and builder for a dependent.
pub open spec fn spec_extra_args(a: SPlusArgs, serde: bool) -> Seq<Seq<Tok>> {
    (if serde {
        seq![seq![Tok::Id("serde"@), spec_off_grp()]]
    } else {
        Seq::<Seq<Tok>>::empty()
    }) + (if spec_parentish(a) && !(a.rc is RcOn) {
        seq![
            seq![
                Tok::Id("rc"@),
                Tok::Grp(Delim::Paren, seq![Tok::LitStr(spec_myself_name(a))]),
            ],
        ]
    } else {
        Seq::<Seq<Tok>>::empty()
    }) + (if spec_childish(a) {
        (if a.new_state is FlagAbsent {
            seq![seq![Tok::Id("new"@), spec_off_grp()]]
        } else {
            Seq::<Seq<Tok>>::empty()
        }) + (if !a.builder {
            seq![seq![Tok::Id("builder"@)]]
        } else {
            Seq::<Seq<Tok>>::empty()
        })
    } else {
        Seq::<Seq<Tok>>::empty()
    })
}

/// The first rejection `produce` makes, if any: reference counting
/// disabled on an owner, an explicit constructor requested on a dependent,
/// then any untranslatable policy expression.
pub open spec fn spec_produce_err(a: SPlusArgs) -> Option<DiagKind> {
    if spec_parentish(a) && a.rc is RcOff {
        Option::Some(DiagKind::RcDisabled)
    } else if spec_childish(a) && a.new_state is FlagOn {
        Option::Some(DiagKind::NewNotAllowed)
    } else if a.agent matches Option::Some(ca) && !spec_translate_ok(ca) {
        Option::Some(DiagKind::ClosureNotAllowed)
    } else if a.child matches Option::Some(ca) && !spec_translate_ok(ca) {
        Option::Some(DiagKind::ClosureNotAllowed)
    } else {
        Option::None
    }
}

/// The orchestrator's output: the argument list handed to the framework,
/// the synthesized trait implementations and fields, and the user's struct
/// unchanged.
pub struct ProduceOutput {
    pub fxstruct_args: Vec<Vec<Token>>,
    pub parent_impl: Option<ParentTraitImpl>,
    pub agent_fragment: Option<GeneratedFragment>,
    pub child_fragment: Option<GeneratedFragment>,
    pub plus_struct: FXPlusStruct,
}

/// Everything a successful `produce` guarantees, stated over the parsed
/// annotation's view.
pub open spec fn spec_produce_ok(out: ProduceOutput, a: SPlusArgs, serde: bool) -> bool {
    let m = spec_sync_mode(a);
    &&& chunks_view(out.fxstruct_args@) == a.std + spec_extra_args(a, serde)
    &&& (out.parent_impl is Some <==> spec_parentish(a))
    &&& (out.parent_impl matches Option::Some(p) ==> spec_parent_impl_ok(p, m))
    &&& (out.agent_fragment is Some <==> a.agent is Some)
    &&& (a.agent matches Option::Some(ca) ==> spec_fragment_ok(
        out.agent_fragment->Some_0,
        ca,
        Role::Application,
        m,
        serde,
    ))
    &&& (out.child_fragment is Some <==> a.child is Some)
    &&& (a.child matches Option::Some(ca) ==> spec_fragment_ok(
        out.child_fragment->Some_0,
        ca,
        Role::Parent,
        m,
        serde,
    ))
}

/// The orchestrator.
pub struct FXPlusProducer {
    pub args: FXPlusArgs,
    pub plus_struct: FXPlusStruct,
}

impl FXPlusProducer {
    /// Make a producer from the parsed arguments and the received struct.
    pub fn new(args: FXPlusArgs, plus_struct: FXPlusStruct) -> (r: FXPlusProducer)
        ensures
            r.args == args,
            r.plus_struct == plus_struct,
    {
        FXPlusProducer { args, plus_struct }
    }

    /// The self-accessor name the framework will generate: the name given
    /// to `rc(...)`, or the default.
    pub fn myself_name(&self) -> (r: String)
        ensures
            r@ == spec_myself_name(self.args@),
    {
        match &self.args.rc {
            RcStateArg::RcOn { name: Option::Some(n), span: _ } => n.clone(),
            _ => "myself".to_owned(),
        }
    }

    /// Compose the synthesized relationship fragments and the forwarded
    /// framework arguments with the user's struct, which is preserved
    /// verbatim: same generics, same where-clause, and the user's fields in
    /// their original order.
    #[verifier::rlimit(100)]
    #[verifier::spinoff_prover]
    pub fn produce(self, serde_enabled: bool) -> (r: Result<ProduceOutput, Diag>)
        requires
            self.args.agent matches Option::Some(c) ==> c.role == Role::Application,
            self.args.child matches Option::Some(c) ==> c.role == Role::Parent,
        ensures
            match r {
                Result::Ok(out) => spec_produce_err(self.args@) is None && spec_produce_ok(
                    out,
                    self.args@,
                    serde_enabled,
                ) && out.plus_struct == self.plus_struct,
                Result::Err(d) => spec_produce_err(self.args@) == Option::Some(d.kind)
                    && d.spans@.len() >= 1,
            },
    {
        let ghost a = self.args@;
        let FXPlusProducer { args, plus_struct } = self;
        let mode = args.sync_mode();
        let span = Span::none();
        let parentish = args.app.is_some() || args.parent.is_some();
        let childish = args.agent.is_some() || args.child.is_some();

        // owner side: the struct must be reference counted
        if parentish {
            if matches!(args.rc, RcStateArg::RcOff { .. }) {
                let sp = match args.rc {
                    RcStateArg::RcOff { span: s } => s,
                    _ => span,
                };
                return Result::Err(Diag::new(DiagKind::RcDisabled, sp));
            }
        }
        // dependent side: the constructor belongs to the builder
        if childish {
            if matches!(args.new_state, FlagStateArg::FlagOn { .. }) {
                let sp = match args.new_state {
                    FlagStateArg::FlagOn { span: s } => s,
                    _ => span,
                };
                return Result::Err(Diag::new(DiagKind::NewNotAllowed, sp));
            }
        }

        // the dependent fragments
        let agent_fragment = match &args.agent {
            Option::Some(ca) => match synthesize_relationship(ca, mode, serde_enabled) {
                Result::Err(d) => {
                    return Result::Err(d);
                },
                Result::Ok(frag) => Option::Some(frag),
            },
            Option::None => Option::None,
        };
        let child_fragment = match &args.child {
            Option::Some(ca) => match synthesize_relationship(ca, mode, serde_enabled) {
                Result::Err(d) => {
                    return Result::Err(d);
                },
                Result::Ok(frag) => Option::Some(frag),
            },
            Option::None => Option::None,
        };

        // the owner-side trait implementation
        let parent_impl = if parentish {
            Option::Some(make_parent_impl(mode, span))
        } else {
            Option::None
        };

        // the framework arguments: the pass-through list, then the added ones
        let fxargs = build_fxstruct_args(&args, serde_enabled);

        Result::Ok(
            ProduceOutput {
                fxstruct_args: fxargs,
                parent_impl,
                agent_fragment,
                child_fragment,
                plus_struct,
            },
        )
    }
}

fn push_tok2(out: &mut Vec<Token>, t: Token)
    ensures
        toks_view(final(out)@) == toks_view(old(out)@).push(t@),
{
    proof {
        lemma_toks_view_push(out@, t);
    }
    out.push(t);
}

/// `(off)` as one token.
fn off_grp_token(span: Span) -> (t: Token)
    ensures
        t@ == spec_off_grp(),
{
    let mut inner: Vec<Token> = Vec::new();
    proof {
        assert(toks_view(inner@) =~= Seq::<Tok>::empty());
    }
    push_tok2(&mut inner, id_token("off", span));
    proof {
        assert(toks_view(inner@) =~= seq![Tok::Id("off"@)]);
    }
    group_token(Delim::Paren, inner, span)
}

/// Copy a chunk list, preserving its view.
fn duplicate_chunks(cs: &Vec<Vec<Token>>) -> (r: Vec<Vec<Token>>)
    ensures
        chunks_view(r@) == chunks_view(cs@),
{
    let mut r: Vec<Vec<Token>> = Vec::new();
    proof {
        assert(chunks_view(r@) =~= Seq::<Seq<Tok>>::empty());
    }
    let mut i: usize = 0;
    while i < cs.len()
        invariant
            i <= cs@.len(),
            chunks_view(r@) =~= chunks_view(cs@.take(i as int)),
        decreases cs@.len() - i,
    {
        let c = duplicate_tokens(&cs[i]);
        proof {
            lemma_chunks_view_push(r@, c);
            lemma_chunks_view_push(cs@.take(i as int), cs@[i as int]);
            assert(cs@.take(i as int).push(cs@[i as int]) =~= cs@.take(i + 1));
            lemma_chunks_view_index(cs@, i as int);
        }
        r.push(c);
        i = i + 1;
    }
    proof {
        assert(cs@.take(cs@.len() as int) =~= cs@);
    }
    r
}

/// The owner-side trait implementation for the mode.
fn make_parent_impl(m: SyncMode, span: Span) -> (r: ParentTraitImpl)
    ensures
        spec_parent_impl_ok(r, m),
{
    let mut path: Vec<Token> = Vec::new();
    proof {
        assert(toks_view(path@) =~= Seq::<Tok>::empty());
    }
    push_tok2(&mut path, punct_token(':', span));
    push_tok2(&mut path, punct_token(':', span));
    push_tok2(&mut path, id_token("fieldx_plus", span));
    push_tok2(&mut path, punct_token(':', span));
    push_tok2(&mut path, punct_token(':', span));
    push_tok2(&mut path, id_token("Parent", span));
    proof {
        assert(toks_view(path@) =~= spec_parent_trait_path());
    }
    let mut self_toks: Vec<Token> = Vec::new();
    proof {
        assert(toks_view(self_toks@) =~= Seq::<Tok>::empty());
    }
    push_tok2(&mut self_toks, id_token("Self", span));
    proof {
        assert(toks_view(self_toks@) =~= seq![Tok::Id("Self"@)]);
    }
    let weak_self = wrap_tokens(weak_ref_tokens(m, span), self_toks, span);
    let mut self_toks2: Vec<Token> = Vec::new();
    proof {
        assert(toks_view(self_toks2@) =~= Seq::<Tok>::empty());
    }
    push_tok2(&mut self_toks2, id_token("Self", span));
    proof {
        assert(toks_view(self_toks2@) =~= seq![Tok::Id("Self"@)]);
    }
    let weak_self2 = wrap_tokens(weak_ref_tokens(m, span), self_toks2, span);
    let mut body: Vec<Token> = Vec::new();
    proof {
        assert(toks_view(body@) =~= Seq::<Tok>::empty());
    }
    push_tok2(&mut body, id_token("self", span));
    push_tok2(&mut body, punct_token('.', span));
    push_tok2(&mut body, id_token("myself_downgrade", span));
    push_tok2(&mut body, group_token(Delim::Paren, Vec::new(), span));
    proof {
        assert(toks_view(Seq::<Token>::empty()) =~= Seq::<Tok>::empty());
        assert(toks_view(body@) =~= spec_myself_downgrade_body());
    }
    let downgrade = FnDecl {
        name: "__fxplus_myself_downgrade".to_owned(),
        self_borrow: true,
        params: Vec::new(),
        ret: weak_self2,
        body,
        span,
    };
    proof {
        assert(toks_view(Seq::<Token>::empty()) =~= Seq::<Tok>::empty());
    }
    ParentTraitImpl { trait_path: path, weak_self_ty: weak_self, downgrade, span }
}

/// Expand one annotated struct: parse the argument list, then compose the
/// synthesized fragments with the struct. Rejections carry the offending
/// span and reason.
pub fn fx_plus(arg_toks: &Vec<Token>, input: FXPlusStruct, serde_enabled: bool) -> (r: Result<
    ProduceOutput,
    Diag,
>)
    requires
        3 * toks_size(toks_view(arg_toks@)) + 3 <= usize::MAX,
    ensures
        match r {
            Result::Ok(out) => spec_parse_plus(toks_view(arg_toks@)) matches Result::Ok(a)
                && spec_produce_err(a) is None && spec_produce_ok(out, a, serde_enabled)
                && out.plus_struct == input,
            Result::Err(d) => d.spans@.len() >= 1 && ((spec_parse_plus(toks_view(arg_toks@))
                matches Result::Err(k) && k == d.kind) || (spec_parse_plus(toks_view(arg_toks@))
                matches Result::Ok(a) && spec_produce_err(a) == Option::Some(d.kind))),
        },
{
    let args = match FXPlusArgs::parse(arg_toks) {
        Result::Err(d) => {
            return Result::Err(d);
        },
        Result::Ok(a) => a,
    };
    FXPlusProducer::new(args, input).produce(serde_enabled)
}

/// The argument list handed to the framework: the pass-through arguments,
/// then the ones the orchestrator adds.
#[verifier::rlimit(100)]
#[verifier::spinoff_prover]
fn build_fxstruct_args(args: &FXPlusArgs, serde_enabled: bool) -> (r: Vec<Vec<Token>>)
    requires
        !(spec_parentish(args@) && args@.rc is RcOff),
    ensures
        chunks_view(r@) == args@.std + spec_extra_args(args@, serde_enabled),
{
    let ghost a = args@;
    let span = Span::none();
    let parentish = args.app.is_some() || args.parent.is_some();
    let childish = args.agent.is_some() || args.child.is_some();
    let mut fxargs = duplicate_chunks(&args.std_args);
    if serde_enabled {
        let mut chunk: Vec<Token> = Vec::new();
        proof {
            assert(toks_view(chunk@) =~= Seq::<Tok>::empty());
        }
        push_tok2(&mut chunk, id_token("serde", span));
        push_tok2(&mut chunk, off_grp_token(span));
        proof {
            assert(toks_view(chunk@) =~= seq![Tok::Id("serde"@), spec_off_grp()]);
            lemma_chunks_view_push(fxargs@, chunk);
        }
        fxargs.push(chunk);
    }
    let rc_absent = matches!(args.rc, RcStateArg::RcAbsent);
    if parentish && rc_absent {
        let mut chunk: Vec<Token> = Vec::new();
        proof {
            assert(toks_view(chunk@) =~= Seq::<Tok>::empty());
        }
        push_tok2(&mut chunk, id_token("rc", span));
        let mut name_toks: Vec<Token> = Vec::new();
        proof {
            assert(toks_view(name_toks@) =~= Seq::<Tok>::empty());
        }
        push_tok2(&mut name_toks, str_token("myself", span));
        proof {
            assert(toks_view(name_toks@) =~= seq![Tok::LitStr("myself"@)]);
        }
        push_tok2(&mut chunk, group_token(Delim::Paren, name_toks, span));
        proof {
            assert(toks_view(chunk@) =~= seq![
                Tok::Id("rc"@),
                Tok::Grp(Delim::Paren, seq![Tok::LitStr("myself"@)]),
            ]);
            assert(spec_myself_name(a) == "myself"@);
            lemma_chunks_view_push(fxargs@, chunk);
        }
        fxargs.push(chunk);
    }
    if childish {
        if matches!(args.new_state, FlagStateArg::FlagAbsent) {
            let mut chunk: Vec<Token> = Vec::new();
            proof {
                assert(toks_view(chunk@) =~= Seq::<Tok>::empty());
            }
            push_tok2(&mut chunk, id_token("new", span));
            push_tok2(&mut chunk, off_grp_token(span));
            proof {
                assert(toks_view(chunk@) =~= seq![Tok::Id("new"@), spec_off_grp()]);
                lemma_chunks_view_push(fxargs@, chunk);
            }
            fxargs.push(chunk);
        }
        if !args.builder {
            let mut chunk: Vec<Token> = Vec::new();
            proof {
                assert(toks_view(chunk@) =~= Seq::<Tok>::empty());
            }
            push_tok2(&mut chunk, id_token("builder", span));
            proof {
                assert(toks_view(chunk@) =~= seq![Tok::Id("builder"@)]);
                lemma_chunks_view_push(fxargs@, chunk);
            }
            fxargs.push(chunk);
        }
    }
    proof {
        assert(chunks_view(fxargs@) =~= a.std + spec_extra_args(a, serde_enabled));
    }
    fxargs
}

} // verus!
