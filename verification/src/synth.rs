//! The relationship code synthesizer: from one validated dependent-role
//! configuration, a role descriptor and the sync mode, compute the storage
//! field, the capability-trait implementation and the accessor return type.
//!
//! The upgrade policy governs the accessor: strong storage clones the held
//! strong reference and can never fail; weak storage upgrades and then
//! applies the policy's failure transform (`.unwrap()`, `.expect(msg)`,
//! `.ok_or(expr)`, `.ok_or_else(expr)`), or returns an `Option` when no
//! policy was configured.

use vstd::prelude::*;
use crate::args::ChildArgs;
use crate::args::SChildArgs;
use crate::args::SPolicy;
use crate::args::SUnwrap;
use crate::args::UnwrapArg;
use crate::args::UnwrapPolicy;
use crate::descriptor::Role;
use crate::descriptor::SyncMode;
use crate::diag::Diag;
use crate::diag::DiagKind;
use crate::expr::TranslateAs;
use crate::expr::spec_translate_or;
use crate::expr::translate_or_expr;
use crate::tokens::Delim;
use crate::tokens::Span;
use crate::tokens::Tok;
use crate::tokens::Token;
use crate::tokens::group_token;
use crate::tokens::id_token;
use crate::tokens::lemma_toks_view_append;
use crate::tokens::lemma_toks_view_len;
use crate::tokens::lemma_toks_view_push;
use crate::tokens::punct_token;
use crate::tokens::str_token;
use crate::tokens::toks_view;
use crate::typath::STyRepr;
use crate::typath::spec_render_ty;
use crate::typath::spec_type_repr_tokens;
use crate::typath::type_repr_tokens;

verus! {

/// The path of the strong reference-counting primitive for the mode.
pub open spec fn spec_strong_ref(m: SyncMode) -> Seq<Tok> {
    match m {
        SyncMode::Sync => seq![
            Tok::Pu(':'),
            Tok::Pu(':'),
            Tok::Id("std"@),
            Tok::Pu(':'),
            Tok::Pu(':'),
            Tok::Id("sync"@),
            Tok::Pu(':'),
            Tok::Pu(':'),
            Tok::Id("Arc"@),
        ],
        SyncMode::Nonsync => seq![
            Tok::Pu(':'),
            Tok::Pu(':'),
            Tok::Id("std"@),
            Tok::Pu(':'),
            Tok::Pu(':'),
            Tok::Id("rc"@),
            Tok::Pu(':'),
            Tok::Pu(':'),
            Tok::Id("Rc"@),
        ],
    }
}

/// The path of the weak reference primitive for the mode.
pub open spec fn spec_weak_ref(m: SyncMode) -> Seq<Tok> {
    match m {
        SyncMode::Sync => seq![
            Tok::Pu(':'),
            Tok::Pu(':'),
            Tok::Id("std"@),
            Tok::Pu(':'),
            Tok::Pu(':'),
            Tok::Id("sync"@),
            Tok::Pu(':'),
            Tok::Pu(':'),
            Tok::Id("Weak"@),
        ],
        SyncMode::Nonsync => seq![
            Tok::Pu(':'),
            Tok::Pu(':'),
            Tok::Id("std"@),
            Tok::Pu(':'),
            Tok::Pu(':'),
            Tok::Id("rc"@),
            Tok::Pu(':'),
            Tok::Pu(':'),
            Tok::Id("Weak"@),
        ],
    }
}

/// `prefix < inner >`.
pub open spec fn spec_wrap(prefix: Seq<Tok>, inner: Seq<Tok>) -> Seq<Tok> {
    prefix + seq![Tok::Pu('<')] + inner + seq![Tok::Pu('>')]
}

/// The owner type's tokens.
pub open spec fn spec_owner_tokens(a: SChildArgs) -> Seq<Tok> {
    spec_type_repr_tokens(a.parent)
}

/// Whether the dependent stores a strong reference.
pub open spec fn spec_storage_strong(a: SChildArgs) -> bool {
    a.rc_strong == Option::Some(true)
}

/// The type of the synthesized storage field: a strong reference for
/// strong storage, a weak one otherwise.
pub open spec fn spec_field_type(a: SChildArgs, m: SyncMode) -> Seq<Tok> {
    if spec_storage_strong(a) {
        spec_wrap(spec_strong_ref(m), spec_owner_tokens(a))
    } else {
        spec_wrap(spec_weak_ref(m), spec_owner_tokens(a))
    }
}

/// The accessor's declared return type, governed by exactly one of: strong
/// storage or no policy (the bare strong type), `Panic`/`Expect` (still the
/// bare strong type — failure terminates the caller), the error-mapping
/// policies (a `Result`), or weak storage with no policy (an `Option`).
pub open spec fn spec_accessor_ret(a: SChildArgs, m: SyncMode) -> Seq<Tok> {
    let strong = spec_wrap(spec_strong_ref(m), spec_owner_tokens(a));
    if spec_storage_strong(a) {
        strong
    } else {
        match a.unwrap {
            Option::None => spec_wrap(
                seq![
                    Tok::Pu(':'),
                    Tok::Pu(':'),
                    Tok::Id("std"@),
                    Tok::Pu(':'),
                    Tok::Pu(':'),
                    Tok::Id("option"@),
                    Tok::Pu(':'),
                    Tok::Pu(':'),
                    Tok::Id("Option"@),
                ],
                strong,
            ),
            Option::Some(u) => match u.policy {
                SPolicy::SPanic => strong,
                SPolicy::SExpect(m_) => strong,
                SPolicy::SMapOr(e, x) => spec_wrap(
                    seq![
                        Tok::Pu(':'),
                        Tok::Pu(':'),
                        Tok::Id("std"@),
                        Tok::Pu(':'),
                        Tok::Pu(':'),
                        Tok::Id("result"@),
                        Tok::Pu(':'),
                        Tok::Pu(':'),
                        Tok::Id("Result"@),
                    ],
                    strong + seq![Tok::Pu(',')] + spec_render_ty(e),
                ),
                SPolicy::SMapOrElse(e, x) => spec_wrap(
                    seq![
                        Tok::Pu(':'),
                        Tok::Pu(':'),
                        Tok::Id("std"@),
                        Tok::Pu(':'),
                        Tok::Pu(':'),
                        Tok::Id("result"@),
                        Tok::Pu(':'),
                        Tok::Pu(':'),
                        Tok::Id("Result"@),
                    ],
                    strong + seq![Tok::Pu(',')] + spec_render_ty(e),
                ),
            },
        }
    }
}

/// The failure transform appended to the upgrade call: nothing without a
/// policy, else `.unwrap()`, `.expect(msg)`, `.ok_or(expr)` or
/// `.ok_or_else(expr)`.
pub open spec fn spec_upgrade_suffix(uw: Option<SUnwrap>) -> Seq<Tok> {
    match uw {
        Option::None => Seq::empty(),
        Option::Some(u) => match u.policy {
            SPolicy::SPanic => seq![
                Tok::Pu('.'),
                Tok::Id("unwrap"@),
                Tok::Grp(Delim::Paren, Seq::empty()),
            ],
            SPolicy::SExpect(msg) => seq![
                Tok::Pu('.'),
                Tok::Id("expect"@),
                Tok::Grp(Delim::Paren, seq![Tok::LitStr(msg)]),
            ],
            SPolicy::SMapOr(e, x) => match spec_translate_or(x, TranslateAs::Or) {
                Option::Some(toks) => seq![
                    Tok::Pu('.'),
                    Tok::Id("ok_or"@),
                    Tok::Grp(Delim::Paren, toks),
                ],
                Option::None => Seq::empty(),
            },
            SPolicy::SMapOrElse(e, x) => match spec_translate_or(x, TranslateAs::OrElse) {
                Option::Some(toks) => seq![
                    Tok::Pu('.'),
                    Tok::Id("ok_or_else"@),
                    Tok::Grp(Delim::Paren, toks),
                ],
                Option::None => Seq::empty(),
            },
        },
    }
}

/// `( & self . field )` — the argument of the clone/upgrade/downgrade call.
pub open spec fn spec_self_field_arg(field: Seq<char>) -> Seq<Tok> {
    seq![
        Tok::Grp(
            Delim::Paren,
            seq![Tok::Pu('&'), Tok::Id("self"@), Tok::Pu('.'), Tok::Id(field)],
        ),
    ]
}

/// The strong accessor's body. Strong storage clones the held strong
/// reference — no failure handling ever appears; weak storage upgrades and
/// applies the policy's transform.
pub open spec fn spec_accessor_body(a: SChildArgs, m: SyncMode, field: Seq<char>) -> Seq<Tok> {
    if spec_storage_strong(a) {
        spec_strong_ref(m) + seq![Tok::Pu(':'), Tok::Pu(':'), Tok::Id("clone"@)]
            + spec_self_field_arg(field)
    } else {
        spec_weak_ref(m) + seq![Tok::Pu(':'), Tok::Pu(':'), Tok::Id("upgrade"@)]
            + spec_self_field_arg(field) + spec_upgrade_suffix(a.unwrap)
    }
}

/// The downgrade accessor's body: always a freshly derived weak reference,
/// by downgrading the strong reference or cloning the weak one.
pub open spec fn spec_downgrade_body(a: SChildArgs, m: SyncMode, field: Seq<char>) -> Seq<Tok> {
    if spec_storage_strong(a) {
        spec_strong_ref(m) + seq![Tok::Pu(':'), Tok::Pu(':'), Tok::Id("downgrade"@)]
            + spec_self_field_arg(field)
    } else {
        spec_weak_ref(m) + seq![Tok::Pu(':'), Tok::Pu(':'), Tok::Id("clone"@)]
            + spec_self_field_arg(field)
    }
}

/// The builder-shortcut method's body: strong storage must upgrade the
/// handed-in weak reference at once, weak storage stores it as is.
pub open spec fn spec_fxp_body(a: SChildArgs, m: SyncMode, base: Seq<char>) -> Seq<Tok> {
    if spec_storage_strong(a) {
        spec_weak_ref(m) + seq![Tok::Pu(':'), Tok::Pu(':'), Tok::Id("upgrade"@)] + seq![
            Tok::Grp(Delim::Paren, seq![Tok::Pu('&'), Tok::Id(base)]),
        ] + seq![Tok::Pu('.'), Tok::Id("unwrap"@), Tok::Grp(Delim::Paren, Seq::empty())]
    } else {
        seq![Tok::Id(base)]
    }
}

fn push_tok(out: &mut Vec<Token>, t: Token)
    ensures
        toks_view(final(out)@) == toks_view(old(out)@).push(t@),
{
    proof {
        lemma_toks_view_push(out@, t);
    }
    out.push(t);
}

/// The strong reference path as tokens.
pub fn strong_ref_tokens(m: SyncMode, span: Span) -> (r: Vec<Token>)
    ensures
        toks_view(r@) == spec_strong_ref(m),
{
    let mut out: Vec<Token> = Vec::new();
    proof {
        assert(toks_view(out@) =~= Seq::<Tok>::empty());
    }
    push_tok(&mut out, punct_token(':', span));
    push_tok(&mut out, punct_token(':', span));
    push_tok(&mut out, id_token("std", span));
    push_tok(&mut out, punct_token(':', span));
    push_tok(&mut out, punct_token(':', span));
    match m {
        SyncMode::Sync => {
            push_tok(&mut out, id_token("sync", span));
            push_tok(&mut out, punct_token(':', span));
            push_tok(&mut out, punct_token(':', span));
            push_tok(&mut out, id_token("Arc", span));
        },
        SyncMode::Nonsync => {
            push_tok(&mut out, id_token("rc", span));
            push_tok(&mut out, punct_token(':', span));
            push_tok(&mut out, punct_token(':', span));
            push_tok(&mut out, id_token("Rc", span));
        },
    }
    proof {
        assert(toks_view(out@) =~= spec_strong_ref(m));
    }
    out
}

/// The weak reference path as tokens.
pub fn weak_ref_tokens(m: SyncMode, span: Span) -> (r: Vec<Token>)
    ensures
        toks_view(r@) == spec_weak_ref(m),
{
    let mut out: Vec<Token> = Vec::new();
    proof {
        assert(toks_view(out@) =~= Seq::<Tok>::empty());
    }
    push_tok(&mut out, punct_token(':', span));
    push_tok(&mut out, punct_token(':', span));
    push_tok(&mut out, id_token("std", span));
    push_tok(&mut out, punct_token(':', span));
    push_tok(&mut out, punct_token(':', span));
    match m {
        SyncMode::Sync => {
            push_tok(&mut out, id_token("sync", span));
        },
        SyncMode::Nonsync => {
            push_tok(&mut out, id_token("rc", span));
        },
    }
    push_tok(&mut out, punct_token(':', span));
    push_tok(&mut out, punct_token(':', span));
    push_tok(&mut out, id_token("Weak", span));
    proof {
        assert(toks_view(out@) =~= spec_weak_ref(m));
    }
    out
}

/// Append `rest` to `out`, consuming it.
pub fn extend_tokens(out: &mut Vec<Token>, rest: Vec<Token>)
    ensures
        toks_view(final(out)@) == toks_view(old(out)@) + toks_view(rest@),
{
    let ghost pre = out@;
    let ghost restv = rest@;
    let mut rest = rest;
    out.append(&mut rest);
    proof {
        assert(out@ =~= pre + restv);
        lemma_toks_view_append(pre, restv);
    }
}

/// `prefix < inner >` as tokens.
pub fn wrap_tokens(prefix: Vec<Token>, inner: Vec<Token>, span: Span) -> (r: Vec<Token>)
    ensures
        toks_view(r@) == spec_wrap(toks_view(prefix@), toks_view(inner@)),
{
    let ghost pv = toks_view(prefix@);
    let ghost iv = toks_view(inner@);
    let mut out = prefix;
    push_tok(&mut out, punct_token('<', span));
    extend_tokens(&mut out, inner);
    push_tok(&mut out, punct_token('>', span));
    proof {
        assert(toks_view(out@) =~= spec_wrap(pv, iv));
    }
    out
}

/// The accessor base name: the alias where one was given, else the role's
/// default.
pub open spec fn spec_base_ident(a: SChildArgs, role: Role) -> Seq<char> {
    match a.alias {
        Option::Some(x) => x,
        Option::None => crate::descriptor::spec_base_name(role),
    }
}

/// The synthesized storage field's name: the base name with a `__` prefix.
pub open spec fn spec_field_name(a: SChildArgs, role: Role) -> Seq<char> {
    "__"@ + spec_base_ident(a, role)
}

/// `(off)` as one group token.
pub open spec fn spec_off_group() -> Tok {
    Tok::Grp(Delim::Paren, seq![Tok::Id("off"@)])
}

/// The field-level attribute arguments: every upstream accessor helper is
/// switched off, the builder setter keeps the plain base name, and
/// serialization is disabled where it is enabled crate-wide.
pub open spec fn spec_fieldx_attr_args(base: Seq<char>, serde: bool) -> Seq<Tok> {
    seq![
        Tok::Id("lazy"@),
        spec_off_group(),
        Tok::Pu(','),
        Tok::Id("predicate"@),
        spec_off_group(),
        Tok::Pu(','),
        Tok::Id("clearer"@),
        spec_off_group(),
        Tok::Pu(','),
        Tok::Id("get"@),
        spec_off_group(),
        Tok::Pu(','),
        Tok::Id("set"@),
        spec_off_group(),
        Tok::Pu(','),
        Tok::Id("builder"@),
        Tok::Grp(Delim::Paren, seq![Tok::LitStr(base)]),
    ] + if serde {
        seq![Tok::Pu(','), Tok::Id("serde"@), spec_off_group()]
    } else {
        Seq::<Tok>::empty()
    }
}

/// The whole field attribute: `#[fieldx(...)]`.
pub open spec fn spec_field_attrs(base: Seq<char>, serde: bool) -> Seq<Tok> {
    seq![
        Tok::Pu('#'),
        Tok::Grp(
            Delim::Bracket,
            seq![
                Tok::Id("fieldx"@),
                Tok::Grp(Delim::Paren, spec_fieldx_attr_args(base, serde)),
            ],
        ),
    ]
}

/// `Self :: Name` — a method's declared return type.
pub open spec fn spec_self_assoc(name: Seq<char>) -> Seq<Tok> {
    seq![Tok::Id("Self"@), Tok::Pu(':'), Tok::Pu(':'), Tok::Id(name)]
}

/// Whether every policy expression has a translation (the one failure: a
/// closure where `ok_or` needs a plain value).
pub open spec fn spec_translate_ok(a: SChildArgs) -> bool {
    match a.unwrap {
        Option::Some(u) => match u.policy {
            SPolicy::SMapOr(e, x) => !(x is SClosureExpr),
            _ => true,
        },
        Option::None => true,
    }
}

/// A synthesized field declaration.
pub struct FieldDecl {
    pub name: String,
    pub ty: Vec<Token>,
    pub attrs: Vec<Token>,
    pub span: Span,
}

/// One associated type of the capability-trait implementation.
pub struct AssocType {
    pub name: String,
    pub ty: Vec<Token>,
    pub span: Span,
}

/// One synthesized method.
pub struct FnDecl {
    pub name: String,
    pub self_borrow: bool,
    pub params: Vec<Token>,
    pub ret: Vec<Token>,
    pub body: Vec<Token>,
    pub span: Span,
}

/// The capability-trait implementation for one dependent role: the three
/// associated types and the three methods.
pub struct ChildTraitImpl {
    pub trait_name: String,
    pub rc_assoc: AssocType,
    pub weak_assoc: AssocType,
    pub fxp_assoc: AssocType,
    pub accessor: FnDecl,
    pub downgrade: FnDecl,
    pub fxp_method: FnDecl,
    pub span: Span,
}

/// The synthesis output for one relationship: the storage field, the
/// capability-trait implementation, and the accessor's declared return
/// type.
pub struct GeneratedFragment {
    pub field: FieldDecl,
    pub trait_impl: ChildTraitImpl,
    pub accessor_ret: Vec<Token>,
}

/// Everything the fragment must satisfy, stated over the parsed
/// configuration's view. The associated strong-reference type equals the
/// accessor's declared return type exactly.
pub open spec fn spec_fragment_ok(
    frag: GeneratedFragment,
    a: SChildArgs,
    role: Role,
    m: SyncMode,
    serde: bool,
) -> bool {
    let base = spec_base_ident(a, role);
    let fieldname = spec_field_name(a, role);
    &&& frag.field.name@ == fieldname
    &&& toks_view(frag.field.ty@) == spec_field_type(a, m)
    &&& toks_view(frag.field.attrs@) == spec_field_attrs(base, serde)
    &&& frag.trait_impl.trait_name@ == crate::descriptor::spec_child_trait_name(role)
    &&& frag.trait_impl.rc_assoc.name@ == crate::descriptor::spec_rc_assoc_type(role)
    &&& toks_view(frag.trait_impl.rc_assoc.ty@) == spec_accessor_ret(a, m)
    &&& frag.trait_impl.weak_assoc.name@ == crate::descriptor::spec_weak_assoc_type(role)
    &&& toks_view(frag.trait_impl.weak_assoc.ty@) == spec_wrap(
        spec_weak_ref(m),
        spec_owner_tokens(a),
    )
    &&& frag.trait_impl.fxp_assoc.name@ == crate::descriptor::spec_fxp_assoc_type(role)
    &&& toks_view(frag.trait_impl.fxp_assoc.ty@) == spec_field_type(a, m)
    &&& frag.trait_impl.accessor.name@ == base
    &&& frag.trait_impl.accessor.self_borrow
    &&& toks_view(frag.trait_impl.accessor.params@) == Seq::<Tok>::empty()
    &&& toks_view(frag.trait_impl.accessor.ret@) == spec_self_assoc(
        crate::descriptor::spec_rc_assoc_type(role),
    )
    &&& toks_view(frag.trait_impl.accessor.body@) == spec_accessor_body(a, m, fieldname)
    &&& frag.trait_impl.downgrade.name@ == base + "_downgrade"@
    &&& frag.trait_impl.downgrade.self_borrow
    &&& toks_view(frag.trait_impl.downgrade.params@) == Seq::<Tok>::empty()
    &&& toks_view(frag.trait_impl.downgrade.ret@) == spec_self_assoc(
        crate::descriptor::spec_weak_assoc_type(role),
    )
    &&& toks_view(frag.trait_impl.downgrade.body@) == spec_downgrade_body(a, m, fieldname)
    &&& frag.trait_impl.fxp_method.name@ == "__fxplus_"@ + crate::descriptor::spec_base_name(role)
    &&& !frag.trait_impl.fxp_method.self_borrow
    &&& toks_view(frag.trait_impl.fxp_method.params@) == seq![Tok::Id(base), Tok::Pu(':')]
        + spec_self_assoc(crate::descriptor::spec_weak_assoc_type(role))
    &&& toks_view(frag.trait_impl.fxp_method.ret@) == spec_self_assoc(
        crate::descriptor::spec_fxp_assoc_type(role),
    )
    &&& toks_view(frag.trait_impl.fxp_method.body@) == spec_fxp_body(a, m, base)
    &&& toks_view(frag.accessor_ret@) == spec_accessor_ret(a, m)
}

/// `(off)` as a token.
fn off_group_token(span: Span) -> (t: Token)
    ensures
        t@ == spec_off_group(),
{
    let mut inner: Vec<Token> = Vec::new();
    proof {
        assert(toks_view(inner@) =~= Seq::<Tok>::empty());
    }
    push_tok(&mut inner, id_token("off", span));
    proof {
        assert(toks_view(inner@) =~= seq![Tok::Id("off"@)]);
    }
    group_token(Delim::Paren, inner, span)
}

/// Append `name` + `(off)` + (a comma unless it is the last entry).
fn push_off_arg(out: &mut Vec<Token>, name: &str, span: Span)
    ensures
        toks_view(final(out)@) == toks_view(old(out)@) + seq![
            Tok::Id(name@),
            spec_off_group(),
            Tok::Pu(','),
        ],
{
    push_tok(out, id_token(name, span));
    push_tok(out, off_group_token(span));
    push_tok(out, punct_token(',', span));
    proof {
        assert(toks_view(out@) =~= toks_view(old(out)@) + seq![
            Tok::Id(name@),
            spec_off_group(),
            Tok::Pu(','),
        ]);
    }
}

/// The field attribute tokens.
pub(crate) fn field_attr_tokens_pub(base: &String, serde: bool, span: Span) -> (r: Vec<Token>)
    ensures
        toks_view(r@) == spec_field_attrs(base@, serde),
{
    let mut args: Vec<Token> = Vec::new();
    proof {
        assert(toks_view(args@) =~= Seq::<Tok>::empty());
    }
    push_off_arg(&mut args, "lazy", span);
    push_off_arg(&mut args, "predicate", span);
    push_off_arg(&mut args, "clearer", span);
    push_off_arg(&mut args, "get", span);
    push_off_arg(&mut args, "set", span);
    push_tok(&mut args, id_token("builder", span));
    let mut bname: Vec<Token> = Vec::new();
    proof {
        assert(toks_view(bname@) =~= Seq::<Tok>::empty());
    }
    push_tok(&mut bname, str_token(base.as_str(), span));
    proof {
        assert(toks_view(bname@) =~= seq![Tok::LitStr(base@)]);
    }
    push_tok(&mut args, group_token(Delim::Paren, bname, span));
    if serde {
        push_tok(&mut args, punct_token(',', span));
        push_tok(&mut args, id_token("serde", span));
        push_tok(&mut args, off_group_token(span));
    }
    proof {
        assert(toks_view(args@) =~= spec_fieldx_attr_args(base@, serde));
    }
    let mut inner: Vec<Token> = Vec::new();
    proof {
        assert(toks_view(inner@) =~= Seq::<Tok>::empty());
    }
    push_tok(&mut inner, id_token("fieldx", span));
    let ghost argsv = toks_view(args@);
    push_tok(&mut inner, group_token(Delim::Paren, args, span));
    proof {
        assert(toks_view(inner@) =~= seq![Tok::Id("fieldx"@), Tok::Grp(Delim::Paren, argsv)]);
    }
    let mut out: Vec<Token> = Vec::new();
    proof {
        assert(toks_view(out@) =~= Seq::<Tok>::empty());
    }
    push_tok(&mut out, punct_token('#', span));
    let ghost innerv = toks_view(inner@);
    push_tok(&mut out, group_token(Delim::Bracket, inner, span));
    proof {
        assert(toks_view(out@) =~= spec_field_attrs(base@, serde));
    }
    out
}

/// `Self :: name` as tokens.
fn self_assoc_tokens(name: &String, span: Span) -> (r: Vec<Token>)
    ensures
        toks_view(r@) == spec_self_assoc(name@),
{
    let mut out: Vec<Token> = Vec::new();
    proof {
        assert(toks_view(out@) =~= Seq::<Tok>::empty());
    }
    push_tok(&mut out, id_token("Self", span));
    push_tok(&mut out, punct_token(':', span));
    push_tok(&mut out, punct_token(':', span));
    push_tok(&mut out, id_token(name.as_str(), span));
    proof {
        assert(toks_view(out@) =~= spec_self_assoc(name@));
    }
    out
}

/// `( & self . field )` as tokens.
fn self_field_arg_tokens(field: &String, span: Span) -> (r: Vec<Token>)
    ensures
        toks_view(r@) == spec_self_field_arg(field@),
{
    let mut inner: Vec<Token> = Vec::new();
    proof {
        assert(toks_view(inner@) =~= Seq::<Tok>::empty());
    }
    push_tok(&mut inner, punct_token('&', span));
    push_tok(&mut inner, id_token("self", span));
    push_tok(&mut inner, punct_token('.', span));
    push_tok(&mut inner, id_token(field.as_str(), span));
    proof {
        assert(toks_view(inner@) =~= seq![
            Tok::Pu('&'),
            Tok::Id("self"@),
            Tok::Pu('.'),
            Tok::Id(field@),
        ]);
    }
    let ghost innerv = toks_view(inner@);
    let mut out: Vec<Token> = Vec::new();
    proof {
        assert(toks_view(out@) =~= Seq::<Tok>::empty());
    }
    push_tok(&mut out, group_token(Delim::Paren, inner, span));
    proof {
        assert(toks_view(out@) =~= spec_self_field_arg(field@));
    }
    out
}

/// `:: method` appended to a reference path, then `( & self . field )`.
pub(crate) fn ref_call_tokens_pub(path: Vec<Token>, method: &str, field: &String, span: Span) -> (r: Vec<Token>)
    ensures
        toks_view(r@) == toks_view(path@) + seq![Tok::Pu(':'), Tok::Pu(':'), Tok::Id(method@)]
            + spec_self_field_arg(field@),
{
    let ghost pv = toks_view(path@);
    let mut out = path;
    push_tok(&mut out, punct_token(':', span));
    push_tok(&mut out, punct_token(':', span));
    push_tok(&mut out, id_token(method, span));
    extend_tokens(&mut out, self_field_arg_tokens(field, span));
    proof {
        assert(toks_view(out@) =~= pv + seq![Tok::Pu(':'), Tok::Pu(':'), Tok::Id(method@)]
            + spec_self_field_arg(field@));
    }
    out
}

/// The `::std::option::Option` path as tokens.
fn option_path_tokens(span: Span) -> (r: Vec<Token>)
    ensures
        toks_view(r@) == seq![
            Tok::Pu(':'),
            Tok::Pu(':'),
            Tok::Id("std"@),
            Tok::Pu(':'),
            Tok::Pu(':'),
            Tok::Id("option"@),
            Tok::Pu(':'),
            Tok::Pu(':'),
            Tok::Id("Option"@),
        ],
{
    let mut out: Vec<Token> = Vec::new();
    proof {
        assert(toks_view(out@) =~= Seq::<Tok>::empty());
    }
    push_tok(&mut out, punct_token(':', span));
    push_tok(&mut out, punct_token(':', span));
    push_tok(&mut out, id_token("std", span));
    push_tok(&mut out, punct_token(':', span));
    push_tok(&mut out, punct_token(':', span));
    push_tok(&mut out, id_token("option", span));
    push_tok(&mut out, punct_token(':', span));
    push_tok(&mut out, punct_token(':', span));
    push_tok(&mut out, id_token("Option", span));
    proof {
        assert(toks_view(out@) =~= seq![
            Tok::Pu(':'),
            Tok::Pu(':'),
            Tok::Id("std"@),
            Tok::Pu(':'),
            Tok::Pu(':'),
            Tok::Id("option"@),
            Tok::Pu(':'),
            Tok::Pu(':'),
            Tok::Id("Option"@),
        ]);
    }
    out
}

/// The `::std::result::Result` path as tokens.
fn result_path_tokens(span: Span) -> (r: Vec<Token>)
    ensures
        toks_view(r@) == seq![
            Tok::Pu(':'),
            Tok::Pu(':'),
            Tok::Id("std"@),
            Tok::Pu(':'),
            Tok::Pu(':'),
            Tok::Id("result"@),
            Tok::Pu(':'),
            Tok::Pu(':'),
            Tok::Id("Result"@),
        ],
{
    let mut out: Vec<Token> = Vec::new();
    proof {
        assert(toks_view(out@) =~= Seq::<Tok>::empty());
    }
    push_tok(&mut out, punct_token(':', span));
    push_tok(&mut out, punct_token(':', span));
    push_tok(&mut out, id_token("std", span));
    push_tok(&mut out, punct_token(':', span));
    push_tok(&mut out, punct_token(':', span));
    push_tok(&mut out, id_token("result", span));
    push_tok(&mut out, punct_token(':', span));
    push_tok(&mut out, punct_token(':', span));
    push_tok(&mut out, id_token("Result", span));
    proof {
        assert(toks_view(out@) =~= seq![
            Tok::Pu(':'),
            Tok::Pu(':'),
            Tok::Id("std"@),
            Tok::Pu(':'),
            Tok::Pu(':'),
            Tok::Id("result"@),
            Tok::Pu(':'),
            Tok::Pu(':'),
            Tok::Id("Result"@),
        ]);
    }
    out
}

/// The accessor's declared return type as tokens.
pub(crate) fn accessor_ret_tokens_pub(args: &ChildArgs, mode: SyncMode, span: Span) -> (r: Vec<Token>)
    ensures
        toks_view(r@) == spec_accessor_ret(args@, mode),
{
    let owner = type_repr_tokens(&args.inner.parent_type, span);
    let strong = wrap_tokens(strong_ref_tokens(mode, span), owner, span);
    let strong_set = match &args.inner.rc_strong {
        Option::Some(rc) => rc.on,
        Option::None => false,
    };
    if strong_set {
        return strong;
    }
    match &args.inner.unwrap_parent {
        Option::None => {
            let r = wrap_tokens(option_path_tokens(span), strong, span);
            r
        },
        Option::Some(u) => match &u.policy {
            UnwrapPolicy::Panic => strong,
            UnwrapPolicy::Expect { message, span: _ } => strong,
            UnwrapPolicy::MapOrError { error_type, expr, span: pspan } => {
                let ghost strongv = toks_view(strong@);
                let mut inner = strong;
                push_tok(&mut inner, punct_token(',', span));
                extend_tokens(&mut inner, crate::typath::render_type_tokens(error_type, span));
                proof {
                    assert(toks_view(inner@) =~= strongv + seq![Tok::Pu(',')] + spec_render_ty(
                        crate::typath::ty_view(*error_type),
                    ));
                }
                wrap_tokens(result_path_tokens(span), inner, span)
            },
            UnwrapPolicy::MapOrElseError { error_type, expr, span: pspan } => {
                let ghost strongv = toks_view(strong@);
                let mut inner = strong;
                push_tok(&mut inner, punct_token(',', span));
                extend_tokens(&mut inner, crate::typath::render_type_tokens(error_type, span));
                proof {
                    assert(toks_view(inner@) =~= strongv + seq![Tok::Pu(',')] + spec_render_ty(
                        crate::typath::ty_view(*error_type),
                    ));
                }
                wrap_tokens(result_path_tokens(span), inner, span)
            },
        },
    }
}

/// The failure transform as tokens, or the rejection for a closure where a
/// plain value is required.
fn upgrade_suffix_tokens(args: &ChildArgs, span: Span) -> (r: Result<Vec<Token>, Diag>)
    ensures
        match r {
            Result::Ok(out) => spec_translate_ok(args@) && toks_view(out@) == spec_upgrade_suffix(
                args@.unwrap,
            ),
            Result::Err(d) => !spec_translate_ok(args@) && d.kind == DiagKind::ClosureNotAllowed
                && d.spans@.len() >= 1,
        },
{
    match &args.inner.unwrap_parent {
        Option::None => {
            let out: Vec<Token> = Vec::new();
            proof {
                assert(toks_view(out@) =~= Seq::<Tok>::empty());
            }
            Result::Ok(out)
        },
        Option::Some(u) => match &u.policy {
            UnwrapPolicy::Panic => {
                let mut out: Vec<Token> = Vec::new();
                proof {
                    assert(toks_view(out@) =~= Seq::<Tok>::empty());
                }
                push_tok(&mut out, punct_token('.', span));
                push_tok(&mut out, id_token("unwrap", span));
                push_tok(&mut out, group_token(Delim::Paren, Vec::new(), span));
                proof {
                    assert(toks_view(Seq::<Token>::empty()) =~= Seq::<Tok>::empty());
                    assert(toks_view(out@) =~= spec_upgrade_suffix(args@.unwrap));
                }
                Result::Ok(out)
            },
            UnwrapPolicy::Expect { message, span: espan } => {
                let mut out: Vec<Token> = Vec::new();
                proof {
                    assert(toks_view(out@) =~= Seq::<Tok>::empty());
                }
                push_tok(&mut out, punct_token('.', span));
                push_tok(&mut out, id_token("expect", span));
                let mut marg: Vec<Token> = Vec::new();
                proof {
                    assert(toks_view(marg@) =~= Seq::<Tok>::empty());
                }
                push_tok(&mut marg, str_token(message.as_str(), *espan));
                proof {
                    assert(toks_view(marg@) =~= seq![Tok::LitStr(message@)]);
                }
                push_tok(&mut out, group_token(Delim::Paren, marg, span));
                proof {
                    assert(toks_view(out@) =~= spec_upgrade_suffix(args@.unwrap));
                }
                Result::Ok(out)
            },
            UnwrapPolicy::MapOrError { error_type, expr, span: espan } => {
                let trans = translate_or_expr(expr, TranslateAs::Or, *espan);
                match trans {
                    Result::Err(d) => Result::Err(d),
                    Result::Ok(toks) => {
                        let mut out: Vec<Token> = Vec::new();
                        proof {
                            assert(toks_view(out@) =~= Seq::<Tok>::empty());
                        }
                        push_tok(&mut out, punct_token('.', span));
                        push_tok(&mut out, id_token("ok_or", span));
                        let ghost tv = toks_view(toks@);
                        push_tok(&mut out, group_token(Delim::Paren, toks, span));
                        proof {
                            assert(toks_view(out@) =~= seq![
                                Tok::Pu('.'),
                                Tok::Id("ok_or"@),
                                Tok::Grp(Delim::Paren, tv),
                            ]);
                        }
                        Result::Ok(out)
                    },
                }
            },
            UnwrapPolicy::MapOrElseError { error_type, expr, span: espan } => {
                let trans = translate_or_expr(expr, TranslateAs::OrElse, *espan);
                match trans {
                    Result::Err(d) => {
                        proof {
                            assert(false);
                        }
                        Result::Err(d)
                    },
                    Result::Ok(toks) => {
                        let mut out: Vec<Token> = Vec::new();
                        proof {
                            assert(toks_view(out@) =~= Seq::<Tok>::empty());
                        }
                        push_tok(&mut out, punct_token('.', span));
                        push_tok(&mut out, id_token("ok_or_else", span));
                        let ghost tv = toks_view(toks@);
                        push_tok(&mut out, group_token(Delim::Paren, toks, span));
                        proof {
                            assert(toks_view(out@) =~= seq![
                                Tok::Pu('.'),
                                Tok::Id("ok_or_else"@),
                                Tok::Grp(Delim::Paren, tv),
                            ]);
                        }
                        Result::Ok(out)
                    },
                }
            },
        },
    }
}

/// Synthesize the storage field, the capability-trait implementation and
/// the accessor return type for one dependent role.
#[verifier::rlimit(100)]
#[verifier::spinoff_prover]
pub fn synthesize_relationship(args: &ChildArgs, mode: SyncMode, serde_enabled: bool) -> (r: Result<
    GeneratedFragment,
    Diag,
>)
    ensures
        match r {
            Result::Ok(frag) => spec_translate_ok(args@) && spec_fragment_ok(
                frag,
                args@,
                args.role,
                mode,
                serde_enabled,
            ),
            Result::Err(d) => !spec_translate_ok(args@) && d.kind == DiagKind::ClosureNotAllowed
                && d.spans@.len() >= 1,
        },
{
    let span = args.span;
    let ghost a = args@;
    let role = args.role;
    let descr = crate::descriptor::RoleDescriptor { role };
    let base = args.parent_base_ident();
    let mut field_name = "__".to_owned();
    field_name.append(base.as_str());
    let strong_set = match &args.inner.rc_strong {
        Option::Some(rc) => rc.on,
        Option::None => false,
    };

    let suffix = match upgrade_suffix_tokens(args, span) {
        Result::Err(d) => {
            return Result::Err(d);
        },
        Result::Ok(toks) => toks,
    };

    // the storage field
    let owner = type_repr_tokens(&args.inner.parent_type, span);
    let ghost ownerv = toks_view(owner@);
    let field_ty = if strong_set {
        wrap_tokens(strong_ref_tokens(mode, span), owner, span)
    } else {
        wrap_tokens(weak_ref_tokens(mode, span), owner, span)
    };
    let field = FieldDecl {
        name: field_name.clone(),
        ty: field_ty,
        attrs: field_attr_tokens_pub(&base, serde_enabled, span),
        span,
    };

    // the associated types
    let ret = accessor_ret_tokens_pub(args, mode, span);
    let owner2 = type_repr_tokens(&args.inner.parent_type, span);
    let weak_ty = wrap_tokens(weak_ref_tokens(mode, span), owner2, span);
    let owner3 = type_repr_tokens(&args.inner.parent_type, span);
    let fxp_ty = if strong_set {
        wrap_tokens(strong_ref_tokens(mode, span), owner3, span)
    } else {
        wrap_tokens(weak_ref_tokens(mode, span), owner3, span)
    };
    let rc_assoc = AssocType { name: descr.rc_assoc_type(), ty: duplicate_ret(&ret), span };
    let weak_assoc = AssocType { name: descr.weak_assoc_type(), ty: weak_ty, span };
    let fxp_assoc = AssocType { name: descr.fxp_assoc_type(), ty: fxp_ty, span };

    // the strong accessor
    let body = if strong_set {
        ref_call_tokens_pub(strong_ref_tokens(mode, span), "clone", &field_name, span)
    } else {
        let mut b = ref_call_tokens_pub(weak_ref_tokens(mode, span), "upgrade", &field_name, span);
        let ghost bv = toks_view(b@);
        extend_tokens(&mut b, suffix);
        proof {
            assert(toks_view(b@) =~= spec_accessor_body(a, mode, field_name@));
        }
        b
    };
    let accessor = FnDecl {
        name: base.clone(),
        self_borrow: true,
        params: Vec::new(),
        ret: self_assoc_tokens(&rc_assoc.name, span),
        body,
        span,
    };

    // the downgrade accessor
    let down_body = if strong_set {
        ref_call_tokens_pub(strong_ref_tokens(mode, span), "downgrade", &field_name, span)
    } else {
        ref_call_tokens_pub(weak_ref_tokens(mode, span), "clone", &field_name, span)
    };
    let mut down_name = base.clone();
    down_name.append("_downgrade");
    let downgrade = FnDecl {
        name: down_name,
        self_borrow: true,
        params: Vec::new(),
        ret: self_assoc_tokens(&weak_assoc.name, span),
        body: down_body,
        span,
    };

    // the builder-shortcut method
    let mut fxp_name = "__fxplus_".to_owned();
    let role_base = descr.base_name();
    fxp_name.append(role_base.as_str());
    let mut fxp_params: Vec<Token> = Vec::new();
    proof {
        assert(toks_view(fxp_params@) =~= Seq::<Tok>::empty());
    }
    push_tok(&mut fxp_params, id_token(base.as_str(), span));
    push_tok(&mut fxp_params, punct_token(':', span));
    extend_tokens(&mut fxp_params, self_assoc_tokens(&weak_assoc.name, span));
    proof {
        assert(toks_view(fxp_params@) =~= seq![Tok::Id(base@), Tok::Pu(':')] + spec_self_assoc(
            crate::descriptor::spec_weak_assoc_type(role),
        ));
    }
    let fxp_body = if strong_set {
        let mut b = weak_ref_tokens(mode, span);
        let ghost bv0 = toks_view(b@);
        push_tok(&mut b, punct_token(':', span));
        push_tok(&mut b, punct_token(':', span));
        push_tok(&mut b, id_token("upgrade", span));
        let mut barg: Vec<Token> = Vec::new();
        proof {
            assert(toks_view(barg@) =~= Seq::<Tok>::empty());
        }
        push_tok(&mut barg, punct_token('&', span));
        push_tok(&mut barg, id_token(base.as_str(), span));
        proof {
            assert(toks_view(barg@) =~= seq![Tok::Pu('&'), Tok::Id(base@)]);
        }
        push_tok(&mut b, group_token(Delim::Paren, barg, span));
        push_tok(&mut b, punct_token('.', span));
        push_tok(&mut b, id_token("unwrap", span));
        push_tok(&mut b, group_token(Delim::Paren, Vec::new(), span));
        proof {
            assert(toks_view(Seq::<Token>::empty()) =~= Seq::<Tok>::empty());
            assert(toks_view(b@) =~= spec_fxp_body(a, mode, base@));
        }
        b
    } else {
        let mut b: Vec<Token> = Vec::new();
        proof {
            assert(toks_view(b@) =~= Seq::<Tok>::empty());
        }
        push_tok(&mut b, id_token(base.as_str(), span));
        proof {
            assert(toks_view(b@) =~= spec_fxp_body(a, mode, base@));
        }
        b
    };
    let fxp_method = FnDecl {
        name: fxp_name,
        self_borrow: false,
        params: fxp_params,
        ret: self_assoc_tokens(&fxp_assoc.name, span),
        body: fxp_body,
        span,
    };

    let trait_impl = ChildTraitImpl {
        trait_name: descr.child_trait_name(),
        rc_assoc,
        weak_assoc,
        fxp_assoc,
        accessor,
        downgrade,
        fxp_method,
        span,
    };
    proof {
        assert(toks_view(Seq::<Token>::empty()) =~= Seq::<Tok>::empty());
    }
    Result::Ok(GeneratedFragment { field, trait_impl, accessor_ret: ret })
}

/// Copy a token vector (the declared return type is used twice: as the
/// associated type and as the fragment's record of it).
fn duplicate_ret(ts: &Vec<Token>) -> (r: Vec<Token>)
    ensures
        toks_view(r@) == toks_view(ts@),
{
    crate::tokens::duplicate_tokens(ts)
}

/// For every valid configuration exactly one policy state governs the
/// accessor's declared return type — strong storage or `Panic`/`Expect`
/// give the bare strong-reference type, the error-mapping policies give a
/// `Result`, and no policy at all gives an `Option` — and the capability
/// trait's strong associated type matches that return type exactly.
pub proof fn lemma_policy_governs_return(
    frag: GeneratedFragment,
    a: SChildArgs,
    role: Role,
    m: SyncMode,
    serde: bool,
)
    requires
        spec_fragment_ok(frag, a, role, m, serde),
    ensures
        toks_view(frag.trait_impl.rc_assoc.ty@) == toks_view(frag.accessor_ret@),
        spec_storage_strong(a) ==> toks_view(frag.accessor_ret@) == spec_wrap(
            spec_strong_ref(m),
            spec_owner_tokens(a),
        ),
        !spec_storage_strong(a) && a.unwrap is None ==> toks_view(frag.accessor_ret@) == spec_wrap(
            seq![
                Tok::Pu(':'),
                Tok::Pu(':'),
                Tok::Id("std"@),
                Tok::Pu(':'),
                Tok::Pu(':'),
                Tok::Id("option"@),
                Tok::Pu(':'),
                Tok::Pu(':'),
                Tok::Id("Option"@),
            ],
            spec_wrap(spec_strong_ref(m), spec_owner_tokens(a)),
        ),
        !spec_storage_strong(a) && a.unwrap is Some && ((a.unwrap->Some_0).policy is SPanic || (
        a.unwrap->Some_0).policy is SExpect) ==> toks_view(frag.accessor_ret@) == spec_wrap(
            spec_strong_ref(m),
            spec_owner_tokens(a),
        ),
        !spec_storage_strong(a) && a.unwrap is Some && (a.unwrap->Some_0).policy is SMapOr
            ==> toks_view(frag.accessor_ret@) == spec_wrap(
            seq![
                Tok::Pu(':'),
                Tok::Pu(':'),
                Tok::Id("std"@),
                Tok::Pu(':'),
                Tok::Pu(':'),
                Tok::Id("result"@),
                Tok::Pu(':'),
                Tok::Pu(':'),
                Tok::Id("Result"@),
            ],
            spec_wrap(spec_strong_ref(m), spec_owner_tokens(a)) + seq![Tok::Pu(',')]
                + spec_render_ty((a.unwrap->Some_0).policy->SMapOr_0),
        ),
        !spec_storage_strong(a) && a.unwrap is Some && (a.unwrap->Some_0).policy is SMapOrElse
            ==> toks_view(frag.accessor_ret@) == spec_wrap(
            seq![
                Tok::Pu(':'),
                Tok::Pu(':'),
                Tok::Id("std"@),
                Tok::Pu(':'),
                Tok::Pu(':'),
                Tok::Id("result"@),
                Tok::Pu(':'),
                Tok::Pu(':'),
                Tok::Id("Result"@),
            ],
            spec_wrap(spec_strong_ref(m), spec_owner_tokens(a)) + seq![Tok::Pu(',')]
                + spec_render_ty((a.unwrap->Some_0).policy->SMapOrElse_0),
        ),
{
}

/// For strong storage, the strong accessor is a plain clone of the held
/// strong reference: its return type is the bare strong-reference type (no
/// `Option` or `Result` wrapper), and its body contains no
/// failure-handling call at all.
pub proof fn lemma_strong_accessor_no_failure(
    frag: GeneratedFragment,
    a: SChildArgs,
    role: Role,
    m: SyncMode,
    serde: bool,
)
    requires
        spec_fragment_ok(frag, a, role, m, serde),
        spec_storage_strong(a),
    ensures
        toks_view(frag.accessor_ret@) == spec_wrap(spec_strong_ref(m), spec_owner_tokens(a)),
        toks_view(frag.trait_impl.accessor.body@) == spec_strong_ref(m) + seq![
            Tok::Pu(':'),
            Tok::Pu(':'),
            Tok::Id("clone"@),
        ] + spec_self_field_arg(spec_field_name(a, role)),
        forall|i: int|
            0 <= i < toks_view(frag.trait_impl.accessor.body@).len() ==> (#[trigger] toks_view(
                frag.trait_impl.accessor.body@,
            )[i]) != Tok::Id("unwrap"@) && toks_view(frag.trait_impl.accessor.body@)[i]
                != Tok::Id("expect"@) && toks_view(frag.trait_impl.accessor.body@)[i] != Tok::Id(
                "ok_or"@,
            ) && toks_view(frag.trait_impl.accessor.body@)[i] != Tok::Id("ok_or_else"@),
{
    reveal_strlit("clone");
    reveal_strlit("unwrap");
    reveal_strlit("expect");
    reveal_strlit("ok_or");
    reveal_strlit("ok_or_else");
    reveal_strlit("std");
    reveal_strlit("sync");
    reveal_strlit("rc");
    reveal_strlit("Arc");
    reveal_strlit("Rc");
    assert("clone"@.len() == 5);
    assert("unwrap"@.len() == 6);
    assert("expect"@.len() == 6);
    assert("ok_or"@.len() == 5);
    assert("ok_or_else"@.len() == 10);
    assert("std"@.len() == 3);
    assert("sync"@.len() == 4);
    assert("rc"@.len() == 2);
    assert("Arc"@.len() == 3);
    assert("Rc"@.len() == 2);
    assert("clone"@[0] == 'c');
    assert("ok_or"@[0] == 'o');
    let body = toks_view(frag.trait_impl.accessor.body@);
    assert(body == spec_strong_ref(m) + seq![Tok::Pu(':'), Tok::Pu(':'), Tok::Id("clone"@)]
        + spec_self_field_arg(spec_field_name(a, role)));
    assert forall|i: int| 0 <= i < body.len() implies (#[trigger] body[i]) != Tok::Id("unwrap"@)
        && body[i] != Tok::Id("expect"@) && body[i] != Tok::Id("ok_or"@) && body[i] != Tok::Id(
        "ok_or_else"@,
    ) by {
        assert(body.len() == 13);
        let t = body[i];
        if i < 9 {
            assert(t == spec_strong_ref(m)[i]);
        } else if i == 9 || i == 10 {
            assert(t == Tok::Pu(':'));
        } else if i == 11 {
            assert(t == Tok::Id("clone"@));
        } else {
            assert(t == spec_self_field_arg(spec_field_name(a, role))[0]);
        }
    }
}

/// Synthesis is a function of the storage choice, the owner type and the
/// policy alone: two configurations that agree on those (as the two legacy
/// spellings always do) yield the identical accessor body and return type.
pub proof fn lemma_same_policy_same_code(a1: SChildArgs, a2: SChildArgs, m: SyncMode, field: Seq<
    char,
>)
    requires
        a1.unwrap == a2.unwrap,
        a1.rc_strong == a2.rc_strong,
        a1.parent == a2.parent,
    ensures
        spec_accessor_body(a1, m, field) == spec_accessor_body(a2, m, field),
        spec_accessor_ret(a1, m) == spec_accessor_ret(a2, m),
        spec_field_type(a1, m) == spec_field_type(a2, m),
{
}

/// The type the synthesized return-type tokens denote, for a structural
/// owner (and, for the error-mapping policies, a structural error type):
/// the owner wrapped per the active policy.
pub open spec fn spec_ret_sty(a: SChildArgs, m: SyncMode) -> crate::typath::STy {
    let owner = a.parent->RPath_0;
    let strong = match m {
        SyncMode::Sync => crate::typath::wrapped_sty("std"@, "sync"@, "Arc"@, seq![owner]),
        SyncMode::Nonsync => crate::typath::wrapped_sty("std"@, "rc"@, "Rc"@, seq![owner]),
    };
    if spec_storage_strong(a) {
        strong
    } else {
        match a.unwrap {
            Option::None => crate::typath::wrapped_sty(
                "std"@,
                "option"@,
                "Option"@,
                seq![strong],
            ),
            Option::Some(u) => match u.policy {
                SPolicy::SPanic => strong,
                SPolicy::SExpect(msg) => strong,
                SPolicy::SMapOr(e, x) => crate::typath::wrapped_sty(
                    "std"@,
                    "result"@,
                    "Result"@,
                    seq![strong, e],
                ),
                SPolicy::SMapOrElse(e, x) => crate::typath::wrapped_sty(
                    "std"@,
                    "result"@,
                    "Result"@,
                    seq![strong, e],
                ),
            },
        }
    }
}

/// A wrapper over well-formed arguments is well formed and renders to the
/// wrapped form.
#[verifier::rlimit(100)]
#[verifier::spinoff_prover]
proof fn lemma_wrapped_render(p1: Seq<char>, p2: Seq<char>, p3: Seq<char>, args: Seq<
    crate::typath::STy,
>)
    requires
        args.len() > 0,
        forall|i: int| 0 <= i < args.len() ==> crate::typath::wf_sty(#[trigger] args[i]),
    ensures
        crate::typath::wf_sty(crate::typath::wrapped_sty(p1, p2, p3, args)),
        crate::typath::spec_render_ty(crate::typath::wrapped_sty(p1, p2, p3, args)) =~= seq![
            Tok::Pu(':'),
            Tok::Pu(':'),
            Tok::Id(p1),
            Tok::Pu(':'),
            Tok::Pu(':'),
            Tok::Id(p2),
            Tok::Pu(':'),
            Tok::Pu(':'),
            Tok::Id(p3),
            Tok::Pu('<'),
        ] + crate::typath::spec_render_args(args) + seq![Tok::Pu('>')],
{
    let t = crate::typath::wrapped_sty(p1, p2, p3, args);
    let seg1 = crate::typath::SSeg { name: p1, args: Seq::empty() };
    let seg2 = crate::typath::SSeg { name: p2, args: Seq::empty() };
    let seg3 = crate::typath::SSeg { name: p3, args };
    let tail2 = t.segs.drop_first();
    assert(tail2 =~= seq![seg2, seg3]);
    let tail1 = tail2.drop_first();
    assert(tail1 =~= seq![seg3]);
    assert(crate::typath::spec_render_segs(seq![seg3]) =~= crate::typath::spec_render_seg(seg3));
    assert(crate::typath::spec_render_segs(seq![seg2, seg3])
        =~= crate::typath::spec_render_seg(seg2) + seq![Tok::Pu(':'), Tok::Pu(':')]
        + crate::typath::spec_render_segs(seq![seg3]));
    assert(crate::typath::spec_render_segs(t.segs) =~= crate::typath::spec_render_seg(seg1)
        + seq![Tok::Pu(':'), Tok::Pu(':')] + crate::typath::spec_render_segs(tail2));
    assert(crate::typath::spec_render_seg(seg1) =~= seq![Tok::Id(p1)]);
    assert(crate::typath::spec_render_seg(seg2) =~= seq![Tok::Id(p2)]);
    assert(crate::typath::spec_render_seg(seg3) =~= seq![Tok::Id(p3), Tok::Pu('<')]
        + crate::typath::spec_render_args(args) + seq![Tok::Pu('>')]);
    assert forall|i: int| 0 <= i < t.segs.len() implies crate::typath::wf_sseg(
        #[trigger] t.segs[i],
    ) by {
        if i == 0 || i == 1 {
            assert(t.segs[i].args.len() == 0);
        }
    }
    assert(crate::typath::spec_render_ty(t) =~= seq![
        Tok::Pu(':'),
        Tok::Pu(':'),
        Tok::Id(p1),
        Tok::Pu(':'),
        Tok::Pu(':'),
        Tok::Id(p2),
        Tok::Pu(':'),
        Tok::Pu(':'),
        Tok::Id(p3),
        Tok::Pu('<'),
    ] + crate::typath::spec_render_args(args) + seq![Tok::Pu('>')]);
}

/// The synthesized return-type tokens are the rendering of the owner type
/// wrapped per the active policy.
#[verifier::rlimit(100)]
#[verifier::spinoff_prover]
pub proof fn lemma_ret_sty_render(a: SChildArgs, m: SyncMode)
    requires
        a.parent is RPath,
        crate::typath::wf_sty(a.parent->RPath_0),
        a.unwrap is Some && (a.unwrap->Some_0).policy is SMapOr ==> crate::typath::wf_sty(
            (a.unwrap->Some_0).policy->SMapOr_0,
        ),
        a.unwrap is Some && (a.unwrap->Some_0).policy is SMapOrElse ==> crate::typath::wf_sty(
            (a.unwrap->Some_0).policy->SMapOrElse_0,
        ),
    ensures
        crate::typath::wf_sty(spec_ret_sty(a, m)),
        crate::typath::spec_render_ty(spec_ret_sty(a, m)) == spec_accessor_ret(a, m),
{
    let owner = a.parent->RPath_0;
    let (p2, p3): (Seq<char>, Seq<char>) = match m {
        SyncMode::Sync => ("sync"@, "Arc"@),
        SyncMode::Nonsync => ("rc"@, "Rc"@),
    };
    let strong = crate::typath::wrapped_sty("std"@, p2, p3, seq![owner]);
    lemma_wrapped_render("std"@, p2, p3, seq![owner]);
    assert(crate::typath::spec_render_args(seq![owner]) =~= crate::typath::spec_render_ty(owner));
    assert(crate::typath::spec_render_ty(strong) =~= spec_wrap(
        spec_strong_ref(m),
        spec_owner_tokens(a),
    ));
    let rt = spec_ret_sty(a, m);
    let ts = spec_accessor_ret(a, m);
    if spec_storage_strong(a) {
        assert(rt == strong);
    } else {
        match a.unwrap {
            Option::None => {
                lemma_wrapped_render("std"@, "option"@, "Option"@, seq![strong]);
                assert(crate::typath::spec_render_args(seq![strong])
                    =~= crate::typath::spec_render_ty(strong));
                assert(crate::typath::spec_render_ty(rt) =~= ts);
            },
            Option::Some(u) => match u.policy {
                SPolicy::SPanic => {
                    assert(rt == strong);
                },
                SPolicy::SExpect(msg) => {
                    assert(rt == strong);
                },
                SPolicy::SMapOr(e, x) => {
                    lemma_result_wrap_render(strong, e);
                    assert(crate::typath::spec_render_ty(rt) =~= ts);
                },
                SPolicy::SMapOrElse(e, x) => {
                    lemma_result_wrap_render(strong, e);
                    assert(crate::typath::spec_render_ty(rt) =~= ts);
                },
            },
        }
    }
}

/// Round trip for the synthesized return type: re-parsing its rendering
/// yields exactly the owner type wrapped per the active policy, consuming
/// the whole rendering. The owner (and, for the error-mapping policies,
/// the error type) must be structural path types.
pub proof fn lemma_return_type_round_trip(a: SChildArgs, m: SyncMode)
    requires
        a.parent is RPath,
        crate::typath::wf_sty(a.parent->RPath_0),
        a.unwrap is Some && (a.unwrap->Some_0).policy is SMapOr ==> crate::typath::wf_sty(
            (a.unwrap->Some_0).policy->SMapOr_0,
        ),
        a.unwrap is Some && (a.unwrap->Some_0).policy is SMapOrElse ==> crate::typath::wf_sty(
            (a.unwrap->Some_0).policy->SMapOrElse_0,
        ),
    ensures
        ({
            let rt = spec_ret_sty(a, m);
            let ts = spec_accessor_ret(a, m);
            crate::typath::wf_sty(rt) && crate::typath::spec_render_ty(rt) == ts
                && crate::typath::spec_parse_ty(ts, crate::typath::type_parse_fuel(ts.len()))
                == Option::<(crate::typath::STy, nat)>::Some((rt, ts.len()))
        }),
{
    lemma_ret_sty_render(a, m);
    crate::typath::lemma_type_round_trip(spec_ret_sty(a, m));
}

/// The `Result` wrapper over well-formed strong and error types renders to
/// the wrapped form.
#[verifier::rlimit(100)]
#[verifier::spinoff_prover]
proof fn lemma_result_wrap_render(strong: crate::typath::STy, e: crate::typath::STy)
    requires
        crate::typath::wf_sty(strong),
        crate::typath::wf_sty(e),
    ensures
        crate::typath::wf_sty(
            crate::typath::wrapped_sty("std"@, "result"@, "Result"@, seq![strong, e]),
        ),
        crate::typath::spec_render_ty(
            crate::typath::wrapped_sty("std"@, "result"@, "Result"@, seq![strong, e]),
        ) =~= seq![
            Tok::Pu(':'),
            Tok::Pu(':'),
            Tok::Id("std"@),
            Tok::Pu(':'),
            Tok::Pu(':'),
            Tok::Id("result"@),
            Tok::Pu(':'),
            Tok::Pu(':'),
            Tok::Id("Result"@),
            Tok::Pu('<'),
        ] + crate::typath::spec_render_ty(strong) + seq![Tok::Pu(',')]
            + crate::typath::spec_render_ty(e) + seq![Tok::Pu('>')],
{
    lemma_wrapped_render("std"@, "result"@, "Result"@, seq![strong, e]);
    assert(seq![strong, e].drop_first() =~= seq![e]);
    assert(crate::typath::spec_render_args(seq![e]) =~= crate::typath::spec_render_ty(e));
    assert(crate::typath::spec_render_args(seq![strong, e]) =~= crate::typath::spec_render_ty(
        strong,
    ) + seq![Tok::Pu(',')] + crate::typath::spec_render_ty(e));
}

} // verus!
