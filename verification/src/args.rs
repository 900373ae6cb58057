//! The relationship argument parser: one dependent role's configuration —
//! owner type, optional `as` alias, strong-vs-weak storage choice and
//! upgrade policy — parsed from the annotation's token sequence into a
//! validated descriptor, rejecting mutually exclusive or ill-formed
//! combinations with a structured diagnostic.

use vstd::prelude::*;
use crate::descriptor::Role;
use crate::descriptor::RoleDescriptor;
use crate::descriptor::spec_base_name;
use crate::diag::Diag;
use crate::diag::DiagKind;
use crate::expr::OrExpr;
use crate::expr::SOrExpr;
use crate::expr::classify_expr;
use crate::expr::spec_classify;
use crate::extern_syn::syn_expr_ok;
use crate::extern_syn::syn_parses_expr;
use crate::extern_syn::syn_parses_type;
use crate::extern_syn::syn_type_ok;
use crate::render::render_tokens;
use crate::render::spec_render_text;
use crate::tokens::Delim;
use crate::tokens::Span;
use crate::tokens::Tok;
use crate::tokens::Token;
use crate::tokens::TokenKind;
use crate::tokens::duplicate_token;
use crate::tokens::duplicate_tokens;
use crate::tokens::is_ident;
use crate::tokens::is_punct;
use crate::tokens::lemma_toks_view_index;
use crate::tokens::lemma_toks_view_len;
use crate::tokens::lemma_toks_view_push;
use crate::tokens::lemma_tok_size_pos;
use crate::tokens::lemma_toks_size_elem;
use crate::tokens::lemma_toks_size_len;
use crate::tokens::lemma_toks_size_snoc;
use crate::tokens::tok_size;
use crate::tokens::toks_size;
use crate::tokens::tok_view;
use crate::tokens::toks_view;
use crate::typath::STy;
use crate::typath::STyRepr;
use crate::typath::TypePath;
use crate::typath::TypeRepr;
use crate::typath::parse_type_at;
use crate::typath::spec_parse_ty;
use crate::typath::ty_view;
use crate::typath::type_parse_fuel;

verus! {

/// Split a token sequence at every top-level comma. The result always has
/// at least one (possibly empty) chunk; a trailing comma leaves a trailing
/// empty chunk.
pub open spec fn spec_split(ts: Seq<Tok>) -> Seq<Seq<Tok>>
    decreases ts.len(),
{
    if ts.len() == 0 {
        seq![Seq::<Tok>::empty()]
    } else {
        let prev = spec_split(ts.drop_last());
        if ts.last() == Tok::Pu(',') {
            prev.push(Seq::empty())
        } else {
            prev.update(prev.len() - 1, prev.last().push(ts.last()))
        }
    }
}

pub proof fn lemma_split_nonempty(ts: Seq<Tok>)
    ensures
        spec_split(ts).len() >= 1,
    decreases ts.len(),
{
    if ts.len() > 0 {
        lemma_split_nonempty(ts.drop_last());
    }
}

/// Every chunk is at most as long as the input.
pub proof fn lemma_split_chunk_len(ts: Seq<Tok>)
    ensures
        forall|i: int|
            0 <= i < spec_split(ts).len() ==> (#[trigger] spec_split(ts)[i]).len() <= ts.len(),
    decreases ts.len(),
{
    lemma_split_nonempty(ts);
    if ts.len() > 0 {
        lemma_split_chunk_len(ts.drop_last());
        lemma_split_nonempty(ts.drop_last());
    }
}

/// Every chunk's total size is bounded by the input's total size.
pub proof fn lemma_split_chunk_size(ts: Seq<Tok>)
    ensures
        forall|i: int|
            0 <= i < spec_split(ts).len() ==> toks_size(#[trigger] spec_split(ts)[i]) <= toks_size(
                ts,
            ),
    decreases ts.len(),
{
    lemma_split_nonempty(ts);
    if ts.len() > 0 {
        lemma_split_chunk_size(ts.drop_last());
        lemma_split_nonempty(ts.drop_last());
        assert(ts.drop_last().push(ts.last()) =~= ts);
        lemma_toks_size_snoc(ts.drop_last(), ts.last());
        lemma_tok_size_pos(ts.last());
        let prev = spec_split(ts.drop_last());
        if ts.last() == Tok::Pu(',') {
            assert(toks_size(Seq::<Tok>::empty()) == 0);
        } else {
            lemma_toks_size_snoc(prev.last(), ts.last());
        }
    }
}

/// The comma-split chunks with a trailing empty chunk (from a trailing
/// comma, or an empty input) dropped.
pub open spec fn spec_meta_chunks(ts: Seq<Tok>) -> Seq<Seq<Tok>> {
    let cs = spec_split(ts);
    if cs.len() > 0 && cs.last().len() == 0 {
        cs.drop_last()
    } else {
        cs
    }
}

/// The view of a chunk list.
pub open spec fn chunks_view(cs: Seq<Vec<Token>>) -> Seq<Seq<Tok>>
    decreases cs,
{
    if cs.len() == 0 {
        Seq::empty()
    } else {
        seq![toks_view(cs[0]@)] + chunks_view(cs.drop_first())
    }
}

pub proof fn lemma_chunks_view_len(cs: Seq<Vec<Token>>)
    ensures
        chunks_view(cs).len() == cs.len(),
    decreases cs,
{
    if cs.len() > 0 {
        lemma_chunks_view_len(cs.drop_first());
    }
}

pub proof fn lemma_chunks_view_index(cs: Seq<Vec<Token>>, i: int)
    requires
        0 <= i < cs.len(),
    ensures
        chunks_view(cs)[i] == toks_view(cs[i]@),
    decreases cs,
{
    lemma_chunks_view_len(cs);
    if i > 0 {
        lemma_chunks_view_index(cs.drop_first(), i - 1);
    }
}

pub proof fn lemma_chunks_view_push(cs: Seq<Vec<Token>>, c: Vec<Token>)
    ensures
        chunks_view(cs.push(c)) =~= chunks_view(cs).push(toks_view(c@)),
    decreases cs,
{
    if cs.len() == 0 {
        assert(cs.push(c)[0] == c);
        assert(cs.push(c).drop_first() =~= Seq::<Vec<Token>>::empty());
        assert(chunks_view(Seq::<Vec<Token>>::empty()) =~= Seq::<Seq<Tok>>::empty());
        assert(chunks_view(cs.push(c).drop_first()) =~= Seq::<Seq<Tok>>::empty());
    } else {
        assert(cs.push(c)[0] == cs[0]);
        assert(cs.push(c).drop_first() =~= cs.drop_first().push(c));
        lemma_chunks_view_push(cs.drop_first(), c);
        assert(chunks_view(cs.push(c)) =~= seq![toks_view(cs[0]@)] + chunks_view(
            cs.drop_first(),
        ).push(toks_view(c@)));
        assert(chunks_view(cs).push(toks_view(c@)) =~= seq![toks_view(cs[0]@)] + chunks_view(
            cs.drop_first(),
        ).push(toks_view(c@)));
    }
}

/// Split tokens at top-level commas.
pub fn split_commas(toks: &Vec<Token>) -> (r: Vec<Vec<Token>>)
    ensures
        chunks_view(r@) == spec_split(toks_view(toks@)),
        r@.len() >= 1,
{
    proof {
        lemma_toks_view_len(toks@);
    }
    let mut done: Vec<Vec<Token>> = Vec::new();
    let mut current: Vec<Token> = Vec::new();
    let mut i: usize = 0;
    while i < toks.len()
        invariant
            i <= toks@.len(),
            toks_view(toks@).len() == toks@.len(),
            spec_split(toks_view(toks@).take(i as int)) =~= chunks_view(done@).push(
                toks_view(current@),
            ),
        decreases toks@.len() - i,
    {
        let ghost prefix = toks_view(toks@).take(i as int);
        proof {
            lemma_toks_view_index(toks@, i as int);
            assert(toks_view(toks@).take(i + 1).drop_last() =~= prefix);
            assert(toks_view(toks@).take(i + 1).last() == toks_view(toks@)[i as int]);
            lemma_chunks_view_len(done@);
        }
        if is_punct(&toks[i], ',') {
            proof {
                lemma_chunks_view_push(done@, current);
            }
            done.push(current);
            current = Vec::new();
            proof {
                assert(toks_view(current@) =~= Seq::<Tok>::empty());
                assert(spec_split(toks_view(toks@).take(i + 1)) =~= chunks_view(done@).push(
                    toks_view(current@),
                ));
            }
        } else {
            let t = duplicate_token(&toks[i]);
            proof {
                lemma_toks_view_push(current@, t);
                let prev = spec_split(prefix);
                assert(prev.last() == toks_view(current@));
                assert(prev.update(prev.len() - 1, prev.last().push(t@)) =~= chunks_view(
                    done@,
                ).push(toks_view(current@).push(t@)));
            }
            current.push(t);
        }
        i = i + 1;
    }
    proof {
        assert(toks_view(toks@).take(toks@.len() as int) =~= toks_view(toks@));
        lemma_chunks_view_push(done@, current);
        lemma_chunks_view_len(done@);
    }
    done.push(current);
    proof {
        lemma_chunks_view_len(done@);
    }
    done
}

/// Split tokens at top-level commas and drop a trailing empty chunk.
pub fn meta_chunks(toks: &Vec<Token>) -> (r: Vec<Vec<Token>>)
    ensures
        chunks_view(r@) == spec_meta_chunks(toks_view(toks@)),
        forall|i: int|
            0 <= i < chunks_view(r@).len() ==> toks_size(#[trigger] chunks_view(r@)[i])
                <= toks_size(toks_view(toks@)),
{
    let mut cs = split_commas(toks);
    proof {
        lemma_chunks_view_len(cs@);
        lemma_chunks_view_index(cs@, cs@.len() - 1);
        lemma_toks_view_len(cs@[cs@.len() - 1]@);
        lemma_split_chunk_size(toks_view(toks@));
    }
    let lastlen = cs[cs.len() - 1].len();
    if lastlen == 0 {
        proof {
            assert(cs@.drop_last() =~= cs@.take(cs@.len() - 1));
            lemma_chunks_view_drop_last(cs@);
        }
        let _ = cs.pop();
        proof {
            lemma_chunks_view_len(cs@);
            assert forall|i: int| 0 <= i < chunks_view(cs@).len() implies toks_size(
                #[trigger] chunks_view(cs@)[i],
            ) <= toks_size(toks_view(toks@)) by {
                assert(chunks_view(cs@)[i] == spec_meta_chunks(toks_view(toks@))[i]);
                assert(spec_split(toks_view(toks@))[i] == spec_meta_chunks(toks_view(toks@))[i]);
            }
        }
        cs
    } else {
        proof {
            lemma_chunks_view_len(cs@);
            assert forall|i: int| 0 <= i < chunks_view(cs@).len() implies toks_size(
                #[trigger] chunks_view(cs@)[i],
            ) <= toks_size(toks_view(toks@)) by {
                assert(chunks_view(cs@)[i] == spec_meta_chunks(toks_view(toks@))[i]);
                assert(spec_split(toks_view(toks@))[i] == spec_meta_chunks(toks_view(toks@))[i]);
            }
        }
        cs
    }
}

pub proof fn lemma_chunks_view_drop_last(cs: Seq<Vec<Token>>)
    requires
        cs.len() > 0,
    ensures
        chunks_view(cs.drop_last()) =~= chunks_view(cs).drop_last(),
    decreases cs,
{
    lemma_chunks_view_len(cs);
    if cs.len() == 1 {
        assert(cs.drop_last() =~= Seq::<Vec<Token>>::empty());
        assert(chunks_view(cs.drop_last()) =~= Seq::<Seq<Tok>>::empty());
    } else {
        assert(cs.drop_last()[0] == cs[0]);
        assert(cs.drop_last().drop_first() =~= cs.drop_first().drop_last());
        lemma_chunks_view_drop_last(cs.drop_first());
        lemma_chunks_view_len(cs.drop_first());
    }
}

/// The mathematical view of an upgrade policy.
pub ghost enum SPolicy {
    SPanic,
    SExpect(Seq<char>),
    SMapOr(STy, SOrExpr),
    SMapOrElse(STy, SOrExpr),
}

/// The mathematical view of an `unwrap(...)` argument.
pub ghost struct SUnwrap {
    pub off: bool,
    pub policy: SPolicy,
}

/// How a failed weak-to-strong upgrade is turned into a caller-visible
/// outcome. Exactly one variant is active per dependent role; absence of
/// any `unwrap` configuration means the accessor returns an `Option`
/// instead.
pub enum UnwrapPolicy {
    /// Unconditional unwrap: the owner is assumed always alive.
    Panic,
    /// Panic with a custom message.
    Expect { message: String, span: Span },
    /// Turn failure into `Result<_, error_type>` from a value expression.
    MapOrError { error_type: TypePath, expr: OrExpr, span: Span },
    /// Turn failure into `Result<_, error_type>` by invoking a closure or a
    /// same-type method.
    MapOrElseError { error_type: TypePath, expr: OrExpr, span: Span },
}

pub open spec fn policy_view(p: UnwrapPolicy) -> SPolicy {
    match p {
        UnwrapPolicy::Panic => SPolicy::SPanic,
        UnwrapPolicy::Expect { message, span } => SPolicy::SExpect(message@),
        UnwrapPolicy::MapOrError { error_type, expr, span } => SPolicy::SMapOr(
            ty_view(error_type),
            expr@,
        ),
        UnwrapPolicy::MapOrElseError { error_type, expr, span } => SPolicy::SMapOrElse(
            ty_view(error_type),
            expr@,
        ),
    }
}

impl View for UnwrapPolicy {
    type V = SPolicy;

    open spec fn view(&self) -> SPolicy {
        policy_view(*self)
    }
}

/// A parsed `unwrap` argument: the resolved policy, and the `off` flag that
/// marks the argument as present but switched off.
pub struct UnwrapArg {
    pub off: bool,
    pub policy: UnwrapPolicy,
    pub span: Span,
}

pub open spec fn unwrap_view(u: UnwrapArg) -> SUnwrap {
    SUnwrap { off: u.off, policy: policy_view(u.policy) }
}

impl View for UnwrapArg {
    type V = SUnwrap;

    open spec fn view(&self) -> SUnwrap {
        unwrap_view(*self)
    }
}

impl UnwrapArg {
    /// Whether the argument counts as set: present and not switched off.
    pub fn is_set(&self) -> (r: bool)
        ensures
            r == !self.off,
    {
        !self.off
    }
}

/// The mathematical view of one item inside `unwrap(...)`.
pub ghost enum SUnwrapItem {
    UOff,
    UPolicy(SPolicy),
}

/// One parsed item inside `unwrap(...)`.
pub enum UnwrapItem {
    ItemOff { span: Span },
    ItemPolicy { policy: UnwrapPolicy, span: Span },
}

pub open spec fn unwrap_item_view(it: UnwrapItem) -> SUnwrapItem {
    match it {
        UnwrapItem::ItemOff { span } => SUnwrapItem::UOff,
        UnwrapItem::ItemPolicy { policy, span } => SUnwrapItem::UPolicy(policy_view(policy)),
    }
}

/// The error-constructing forms `or`/`error` (a value) and
/// `or_else`/`map` (a closure or method): exactly an error type and an
/// expression, comma-separated.
pub open spec fn spec_error_form(as_else: bool, inner: Seq<Tok>) -> Result<SUnwrapItem, DiagKind> {
    let cs = spec_meta_chunks(inner);
    if cs.len() != 2 || cs[0].len() == 0 || cs[1].len() == 0 {
        Result::Err(DiagKind::BadArity)
    } else {
        match spec_parse_ty(cs[0], type_parse_fuel(cs[0].len())) {
            Option::None => Result::Err(DiagKind::ExpectedErrorType),
            Option::Some((t, n)) => {
                if n != cs[0].len() {
                    Result::Err(DiagKind::ExpectedErrorType)
                } else {
                    let e = spec_classify(cs[1]);
                    if !as_else && e is SClosureExpr {
                        Result::Err(DiagKind::ClosureNotAllowed)
                    } else if e is SOtherExpr && !syn_expr_ok(spec_render_text(cs[1])) {
                        Result::Err(DiagKind::BadExprShape)
                    } else if as_else {
                        Result::Ok(SUnwrapItem::UPolicy(SPolicy::SMapOrElse(t, e)))
                    } else {
                        Result::Ok(SUnwrapItem::UPolicy(SPolicy::SMapOr(t, e)))
                    }
                }
            },
        }
    }
}

/// How one comma-separated item inside `unwrap(...)` is read.
pub open spec fn spec_unwrap_chunk(c: Seq<Tok>) -> Result<SUnwrapItem, DiagKind> {
    if c.len() == 1 && c[0] == Tok::Id("off"@) {
        Result::Ok(SUnwrapItem::UOff)
    } else if c.len() >= 1 && c[0] == Tok::Id("expect"@) {
        if c.len() == 2 && c[1] is Grp && c[1]->Grp_0 == Delim::Paren && (c[1]->Grp_1).len() == 1
            && (c[1]->Grp_1)[0] is LitStr {
            Result::Ok(SUnwrapItem::UPolicy(SPolicy::SExpect((c[1]->Grp_1)[0]->LitStr_0)))
        } else {
            Result::Err(DiagKind::MissingExpectMessage)
        }
    } else if c.len() >= 1 && (c[0] == Tok::Id("or"@) || c[0] == Tok::Id("error"@) || c[0]
        == Tok::Id("or_else"@) || c[0] == Tok::Id("map"@)) {
        let as_else = c[0] == Tok::Id("or_else"@) || c[0] == Tok::Id("map"@);
        if c.len() == 2 && c[1] is Grp && c[1]->Grp_0 == Delim::Paren {
            spec_error_form(as_else, c[1]->Grp_1)
        } else {
            Result::Err(DiagKind::BadArity)
        }
    } else if c.len() >= 1 && (c[0] is LitStr || c[0] is Lit) {
        Result::Err(DiagKind::UnexpectedLiteral)
    } else {
        Result::Err(DiagKind::UnknownArg)
    }
}

/// Fold the items of `unwrap(...)`: `off` may appear beside at most one
/// policy; a second policy is a mutual-exclusion error.
pub open spec fn spec_unwrap_items(
    cs: Seq<Seq<Tok>>,
    off: bool,
    pol: Option<SPolicy>,
) -> Result<SUnwrap, DiagKind>
    decreases cs.len(),
{
    if cs.len() == 0 {
        Result::Ok(
            SUnwrap {
                off,
                policy: match pol {
                    Option::Some(p) => p,
                    Option::None => SPolicy::SPanic,
                },
            },
        )
    } else {
        match spec_unwrap_chunk(cs[0]) {
            Result::Err(k) => Result::Err(k),
            Result::Ok(SUnwrapItem::UOff) => spec_unwrap_items(cs.drop_first(), true, pol),
            Result::Ok(SUnwrapItem::UPolicy(p)) => {
                if pol is Some {
                    Result::Err(DiagKind::ExclusiveArgs)
                } else {
                    spec_unwrap_items(cs.drop_first(), off, Option::Some(p))
                }
            },
        }
    }
}

/// The whole `unwrap(...)` argument list.
pub open spec fn spec_parse_unwrap(ts: Seq<Tok>) -> Result<SUnwrap, DiagKind> {
    spec_unwrap_items(spec_meta_chunks(ts), false, Option::None)
}

fn parse_error_form(as_else: bool, inner: Vec<Token>, span: Span) -> (r: Result<UnwrapItem, Diag>)
    requires
        3 * toks_size(toks_view(inner@)) + 3 <= usize::MAX,
    ensures
        match r {
            Result::Ok(it) => spec_error_form(as_else, toks_view(inner@)) == Result::<
                SUnwrapItem,
                DiagKind,
            >::Ok(unwrap_item_view(it)),
            Result::Err(d) => spec_error_form(as_else, toks_view(inner@)) == Result::<
                SUnwrapItem,
                DiagKind,
            >::Err(d.kind) && d.spans@.len() >= 1,
        },
{
    proof {
        lemma_toks_view_len(inner@);
    }
    let mut cs = meta_chunks(&inner);
    proof {
        lemma_chunks_view_len(cs@);
    }
    if cs.len() != 2 {
        return Result::Err(Diag::new(DiagKind::BadArity, span));
    }
    proof {
        lemma_chunks_view_index(cs@, 0);
        lemma_chunks_view_index(cs@, 1);
        lemma_toks_view_len(cs@[0]@);
        lemma_toks_view_len(cs@[1]@);
        lemma_toks_size_len(toks_view(cs@[0]@));
        lemma_toks_size_len(toks_view(cs@[1]@));
    }
    let c1 = cs.remove(1);
    let c0 = cs.remove(0);
    if c0.len() == 0 || c1.len() == 0 {
        return Result::Err(Diag::new(DiagKind::BadArity, span));
    }
    let tyres = parse_type_at(&c0, 0);
    let ghost c0v = toks_view(c0@);
    proof {
        assert(c0v.skip(0) =~= c0v);
    }
    match tyres {
        Option::None => Result::Err(Diag::new(DiagKind::ExpectedErrorType, c0[0].span)),
        Option::Some((t, n)) => {
            if n != c0.len() {
                return Result::Err(Diag::new(DiagKind::ExpectedErrorType, c0[0].span));
            }
            let espan = c1[0].span;
            let text = render_tokens(&c1);
            let e = classify_expr(c1);
            let is_closure = matches!(e, OrExpr::ClosureExpr { .. });
            let is_other = matches!(e, OrExpr::OtherExpr { .. });
            if !as_else && is_closure {
                return Result::Err(Diag::new(DiagKind::ClosureNotAllowed, espan));
            }
            if is_other && !syn_parses_expr(text.as_str()) {
                return Result::Err(Diag::new(DiagKind::BadExprShape, espan));
            }
            if as_else {
                Result::Ok(
                    UnwrapItem::ItemPolicy {
                        policy: UnwrapPolicy::MapOrElseError { error_type: t, expr: e, span },
                        span,
                    },
                )
            } else {
                Result::Ok(
                    UnwrapItem::ItemPolicy {
                        policy: UnwrapPolicy::MapOrError { error_type: t, expr: e, span },
                        span,
                    },
                )
            }
        },
    }
}

fn parse_unwrap_chunk(c: Vec<Token>) -> (r: Result<UnwrapItem, Diag>)
    requires
        3 * toks_size(toks_view(c@)) + 3 <= usize::MAX,
    ensures
        match r {
            Result::Ok(it) => spec_unwrap_chunk(toks_view(c@)) == Result::<
                SUnwrapItem,
                DiagKind,
            >::Ok(unwrap_item_view(it)),
            Result::Err(d) => spec_unwrap_chunk(toks_view(c@)) == Result::<
                SUnwrapItem,
                DiagKind,
            >::Err(d.kind) && d.spans@.len() >= 1,
        },
{
    proof {
        lemma_toks_view_len(c@);
        if c@.len() > 0 {
            lemma_toks_view_index(c@, 0);
        }
        if c@.len() > 1 {
            lemma_toks_view_index(c@, 1);
        }
    }
    let ghost cv = toks_view(c@);
    if c.len() == 0 {
        return Result::Err(Diag::new(DiagKind::UnknownArg, Span::none()));
    }
    let span0 = c[0].span;
    if c.len() == 1 && is_ident(&c[0], "off") {
        return Result::Ok(UnwrapItem::ItemOff { span: span0 });
    }
    if is_ident(&c[0], "expect") {
        if c.len() == 2 {
            let mut c = c;
            let g = c.remove(1);
            match g.kind {
                TokenKind::Group(Delim::Paren, inner) => {
                    proof {
                        lemma_toks_view_len(inner@);
                        if inner@.len() > 0 {
                            lemma_toks_view_index(inner@, 0);
                        }
                    }
                    if inner.len() == 1 {
                        match &inner[0].kind {
                            TokenKind::StrLit(msg) => {
                                return Result::Ok(
                                    UnwrapItem::ItemPolicy {
                                        policy: UnwrapPolicy::Expect {
                                            message: msg.clone(),
                                            span: inner[0].span,
                                        },
                                        span: span0,
                                    },
                                );
                            },
                            _ => {
                                return Result::Err(
                                    Diag::new(DiagKind::MissingExpectMessage, span0),
                                );
                            },
                        }
                    }
                    return Result::Err(Diag::new(DiagKind::MissingExpectMessage, span0));
                },
                _ => {
                    return Result::Err(Diag::new(DiagKind::MissingExpectMessage, span0));
                },
            }
        }
        return Result::Err(Diag::new(DiagKind::MissingExpectMessage, span0));
    }
    let is_or = is_ident(&c[0], "or") || is_ident(&c[0], "error");
    let as_else = is_ident(&c[0], "or_else") || is_ident(&c[0], "map");
    if is_or || as_else {
        if c.len() == 2 {
            let mut c = c;
            let g = c.remove(1);
            match g.kind {
                TokenKind::Group(Delim::Paren, inner) => {
                    proof {
                        lemma_toks_view_len(inner@);
                        lemma_toks_size_elem(cv, 1);
                    }
                    return parse_error_form(as_else, inner, span0);
                },
                _ => {
                    return Result::Err(Diag::new(DiagKind::BadArity, span0));
                },
            }
        }
        return Result::Err(Diag::new(DiagKind::BadArity, span0));
    }
    let lit = matches!(&c[0].kind, TokenKind::StrLit(_)) || matches!(&c[0].kind, TokenKind::Lit(_));
    if lit {
        return Result::Err(Diag::new(DiagKind::UnexpectedLiteral, span0));
    }
    Result::Err(Diag::new(DiagKind::UnknownArg, span0))
}

/// Parse the argument list inside `unwrap(...)`.
pub fn parse_unwrap_arg(inner: Vec<Token>, span: Span) -> (r: Result<UnwrapArg, Diag>)
    requires
        3 * toks_size(toks_view(inner@)) + 3 <= usize::MAX,
    ensures
        match r {
            Result::Ok(u) => spec_parse_unwrap(toks_view(inner@)) == Result::<
                SUnwrap,
                DiagKind,
            >::Ok(u@),
            Result::Err(d) => spec_parse_unwrap(toks_view(inner@)) == Result::<
                SUnwrap,
                DiagKind,
            >::Err(d.kind) && d.spans@.len() >= 1 && (d.kind == DiagKind::ExclusiveArgs
                ==> d.spans@.len() == 2),
        },
{
    proof {
        lemma_toks_view_len(inner@);
    }
    let ghost tsv = toks_view(inner@);
    let mut cs = meta_chunks(&inner);
    let ghost csv = chunks_view(cs@);
    proof {
        lemma_chunks_view_len(cs@);
    }
    let n = cs.len();
    proof {
        assert(csv.skip(0) =~= csv);
    }
    let mut off = false;
    let mut pol: Option<UnwrapPolicy> = Option::None;
    let mut pol_span = span;
    let mut i: usize = 0;
    while i < n
        invariant
            n == cs@.len(),
            i <= n,
            csv == chunks_view(cs@),
            csv.len() == n,
            forall|j: int| 0 <= j < csv.len() ==> toks_size(#[trigger] csv[j]) <= toks_size(tsv),
            3 * toks_size(tsv) + 3 <= usize::MAX,
            tsv == toks_view(inner@),
            csv == spec_meta_chunks(tsv),
            spec_unwrap_items(csv, false, Option::None) == spec_unwrap_items(
                csv.skip(i as int),
                off,
                match pol {
                    Option::Some(p) => Option::Some(policy_view(p)),
                    Option::None => Option::None,
                },
            ),
        decreases n - i,
    {
        proof {
            lemma_chunks_view_index(cs@, i as int);
            lemma_toks_view_len(cs@[i as int]@);
            assert(csv.skip(i as int)[0] == csv[i as int]);
            assert(csv.skip(i as int).drop_first() =~= csv.skip(i + 1));
            assert(csv.skip(i as int).len() == csv.len() - i);
        }
        let chunk = duplicate_tokens(&cs[i]);
        let chunk_span = first_chunk_span(&chunk, span);
        match parse_unwrap_chunk(chunk) {
            Result::Err(d) => {
                return Result::Err(d);
            },
            Result::Ok(UnwrapItem::ItemOff { span: _ }) => {
                off = true;
            },
            Result::Ok(UnwrapItem::ItemPolicy { policy, span: pspan }) => {
                if pol.is_some() {
                    return Result::Err(Diag::two(DiagKind::ExclusiveArgs, pol_span, pspan));
                }
                pol = Option::Some(policy);
                pol_span = pspan;
            },
        }
        i = i + 1;
    }
    proof {
        assert(csv.skip(n as int) =~= Seq::<Seq<Tok>>::empty());
    }
    let policy = match pol {
        Option::Some(p) => p,
        Option::None => UnwrapPolicy::Panic,
    };
    Result::Ok(UnwrapArg { off, policy, span })
}

/// The span of the first token of a chunk, or the fallback.
fn first_chunk_span(c: &Vec<Token>, fallback: Span) -> (s: Span)
    ensures
        c@.len() > 0 ==> s == c@[0].span,
        c@.len() == 0 ==> s == fallback,
{
    if c.len() > 0 {
        c[0].span
    } else {
        fallback
    }
}

/// The index of the first top-level comma, or the length where there is
/// none.
/// A token that ends the owner type at the top level: the comma before the
/// argument list, or the `as` of an alias.
pub open spec fn spec_is_stop(t: Tok) -> bool {
    t == Tok::Pu(',') || t == Tok::Id("as"@)
}

/// The index of the first top-level stop token, or the length.
pub open spec fn spec_first_stop(ts: Seq<Tok>) -> nat
    decreases ts.len(),
{
    if ts.len() == 0 {
        0
    } else if spec_is_stop(ts[0]) {
        0
    } else {
        1 + spec_first_stop(ts.drop_first())
    }
}

proof fn lemma_first_stop_at(ts: Seq<Tok>, i: int)
    requires
        0 <= i <= ts.len(),
        forall|j: int| 0 <= j < i ==> !spec_is_stop(#[trigger] ts[j]),
        i == ts.len() || spec_is_stop(ts[i]),
    ensures
        spec_first_stop(ts) == i,
    decreases i,
{
    if ts.len() > 0 && i > 0 {
        assert forall|j: int| 0 <= j < i - 1 implies !spec_is_stop(
            #[trigger] ts.drop_first()[j],
        ) by {
            assert(ts.drop_first()[j] == ts[j + 1]);
        }
        if i < ts.len() {
            assert(ts.drop_first()[i - 1] == ts[i]);
        }
        lemma_first_stop_at(ts.drop_first(), i - 1);
    }
}

/// The first top-level stop token's index, or the length.
fn first_stop(toks: &Vec<Token>) -> (r: usize)
    ensures
        r as nat == spec_first_stop(toks_view(toks@)),
        r <= toks@.len(),
{
    proof {
        lemma_toks_view_len(toks@);
    }
    let ghost tv = toks_view(toks@);
    let mut i: usize = 0;
    while i < toks.len()
        invariant
            i <= toks@.len(),
            tv == toks_view(toks@),
            tv.len() == toks@.len(),
            forall|j: int| 0 <= j < i ==> !spec_is_stop(#[trigger] tv[j]),
        decreases toks@.len() - i,
    {
        proof {
            lemma_toks_view_index(toks@, i as int);
        }
        if is_punct(&toks[i], ',') || is_ident(&toks[i], "as") {
            proof {
                lemma_first_stop_at(tv, i as int);
            }
            return i;
        }
        i = i + 1;
    }
    proof {
        lemma_first_stop_at(tv, tv.len() as int);
    }
    i
}

/// Parse the owner type at the front of the annotation.
fn parse_owner(toks: &Vec<Token>) -> (r: Result<(TypeRepr, usize), Diag>)
    requires
        3 * toks_size(toks_view(toks@)) + 3 <= usize::MAX,
    ensures
        match r {
            Result::Ok((p, n)) => spec_parse_owner(toks_view(toks@)) == Result::<
                (STyRepr, nat),
                DiagKind,
            >::Ok((p@, n as nat)) && n <= toks@.len(),
            Result::Err(d) => spec_parse_owner(toks_view(toks@)) == Result::<
                (STyRepr, nat),
                DiagKind,
            >::Err(d.kind) && d.kind == DiagKind::ExpectedType && d.spans@.len() == 1 && (
            toks@.len() > 0 ==> d.spans@[0] == toks@[0].span),
        },
{
    proof {
        lemma_toks_view_len(toks@);
        lemma_toks_size_len(toks_view(toks@));
    }
    let ghost tv = toks_view(toks@);
    let whole_span = if toks.len() > 0 {
        toks[0].span
    } else {
        Span::none()
    };
    let c = first_stop(toks);
    let tyres = parse_type_at(toks, 0);
    proof {
        assert(tv.skip(0) =~= tv);
    }
    match tyres {
        Option::Some((t, n)) => {
            if n == c {
                return Result::Ok((TypeRepr::Path(t), n));
            }
            if c != 0 {
                let head = sub_tokens(toks, 0, c);
                proof {
                    assert(tv.subrange(0, c as int) =~= tv.take(c as int));
                }
                let text = render_tokens(&head);
                if syn_parses_type(text.as_str()) {
                    return Result::Ok((TypeRepr::Opaque(head), c));
                }
            }
            Result::Ok((TypeRepr::Path(t), n))
        },
        Option::None => {
            if c != 0 {
                let head = sub_tokens(toks, 0, c);
                proof {
                    assert(tv.subrange(0, c as int) =~= tv.take(c as int));
                }
                let text = render_tokens(&head);
                if syn_parses_type(text.as_str()) {
                    return Result::Ok((TypeRepr::Opaque(head), c));
                }
            }
            Result::Err(Diag::new(DiagKind::ExpectedType, whole_span))
        },
    }
}

/// Copy the token range `[from, to)`.
pub fn sub_tokens(toks: &Vec<Token>, from: usize, to: usize) -> (r: Vec<Token>)
    requires
        from <= to <= toks@.len(),
    ensures
        toks_view(r@) == toks_view(toks@).subrange(from as int, to as int),
        r@.len() == to - from,
{
    proof {
        lemma_toks_view_len(toks@);
    }
    let mut r: Vec<Token> = Vec::new();
    let mut i: usize = from;
    proof {
        assert(toks_view(r@) =~= Seq::<Tok>::empty());
    }
    while i < to
        invariant
            from <= i <= to <= toks@.len(),
            r@.len() == i - from,
            toks_view(toks@).len() == toks@.len(),
            toks_view(r@) =~= toks_view(toks@).subrange(from as int, i as int),
        decreases to - i,
    {
        let t = duplicate_token(&toks[i]);
        proof {
            lemma_toks_view_push(r@, t);
            lemma_toks_view_index(toks@, i as int);
            assert(toks_view(toks@).subrange(from as int, i as int).push(toks_view(toks@)[i as int])
                =~= toks_view(toks@).subrange(from as int, i + 1));
            lemma_toks_view_len(r@);
        }
        r.push(t);
        i = i + 1;
    }
    r
}

/// The mathematical view of a parsed dependent-role configuration.
pub ghost struct SChildArgs {
    pub parent: STyRepr,
    pub alias: Option<Seq<char>>,
    pub rc_strong: Option<bool>,
    pub unwrap: Option<SUnwrap>,
}

/// The `rc_strong` flag as given, with its location.
pub struct RcStrongArg {
    pub on: bool,
    pub span: Span,
}

/// The validated configuration of one dependent role.
pub struct ChildArgsInner {
    /// The owner type.
    pub parent_type: TypeRepr,
    /// The `as` alias overriding the default accessor base name.
    pub parent_base_ident: Option<String>,
    /// Strong storage: the dependent holds a strong reference.
    pub rc_strong: Option<RcStrongArg>,
    /// The upgrade policy for weak storage.
    pub unwrap_parent: Option<UnwrapArg>,
}

pub open spec fn child_inner_view(inner: ChildArgsInner) -> SChildArgs {
    SChildArgs {
        parent: inner.parent_type@,
        alias: match inner.parent_base_ident {
            Option::Some(s) => Option::Some(s@),
            Option::None => Option::None,
        },
        rc_strong: match inner.rc_strong {
            Option::Some(r) => Option::Some(r.on),
            Option::None => Option::None,
        },
        unwrap: match inner.unwrap_parent {
            Option::Some(u) => Option::Some(unwrap_view(u)),
            Option::None => Option::None,
        },
    }
}

impl View for ChildArgsInner {
    type V = SChildArgs;

    open spec fn view(&self) -> SChildArgs {
        child_inner_view(*self)
    }
}

/// A parsed dependent-role annotation, with the role it was parsed for and
/// its overall source span.
pub struct ChildArgs {
    pub inner: ChildArgsInner,
    pub role: Role,
    pub span: Span,
}

impl View for ChildArgs {
    type V = SChildArgs;

    open spec fn view(&self) -> SChildArgs {
        child_inner_view(self.inner)
    }
}

/// The owner type at the front of the annotation: a structural path where
/// one reaches exactly the first top-level stop token, else the verbatim
/// tokens up to that stop where Rust's own grammar accepts them, else the
/// structural prefix where one was parsed at all.
pub open spec fn spec_parse_owner(ts: Seq<Tok>) -> Result<(STyRepr, nat), DiagKind> {
    let c = spec_first_stop(ts);
    match spec_parse_ty(ts, type_parse_fuel(ts.len())) {
        Option::Some((t, n)) => if n == c {
            Result::Ok((STyRepr::RPath(t), n))
        } else if c != 0 && syn_type_ok(spec_render_text(ts.take(c as int))) {
            Result::Ok((STyRepr::ROpaque(ts.take(c as int)), c))
        } else {
            Result::Ok((STyRepr::RPath(t), n))
        },
        Option::None => if c != 0 && syn_type_ok(spec_render_text(ts.take(c as int))) {
            Result::Ok((STyRepr::ROpaque(ts.take(c as int)), c))
        } else {
            Result::Err(DiagKind::ExpectedType)
        },
    }
}

/// The whole dependent-role annotation: an owner type, an optional `as`
/// alias, then the comma-separated arguments.
pub open spec fn spec_parse_child(ts: Seq<Tok>) -> Result<SChildArgs, DiagKind> {
    match spec_parse_owner(ts) {
        Result::Err(k) => Result::Err(k),
        Result::Ok((p, n)) => spec_child_after_type(p, ts.skip(n as int)),
    }
}

/// After the owner type: an optional `as <ident>` alias.
pub open spec fn spec_child_after_type(parent: STyRepr, rest: Seq<Tok>) -> Result<
    SChildArgs,
    DiagKind,
> {
    if rest.len() >= 1 && rest[0] == Tok::Id("as"@) {
        if rest.len() >= 2 && rest[1] is Id {
            spec_child_after_alias(parent, Option::Some(rest[1]->Id_0), rest.skip(2))
        } else {
            Result::Err(DiagKind::ExpectedIdent)
        }
    } else {
        spec_child_after_alias(parent, Option::None, rest)
    }
}

/// After the type and alias: nothing more, or a comma and the argument
/// list.
pub open spec fn spec_child_after_alias(
    parent: STyRepr,
    alias: Option<Seq<char>>,
    rest: Seq<Tok>,
) -> Result<SChildArgs, DiagKind> {
    if rest.len() == 0 {
        Result::Ok(
            SChildArgs { parent, alias, rc_strong: Option::None, unwrap: Option::None },
        )
    } else if rest[0] == Tok::Pu(',') {
        spec_child_metas(parent, alias, rest.skip(1))
    } else {
        Result::Err(DiagKind::ExpectedComma)
    }
}

/// The argument list: `rc_strong` and `unwrap` in any order, mutually
/// exclusive when both are set.
pub open spec fn spec_child_metas(
    parent: STyRepr,
    alias: Option<Seq<char>>,
    ts: Seq<Tok>,
) -> Result<SChildArgs, DiagKind> {
    match spec_child_items(spec_meta_chunks(ts), Option::None, Option::None) {
        Result::Err(k) => Result::Err(k),
        Result::Ok((rc, uw)) => {
            if rc == Option::Some(true) && (uw matches Option::Some(u) && !u.off) {
                Result::Err(DiagKind::ExclusiveArgs)
            } else {
                Result::Ok(SChildArgs { parent, alias, rc_strong: rc, unwrap: uw })
            }
        },
    }
}

/// Fold the argument chunks.
pub open spec fn spec_child_items(
    cs: Seq<Seq<Tok>>,
    rc: Option<bool>,
    uw: Option<SUnwrap>,
) -> Result<(Option<bool>, Option<SUnwrap>), DiagKind>
    decreases cs.len(),
{
    if cs.len() == 0 {
        Result::Ok((rc, uw))
    } else {
        let c = cs[0];
        if c.len() == 1 && c[0] == Tok::Id("rc_strong"@) {
            if rc is Some {
                Result::Err(DiagKind::DuplicateArg)
            } else {
                spec_child_items(cs.drop_first(), Option::Some(true), uw)
            }
        } else if c.len() == 2 && c[0] == Tok::Id("rc_strong"@) && c[1] == Tok::Grp(
            Delim::Paren,
            seq![Tok::Id("off"@)],
        ) {
            if rc is Some {
                Result::Err(DiagKind::DuplicateArg)
            } else {
                spec_child_items(cs.drop_first(), Option::Some(false), uw)
            }
        } else if c.len() == 1 && c[0] == Tok::Id("unwrap"@) {
            if uw is Some {
                Result::Err(DiagKind::DuplicateArg)
            } else {
                spec_child_items(
                    cs.drop_first(),
                    rc,
                    Option::Some(SUnwrap { off: false, policy: SPolicy::SPanic }),
                )
            }
        } else if c.len() == 2 && c[0] == Tok::Id("unwrap"@) && c[1] is Grp && c[1]->Grp_0
            == Delim::Paren {
            if uw is Some {
                Result::Err(DiagKind::DuplicateArg)
            } else {
                match spec_parse_unwrap(c[1]->Grp_1) {
                    Result::Err(k) => Result::Err(k),
                    Result::Ok(u) => spec_child_items(cs.drop_first(), rc, Option::Some(u)),
                }
            }
        } else {
            Result::Err(DiagKind::UnknownArg)
        }
    }
}

impl ChildArgs {
    /// The overall source span of the annotation.
    pub fn span(&self) -> (s: Span)
        ensures
            s == self.span,
    {
        self.span
    }

    /// The accessor base name: the `as` alias where one was given, else the
    /// role's default.
    pub fn parent_base_ident(&self) -> (r: String)
        ensures
            match self@.alias {
                Option::Some(a) => r@ == a,
                Option::None => r@ == spec_base_name(self.role),
            },
    {
        match &self.inner.parent_base_ident {
            Option::Some(s) => s.clone(),
            Option::None => RoleDescriptor { role: self.role }.base_name(),
        }
    }

    /// Parse one dependent role's configuration from the annotation's token
    /// sequence.
    #[verifier::rlimit(100)]
    #[verifier::spinoff_prover]
    pub fn parse(toks: &Vec<Token>, descr: RoleDescriptor) -> (r: Result<ChildArgs, Diag>)
        requires
            3 * toks_size(toks_view(toks@)) + 3 <= usize::MAX,
        ensures
            match r {
                Result::Ok(args) => spec_parse_child(toks_view(toks@)) == Result::<
                    SChildArgs,
                    DiagKind,
                >::Ok(args@) && args.role == descr.role,
                Result::Err(d) => spec_parse_child(toks_view(toks@)) == Result::<
                    SChildArgs,
                    DiagKind,
                >::Err(d.kind) && d.spans@.len() >= 1 && (d.kind == DiagKind::ExclusiveArgs
                    ==> d.spans@.len() == 2) && (spec_parse_owner(toks_view(toks@)) is Err
                    ==> d.kind == DiagKind::ExpectedType && d.spans@.len() == 1 && (toks@.len()
                    > 0 ==> d.spans@[0] == toks@[0].span)),
            },
    {
        proof {
            lemma_toks_view_len(toks@);
            lemma_toks_size_len(toks_view(toks@));
        }
        let ghost tv = toks_view(toks@);
        let whole_span = if toks.len() > 0 {
            toks[0].span
        } else {
            Span::none()
        };
        let (parent, pos): (TypeRepr, usize) = match parse_owner(toks) {
            Result::Err(d) => {
                return Result::Err(d);
            },
            Result::Ok(p) => p,
        };
        let ghost parent_v = parent@;
        let ghost pos_ty = pos as int;
        let ghost rest0 = tv.skip(pos as int);
        // optional `as <ident>`
        proof {
            if pos < toks@.len() {
                lemma_toks_view_index(toks@, pos as int);
            }
            if pos + 1 < toks@.len() {
                lemma_toks_view_index(toks@, pos + 1);
            }
        }
        let len = toks.len();
        let mut alias: Option<String> = Option::None;
        let mut pos = pos;
        if pos < len && is_ident(&toks[pos], "as") {
            if len - pos >= 2 {
                match &toks[pos + 1].kind {
                    TokenKind::Ident(name) => {
                        alias = Option::Some(name.clone());
                        pos = pos + 2;
                    },
                    _ => {
                        return Result::Err(
                            Diag::new(DiagKind::ExpectedIdent, toks[pos + 1].span),
                        );
                    },
                }
            } else {
                return Result::Err(Diag::new(DiagKind::ExpectedIdent, toks[pos].span));
            }
        }
        let ghost alias_v: Option<Seq<char>> = match &alias {
            Option::Some(a) => Option::Some(a@),
            Option::None => Option::None,
        };
        let ghost rest1 = tv.skip(pos as int);
        proof {
            assert(rest0.skip(pos - pos_ty) =~= tv.skip(pos as int));
            if pos as int == pos_ty {
                assert(rest0.skip(0) =~= rest0);
            }
        }
        // nothing more, or a comma then the argument list
        if pos == len {
            proof {
                assert(rest1.len() == 0);
            }
            return Result::Ok(
                ChildArgs {
                    inner: ChildArgsInner {
                        parent_type: parent,
                        parent_base_ident: alias,
                        rc_strong: Option::None,
                        unwrap_parent: Option::None,
                    },
                    role: descr.role,
                    span: whole_span,
                },
            );
        }
        proof {
            lemma_toks_view_index(toks@, pos as int);
        }
        if !is_punct(&toks[pos], ',') {
            return Result::Err(Diag::new(DiagKind::ExpectedComma, toks[pos].span));
        }
        let metas = sub_tokens(toks, pos + 1, len);
        proof {
            assert(tv.subrange(pos + 1, tv.len() as int) =~= rest1.skip(1));
            lemma_toks_size_subrange(tv, pos + 1, tv.len() as int);
        }
        let parsed = parse_child_metas(&metas, whole_span);
        match parsed {
            Result::Err(d) => Result::Err(d),
            Result::Ok((rc, uw)) => child_from_parts(parent, alias, descr.role, whole_span, rc, uw),
        }
    }
}

/// Validate the mutual exclusion of strong storage and an active policy,
/// then assemble the configuration.
fn child_from_parts(
    parent: TypeRepr,
    alias: Option<String>,
    role: Role,
    whole_span: Span,
    rc: Option<RcStrongArg>,
    uw: Option<UnwrapArg>,
) -> (r: Result<ChildArgs, Diag>)
    ensures
        ({
            let rcv: Option<bool> = match rc {
                Option::Some(a) => Option::Some(a.on),
                Option::None => Option::None,
            };
            let uwv: Option<SUnwrap> = match uw {
                Option::Some(u) => Option::Some(unwrap_view(u)),
                Option::None => Option::None,
            };
            if rcv == Option::Some(true) && (uwv matches Option::Some(u) && !u.off) {
                r matches Result::Err(d) && d.kind == DiagKind::ExclusiveArgs && d.spans@ == seq![
                    (rc->Some_0).span,
                    (uw->Some_0).span,
                ]
            } else {
                r matches Result::Ok(args) && args@ == (SChildArgs {
                    parent: parent@,
                    alias: match alias {
                        Option::Some(a) => Option::Some(a@),
                        Option::None => Option::None,
                    },
                    rc_strong: rcv,
                    unwrap: uwv,
                }) && args.role == role && args.span == whole_span
            }
        }),
{
    if rc.is_some() && uw.is_some() {
        let rcr = rc.as_ref().unwrap();
        let uwr = uw.as_ref().unwrap();
        if rcr.on && !uwr.off {
            let rspan = rcr.span;
            let uspan = uwr.span;
            return Result::Err(Diag::two(DiagKind::ExclusiveArgs, rspan, uspan));
        }
    }
    Result::Ok(
        ChildArgs {
            inner: ChildArgsInner {
                parent_type: parent,
                parent_base_ident: alias,
                rc_strong: rc,
                unwrap_parent: uw,
            },
            role,
            span: whole_span,
        },
    )
}

/// The total size of a subrange is bounded by the whole.
pub proof fn lemma_toks_size_subrange(ts: Seq<Tok>, from: int, to: int)
    requires
        0 <= from <= to <= ts.len(),
    ensures
        toks_size(ts.subrange(from, to)) <= toks_size(ts),
    decreases ts.len(),
{
    if from > 0 {
        assert(ts.subrange(from, to) =~= ts.drop_first().subrange(from - 1, to - 1));
        lemma_toks_size_subrange(ts.drop_first(), from - 1, to - 1);
        lemma_tok_size_pos(ts[0]);
    } else if to == ts.len() {
        if ts.len() > 0 {
            assert(ts.subrange(0, ts.len() as int) =~= ts);
        } else {
            assert(ts.subrange(0, 0) =~= ts);
        }
    } else {
        if ts.len() > 0 {
            if to == 0 {
                assert(ts.subrange(0, 0) =~= Seq::<Tok>::empty());
                assert(toks_size(Seq::<Tok>::empty()) == 0);
            } else {
                assert(ts.subrange(0, to)[0] == ts[0]);
                assert(ts.subrange(0, to).drop_first() =~= ts.drop_first().subrange(0, to - 1));
                lemma_toks_size_subrange(ts.drop_first(), 0, to - 1);
            }
        }
    }
}

/// Parse the argument list after the comma.
fn parse_child_metas(metas: &Vec<Token>, whole_span: Span) -> (r: Result<
    (Option<RcStrongArg>, Option<UnwrapArg>),
    Diag,
>)
    requires
        3 * toks_size(toks_view(metas@)) + 3 <= usize::MAX,
    ensures
        match r {
            Result::Ok((rc, uw)) => spec_child_items(
                spec_meta_chunks(toks_view(metas@)),
                Option::None,
                Option::None,
            ) == Result::<(Option<bool>, Option<SUnwrap>), DiagKind>::Ok(
                (
                    match rc {
                        Option::Some(a) => Option::Some(a.on),
                        Option::None => Option::None,
                    },
                    match uw {
                        Option::Some(u) => Option::Some(unwrap_view(u)),
                        Option::None => Option::None,
                    },
                ),
            ),
            Result::Err(d) => spec_child_items(
                spec_meta_chunks(toks_view(metas@)),
                Option::None,
                Option::None,
            ) == Result::<(Option<bool>, Option<SUnwrap>), DiagKind>::Err(d.kind)
                && d.spans@.len() >= 1 && (d.kind == DiagKind::ExclusiveArgs ==> d.spans@.len()
                == 2),
        },
{
    proof {
        lemma_toks_view_len(metas@);
    }
    let ghost tsv = toks_view(metas@);
    let cs = meta_chunks(metas);
    let ghost csv = chunks_view(cs@);
    proof {
        lemma_chunks_view_len(cs@);
        assert(csv.skip(0) =~= csv);
    }
    let n = cs.len();
    let mut rc: Option<RcStrongArg> = Option::None;
    let mut uw: Option<UnwrapArg> = Option::None;
    let mut i: usize = 0;
    while i < n
        invariant
            n == cs@.len(),
            i <= n,
            csv == chunks_view(cs@),
            csv.len() == n,
            forall|j: int| 0 <= j < csv.len() ==> toks_size(#[trigger] csv[j]) <= toks_size(tsv),
            3 * toks_size(tsv) + 3 <= usize::MAX,
            tsv == toks_view(metas@),
            csv == spec_meta_chunks(tsv),
            spec_child_items(csv, Option::None, Option::None) == spec_child_items(
                csv.skip(i as int),
                match rc {
                    Option::Some(a) => Option::Some(a.on),
                    Option::None => Option::None,
                },
                match uw {
                    Option::Some(u) => Option::Some(unwrap_view(u)),
                    Option::None => Option::None,
                },
            ),
        decreases n - i,
    {
        proof {
            lemma_chunks_view_index(cs@, i as int);
            lemma_toks_view_len(cs@[i as int]@);
            assert(csv.skip(i as int)[0] == csv[i as int]);
            assert(csv.skip(i as int).drop_first() =~= csv.skip(i + 1));
            assert(csv.skip(i as int).len() == csv.len() - i);
            if cs@[i as int]@.len() > 0 {
                lemma_toks_view_index(cs@[i as int]@, 0);
            }
            if cs@[i as int]@.len() > 1 {
                lemma_toks_view_index(cs@[i as int]@, 1);
            }
        }
        let c = &cs[i];
        let clen = c.len();
        if clen == 1 && is_ident(&c[0], "rc_strong") {
            if rc.is_some() {
                return Result::Err(Diag::new(DiagKind::DuplicateArg, c[0].span));
            }
            rc = Option::Some(RcStrongArg { on: true, span: c[0].span });
        } else if clen == 2 && is_ident(&c[0], "rc_strong") && is_off_group(&c[1]) {
            if rc.is_some() {
                return Result::Err(Diag::new(DiagKind::DuplicateArg, c[0].span));
            }
            rc = Option::Some(RcStrongArg { on: false, span: c[0].span });
        } else if clen == 1 && is_ident(&c[0], "unwrap") {
            if uw.is_some() {
                return Result::Err(Diag::new(DiagKind::DuplicateArg, c[0].span));
            }
            uw = Option::Some(
                UnwrapArg { off: false, policy: UnwrapPolicy::Panic, span: c[0].span },
            );
        } else if clen == 2 && is_ident(&c[0], "unwrap") && is_paren_group(&c[1]) {
            if uw.is_some() {
                return Result::Err(Diag::new(DiagKind::DuplicateArg, c[0].span));
            }
            let span0 = c[0].span;
            let inner = group_inner(&c[1]);
            proof {
                lemma_toks_size_elem(csv[i as int], 1);
            }
            match parse_unwrap_arg(inner, span0) {
                Result::Err(d) => {
                    return Result::Err(d);
                },
                Result::Ok(u) => {
                    uw = Option::Some(u);
                },
            }
        } else {
            let sp = if clen > 0 {
                c[0].span
            } else {
                whole_span
            };
            return Result::Err(Diag::new(DiagKind::UnknownArg, sp));
        }
        i = i + 1;
    }
    proof {
        assert(csv.skip(n as int) =~= Seq::<Seq<Tok>>::empty());
    }
    Result::Ok((rc, uw))
}

/// `true` iff `t` is a parenthesized group holding exactly `off`.
fn is_off_group(t: &Token) -> (r: bool)
    ensures
        r == (t@ == Tok::Grp(Delim::Paren, seq![Tok::Id("off"@)])),
{
    match &t.kind {
        TokenKind::Group(Delim::Paren, inner) => {
            proof {
                lemma_toks_view_len(inner@);
                if inner@.len() > 0 {
                    lemma_toks_view_index(inner@, 0);
                }
            }
            if inner.len() == 1 && is_ident(&inner[0], "off") {
                proof {
                    assert(toks_view(inner@) =~= seq![Tok::Id("off"@)]);
                }
                true
            } else {
                proof {
                    assert(toks_view(inner@) != seq![Tok::Id("off"@)]) by {
                        if inner@.len() == 1 {
                            assert(toks_view(inner@)[0] == tok_view(inner@[0]));
                        }
                    }
                }
                false
            }
        },
        _ => false,
    }
}

/// `true` iff `t` is a parenthesized group.
fn is_paren_group(t: &Token) -> (r: bool)
    ensures
        r == (t@ is Grp && t@->Grp_0 == Delim::Paren),
{
    matches!(&t.kind, TokenKind::Group(Delim::Paren, _))
}

/// The contents of a group token, copied.
fn group_inner(t: &Token) -> (r: Vec<Token>)
    requires
        t@ is Grp,
    ensures
        toks_view(r@) == t@->Grp_1,
{
    match &t.kind {
        TokenKind::Group(_, inner) => duplicate_tokens(inner),
        _ => Vec::new(),
    }
}

/// Strong storage and any upgrade policy are mutually exclusive: a
/// configuration the parser accepts never carries both.
pub proof fn lemma_strong_unwrap_exclusive(ts: Seq<Tok>)
    ensures
        spec_parse_child(ts) matches Result::Ok(a) ==> !(a.rc_strong == Option::Some(true)
            && (a.unwrap matches Option::Some(u) && !u.off)),
{
    match spec_parse_owner(ts) {
        Result::Ok((p, n)) => {
            lemma_after_type_exclusive(p, ts.skip(n as int));
        },
        Result::Err(k) => {},
    }
}

proof fn lemma_after_type_exclusive(parent: STyRepr, rest: Seq<Tok>)
    ensures
        spec_child_after_type(parent, rest) matches Result::Ok(a) ==> !(a.rc_strong
            == Option::Some(true) && (a.unwrap matches Option::Some(u) && !u.off)),
{
}

/// Asserting both `rc_strong` and `unwrap` in one annotation is rejected
/// with the mutual-exclusion diagnostic.
pub proof fn lemma_strong_unwrap_rejected(
    parent: STyRepr,
    alias: Option<Seq<char>>,
    ts: Seq<Tok>,
    u: SUnwrap,
)
    requires
        spec_child_items(spec_meta_chunks(ts), Option::None, Option::None) == Result::<
            (Option<bool>, Option<SUnwrap>),
            DiagKind,
        >::Ok((Option::Some(true), Option::Some(u))),
        !u.off,
    ensures
        spec_child_metas(parent, alias, ts) == Result::<SChildArgs, DiagKind>::Err(
            DiagKind::ExclusiveArgs,
        ),
{
}

/// The legacy spellings are synonyms: `or(...)` parses exactly as
/// `error(...)`, and `or_else(...)` exactly as `map(...)`, for any inner
/// tokens.
pub proof fn lemma_legacy_spelling_equivalence(inner: Seq<Tok>)
    ensures
        spec_unwrap_chunk(seq![Tok::Id("or"@), Tok::Grp(Delim::Paren, inner)])
            == spec_unwrap_chunk(seq![Tok::Id("error"@), Tok::Grp(Delim::Paren, inner)]),
        spec_unwrap_chunk(seq![Tok::Id("or_else"@), Tok::Grp(Delim::Paren, inner)])
            == spec_unwrap_chunk(seq![Tok::Id("map"@), Tok::Grp(Delim::Paren, inner)]),
{
    reveal_strlit("or");
    reveal_strlit("error");
    reveal_strlit("or_else");
    reveal_strlit("map");
    reveal_strlit("off");
    reveal_strlit("expect");
    assert("or"@.len() == 2);
    assert("error"@.len() == 5);
    assert("or_else"@.len() == 7);
    assert("map"@.len() == 3);
    assert("off"@.len() == 3);
    assert("expect"@.len() == 6);
    assert("map"@[0] == 'm');
    assert("off"@[0] == 'o');
    let c1 = seq![Tok::Id("or"@), Tok::Grp(Delim::Paren, inner)];
    let c2 = seq![Tok::Id("error"@), Tok::Grp(Delim::Paren, inner)];
    let c3 = seq![Tok::Id("or_else"@), Tok::Grp(Delim::Paren, inner)];
    let c4 = seq![Tok::Id("map"@), Tok::Grp(Delim::Paren, inner)];
    assert(spec_unwrap_chunk(c1) == spec_error_form(false, inner));
    assert(spec_unwrap_chunk(c2) == spec_error_form(false, inner));
    assert(spec_unwrap_chunk(c3) == spec_error_form(true, inner));
    assert(spec_unwrap_chunk(c4) == spec_error_form(true, inner));
}

/// The legacy spellings are synonyms at the level of the whole `unwrap`
/// argument: `unwrap(or(...))` parses exactly as `unwrap(error(...))`, and
/// `unwrap(or_else(...))` exactly as `unwrap(map(...))`.
pub proof fn lemma_legacy_unwrap_equivalence(inner: Seq<Tok>)
    ensures
        spec_parse_unwrap(seq![Tok::Id("or"@), Tok::Grp(Delim::Paren, inner)])
            == spec_parse_unwrap(seq![Tok::Id("error"@), Tok::Grp(Delim::Paren, inner)]),
        spec_parse_unwrap(seq![Tok::Id("or_else"@), Tok::Grp(Delim::Paren, inner)])
            == spec_parse_unwrap(seq![Tok::Id("map"@), Tok::Grp(Delim::Paren, inner)]),
{
    lemma_legacy_spelling_equivalence(inner);
    lemma_single_meta_chunk(Tok::Id("or"@), Tok::Grp(Delim::Paren, inner));
    lemma_single_meta_chunk(Tok::Id("error"@), Tok::Grp(Delim::Paren, inner));
    lemma_single_meta_chunk(Tok::Id("or_else"@), Tok::Grp(Delim::Paren, inner));
    lemma_single_meta_chunk(Tok::Id("map"@), Tok::Grp(Delim::Paren, inner));
    lemma_unwrap_one_chunk(seq![Tok::Id("or"@), Tok::Grp(Delim::Paren, inner)]);
    lemma_unwrap_one_chunk(seq![Tok::Id("error"@), Tok::Grp(Delim::Paren, inner)]);
    lemma_unwrap_one_chunk(seq![Tok::Id("or_else"@), Tok::Grp(Delim::Paren, inner)]);
    lemma_unwrap_one_chunk(seq![Tok::Id("map"@), Tok::Grp(Delim::Paren, inner)]);
}

/// Two tokens, neither a comma, split into one chunk of the two.
proof fn lemma_single_meta_chunk(a: Tok, b: Tok)
    requires
        a != Tok::Pu(','),
        b != Tok::Pu(','),
    ensures
        spec_meta_chunks(seq![a, b]) =~= seq![seq![a, b]],
{
    let ts = seq![a, b];
    let one = seq![a];
    assert(ts.last() == b);
    assert(ts.drop_last() =~= one);
    assert(one.last() == a);
    assert(one.drop_last() =~= Seq::<Tok>::empty());
    assert(spec_split(Seq::<Tok>::empty()) =~= seq![Seq::<Tok>::empty()]);
    assert(spec_split(one) =~= seq![seq![a]]) by {
        let prev = spec_split(Seq::<Tok>::empty());
        assert(prev.update(prev.len() - 1, prev.last().push(a)) =~= seq![seq![a]]);
    }
    assert(spec_split(ts) =~= seq![seq![a, b]]) by {
        let prev = spec_split(one);
        assert(prev.last().push(b) =~= seq![a, b]);
        assert(prev.update(prev.len() - 1, prev.last().push(b)) =~= seq![seq![a, b]]);
    }
}

/// Folding a single chunk resolves to that chunk's item.
proof fn lemma_unwrap_one_chunk(c: Seq<Tok>)
    requires
        spec_meta_chunks(c) =~= seq![c],
    ensures
        spec_parse_unwrap(c) == (match spec_unwrap_chunk(c) {
            Result::Err(k) => Result::<SUnwrap, DiagKind>::Err(k),
            Result::Ok(SUnwrapItem::UOff) => Result::Ok(
                SUnwrap { off: true, policy: SPolicy::SPanic },
            ),
            Result::Ok(SUnwrapItem::UPolicy(p)) => Result::Ok(SUnwrap { off: false, policy: p }),
        }),
{
    let cs = seq![c];
    assert(cs[0] == c);
    assert(cs.drop_first() =~= Seq::<Seq<Tok>>::empty());
    match spec_unwrap_chunk(c) {
        Result::Err(k) => {},
        Result::Ok(SUnwrapItem::UOff) => {
            assert(spec_unwrap_items(cs.drop_first(), true, Option::None) == Result::<
                SUnwrap,
                DiagKind,
            >::Ok(SUnwrap { off: true, policy: SPolicy::SPanic }));
        },
        Result::Ok(SUnwrapItem::UPolicy(p)) => {
            assert(spec_unwrap_items(cs.drop_first(), false, Option::Some(p)) == Result::<
                SUnwrap,
                DiagKind,
            >::Ok(SUnwrap { off: false, policy: p }));
        },
    }
}

} // verus!
