//! The failure-expression model. The error-constructing policies carry an
//! expression that produces (or computes) the error value; its shape decides
//! how the synthesized accessor invokes it. A bare identifier is sugar for
//! calling a method on `self`; a multi-segment path or anything else is used
//! verbatim; closures are accepted only where a closure is required.

use vstd::prelude::*;
use crate::diag::Diag;
use crate::diag::DiagKind;
use crate::tokens::Delim;
use crate::tokens::Span;
use crate::tokens::Tok;
use crate::tokens::Token;
use crate::tokens::TokenKind;
use crate::tokens::duplicate_tokens;
use crate::tokens::group_token;
use crate::tokens::id_token;
use crate::tokens::is_ident;
use crate::tokens::is_punct;
use crate::tokens::lemma_toks_view_append;
use crate::tokens::lemma_toks_view_index;
use crate::tokens::lemma_toks_view_len;
use crate::tokens::punct_token;
use crate::tokens::toks_view;

verus! {

/// Which failure-handling combinator the expression is translated for:
/// `ok_or` takes a value, `ok_or_else` takes a closure.
#[derive(Clone, Copy, PartialEq, Eq, Structural, Debug)]
pub enum TranslateAs {
    Or,
    OrElse,
}

/// The mathematical view of a classified failure expression.
pub ghost enum SOrExpr {
    SMethodName(Seq<char>),
    SMethodCall(Seq<char>, Seq<Tok>),
    SPathExpr(Seq<Tok>),
    SClosureExpr(Seq<Tok>),
    SOtherExpr(Seq<Tok>),
}

/// A classified failure expression.
pub enum OrExpr {
    /// A bare identifier: sugar for calling that method on `self`.
    MethodName { name: String, span: Span },
    /// A bare call `name(args)`: the method call is made on `self`.
    MethodCall { name: String, args: Vec<Token>, span: Span },
    /// A path of two or more segments, used verbatim.
    PathExpr { toks: Vec<Token> },
    /// A closure, used verbatim where a closure is required.
    ClosureExpr { toks: Vec<Token> },
    /// Any other expression, used verbatim (wrapped in a closure where a
    /// closure is required).
    OtherExpr { toks: Vec<Token> },
}

pub open spec fn or_expr_view(e: OrExpr) -> SOrExpr {
    match e {
        OrExpr::MethodName { name, span } => SOrExpr::SMethodName(name@),
        OrExpr::MethodCall { name, args, span } => SOrExpr::SMethodCall(name@, toks_view(args@)),
        OrExpr::PathExpr { toks } => SOrExpr::SPathExpr(toks_view(toks@)),
        OrExpr::ClosureExpr { toks } => SOrExpr::SClosureExpr(toks_view(toks@)),
        OrExpr::OtherExpr { toks } => SOrExpr::SOtherExpr(toks_view(toks@)),
    }
}

impl View for OrExpr {
    type V = SOrExpr;

    open spec fn view(&self) -> SOrExpr {
        or_expr_view(*self)
    }
}

/// `ts` continues a path: empty, or `:: ident` followed by more of the same.
pub open spec fn spec_path_tail(ts: Seq<Tok>) -> bool
    decreases ts.len(),
{
    ts.len() == 0 || (ts.len() >= 3 && ts[0] == Tok::Pu(':') && ts[1] == Tok::Pu(':') && ts[2] is Id
        && spec_path_tail(ts.skip(3)))
}

/// `ts` is a path of two or more `::`-separated identifiers.
pub open spec fn spec_is_multi_path(ts: Seq<Tok>) -> bool {
    ts.len() >= 3 && ts[0] is Id && spec_path_tail(ts.skip(1))
}

/// How a token sequence is read as a failure expression.
pub open spec fn spec_classify(ts: Seq<Tok>) -> SOrExpr {
    if ts.len() == 1 && ts[0] is Id {
        SOrExpr::SMethodName(ts[0]->Id_0)
    } else if ts.len() == 2 && ts[0] is Id && ts[1] matches Tok::Grp(Delim::Paren, inner) {
        SOrExpr::SMethodCall(ts[0]->Id_0, ts[1]->Grp_1)
    } else if ts.len() >= 1 && (ts[0] == Tok::Pu('|') || ts[0] == Tok::Id("move"@)) {
        SOrExpr::SClosureExpr(ts)
    } else if spec_is_multi_path(ts) {
        SOrExpr::SPathExpr(ts)
    } else {
        SOrExpr::SOtherExpr(ts)
    }
}

fn is_path_tail_from(toks: &Vec<Token>, pos: usize) -> (r: bool)
    requires
        pos <= toks@.len(),
    ensures
        r == spec_path_tail(toks_view(toks@).skip(pos as int)),
    decreases toks@.len() - pos,
{
    proof {
        lemma_toks_view_len(toks@);
    }
    let ghost ts = toks_view(toks@).skip(pos as int);
    let len = toks.len();
    if pos == len {
        return true;
    }
    proof {
        lemma_toks_view_index(toks@, pos as int);
    }
    if len - pos >= 3 && is_punct(&toks[pos], ':') && is_punct(&toks[pos + 1], ':') && matches!(
        &toks[pos + 2].kind,
        TokenKind::Ident(_),
    ) {
        proof {
            lemma_toks_view_index(toks@, pos as int);
            lemma_toks_view_index(toks@, pos + 1);
            lemma_toks_view_index(toks@, pos + 2);
            assert(ts.skip(3) =~= toks_view(toks@).skip(pos + 3));
        }
        is_path_tail_from(toks, pos + 3)
    } else {
        proof {
            if pos + 1 < toks@.len() {
                lemma_toks_view_index(toks@, pos + 1);
            }
            if pos + 2 < toks@.len() {
                lemma_toks_view_index(toks@, pos + 2);
            }
        }
        false
    }
}

/// Classify a failure expression, consuming its tokens.
pub fn classify_expr(toks: Vec<Token>) -> (e: OrExpr)
    ensures
        e@ == spec_classify(toks_view(toks@)),
    decreases toks@.len(),
{
    proof {
        lemma_toks_view_len(toks@);
        if toks@.len() > 0 {
            lemma_toks_view_index(toks@, 0);
        }
        if toks@.len() > 1 {
            lemma_toks_view_index(toks@, 1);
        }
    }
    let ghost ts = toks_view(toks@);
    if toks.len() == 1 && matches!(&toks[0].kind, TokenKind::Ident(_)) {
        let mut toks = toks;
        let t = toks.remove(0);
        let span = t.span;
        match t.kind {
            TokenKind::Ident(name) => OrExpr::MethodName { name, span },
            _ => {
                proof {
                    assert(false);
                }
                OrExpr::OtherExpr { toks }
            },
        }
    } else if toks.len() == 2 && matches!(&toks[0].kind, TokenKind::Ident(_)) && matches!(
        &toks[1].kind,
        TokenKind::Group(Delim::Paren, _),
    ) {
        let mut toks = toks;
        let g = toks.remove(1);
        let t = toks.remove(0);
        let span = t.span;
        match (t.kind, g.kind) {
            (TokenKind::Ident(name), TokenKind::Group(Delim::Paren, args)) => {
                OrExpr::MethodCall { name, args, span }
            },
            _ => {
                proof {
                    assert(false);
                }
                OrExpr::OtherExpr { toks }
            },
        }
    } else if toks.len() >= 1 && (is_punct(&toks[0], '|') || is_ident(&toks[0], "move")) {
        OrExpr::ClosureExpr { toks }
    } else {
        let multi = toks.len() >= 3 && matches!(&toks[0].kind, TokenKind::Ident(_))
            && is_path_tail_from(&toks, 1);
        proof {
            if toks@.len() >= 3 {
                assert(ts.skip(1) =~= toks_view(toks@).skip(1));
            }
        }
        if multi {
            OrExpr::PathExpr { toks }
        } else {
            OrExpr::OtherExpr { toks }
        }
    }
}

/// The closure head that `ok_or_else` requires and `ok_or` must not have.
pub open spec fn spec_closure_head(ta: TranslateAs) -> Seq<Tok> {
    match ta {
        TranslateAs::Or => Seq::empty(),
        TranslateAs::OrElse => seq![Tok::Pu('|'), Tok::Pu('|')],
    }
}

/// The tokens of `self . name ( args )`.
pub open spec fn spec_self_call(name: Seq<char>, args: Seq<Tok>) -> Seq<Tok> {
    seq![Tok::Id("self"@), Tok::Pu('.'), Tok::Id(name), Tok::Grp(Delim::Paren, args)]
}

/// How a classified expression is translated for the chosen combinator.
/// A bare identifier becomes a call of that method on `self`; a bare call
/// becomes the same call on `self`; a multi-segment path and a closure are
/// used verbatim; anything else is used verbatim, wrapped in a closure head
/// where a closure is required. A closure where a plain value is required
/// has no translation.
pub open spec fn spec_translate_or(e: SOrExpr, ta: TranslateAs) -> Option<Seq<Tok>> {
    match e {
        SOrExpr::SMethodName(name) => Option::Some(
            spec_closure_head(ta) + spec_self_call(name, Seq::empty()),
        ),
        SOrExpr::SMethodCall(name, args) => match ta {
            TranslateAs::Or => Option::Some(seq![Tok::Id(name), Tok::Grp(Delim::Paren, args)]),
            TranslateAs::OrElse => Option::Some(spec_closure_head(ta) + spec_self_call(name, args)),
        },
        SOrExpr::SPathExpr(ts) => Option::Some(ts),
        SOrExpr::SClosureExpr(ts) => match ta {
            TranslateAs::Or => Option::None,
            TranslateAs::OrElse => Option::Some(ts),
        },
        SOrExpr::SOtherExpr(ts) => Option::Some(spec_closure_head(ta) + ts),
    }
}

/// Translate a failure expression for the chosen combinator. The one
/// rejection: a closure where a plain value is required.
pub fn translate_or_expr(e: &OrExpr, translate_as: TranslateAs, span: Span) -> (r: Result<
    Vec<Token>,
    Diag,
>)
    ensures
        match r {
            Result::Ok(out) => spec_translate_or(e@, translate_as) == Option::Some(
                toks_view(out@),
            ),
            Result::Err(d) => spec_translate_or(e@, translate_as) is None && d.kind
                == DiagKind::ClosureNotAllowed && d.spans@.len() >= 1,
        },
{
    let mut out: Vec<Token> = Vec::new();
    proof {
        assert(toks_view(out@) =~= Seq::<Tok>::empty());
    }
    match e {
        OrExpr::MethodName { name, span: espan } => {
            push_closure_head(&mut out, translate_as, span);
            push_self_call(&mut out, name, Vec::new(), *espan);
            Result::Ok(out)
        },
        OrExpr::MethodCall { name, args, span: espan } => {
            match translate_as {
                TranslateAs::Or => {
                    let mut out: Vec<Token> = Vec::new();
                    push_tok_view(&mut out, id_token(name.as_str(), *espan));
                    let dup = duplicate_tokens(args);
                    push_tok_view(&mut out, group_token(Delim::Paren, dup, *espan));
                    proof {
                        assert(toks_view(out@) =~= seq![
                            Tok::Id(name@),
                            Tok::Grp(Delim::Paren, toks_view(args@)),
                        ]);
                    }
                    Result::Ok(out)
                },
                TranslateAs::OrElse => {
                    push_closure_head(&mut out, translate_as, span);
                    push_self_call(&mut out, name, duplicate_tokens(args), *espan);
                    Result::Ok(out)
                },
            }
        },
        OrExpr::PathExpr { toks } => {
            let dup = duplicate_tokens(toks);
            Result::Ok(dup)
        },
        OrExpr::ClosureExpr { toks } => {
            match translate_as {
                TranslateAs::Or => Result::Err(
                    Diag::new(DiagKind::ClosureNotAllowed, first_span(toks, span)),
                ),
                TranslateAs::OrElse => Result::Ok(duplicate_tokens(toks)),
            }
        },
        OrExpr::OtherExpr { toks } => {
            push_closure_head(&mut out, translate_as, span);
            let ghost pre = out@;
            let mut dup = duplicate_tokens(toks);
            let ghost dupv = dup@;
            out.append(&mut dup);
            proof {
                assert(out@ =~= pre + dupv);
                lemma_toks_view_append(pre, dupv);
                assert(Seq::<Tok>::empty() + spec_closure_head(translate_as) =~= spec_closure_head(
                    translate_as,
                ));
                assert(toks_view(out@) =~= spec_closure_head(translate_as) + toks_view(toks@));
            }
            Result::Ok(out)
        },
    }
}

/// The span of the first token, or the fallback where there is none.
pub fn first_span(toks: &Vec<Token>, fallback: Span) -> (s: Span)
    ensures
        toks@.len() > 0 ==> s == toks@[0].span,
        toks@.len() == 0 ==> s == fallback,
{
    if toks.len() > 0 {
        toks[0].span
    } else {
        fallback
    }
}

fn push_tok_view(out: &mut Vec<Token>, t: Token)
    ensures
        toks_view(final(out)@) == toks_view(old(out)@).push(t@),
        final(out)@.len() == old(out)@.len() + 1,
{
    proof {
        crate::tokens::lemma_toks_view_push(out@, t);
        lemma_toks_view_len(out@);
        lemma_toks_view_len(out@.push(t));
    }
    out.push(t);
}

fn push_closure_head(out: &mut Vec<Token>, ta: TranslateAs, span: Span)
    ensures
        toks_view(final(out)@) == toks_view(old(out)@) + spec_closure_head(ta),
{
    match ta {
        TranslateAs::Or => {
            proof {
                assert(toks_view(out@) =~= toks_view(out@) + spec_closure_head(ta));
            }
        },
        TranslateAs::OrElse => {
            push_tok_view(out, punct_token('|', span));
            push_tok_view(out, punct_token('|', span));
            proof {
                assert(toks_view(out@) =~= toks_view(old(out)@) + spec_closure_head(ta));
            }
        },
    }
}

fn push_self_call(out: &mut Vec<Token>, name: &String, args: Vec<Token>, span: Span)
    ensures
        toks_view(final(out)@) == toks_view(old(out)@) + spec_self_call(name@, toks_view(args@)),
{
    push_tok_view(out, id_token("self", span));
    push_tok_view(out, punct_token('.', span));
    push_tok_view(out, id_token(name.as_str(), span));
    let ghost argsv = toks_view(args@);
    push_tok_view(out, group_token(Delim::Paren, args, span));
    proof {
        assert(toks_view(out@) =~= toks_view(old(out)@) + spec_self_call(name@, argsv));
    }
}

} // verus!
