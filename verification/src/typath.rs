//! A structural model of the path types that may appear in a relationship
//! annotation: the owner type, error types, and the reference-counted
//! wrappers that synthesis puts around them.
//!
//! A [`TypePath`] is a possibly `::`-led sequence of segments, each an
//! identifier with optional generic type arguments. The module gives the
//! type a renderer to tokens and a parser from tokens, and ties the two
//! together: whatever the parser accepts renders back to exactly the tokens
//! it consumed.

use vstd::prelude::*;
use crate::tokens::Delim;
use crate::tokens::Span;
use crate::tokens::Tok;
use crate::tokens::Token;
use crate::tokens::TokenKind;
use crate::tokens::duplicate_tokens;
use crate::tokens::id_token;
use crate::tokens::is_punct;
use crate::tokens::lemma_toks_view_append;
use crate::tokens::lemma_toks_view_index;
use crate::tokens::lemma_toks_view_len;
use crate::tokens::lemma_toks_view_push;
use crate::tokens::punct_token;
use crate::tokens::tok_view;
use crate::tokens::toks_view;

verus! {

/// The mathematical view of a path type.
pub ghost struct STy {
    pub lead: bool,
    pub segs: Seq<SSeg>,
}

/// The mathematical view of one path segment.
pub ghost struct SSeg {
    pub name: Seq<char>,
    pub args: Seq<STy>,
}

/// A path type: optional leading `::`, then `::`-separated segments.
pub struct TypePath {
    pub lead: bool,
    pub segs: Vec<PathSeg>,
}

/// One segment of a path type: an identifier, with the generic type
/// arguments that followed it in angle brackets, if any.
pub struct PathSeg {
    pub name: String,
    pub args: Vec<TypePath>,
}

pub open spec fn ty_view(t: TypePath) -> STy
    decreases t,
{
    STy { lead: t.lead, segs: segs_view(t.segs@) }
}

pub open spec fn segs_view(ss: Seq<PathSeg>) -> Seq<SSeg>
    decreases ss,
{
    if ss.len() == 0 {
        Seq::empty()
    } else {
        seq![seg_view(ss[0])] + segs_view(ss.drop_first())
    }
}

pub open spec fn seg_view(s: PathSeg) -> SSeg
    decreases s,
{
    SSeg { name: s.name@, args: tys_view(s.args@) }
}

pub open spec fn tys_view(ts: Seq<TypePath>) -> Seq<STy>
    decreases ts,
{
    if ts.len() == 0 {
        Seq::empty()
    } else {
        seq![ty_view(ts[0])] + tys_view(ts.drop_first())
    }
}

impl View for TypePath {
    type V = STy;

    open spec fn view(&self) -> STy {
        ty_view(*self)
    }
}

impl View for PathSeg {
    type V = SSeg;

    open spec fn view(&self) -> SSeg {
        seg_view(*self)
    }
}

/// Structural well-formedness: a path has at least one segment, recursively.
pub open spec fn wf_sty(t: STy) -> bool
    decreases t,
{
    t.segs.len() > 0 && (forall|i: int| 0 <= i < t.segs.len() ==> wf_sseg(#[trigger] t.segs[i]))
}

pub open spec fn wf_sseg(s: SSeg) -> bool
    decreases s,
{
    forall|i: int| 0 <= i < s.args.len() ==> wf_sty(#[trigger] s.args[i])
}

/// The token rendering of a path type.
pub open spec fn spec_render_ty(t: STy) -> Seq<Tok>
    decreases t,
{
    (if t.lead {
        seq![Tok::Pu(':'), Tok::Pu(':')]
    } else {
        Seq::<Tok>::empty()
    }) + spec_render_segs(t.segs)
}

/// The token rendering of a nonempty segment list, `::`-joined.
pub open spec fn spec_render_segs(ss: Seq<SSeg>) -> Seq<Tok>
    decreases ss,
{
    if ss.len() == 0 {
        Seq::empty()
    } else if ss.len() == 1 {
        spec_render_seg(ss[0])
    } else {
        spec_render_seg(ss[0]) + seq![Tok::Pu(':'), Tok::Pu(':')] + spec_render_segs(ss.drop_first())
    }
}

/// The token rendering of one segment: the identifier, then `<args>` if any.
pub open spec fn spec_render_seg(s: SSeg) -> Seq<Tok>
    decreases s,
{
    seq![Tok::Id(s.name)] + (if s.args.len() == 0 {
        Seq::<Tok>::empty()
    } else {
        seq![Tok::Pu('<')] + spec_render_args(s.args) + seq![Tok::Pu('>')]
    })
}

/// The token rendering of a nonempty argument list, comma-joined.
pub open spec fn spec_render_args(ts: Seq<STy>) -> Seq<Tok>
    decreases ts,
{
    if ts.len() == 0 {
        Seq::empty()
    } else if ts.len() == 1 {
        spec_render_ty(ts[0])
    } else {
        spec_render_ty(ts[0]) + seq![Tok::Pu(',')] + spec_render_args(ts.drop_first())
    }
}

/// Append the token rendering of `t` to `out`, every token carrying `span`.
#[verifier::rlimit(60)]
pub fn render_type_into(t: &TypePath, span: Span, out: &mut Vec<Token>)
    ensures
        toks_view(final(out)@) == toks_view(old(out)@) + spec_render_ty(t@),
    decreases t,
{
    proof {
        lemma_toks_view_len(out@);
    }
    if t.lead {
        push_tok(out, punct_token(':', span));
        push_tok(out, punct_token(':', span));
    }
    let ghost before_segs = toks_view(out@);
    let mut i: usize = 0;
    while i < t.segs.len()
        invariant
            i <= t.segs@.len(),
            toks_view(out@) == before_segs + spec_render_segs(segs_view(t.segs@.take(i as int)))
                + (if i > 0 && i < t.segs@.len() {
                    seq![Tok::Pu(':'), Tok::Pu(':')]
                } else {
                    Seq::<Tok>::empty()
                }),
            before_segs == toks_view(old(out)@) + (if t.lead {
                seq![Tok::Pu(':'), Tok::Pu(':')]
            } else {
                Seq::<Tok>::empty()
            }),
        decreases t.segs@.len() - i,
    {
        render_seg_into(&t.segs[i], span, out);
        proof {
            lemma_render_segs_snoc(segs_view(t.segs@.take(i as int)), seg_view(t.segs@[i as int]));
            lemma_segs_view_take_snoc(t.segs@, i as int);
            lemma_segs_view_len(t.segs@.take(i as int));
        }
        i = i + 1;
        if i < t.segs.len() {
            push_tok(out, punct_token(':', span));
            push_tok(out, punct_token(':', span));
        }
    }
    proof {
        assert(t.segs@.take(t.segs@.len() as int) =~= t.segs@);
        assert(toks_view(out@) =~= toks_view(old(out)@) + spec_render_ty(t@));
    }
}

/// Append the token rendering of one segment to `out`.
pub fn render_seg_into(s: &PathSeg, span: Span, out: &mut Vec<Token>)
    ensures
        toks_view(final(out)@) == toks_view(old(out)@) + spec_render_seg(s@),
    decreases s,
{
    push_tok(out, id_token(s.name.as_str(), span));
    if s.args.len() > 0 {
        push_tok(out, punct_token('<', span));
        let ghost before_args = toks_view(out@);
        let mut i: usize = 0;
        while i < s.args.len()
            invariant
                i <= s.args@.len(),
                toks_view(out@) == before_args + spec_render_args(tys_view(s.args@.take(i as int)))
                    + (if i > 0 && i < s.args@.len() {
                        seq![Tok::Pu(',')]
                    } else {
                        Seq::<Tok>::empty()
                    }),
                s.args@.len() > 0,
                before_args == toks_view(old(out)@) + seq![Tok::Id(s.name@), Tok::Pu('<')],
            decreases s.args@.len() - i,
        {
            render_type_into(&s.args[i], span, out);
            proof {
                lemma_render_args_snoc(tys_view(s.args@.take(i as int)), ty_view(s.args@[i as int]));
                lemma_tys_view_take_snoc(s.args@, i as int);
                lemma_tys_view_len(s.args@.take(i as int));
            }
            i = i + 1;
            if i < s.args.len() {
                push_tok(out, punct_token(',', span));
            }
        }
        push_tok(out, punct_token('>', span));
        proof {
            assert(s.args@.take(s.args@.len() as int) =~= s.args@);
            assert(toks_view(out@) =~= toks_view(old(out)@) + spec_render_seg(s@));
        }
    } else {
        proof {
            assert(toks_view(out@) =~= toks_view(old(out)@) + spec_render_seg(s@));
        }
    }
}

/// Render a path type to a fresh token vector.
pub fn render_type_tokens(t: &TypePath, span: Span) -> (out: Vec<Token>)
    ensures
        toks_view(out@) == spec_render_ty(t@),
{
    let mut out: Vec<Token> = Vec::new();
    proof {
        assert(toks_view(out@) =~= Seq::<Tok>::empty());
    }
    render_type_into(t, span, &mut out);
    proof {
        assert(Seq::<Tok>::empty() + spec_render_ty(t@) =~= spec_render_ty(t@));
    }
    out
}

fn push_tok(out: &mut Vec<Token>, t: Token)
    ensures
        final(out)@ == old(out)@.push(t),
        toks_view(final(out)@) == toks_view(old(out)@).push(t@),
{
    proof {
        lemma_toks_view_push(out@, t);
    }
    out.push(t);
}

proof fn lemma_render_segs_snoc(ss: Seq<SSeg>, s: SSeg)
    ensures
        spec_render_segs(ss.push(s)) =~= if ss.len() == 0 {
            spec_render_seg(s)
        } else {
            spec_render_segs(ss) + seq![Tok::Pu(':'), Tok::Pu(':')] + spec_render_seg(s)
        },
    decreases ss,
{
    if ss.len() == 0 {
        assert(ss.push(s)[0] == s);
        assert(ss.push(s).len() == 1);
    } else {
        assert(ss.push(s).drop_first() =~= ss.drop_first().push(s));
        lemma_render_segs_snoc(ss.drop_first(), s);
        if ss.len() == 1 {
            assert(spec_render_segs(ss) =~= spec_render_seg(ss[0]));
        }
    }
}

proof fn lemma_render_args_snoc(ts: Seq<STy>, t: STy)
    ensures
        spec_render_args(ts.push(t)) =~= if ts.len() == 0 {
            spec_render_ty(t)
        } else {
            spec_render_args(ts) + seq![Tok::Pu(',')] + spec_render_ty(t)
        },
    decreases ts,
{
    if ts.len() == 0 {
        assert(ts.push(t)[0] == t);
    } else {
        assert(ts.push(t).drop_first() =~= ts.drop_first().push(t));
        lemma_render_args_snoc(ts.drop_first(), t);
        if ts.len() == 1 {
            assert(spec_render_args(ts) =~= spec_render_ty(ts[0]));
        }
    }
}

pub proof fn lemma_segs_view_len(ss: Seq<PathSeg>)
    ensures
        segs_view(ss).len() == ss.len(),
    decreases ss,
{
    if ss.len() > 0 {
        lemma_segs_view_len(ss.drop_first());
    }
}

pub proof fn lemma_tys_view_len(ts: Seq<TypePath>)
    ensures
        tys_view(ts).len() == ts.len(),
    decreases ts,
{
    if ts.len() > 0 {
        lemma_tys_view_len(ts.drop_first());
    }
}

proof fn lemma_segs_view_take_snoc(ss: Seq<PathSeg>, i: int)
    requires
        0 <= i < ss.len(),
    ensures
        segs_view(ss.take(i + 1)) =~= segs_view(ss.take(i)).push(seg_view(ss[i])),
    decreases i,
{
    lemma_segs_view_snoc(ss.take(i), ss[i]);
    assert(ss.take(i).push(ss[i]) =~= ss.take(i + 1));
}

proof fn lemma_segs_view_snoc(ss: Seq<PathSeg>, s: PathSeg)
    ensures
        segs_view(ss.push(s)) =~= segs_view(ss).push(seg_view(s)),
    decreases ss,
{
    if ss.len() == 0 {
        assert(ss.push(s)[0] == s);
        assert(ss.push(s).drop_first() =~= Seq::<PathSeg>::empty());
        assert(segs_view(Seq::<PathSeg>::empty()) =~= Seq::<SSeg>::empty());
        assert(segs_view(ss.push(s).drop_first()) =~= Seq::<SSeg>::empty());
        assert(segs_view(ss.push(s)) =~= seq![seg_view(s)]);
        assert(segs_view(ss).push(seg_view(s)) =~= seq![seg_view(s)]);
    } else {
        assert(ss.push(s)[0] == ss[0]);
        assert(ss.push(s).drop_first() =~= ss.drop_first().push(s));
        lemma_segs_view_snoc(ss.drop_first(), s);
        assert(segs_view(ss.push(s)) =~= seq![seg_view(ss[0])] + segs_view(ss.drop_first()).push(
            seg_view(s),
        ));
        assert(segs_view(ss).push(seg_view(s)) =~= seq![seg_view(ss[0])] + segs_view(
            ss.drop_first(),
        ).push(seg_view(s)));
    }
}

proof fn lemma_tys_view_take_snoc(ts: Seq<TypePath>, i: int)
    requires
        0 <= i < ts.len(),
    ensures
        tys_view(ts.take(i + 1)) =~= tys_view(ts.take(i)).push(ty_view(ts[i])),
{
    lemma_tys_view_snoc(ts.take(i), ts[i]);
    assert(ts.take(i).push(ts[i]) =~= ts.take(i + 1));
}

proof fn lemma_tys_view_snoc(ts: Seq<TypePath>, t: TypePath)
    ensures
        tys_view(ts.push(t)) =~= tys_view(ts).push(ty_view(t)),
    decreases ts,
{
    if ts.len() == 0 {
        assert(ts.push(t)[0] == t);
        assert(ts.push(t).drop_first() =~= Seq::<TypePath>::empty());
        assert(tys_view(Seq::<TypePath>::empty()) =~= Seq::<STy>::empty());
        assert(tys_view(ts.push(t).drop_first()) =~= Seq::<STy>::empty());
        assert(tys_view(ts.push(t)) =~= seq![ty_view(t)]);
        assert(tys_view(ts).push(ty_view(t)) =~= seq![ty_view(t)]);
    } else {
        assert(ts.push(t)[0] == ts[0]);
        assert(ts.push(t).drop_first() =~= ts.drop_first().push(t));
        lemma_tys_view_snoc(ts.drop_first(), t);
        assert(tys_view(ts.push(t)) =~= seq![ty_view(ts[0])] + tys_view(ts.drop_first()).push(
            ty_view(t),
        ));
        assert(tys_view(ts).push(ty_view(t)) =~= seq![ty_view(ts[0])] + tys_view(
            ts.drop_first(),
        ).push(ty_view(t)));
    }
}

/// Fuel that the parser runs with for an input of `len` tokens.
pub open spec fn type_parse_fuel(len: nat) -> nat {
    3 * len + 3
}

/// Parse a path type from the front of `ts`. Returns the parsed type and the
/// number of tokens consumed, or nothing if no type starts there. The fuel
/// bounds the recursion; `type_parse_fuel` of the input length is always
/// enough in practice.
pub open spec fn spec_parse_ty(ts: Seq<Tok>, fuel: nat) -> Option<(STy, nat)>
    decreases fuel,
{
    if fuel == 0 {
        Option::None
    } else {
        let f = (fuel - 1) as nat;
        if ts.len() >= 2 && ts[0] == Tok::Pu(':') && ts[1] == Tok::Pu(':') {
            match spec_parse_segs(ts.skip(2), f) {
                Option::Some((segs, n)) => Option::Some((STy { lead: true, segs }, (n + 2) as nat)),
                Option::None => Option::None,
            }
        } else {
            match spec_parse_segs(ts, f) {
                Option::Some((segs, n)) => Option::Some((STy { lead: false, segs }, n)),
                Option::None => Option::None,
            }
        }
    }
}

/// Parse one or more `::`-separated segments from the front of `ts`.
pub open spec fn spec_parse_segs(ts: Seq<Tok>, fuel: nat) -> Option<(Seq<SSeg>, nat)>
    decreases fuel,
{
    if fuel == 0 {
        Option::None
    } else {
        let f = (fuel - 1) as nat;
        match spec_parse_seg(ts, f) {
            Option::None => Option::None,
            Option::Some((seg, n)) => {
                if ((n + 2) as int) <= ts.len() && ts[n as int] == Tok::Pu(':') && ts[(n + 1) as int] == Tok::Pu(':') {
                    match spec_parse_segs(ts.skip((n + 2) as int), f) {
                        Option::Some((more, m)) => Option::Some(
                            (seq![seg] + more, (n + 2 + m) as nat),
                        ),
                        Option::None => Option::None,
                    }
                } else {
                    Option::Some((seq![seg], n))
                }
            },
        }
    }
}

/// Parse one segment: an identifier, optionally followed by `<args>`.
pub open spec fn spec_parse_seg(ts: Seq<Tok>, fuel: nat) -> Option<(SSeg, nat)>
    decreases fuel,
{
    if fuel == 0 || ts.len() == 0 {
        Option::None
    } else {
        let f = (fuel - 1) as nat;
        match ts[0] {
            Tok::Id(name) => {
                if ts.len() >= 2 && ts[1] == Tok::Pu('<') {
                    match spec_parse_args(ts.skip(2), f) {
                        Option::Some((args, n)) => {
                            if ((2 + n) as int) < ts.len() && ts[(2 + n) as int] == Tok::Pu('>') {
                                Option::Some((SSeg { name, args }, (n + 3) as nat))
                            } else {
                                Option::None
                            }
                        },
                        Option::None => Option::None,
                    }
                } else {
                    Option::Some((SSeg { name, args: Seq::empty() }, 1))
                }
            },
            _ => Option::None,
        }
    }
}

/// Parse one or more comma-separated type arguments from the front of `ts`.
pub open spec fn spec_parse_args(ts: Seq<Tok>, fuel: nat) -> Option<(Seq<STy>, nat)>
    decreases fuel,
{
    if fuel == 0 {
        Option::None
    } else {
        let f = (fuel - 1) as nat;
        match spec_parse_ty(ts, f) {
            Option::None => Option::None,
            Option::Some((ty, n)) => {
                if n < ts.len() && ts[n as int] == Tok::Pu(',') {
                    match spec_parse_args(ts.skip((n + 1) as int), f) {
                        Option::Some((more, m)) => Option::Some(
                            (seq![ty] + more, (n + 1 + m) as nat),
                        ),
                        Option::None => Option::None,
                    }
                } else {
                    Option::Some((seq![ty], n))
                }
            },
        }
    }
}

/// Whatever the parser accepts is well formed and renders back to exactly the
/// tokens it consumed.
pub proof fn lemma_parse_ty_sound(ts: Seq<Tok>, fuel: nat)
    ensures
        spec_parse_ty(ts, fuel) matches Option::Some((t, n)) ==> n <= ts.len() && wf_sty(t)
            && spec_render_ty(t) =~= ts.take(n as int),
    decreases fuel,
{
    if fuel > 0 {
        let f = (fuel - 1) as nat;
        if ts.len() >= 2 && ts[0] == Tok::Pu(':') && ts[1] == Tok::Pu(':') {
            lemma_parse_segs_sound(ts.skip(2), f);
            match spec_parse_segs(ts.skip(2), f) {
                Option::Some((segs, n)) => {
                    assert(spec_render_segs(segs) =~= ts.skip(2).take(n as int));
                    assert(spec_render_ty(STy { lead: true, segs }) =~= ts.take((n + 2) as int));
                },
                Option::None => {},
            }
        } else {
            lemma_parse_segs_sound(ts, f);
            match spec_parse_segs(ts, f) {
                Option::Some((segs, n)) => {
                    assert(spec_render_ty(STy { lead: false, segs }) =~= ts.take(n as int));
                },
                Option::None => {},
            }
        }
    }
}

pub proof fn lemma_parse_segs_sound(ts: Seq<Tok>, fuel: nat)
    ensures
        spec_parse_segs(ts, fuel) matches Option::Some((segs, n)) ==> n <= ts.len()
            && segs.len() > 0 && (forall|i: int|
            0 <= i < segs.len() ==> wf_sseg(#[trigger] segs[i])) && spec_render_segs(segs)
            =~= ts.take(n as int),
    decreases fuel,
{
    if fuel > 0 {
        let f = (fuel - 1) as nat;
        lemma_parse_seg_sound(ts, f);
        match spec_parse_seg(ts, f) {
            Option::Some((seg, n)) => {
                if ((n + 2) as int) <= ts.len() && ts[n as int] == Tok::Pu(':') && ts[(n + 1) as int] == Tok::Pu(':') {
                    lemma_parse_segs_sound(ts.skip((n + 2) as int), f);
                    match spec_parse_segs(ts.skip((n + 2) as int), f) {
                        Option::Some((more, m)) => {
                            let whole = seq![seg] + more;
                            assert(whole[0] == seg);
                            assert(whole.drop_first() =~= more);
                            assert(spec_render_seg(seg) =~= ts.take(n as int));
                            assert(spec_render_segs(more) =~= ts.skip((n + 2) as int).take(m as int));
                            assert(spec_render_segs(whole) == spec_render_seg(whole[0])
                                + seq![Tok::Pu(':'), Tok::Pu(':')] + spec_render_segs(
                                whole.drop_first(),
                            ));
                            assert(spec_render_segs(whole) =~= ts.take((n + 2 + m) as int));
                        },
                        Option::None => {},
                    }
                } else {
                    let whole = seq![seg];
                    assert(whole[0] == seg);
                    assert(spec_render_segs(whole) =~= ts.take(n as int));
                }
            },
            Option::None => {},
        }
    }
}

pub proof fn lemma_parse_seg_sound(ts: Seq<Tok>, fuel: nat)
    ensures
        spec_parse_seg(ts, fuel) matches Option::Some((seg, n)) ==> 1 <= n <= ts.len()
            && wf_sseg(seg) && spec_render_seg(seg) =~= ts.take(n as int),
    decreases fuel,
{
    if fuel > 0 && ts.len() > 0 {
        let f = (fuel - 1) as nat;
        match ts[0] {
            Tok::Id(name) => {
                if ts.len() >= 2 && ts[1] == Tok::Pu('<') {
                    lemma_parse_args_sound(ts.skip(2), f);
                    match spec_parse_args(ts.skip(2), f) {
                        Option::Some((args, n)) => {
                            if ((2 + n) as int) < ts.len() && ts[(2 + n) as int] == Tok::Pu('>') {
                                assert(spec_render_args(args) =~= ts.skip(2).take(n as int));
                                assert(args.len() > 0);
                                assert(spec_render_seg(SSeg { name, args }) =~= ts.take((n + 3) as int));
                            }
                        },
                        Option::None => {},
                    }
                } else {
                    assert(spec_render_seg(SSeg { name, args: Seq::empty() }) =~= ts.take(1));
                }
            },
            _ => {},
        }
    }
}

pub proof fn lemma_parse_args_sound(ts: Seq<Tok>, fuel: nat)
    ensures
        spec_parse_args(ts, fuel) matches Option::Some((args, n)) ==> n <= ts.len()
            && args.len() > 0 && (forall|i: int|
            0 <= i < args.len() ==> wf_sty(#[trigger] args[i])) && spec_render_args(args)
            =~= ts.take(n as int),
    decreases fuel,
{
    if fuel > 0 {
        let f = (fuel - 1) as nat;
        lemma_parse_ty_sound(ts, f);
        match spec_parse_ty(ts, f) {
            Option::Some((ty, n)) => {
                if n < ts.len() && ts[n as int] == Tok::Pu(',') {
                    lemma_parse_args_sound(ts.skip((n + 1) as int), f);
                    match spec_parse_args(ts.skip((n + 1) as int), f) {
                        Option::Some((more, m)) => {
                            let whole = seq![ty] + more;
                            assert(whole[0] == ty);
                            assert(whole.drop_first() =~= more);
                            assert(spec_render_ty(ty) =~= ts.take(n as int));
                            assert(spec_render_args(more) =~= ts.skip((n + 1) as int).take(m as int));
                            assert(spec_render_args(whole) == spec_render_ty(whole[0])
                                + seq![Tok::Pu(',')] + spec_render_args(whole.drop_first()));
                            assert(spec_render_args(whole) =~= ts.take((n + 1 + m) as int));
                        },
                        Option::None => {},
                    }
                } else {
                    let whole = seq![ty];
                    assert(whole[0] == ty);
                    assert(spec_render_args(whole) =~= ts.take(n as int));
                }
            },
            Option::None => {},
        }
    }
}

proof fn lemma_skip_skip(toks: Seq<Token>, pos: int, k: int)
    requires
        0 <= pos,
        0 <= k,
        pos + k <= toks.len(),
    ensures
        toks_view(toks).skip(pos).skip(k) =~= toks_view(toks).skip(pos + k),
        toks_view(toks).len() == toks.len(),
{
    lemma_toks_view_len(toks);
}

proof fn lemma_at(toks: Seq<Token>, pos: int, i: int)
    requires
        0 <= pos,
        0 <= i,
        pos + i < toks.len(),
    ensures
        toks_view(toks).skip(pos)[i] == tok_view(toks[pos + i]),
        toks_view(toks).len() == toks.len(),
{
    lemma_toks_view_len(toks);
    lemma_toks_view_index(toks, pos + i);
}

proof fn lemma_segs_view_cons(s: PathSeg, rest: Seq<PathSeg>)
    ensures
        segs_view(seq![s] + rest) =~= seq![seg_view(s)] + segs_view(rest),
{
    let whole = seq![s] + rest;
    assert(whole[0] == s);
    assert(whole.drop_first() =~= rest);
}

proof fn lemma_tys_view_cons(t: TypePath, rest: Seq<TypePath>)
    ensures
        tys_view(seq![t] + rest) =~= seq![ty_view(t)] + tys_view(rest),
{
    let whole = seq![t] + rest;
    assert(whole[0] == t);
    assert(whole.drop_first() =~= rest);
}

/// Parse a path type from `toks[pos..]`, mirroring [`spec_parse_ty`].
pub fn parse_ty_at(toks: &Vec<Token>, pos: usize, fuel: usize) -> (r: Option<(TypePath, usize)>)
    requires
        pos <= toks@.len(),
    ensures
        ({
            let sp = spec_parse_ty(toks_view(toks@).skip(pos as int), fuel as nat);
            match r {
                Option::Some((t, n)) => sp == Option::Some((t@, n as nat)) && pos + n
                    <= toks@.len(),
                Option::None => sp is None,
            }
        }),
    decreases fuel,
{
    proof {
        lemma_toks_view_len(toks@);
    }
    let ghost ts = toks_view(toks@).skip(pos as int);
    if fuel == 0 {
        return Option::None;
    }
    let f = fuel - 1;
    let len = toks.len();
    let lead = len - pos >= 2 && is_punct(&toks[pos], ':') && is_punct(&toks[pos + 1], ':');
    proof {
        if pos + 1 < toks@.len() {
            lemma_at(toks@, pos as int, 0);
            lemma_at(toks@, pos as int, 1);
        }
        assert(lead == (ts.len() >= 2 && ts[0] == Tok::Pu(':') && ts[1] == Tok::Pu(':')));
    }
    if lead {
        proof {
            lemma_skip_skip(toks@, pos as int, 2);
        }
        match parse_segs_at(toks, pos + 2, f) {
            Option::Some((segs, n)) => Option::Some((TypePath { lead: true, segs }, n + 2)),
            Option::None => Option::None,
        }
    } else {
        match parse_segs_at(toks, pos, f) {
            Option::Some((segs, n)) => Option::Some((TypePath { lead: false, segs }, n)),
            Option::None => Option::None,
        }
    }
}

/// Parse `::`-separated segments from `toks[pos..]`, mirroring
/// [`spec_parse_segs`].
pub fn parse_segs_at(toks: &Vec<Token>, pos: usize, fuel: usize) -> (r: Option<
    (Vec<PathSeg>, usize),
>)
    requires
        pos <= toks@.len(),
    ensures
        ({
            let sp = spec_parse_segs(toks_view(toks@).skip(pos as int), fuel as nat);
            match r {
                Option::Some((segs, n)) => sp == Option::Some((segs_view(segs@), n as nat)) && pos
                    + n <= toks@.len(),
                Option::None => sp is None,
            }
        }),
    decreases fuel,
{
    proof {
        lemma_toks_view_len(toks@);
    }
    let ghost ts = toks_view(toks@).skip(pos as int);
    if fuel == 0 {
        return Option::None;
    }
    let f = fuel - 1;
    match parse_seg_at(toks, pos, f) {
        Option::None => Option::None,
        Option::Some((seg, n)) => {
            proof {
                lemma_parse_seg_sound(ts, f as nat);
            }
            let len = toks.len();
            let more_ahead = len - pos >= 2 && n <= len - pos - 2 && is_punct(&toks[pos + n], ':')
                && is_punct(&toks[pos + n + 1], ':');
            proof {
                if pos + n + 2 <= toks@.len() {
                    lemma_at(toks@, pos as int, n as int);
                    lemma_at(toks@, pos as int, n + 1);
                }
            }
            if more_ahead {
                proof {
                    lemma_skip_skip(toks@, pos as int, n + 2);
                }
                match parse_segs_at(toks, pos + n + 2, f) {
                    Option::Some((mut more, m)) => {
                        proof {
                            assert(more@.insert(0, seg) =~= seq![seg] + more@);
                            lemma_segs_view_cons(seg, more@);
                        }
                        more.insert(0, seg);
                        Option::Some((more, n + 2 + m))
                    },
                    Option::None => Option::None,
                }
            } else {
                let mut one: Vec<PathSeg> = Vec::new();
                one.push(seg);
                proof {
                    assert(one@ =~= seq![seg] + Seq::<PathSeg>::empty());
                    lemma_segs_view_cons(seg, Seq::<PathSeg>::empty());
                    assert(segs_view(Seq::<PathSeg>::empty()) =~= Seq::<SSeg>::empty());
                    assert(segs_view(one@) =~= seq![seg_view(seg)]);
                }
                Option::Some((one, n))
            }
        },
    }
}

/// Parse one segment from `toks[pos..]`, mirroring [`spec_parse_seg`].
pub fn parse_seg_at(toks: &Vec<Token>, pos: usize, fuel: usize) -> (r: Option<(PathSeg, usize)>)
    requires
        pos <= toks@.len(),
    ensures
        ({
            let sp = spec_parse_seg(toks_view(toks@).skip(pos as int), fuel as nat);
            match r {
                Option::Some((seg, n)) => sp == Option::Some((seg@, n as nat)) && pos + n
                    <= toks@.len(),
                Option::None => sp is None,
            }
        }),
    decreases fuel,
{
    proof {
        lemma_toks_view_len(toks@);
    }
    let ghost ts = toks_view(toks@).skip(pos as int);
    if fuel == 0 || pos >= toks.len() {
        return Option::None;
    }
    let f = fuel - 1;
    proof {
        lemma_at(toks@, pos as int, 0);
    }
    match &toks[pos].kind {
        TokenKind::Ident(name) => {
            let len = toks.len();
            let with_args = len - pos >= 2 && is_punct(&toks[pos + 1], '<');
            proof {
                if pos + 1 < toks@.len() {
                    lemma_at(toks@, pos as int, 1);
                }
                assert(with_args == (ts.len() >= 2 && ts[1] == Tok::Pu('<')));
            }
            if with_args {
                proof {
                    lemma_skip_skip(toks@, pos as int, 2);
                }
                match parse_args_at(toks, pos + 2, f) {
                    Option::Some((args, n)) => {
                        let len = toks.len();
                        let closed = n < len - (pos + 2) && is_punct(&toks[pos + 2 + n], '>');
                        proof {
                            if pos + 2 + n < toks@.len() {
                                lemma_at(toks@, pos as int, 2 + n);
                            }
                        }
                        if closed {
                            let seg = PathSeg { name: name.clone(), args };
                            Option::Some((seg, n + 3))
                        } else {
                            Option::None
                        }
                    },
                    Option::None => Option::None,
                }
            } else {
                let seg = PathSeg { name: name.clone(), args: Vec::new() };
                proof {
                    assert(tys_view(seg.args@) =~= Seq::<STy>::empty());
                }
                Option::Some((seg, 1))
            }
        },
        _ => Option::None,
    }
}

/// Parse comma-separated type arguments from `toks[pos..]`, mirroring
/// [`spec_parse_args`].
pub fn parse_args_at(toks: &Vec<Token>, pos: usize, fuel: usize) -> (r: Option<
    (Vec<TypePath>, usize),
>)
    requires
        pos <= toks@.len(),
    ensures
        ({
            let sp = spec_parse_args(toks_view(toks@).skip(pos as int), fuel as nat);
            match r {
                Option::Some((args, n)) => sp == Option::Some((tys_view(args@), n as nat)) && pos
                    + n <= toks@.len(),
                Option::None => sp is None,
            }
        }),
    decreases fuel,
{
    proof {
        lemma_toks_view_len(toks@);
    }
    let ghost ts = toks_view(toks@).skip(pos as int);
    if fuel == 0 {
        return Option::None;
    }
    let f = fuel - 1;
    match parse_ty_at(toks, pos, f) {
        Option::None => Option::None,
        Option::Some((ty, n)) => {
            let len = toks.len();
            let comma = n < len - pos && is_punct(&toks[pos + n], ',');
            proof {
                if pos + n < toks@.len() {
                    lemma_at(toks@, pos as int, n as int);
                }
            }
            if comma {
                proof {
                    lemma_skip_skip(toks@, pos as int, n + 1);
                }
                match parse_args_at(toks, pos + n + 1, f) {
                    Option::Some((mut more, m)) => {
                        proof {
                            assert(more@.insert(0, ty) =~= seq![ty] + more@);
                            lemma_tys_view_cons(ty, more@);
                        }
                        more.insert(0, ty);
                        Option::Some((more, n + 1 + m))
                    },
                    Option::None => Option::None,
                }
            } else {
                let mut one: Vec<TypePath> = Vec::new();
                one.push(ty);
                proof {
                    assert(one@ =~= seq![ty] + Seq::<TypePath>::empty());
                    lemma_tys_view_cons(ty, Seq::<TypePath>::empty());
                    assert(tys_view(Seq::<TypePath>::empty()) =~= Seq::<STy>::empty());
                    assert(tys_view(one@) =~= seq![ty_view(ty)]);
                }
                Option::Some((one, n))
            }
        },
    }
}

/// Parse a path type from `toks[pos..]` with the standard fuel. On success
/// the result is well formed and renders back to exactly the consumed
/// tokens.
pub fn parse_type_at(toks: &Vec<Token>, pos: usize) -> (r: Option<(TypePath, usize)>)
    requires
        pos <= toks@.len(),
        3 * toks@.len() + 3 <= usize::MAX,
    ensures
        ({
            let ts = toks_view(toks@).skip(pos as int);
            let sp = spec_parse_ty(ts, type_parse_fuel(ts.len()));
            match r {
                Option::Some((t, n)) => sp == Option::Some((t@, n as nat)) && pos + n
                    <= toks@.len() && wf_sty(t@) && spec_render_ty(t@) =~= ts.take(n as int),
                Option::None => sp is None,
            }
        }),
{
    proof {
        lemma_toks_view_len(toks@);
    }
    let rem = toks.len() - pos;
    let fuel = 3 * rem + 3;
    let r = parse_ty_at(toks, pos, fuel);
    proof {
        let ts = toks_view(toks@).skip(pos as int);
        assert(fuel as nat == type_parse_fuel(ts.len()));
        lemma_parse_ty_sound(ts, fuel as nat);
    }
    r
}

/// The mathematical view of an owner type: a structural path, or a verbatim
/// token sequence that only Rust's own grammar (via `syn`) vouches for.
pub ghost enum STyRepr {
    RPath(STy),
    ROpaque(Seq<Tok>),
}

/// An owner type as the parser accepted it: a structural path type, or a
/// verbatim token sequence beyond the structural subset.
pub enum TypeRepr {
    Path(TypePath),
    Opaque(Vec<Token>),
}

pub open spec fn type_repr_view(r: TypeRepr) -> STyRepr {
    match r {
        TypeRepr::Path(t) => STyRepr::RPath(ty_view(t)),
        TypeRepr::Opaque(ts) => STyRepr::ROpaque(toks_view(ts@)),
    }
}

impl View for TypeRepr {
    type V = STyRepr;

    open spec fn view(&self) -> STyRepr {
        type_repr_view(*self)
    }
}

/// The token rendering of an owner type.
pub open spec fn spec_type_repr_tokens(r: STyRepr) -> Seq<Tok> {
    match r {
        STyRepr::RPath(t) => spec_render_ty(t),
        STyRepr::ROpaque(ts) => ts,
    }
}

/// Render an owner type to tokens.
pub fn type_repr_tokens(r: &TypeRepr, span: Span) -> (out: Vec<Token>)
    ensures
        toks_view(out@) == spec_type_repr_tokens(r@),
{
    match r {
        TypeRepr::Path(t) => render_type_tokens(t, span),
        TypeRepr::Opaque(ts) => duplicate_tokens(ts),
    }
}

/// Copy an owner type, preserving its view.
pub fn duplicate_type_repr(r: &TypeRepr) -> (out: TypeRepr)
    ensures
        out@ == r@,
{
    match r {
        TypeRepr::Path(t) => TypeRepr::Path(duplicate_type_path(t)),
        TypeRepr::Opaque(ts) => TypeRepr::Opaque(duplicate_tokens(ts)),
    }
}

/// Copy a path type, preserving its view.
pub fn duplicate_type_path(t: &TypePath) -> (out: TypePath)
    ensures
        out@ == t@,
    decreases t,
{
    let mut segs: Vec<PathSeg> = Vec::new();
    let mut i: usize = 0;
    while i < t.segs.len()
        invariant
            i <= t.segs@.len(),
            segs@.len() == i,
            segs_view(segs@) =~= segs_view(t.segs@.take(i as int)),
        decreases t.segs@.len() - i,
    {
        let s = duplicate_path_seg(&t.segs[i]);
        proof {
            lemma_segs_view_snoc(segs@, s);
            lemma_segs_view_take_snoc(t.segs@, i as int);
        }
        segs.push(s);
        i = i + 1;
    }
    proof {
        assert(t.segs@.take(t.segs@.len() as int) =~= t.segs@);
    }
    TypePath { lead: t.lead, segs }
}

/// Copy a path segment, preserving its view.
pub fn duplicate_path_seg(s: &PathSeg) -> (out: PathSeg)
    ensures
        out@ == s@,
    decreases s,
{
    let mut args: Vec<TypePath> = Vec::new();
    let mut i: usize = 0;
    while i < s.args.len()
        invariant
            i <= s.args@.len(),
            args@.len() == i,
            tys_view(args@) =~= tys_view(s.args@.take(i as int)),
        decreases s.args@.len() - i,
    {
        let t = duplicate_type_path(&s.args[i]);
        proof {
            lemma_tys_view_snoc(args@, t);
            lemma_tys_view_take_snoc(s.args@, i as int);
        }
        args.push(t);
        i = i + 1;
    }
    proof {
        assert(s.args@.take(s.args@.len() as int) =~= s.args@);
    }
    PathSeg { name: s.name.clone(), args }
}


/// A `::`-led three-segment path whose last segment applies type
/// arguments — the shape of every wrapper the synthesizer emits.
pub open spec fn wrapped_sty(p1: Seq<char>, p2: Seq<char>, p3: Seq<char>, args: Seq<STy>) -> STy {
    STy {
        lead: true,
        segs: seq![
            SSeg { name: p1, args: Seq::empty() },
            SSeg { name: p2, args: Seq::empty() },
            SSeg { name: p3, args },
        ],
    }
}


/// Fuel that suffices for the parser to reconstruct `t` from its rendering.
pub open spec fn size_ty(t: STy) -> nat
    decreases t,
{
    1 + size_segs(t.segs)
}

pub open spec fn size_segs(ss: Seq<SSeg>) -> nat
    decreases ss,
{
    if ss.len() == 0 {
        1
    } else {
        1 + size_seg(ss[0]) + size_segs(ss.drop_first())
    }
}

pub open spec fn size_seg(s: SSeg) -> nat
    decreases s,
{
    1 + size_args(s.args)
}

pub open spec fn size_args(ts: Seq<STy>) -> nat
    decreases ts,
{
    if ts.len() == 0 {
        1
    } else {
        1 + size_ty(ts[0]) + size_args(ts.drop_first())
    }
}

/// The continuation cannot extend a parsed type: it begins with neither
/// `::` nor `<`.
pub open spec fn ty_blocked(rest: Seq<Tok>) -> bool {
    !(rest.len() >= 2 && rest[0] == Tok::Pu(':') && rest[1] == Tok::Pu(':')) && !(rest.len() >= 1
        && rest[0] == Tok::Pu('<'))
}

/// The continuation cannot extend a parsed argument list either.
pub open spec fn args_blocked(rest: Seq<Tok>) -> bool {
    ty_blocked(rest) && !(rest.len() >= 1 && rest[0] == Tok::Pu(','))
}

/// Completeness of the parser against the renderer: parsing the rendering
/// of any well-formed type, followed by anything that cannot extend it,
/// yields exactly that type back, consuming exactly its rendering.
#[verifier::rlimit(100)]
#[verifier::spinoff_prover]
pub proof fn lemma_complete_ty(t: STy, rest: Seq<Tok>, fuel: nat)
    requires
        wf_sty(t),
        fuel >= size_ty(t),
        ty_blocked(rest),
    ensures
        spec_parse_ty(spec_render_ty(t) + rest, fuel) == Option::<(STy, nat)>::Some(
            (t, spec_render_ty(t).len()),
        ),
    decreases t,
{
    let ts = spec_render_ty(t) + rest;
    let f = (fuel - 1) as nat;
    lemma_render_segs_len_pos(t.segs);
    if t.lead {
        assert(ts[0] == Tok::Pu(':') && ts[1] == Tok::Pu(':'));
        assert(ts.skip(2) =~= spec_render_segs(t.segs) + rest);
        lemma_complete_segs(t.segs, rest, f);
        assert(t == (STy { lead: true, segs: t.segs }));
    } else {
        assert(ts =~= spec_render_segs(t.segs) + rest);
        lemma_render_segs_first(t.segs);
        assert(ts[0] == Tok::Id(t.segs[0].name));
        lemma_complete_segs(t.segs, rest, f);
        assert(t == (STy { lead: false, segs: t.segs }));
    }
}

/// A nonempty segment list renders to a nonempty token sequence.
proof fn lemma_render_segs_len_pos(ss: Seq<SSeg>)
    requires
        ss.len() > 0,
    ensures
        spec_render_segs(ss).len() > 0,
{
    let r0 = spec_render_seg(ss[0]);
    assert(r0[0] == Tok::Id(ss[0].name));
    assert(r0.len() >= 1);
}

/// A nonempty segment list's rendering starts with the first identifier.
proof fn lemma_render_segs_first(ss: Seq<SSeg>)
    requires
        ss.len() > 0,
    ensures
        spec_render_segs(ss)[0] == Tok::Id(ss[0].name),
{
    let r0 = spec_render_seg(ss[0]);
    assert(r0[0] == Tok::Id(ss[0].name));
    assert(r0.len() >= 1);
    if ss.len() > 1 {
        assert(spec_render_segs(ss)[0] == r0[0]);
    }
}

#[verifier::rlimit(100)]
#[verifier::spinoff_prover]
#[verifier::rlimit(100)]
#[verifier::spinoff_prover]
pub proof fn lemma_complete_segs(ss: Seq<SSeg>, rest: Seq<Tok>, fuel: nat)
    requires
        ss.len() > 0,
        forall|i: int| 0 <= i < ss.len() ==> wf_sseg(#[trigger] ss[i]),
        fuel >= size_segs(ss),
        ty_blocked(rest),
    ensures
        spec_parse_segs(spec_render_segs(ss) + rest, fuel) == Option::<(Seq<SSeg>, nat)>::Some(
            (ss, spec_render_segs(ss).len()),
        ),
    decreases ss,
{
    let ts = spec_render_segs(ss) + rest;
    let f = (fuel - 1) as nat;
    let seg0 = ss[0];
    let n0 = spec_render_seg(seg0).len();
    if ss.len() == 1 {
        assert(ts =~= spec_render_seg(seg0) + rest);
        lemma_complete_seg(seg0, rest, f);
        assert(spec_parse_seg(ts, f) == Option::<(SSeg, nat)>::Some((seg0, n0)));
        assert(!((((n0 + 2) as int) <= ts.len()) && ts[n0 as int] == Tok::Pu(':') && ts[(n0 + 1) as int]
            == Tok::Pu(':'))) by {
            if ((n0 + 2) as int) <= ts.len() {
                assert(ts[n0 as int] == rest[0]);
                assert(ts[(n0 + 1) as int] == rest[1]);
            }
        }
        assert(seq![seg0] =~= ss);
    } else {
        let tail = ss.drop_first();
        let rest1 = seq![Tok::Pu(':'), Tok::Pu(':')] + spec_render_segs(tail) + rest;
        assert(ts =~= spec_render_seg(seg0) + rest1);
        lemma_render_segs_len_pos(tail);
        assert(rest1[0] == Tok::Pu(':'));
        lemma_complete_seg(seg0, rest1, f);
        assert(spec_parse_seg(ts, f) == Option::<(SSeg, nat)>::Some((seg0, n0)));
        assert(ts[n0 as int] == Tok::Pu(':') && ts[(n0 + 1) as int] == Tok::Pu(':')) by {
            assert(ts[n0 as int] == rest1[0]);
            assert(ts[(n0 + 1) as int] == rest1[1]);
        }
        assert(((n0 + 2) as int) <= ts.len());
        assert(ts.skip((n0 + 2) as int) =~= spec_render_segs(tail) + rest);
        assert(forall|i: int| 0 <= i < tail.len() ==> wf_sseg(#[trigger] tail[i])) by {
            assert(forall|i: int|
                0 <= i < tail.len() ==> tail[i] == ss[i + 1] && wf_sseg(#[trigger] ss[i + 1]));
        }
        lemma_complete_segs(tail, rest, f);
        assert(seq![seg0] + tail =~= ss);
        assert(spec_render_segs(ss).len() == n0 + 2 + spec_render_segs(tail).len());
    }
}

pub proof fn lemma_complete_seg(s: SSeg, rest: Seq<Tok>, fuel: nat)
    requires
        wf_sseg(s),
        fuel >= size_seg(s),
        !(rest.len() >= 1 && rest[0] == Tok::Pu('<')),
    ensures
        spec_parse_seg(spec_render_seg(s) + rest, fuel) == Option::<(SSeg, nat)>::Some(
            (s, spec_render_seg(s).len()),
        ),
    decreases s,
{
    let ts = spec_render_seg(s) + rest;
    let f = (fuel - 1) as nat;
    assert(ts[0] == Tok::Id(s.name));
    if s.args.len() == 0 {
        assert(spec_render_seg(s) =~= seq![Tok::Id(s.name)]);
        assert(!(ts.len() >= 2 && ts[1] == Tok::Pu('<'))) by {
            if ts.len() >= 2 {
                assert(ts[1] == rest[0]);
            }
        }
        assert(s == (SSeg { name: s.name, args: Seq::<STy>::empty() })) by {
            assert(s.args =~= Seq::<STy>::empty());
        }
    } else {
        let rest1 = seq![Tok::Pu('>')] + rest;
        assert(ts[1] == Tok::Pu('<'));
        assert(ts.skip(2) =~= spec_render_args(s.args) + rest1);
        assert(args_blocked(rest1));
        lemma_complete_args(s.args, rest1, f);
        let na = spec_render_args(s.args).len();
        assert(spec_parse_args(ts.skip(2), f) == Option::<(Seq<STy>, nat)>::Some((s.args, na)));
        assert(ts[(2 + na) as int] == Tok::Pu('>')) by {
            assert(ts.skip(2)[na as int] == rest1[0]);
        }
        assert(((2 + na) as int) < ts.len());
        assert(spec_render_seg(s).len() == na + 3);
        assert(s == (SSeg { name: s.name, args: s.args }));
    }
}

#[verifier::rlimit(100)]
#[verifier::spinoff_prover]
pub proof fn lemma_complete_args(args: Seq<STy>, rest: Seq<Tok>, fuel: nat)
    requires
        args.len() > 0,
        forall|i: int| 0 <= i < args.len() ==> wf_sty(#[trigger] args[i]),
        fuel >= size_args(args),
        args_blocked(rest),
    ensures
        spec_parse_args(spec_render_args(args) + rest, fuel) == Option::<(Seq<STy>, nat)>::Some(
            (args, spec_render_args(args).len()),
        ),
    decreases args,
{
    let ts = spec_render_args(args) + rest;
    let f = (fuel - 1) as nat;
    let ty0 = args[0];
    let n0 = spec_render_ty(ty0).len();
    if args.len() == 1 {
        assert(ts =~= spec_render_ty(ty0) + rest);
        lemma_complete_ty(ty0, rest, f);
        assert(!(((n0 as int) < ts.len()) && ts[n0 as int] == Tok::Pu(','))) by {
            if (n0 as int) < ts.len() {
                assert(ts[n0 as int] == rest[0]);
            }
        }
        assert(seq![ty0] =~= args);
    } else {
        let tail = args.drop_first();
        let rest1 = seq![Tok::Pu(',')] + spec_render_args(tail) + rest;
        assert(ts =~= spec_render_ty(ty0) + rest1);
        assert(ty_blocked(rest1));
        lemma_complete_ty(ty0, rest1, f);
        assert(ts[n0 as int] == Tok::Pu(',')) by {
            assert(ts[n0 as int] == rest1[0]);
        }
        assert((n0 as int) < ts.len());
        assert(ts.skip((n0 + 1) as int) =~= spec_render_args(tail) + rest);
        assert(forall|i: int| 0 <= i < tail.len() ==> wf_sty(#[trigger] tail[i])) by {
            assert(forall|i: int|
                0 <= i < tail.len() ==> tail[i] == args[i + 1] && wf_sty(#[trigger] args[i + 1]));
        }
        lemma_complete_args(tail, rest, f);
        assert(seq![ty0] + tail =~= args);
        assert(spec_render_args(args).len() == n0 + 1 + spec_render_args(tail).len());
    }
}

/// Round trip: re-parsing the rendering of any well-formed type — in
/// particular a synthesized accessor's declared return type, the owner
/// wrapped per the active policy — yields a type identical to it,
/// consuming the whole rendering.
pub proof fn lemma_type_round_trip(t: STy)
    requires
        wf_sty(t),
    ensures
        ({
            let ts = spec_render_ty(t);
            spec_parse_ty(ts, type_parse_fuel(ts.len())) == Option::<(STy, nat)>::Some(
                (t, ts.len()),
            )
        }),
{
    let ts = spec_render_ty(t);
    lemma_size_le_fuel_ty(t);
    assert(ts + Seq::<Tok>::empty() =~= ts);
    lemma_complete_ty(t, Seq::empty(), type_parse_fuel(ts.len()));
}

/// The standard fuel covers the size measure.
proof fn lemma_size_le_fuel_ty(t: STy)
    ensures
        size_ty(t) <= type_parse_fuel(spec_render_ty(t).len()),
    decreases t,
{
    lemma_size_ty_bound(t);
}

proof fn lemma_size_segs_bound(ss: Seq<SSeg>)
    ensures
        size_segs(ss) <= 3 * spec_render_segs(ss).len() + 1,
    decreases ss,
{
    if ss.len() == 0 {
    } else {
        lemma_size_seg_bound(ss[0]);
        if ss.len() == 1 {
            assert(ss.drop_first() =~= Seq::<SSeg>::empty());
            assert(size_segs(ss.drop_first()) == 1);
            assert(spec_render_segs(ss).len() == spec_render_seg(ss[0]).len());
        } else {
            lemma_size_segs_bound(ss.drop_first());
            assert(spec_render_segs(ss).len() == spec_render_seg(ss[0]).len() + 2
                + spec_render_segs(ss.drop_first()).len());
        }
    }
}

proof fn lemma_size_seg_bound(s: SSeg)
    ensures
        size_seg(s) + 1 <= 3 * spec_render_seg(s).len(),
    decreases s,
{
    lemma_size_args_bound(s.args);
    if s.args.len() == 0 {
        assert(size_args(s.args) == 1);
        assert(spec_render_seg(s).len() == 1);
    } else {
        assert(spec_render_seg(s).len() == spec_render_args(s.args).len() + 3);
    }
}

proof fn lemma_size_args_bound(ts: Seq<STy>)
    ensures
        size_args(ts) <= 3 * spec_render_args(ts).len() + 4,
    decreases ts,
{
    if ts.len() == 0 {
    } else {
        lemma_size_ty_bound(ts[0]);
        if ts.len() == 1 {
            assert(ts.drop_first() =~= Seq::<STy>::empty());
            assert(size_args(ts.drop_first()) == 1);
            assert(spec_render_args(ts).len() == spec_render_ty(ts[0]).len());
        } else {
            lemma_size_args_bound(ts.drop_first());
            assert(spec_render_args(ts).len() == spec_render_ty(ts[0]).len() + 1
                + spec_render_args(ts.drop_first()).len());
        }
    }
}

proof fn lemma_size_ty_bound(t: STy)
    ensures
        size_ty(t) <= 3 * spec_render_ty(t).len() + 2,
    decreases t,
{
    lemma_size_segs_bound(t.segs);
    if t.lead {
        assert(spec_render_ty(t).len() == spec_render_segs(t.segs).len() + 2);
    } else {
        assert(spec_render_ty(t).len() == spec_render_segs(t.segs).len());
    }
}

} // verus!
