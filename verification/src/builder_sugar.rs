//! The builder shortcut: expand a terse "construct a dependent of this
//! owner" form into the call chain against the external builder API,
//! pre-seeding the owner field from the dependent's self-downgrade value.
//! Two sibling entry points share the identical seeding: one returns the
//! builder for further chaining, the other also finalizes it.

use vstd::prelude::*;
use crate::descriptor::Role;
use crate::descriptor::spec_base_name;
use crate::tokens::Delim;
use crate::tokens::Span;
use crate::tokens::Tok;
use crate::tokens::Token;
use crate::tokens::duplicate_tokens;
use crate::tokens::group_token;
use crate::tokens::id_token;
use crate::tokens::lemma_toks_view_push;
use crate::tokens::punct_token;
use crate::tokens::toks_view;
use crate::typath::TypePath;
use crate::typath::render_type_tokens;
use crate::typath::spec_render_ty;

verus! {

/// The mathematical view of one field initializer.
pub ghost struct SInit {
    pub name: Seq<char>,
    pub value: Seq<Tok>,
}

/// One `field: value` pair of the shortcut form.
pub struct FieldInit {
    pub name: String,
    pub value: Vec<Token>,
    pub span: Span,
}

pub open spec fn init_view(i: FieldInit) -> SInit {
    SInit { name: i.name@, value: toks_view(i.value@) }
}

impl View for FieldInit {
    type V = SInit;

    open spec fn view(&self) -> SInit {
        init_view(*self)
    }
}

pub open spec fn inits_view(is: Seq<FieldInit>) -> Seq<SInit>
    decreases is,
{
    if is.len() == 0 {
        Seq::empty()
    } else {
        seq![init_view(is[0])] + inits_view(is.drop_first())
    }
}

/// The setter calls for the initializers, in the given order.
pub open spec fn spec_init_calls(is: Seq<SInit>) -> Seq<Tok>
    decreases is,
{
    if is.len() == 0 {
        Seq::empty()
    } else {
        seq![Tok::Pu('.'), Tok::Id(is[0].name), Tok::Grp(Delim::Paren, is[0].value)]
            + spec_init_calls(is.drop_first())
    }
}

/// The shared chain both entry points build: the type's builder, the owner
/// field seeded from the self-downgrade value, then every initializer in
/// order.
pub open spec fn spec_builder_chain(
    ty: crate::typath::STy,
    role: Role,
    owner_weak: Seq<Tok>,
    is: Seq<SInit>,
) -> Seq<Tok> {
    spec_render_ty(ty) + seq![
        Tok::Pu(':'),
        Tok::Pu(':'),
        Tok::Id("builder"@),
        Tok::Grp(Delim::Paren, Seq::empty()),
        Tok::Pu('.'),
        Tok::Id(spec_base_name(role)),
        Tok::Grp(Delim::Paren, owner_weak),
    ] + spec_init_calls(is)
}

proof fn lemma_inits_view_snoc(is: Seq<FieldInit>, x: FieldInit)
    ensures
        inits_view(is.push(x)) =~= inits_view(is).push(init_view(x)),
    decreases is,
{
    if is.len() == 0 {
        assert(is.push(x)[0] == x);
        assert(is.push(x).drop_first() =~= Seq::<FieldInit>::empty());
        assert(inits_view(Seq::<FieldInit>::empty()) =~= Seq::<SInit>::empty());
        assert(inits_view(is.push(x).drop_first()) =~= Seq::<SInit>::empty());
    } else {
        assert(is.push(x)[0] == is[0]);
        assert(is.push(x).drop_first() =~= is.drop_first().push(x));
        lemma_inits_view_snoc(is.drop_first(), x);
    }
}

proof fn lemma_init_calls_snoc(is: Seq<SInit>, x: SInit)
    ensures
        spec_init_calls(is.push(x)) =~= spec_init_calls(is) + seq![
            Tok::Pu('.'),
            Tok::Id(x.name),
            Tok::Grp(Delim::Paren, x.value),
        ],
    decreases is,
{
    if is.len() == 0 {
        assert(is.push(x)[0] == x);
        assert(is.push(x).drop_first() =~= Seq::<SInit>::empty());
        assert(spec_init_calls(Seq::<SInit>::empty()) =~= Seq::<Tok>::empty());
        assert(spec_init_calls(is.push(x).drop_first()) =~= Seq::<Tok>::empty());
    } else {
        assert(is.push(x)[0] == is[0]);
        assert(is.push(x).drop_first() =~= is.drop_first().push(x));
        lemma_init_calls_snoc(is.drop_first(), x);
    }
}

fn push_tok(out: &mut Vec<Token>, t: Token)
    ensures
        toks_view(final(out)@) == toks_view(old(out)@).push(t@),
{
    proof {
        lemma_toks_view_push(out@, t);
    }
    out.push(t);
}

/// Expand the shortcut into the builder call chain, without the final
/// `build()`: the caller may chain further.
pub fn builder_chain(
    ty: &TypePath,
    role: Role,
    owner_weak: &Vec<Token>,
    inits: &Vec<FieldInit>,
    span: Span,
) -> (r: Vec<Token>)
    ensures
        toks_view(r@) == spec_builder_chain(
            ty@,
            role,
            toks_view(owner_weak@),
            inits_view(inits@),
        ),
{
    let mut out = render_type_tokens(ty, span);
    let ghost tyv = toks_view(out@);
    push_tok(&mut out, punct_token(':', span));
    push_tok(&mut out, punct_token(':', span));
    push_tok(&mut out, id_token("builder", span));
    push_tok(&mut out, group_token(Delim::Paren, Vec::new(), span));
    push_tok(&mut out, punct_token('.', span));
    let setter = crate::descriptor::RoleDescriptor { role }.base_name();
    push_tok(&mut out, id_token(setter.as_str(), span));
    let weak = duplicate_tokens(owner_weak);
    let ghost weakv = toks_view(weak@);
    push_tok(&mut out, group_token(Delim::Paren, weak, span));
    proof {
        assert(toks_view(Seq::<Token>::empty()) =~= Seq::<Tok>::empty());
        assert(toks_view(out@) =~= tyv + seq![
            Tok::Pu(':'),
            Tok::Pu(':'),
            Tok::Id("builder"@),
            Tok::Grp(Delim::Paren, Seq::empty()),
            Tok::Pu('.'),
            Tok::Id(spec_base_name(role)),
            Tok::Grp(Delim::Paren, weakv),
        ]);
    }
    let ghost seeded = toks_view(out@);
    let mut i: usize = 0;
    while i < inits.len()
        invariant
            i <= inits@.len(),
            toks_view(out@) =~= seeded + spec_init_calls(inits_view(inits@.take(i as int))),
        decreases inits@.len() - i,
    {
        push_tok(&mut out, punct_token('.', inits[i].span));
        push_tok(&mut out, id_token(inits[i].name.as_str(), inits[i].span));
        let v = duplicate_tokens(&inits[i].value);
        push_tok(&mut out, group_token(Delim::Paren, v, inits[i].span));
        proof {
            lemma_init_calls_snoc(inits_view(inits@.take(i as int)), init_view(inits@[i as int]));
            lemma_inits_view_snoc(inits@.take(i as int), inits@[i as int]);
            assert(inits@.take(i as int).push(inits@[i as int]) =~= inits@.take(i + 1));
        }
        i = i + 1;
    }
    proof {
        assert(inits@.take(inits@.len() as int) =~= inits@);
        assert(toks_view(out@) =~= spec_builder_chain(
            ty@,
            role,
            toks_view(owner_weak@),
            inits_view(inits@),
        ));
    }
    out
}

/// Expand the shortcut and finalize the builder: the same seeded chain,
/// followed by exactly `.build()`.
pub fn build_chain(
    ty: &TypePath,
    role: Role,
    owner_weak: &Vec<Token>,
    inits: &Vec<FieldInit>,
    span: Span,
) -> (r: Vec<Token>)
    ensures
        toks_view(r@) == spec_builder_chain(ty@, role, toks_view(owner_weak@), inits_view(inits@))
            + seq![Tok::Pu('.'), Tok::Id("build"@), Tok::Grp(Delim::Paren, Seq::empty())],
{
    let mut out = builder_chain(ty, role, owner_weak, inits, span);
    push_tok(&mut out, punct_token('.', span));
    push_tok(&mut out, id_token("build", span));
    push_tok(&mut out, group_token(Delim::Paren, Vec::new(), span));
    proof {
        assert(toks_view(Seq::<Token>::empty()) =~= Seq::<Tok>::empty());
        assert(toks_view(out@) =~= spec_builder_chain(
            ty@,
            role,
            toks_view(owner_weak@),
            inits_view(inits@),
        ) + seq![Tok::Pu('.'), Tok::Id("build"@), Tok::Grp(Delim::Paren, Seq::empty())]);
    }
    out
}

} // verus!
