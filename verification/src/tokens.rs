//! The token model that the annotation grammar is parsed from and that
//! synthesized code fragments are built of.
//!
//! An annotation such as `agent(App, unwrap(expect("gone")))` reaches the
//! library as a sequence of [`Token`]s: identifiers, punctuation, literals and
//! delimited groups, each carrying a source [`Span`] for diagnostics. The
//! ghost type [`Tok`] is the mathematical view of a token; spans are kept out
//! of the view so that contracts speak of the token structure alone.

use vstd::prelude::*;

verus! {

/// A source position, as an opaque pair of offsets. Positions are assigned by
/// whatever produced the tokens; the library only carries them into
/// diagnostics and synthesized fragments.
#[derive(Clone, Copy, PartialEq, Eq, Structural, Debug)]
pub struct Span {
    pub lo: u64,
    pub hi: u64,
}

impl Span {
    /// A span that points nowhere in particular.
    pub fn none() -> (s: Span)
        ensures
            s == (Span { lo: 0, hi: 0 }),
    {
        Span { lo: 0, hi: 0 }
    }
}

/// The delimiter of a token group.
#[derive(Clone, Copy, PartialEq, Eq, Structural, Debug)]
pub enum Delim {
    Paren,
    Brace,
    Bracket,
}

/// The mathematical view of a token: its structure without spans.
pub ghost enum Tok {
    Id(Seq<char>),
    Pu(char),
    LitStr(Seq<char>),
    Lit(Seq<char>),
    Grp(Delim, Seq<Tok>),
}

/// What a token is: an identifier, one punctuation character, a string
/// literal (held by value, unescaped), any other literal (held as its source
/// text), or a delimited group of tokens.
pub enum TokenKind {
    Ident(String),
    Punct(char),
    StrLit(String),
    Lit(String),
    Group(Delim, Vec<Token>),
}

/// One token of the annotation grammar or of a synthesized fragment.
pub struct Token {
    pub kind: TokenKind,
    pub span: Span,
}

/// The view of one token.
pub open spec fn tok_view(t: Token) -> Tok
    decreases t,
{
    match t.kind {
        TokenKind::Ident(s) => Tok::Id(s@),
        TokenKind::Punct(c) => Tok::Pu(c),
        TokenKind::StrLit(s) => Tok::LitStr(s@),
        TokenKind::Lit(s) => Tok::Lit(s@),
        TokenKind::Group(d, ts) => Tok::Grp(d, toks_view(ts@)),
    }
}

/// The view of a token sequence.
pub open spec fn toks_view(ts: Seq<Token>) -> Seq<Tok>
    decreases ts,
{
    if ts.len() == 0 {
        Seq::empty()
    } else {
        seq![tok_view(ts[0])] + toks_view(ts.drop_first())
    }
}

impl View for Token {
    type V = Tok;

    open spec fn view(&self) -> Tok {
        tok_view(*self)
    }
}

pub broadcast proof fn lemma_toks_view_len(ts: Seq<Token>)
    ensures
        (#[trigger] toks_view(ts)).len() == ts.len(),
    decreases ts,
{
    if ts.len() > 0 {
        lemma_toks_view_len(ts.drop_first());
    }
}

pub broadcast proof fn lemma_toks_view_index(ts: Seq<Token>, i: int)
    requires
        0 <= i < ts.len(),
    ensures
        #[trigger] toks_view(ts)[i] == tok_view(ts[i]),
    decreases ts,
{
    lemma_toks_view_len(ts);
    if i > 0 {
        lemma_toks_view_index(ts.drop_first(), i - 1);
    }
}

pub broadcast proof fn lemma_toks_view_push(ts: Seq<Token>, t: Token)
    ensures
        toks_view(#[trigger] ts.push(t)) =~= toks_view(ts).push(tok_view(t)),
    decreases ts,
{
    lemma_toks_view_len(ts);
    lemma_toks_view_len(ts.push(t));
    if ts.len() == 0 {
        assert(ts.push(t).drop_first() =~= Seq::<Token>::empty());
    } else {
        assert(ts.push(t).drop_first() =~= ts.drop_first().push(t));
        lemma_toks_view_push(ts.drop_first(), t);
    }
}

pub broadcast proof fn lemma_toks_view_append(a: Seq<Token>, b: Seq<Token>)
    ensures
        toks_view(#[trigger] (a + b)) =~= toks_view(a) + toks_view(b),
    decreases a,
{
    if a.len() == 0 {
        assert(a + b =~= b);
        assert(toks_view(a) =~= Seq::<Tok>::empty());
    } else {
        assert((a + b).drop_first() =~= a.drop_first() + b);
        lemma_toks_view_append(a.drop_first(), b);
    }
}

/// Make an identifier token.
pub fn id_token(name: &str, span: Span) -> (t: Token)
    ensures
        t@ == Tok::Id(name@),
        t.span == span,
{
    Token { kind: TokenKind::Ident(name.to_owned()), span }
}

/// Make a punctuation token.
pub fn punct_token(c: char, span: Span) -> (t: Token)
    ensures
        t@ == Tok::Pu(c),
        t.span == span,
{
    Token { kind: TokenKind::Punct(c), span }
}

/// Make a string-literal token holding the literal's value.
pub fn str_token(value: &str, span: Span) -> (t: Token)
    ensures
        t@ == Tok::LitStr(value@),
        t.span == span,
{
    Token { kind: TokenKind::StrLit(value.to_owned()), span }
}

/// Make a token for any other literal, held as its source text.
pub fn lit_token(text: &str, span: Span) -> (t: Token)
    ensures
        t@ == Tok::Lit(text@),
        t.span == span,
{
    Token { kind: TokenKind::Lit(text.to_owned()), span }
}

/// Make a group token.
pub fn group_token(delim: Delim, inner: Vec<Token>, span: Span) -> (t: Token)
    ensures
        t@ == Tok::Grp(delim, toks_view(inner@)),
        t.span == span,
{
    Token { kind: TokenKind::Group(delim, inner), span }
}

/// Copy one token, preserving its view and span.
pub fn duplicate_token(t: &Token) -> (r: Token)
    ensures
        r@ == t@,
        r.span == t.span,
    decreases t,
{
    let span = t.span;
    match &t.kind {
        TokenKind::Ident(s) => Token { kind: TokenKind::Ident(s.clone()), span },
        TokenKind::Punct(c) => Token { kind: TokenKind::Punct(*c), span },
        TokenKind::StrLit(s) => Token { kind: TokenKind::StrLit(s.clone()), span },
        TokenKind::Lit(s) => Token { kind: TokenKind::Lit(s.clone()), span },
        TokenKind::Group(d, ts) => Token { kind: TokenKind::Group(*d, duplicate_tokens(ts)), span },
    }
}

/// Copy a token sequence, preserving views and spans.
pub fn duplicate_tokens(ts: &Vec<Token>) -> (r: Vec<Token>)
    ensures
        toks_view(r@) == toks_view(ts@),
        r@.len() == ts@.len(),
        forall|i: int| 0 <= i < ts@.len() ==> (#[trigger] r@[i]).span == ts@[i].span,
    decreases ts,
{
    let ghost gts = *ts;
    let mut r: Vec<Token> = Vec::new();
    let mut i: usize = 0;
    while i < ts.len()
        invariant
            i <= ts@.len(),
            r@.len() == i,
            toks_view(r@) =~= toks_view(ts@.take(i as int)),
            forall|j: int| 0 <= j < i ==> (#[trigger] r@[j]).span == ts@[j].span,
            ts == gts,
        decreases ts@.len() - i,
    {
        let t = duplicate_token(&ts[i]);
        proof {
            lemma_toks_view_push(r@, t);
            lemma_toks_view_push(ts@.take(i as int), ts@[i as int]);
            assert(ts@.take(i as int).push(ts@[i as int]) =~= ts@.take(i + 1));
            lemma_toks_view_len(ts@.take(i as int));
            lemma_toks_view_index(ts@.take(i + 1), i as int);
        }
        r.push(t);
        i = i + 1;
    }
    proof {
        assert(ts@.take(ts@.len() as int) =~= ts@);
    }
    r
}

/// `true` iff the string equals the literal, by characters.
pub fn str_eq_lit(s: &String, lit: &str) -> (r: bool)
    ensures
        r == (s@ == lit@),
{
    let owned: String = lit.to_owned();
    *s == owned
}

/// `true` iff `t` is the identifier `name`.
pub fn is_ident(t: &Token, name: &str) -> (r: bool)
    ensures
        r == (t@ == Tok::Id(name@)),
{
    match &t.kind {
        TokenKind::Ident(s) => str_eq_lit(s, name),
        _ => false,
    }
}

/// `true` iff `t` is the punctuation character `c`.
pub fn is_punct(t: &Token, c: char) -> (r: bool)
    ensures
        r == (t@ == Tok::Pu(c)),
{
    match &t.kind {
        TokenKind::Punct(x) => *x == c,
        _ => false,
    }
}


/// The total size of a token: one, plus the sizes of a group's contents.
pub open spec fn tok_size(t: Tok) -> nat
    decreases t,
{
    match t {
        Tok::Grp(d, ts) => 1 + toks_size(ts),
        _ => 1,
    }
}

/// The total size of a token sequence, groups included.
pub open spec fn toks_size(ts: Seq<Tok>) -> nat
    decreases ts,
{
    if ts.len() == 0 {
        0
    } else {
        tok_size(ts[0]) + toks_size(ts.drop_first())
    }
}

pub proof fn lemma_tok_size_pos(t: Tok)
    ensures
        tok_size(t) >= 1,
{
}

/// A sequence's size is at least its length.
pub proof fn lemma_toks_size_len(ts: Seq<Tok>)
    ensures
        toks_size(ts) >= ts.len(),
    decreases ts,
{
    if ts.len() > 0 {
        lemma_tok_size_pos(ts[0]);
        lemma_toks_size_len(ts.drop_first());
    }
}

pub proof fn lemma_toks_size_snoc(ts: Seq<Tok>, t: Tok)
    ensures
        toks_size(ts.push(t)) == toks_size(ts) + tok_size(t),
    decreases ts,
{
    if ts.len() == 0 {
        assert(ts.push(t)[0] == t);
        assert(ts.push(t).drop_first() =~= Seq::<Tok>::empty());
        assert(toks_size(Seq::<Tok>::empty()) == 0);
        assert(toks_size(ts.push(t).drop_first()) == 0);
    } else {
        assert(ts.push(t)[0] == ts[0]);
        assert(ts.push(t).drop_first() =~= ts.drop_first().push(t));
        lemma_toks_size_snoc(ts.drop_first(), t);
    }
}

/// Every element's size is bounded by the sequence's size.
pub proof fn lemma_toks_size_elem(ts: Seq<Tok>, i: int)
    requires
        0 <= i < ts.len(),
    ensures
        tok_size(ts[i]) <= toks_size(ts),
    decreases ts,
{
    if i > 0 {
        lemma_toks_size_elem(ts.drop_first(), i - 1);
    } else {
        lemma_toks_size_len(ts.drop_first());
    }
}

} // verus!
