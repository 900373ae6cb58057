//! Rendering token sequences to source text. Tokens are joined with single
//! spaces, except where Rust's lexer needs adjacency: the two colons of a
//! path separator, the two pipes of a closure head, and a lifetime quote
//! with what follows it. Groups print their delimiters; string literals are
//! quoted with `"` and `\` escaped.

use vstd::prelude::*;
use crate::tokens::Delim;
use crate::tokens::Tok;
use crate::tokens::Token;
use crate::tokens::TokenKind;
use crate::tokens::lemma_toks_view_len;
use crate::tokens::lemma_toks_view_push;
use crate::tokens::toks_view;

verus! {

/// Relies on std's `String::push`: appends exactly the one character.
#[verifier::external_body]
pub(crate) fn push_char(out: &mut String, c: char)
    ensures
        final(out)@ == old(out)@ + seq![c],
{
    out.push(c)
}

/// The opening character of a delimiter.
pub open spec fn spec_open_char(d: Delim) -> char {
    match d {
        Delim::Paren => '(',
        Delim::Brace => '{',
        Delim::Bracket => '[',
    }
}

/// The closing character of a delimiter.
pub open spec fn spec_close_char(d: Delim) -> char {
    match d {
        Delim::Paren => ')',
        Delim::Brace => '}',
        Delim::Bracket => ']',
    }
}

/// A string-literal body with `"` and `\` escaped.
pub open spec fn escape_chars(s: Seq<char>) -> Seq<char>
    decreases s,
{
    if s.len() == 0 {
        Seq::empty()
    } else {
        (if s[0] == '"' || s[0] == '\\' {
            seq!['\\', s[0]]
        } else {
            seq![s[0]]
        }) + escape_chars(s.drop_first())
    }
}

/// The text of one token.
pub open spec fn spec_tok_text(t: Tok) -> Seq<char>
    decreases t,
{
    match t {
        Tok::Id(s) => s,
        Tok::Pu(c) => seq![c],
        Tok::LitStr(s) => seq!['"'] + escape_chars(s) + seq!['"'],
        Tok::Lit(s) => s,
        Tok::Grp(d, ts) => seq![spec_open_char(d)] + spec_render_text(ts) + seq![
            spec_close_char(d),
        ],
    }
}

/// Whether two adjacent tokens must print without a separating space, so
/// that re-lexing keeps them one compound token: `::`, `||`, and a
/// lifetime's quote with its identifier.
pub open spec fn spec_no_space(prev: Tok, cur: Tok) -> bool {
    prev == Tok::Pu('\'') || (prev == Tok::Pu(':') && cur == Tok::Pu(':')) || (prev == Tok::Pu('|')
        && cur == Tok::Pu('|'))
}

/// The separator printed between two adjacent tokens.
pub open spec fn spec_sep(prev: Tok, cur: Tok) -> Seq<char> {
    if spec_no_space(prev, cur) {
        Seq::empty()
    } else {
        seq![' ']
    }
}

/// The text of a token sequence.
pub open spec fn spec_render_text(ts: Seq<Tok>) -> Seq<char>
    decreases ts,
{
    if ts.len() == 0 {
        Seq::empty()
    } else {
        spec_tok_text(ts[0]) + spec_render_rest(ts[0], ts.drop_first())
    }
}

/// The text of the tokens after the first, each preceded by its separator.
pub open spec fn spec_render_rest(prev: Tok, ts: Seq<Tok>) -> Seq<char>
    decreases ts,
{
    if ts.len() == 0 {
        Seq::empty()
    } else {
        spec_sep(prev, ts[0]) + spec_tok_text(ts[0]) + spec_render_rest(ts[0], ts.drop_first())
    }
}

/// The last token, or the given one for an empty sequence.
pub open spec fn spec_last_or(prev: Tok, ts: Seq<Tok>) -> Tok {
    if ts.len() == 0 {
        prev
    } else {
        ts.last()
    }
}

proof fn lemma_escape_snoc(s: Seq<char>, c: char)
    ensures
        escape_chars(s.push(c)) =~= escape_chars(s) + (if c == '"' || c == '\\' {
            seq!['\\', c]
        } else {
            seq![c]
        }),
    decreases s,
{
    if s.len() == 0 {
        assert(s.push(c)[0] == c);
        assert(s.push(c).drop_first() =~= Seq::<char>::empty());
        assert(escape_chars(Seq::<char>::empty()) =~= Seq::<char>::empty());
    } else {
        assert(s.push(c)[0] == s[0]);
        assert(s.push(c).drop_first() =~= s.drop_first().push(c));
        lemma_escape_snoc(s.drop_first(), c);
    }
}

proof fn lemma_render_rest_snoc(prev: Tok, ts: Seq<Tok>, t: Tok)
    ensures
        spec_render_rest(prev, ts.push(t)) =~= spec_render_rest(prev, ts) + spec_sep(
            spec_last_or(prev, ts),
            t,
        ) + spec_tok_text(t),
    decreases ts,
{
    if ts.len() == 0 {
        assert(ts.push(t)[0] == t);
        assert(ts.push(t).drop_first() =~= Seq::<Tok>::empty());
        assert(spec_render_rest(t, Seq::<Tok>::empty()) =~= Seq::<char>::empty());
        assert(spec_render_rest(t, ts.push(t).drop_first()) =~= Seq::<char>::empty());
    } else {
        assert(ts.push(t)[0] == ts[0]);
        assert(ts.push(t).drop_first() =~= ts.drop_first().push(t));
        lemma_render_rest_snoc(ts[0], ts.drop_first(), t);
        assert(spec_last_or(ts[0], ts.drop_first()) == spec_last_or(prev, ts));
    }
}

proof fn lemma_render_text_snoc(ts: Seq<Tok>, t: Tok)
    ensures
        spec_render_text(ts.push(t)) =~= if ts.len() == 0 {
            spec_tok_text(t)
        } else {
            spec_render_text(ts) + spec_sep(ts.last(), t) + spec_tok_text(t)
        },
    decreases ts,
{
    if ts.len() == 0 {
        assert(ts.push(t)[0] == t);
        assert(ts.push(t).drop_first() =~= Seq::<Tok>::empty());
        assert(spec_render_rest(t, ts.push(t).drop_first()) =~= Seq::<char>::empty());
    } else {
        assert(ts.push(t)[0] == ts[0]);
        assert(ts.push(t).drop_first() =~= ts.drop_first().push(t));
        lemma_render_rest_snoc(ts[0], ts.drop_first(), t);
        assert(spec_last_or(ts[0], ts.drop_first()) == ts.last());
    }
}

/// `true` iff the two tokens must print without a separating space.
fn no_space_tokens(prev: &Token, cur: &Token) -> (r: bool)
    ensures
        r == spec_no_space(prev@, cur@),
{
    if crate::tokens::is_punct(prev, '\'') {
        return true;
    }
    if crate::tokens::is_punct(prev, ':') && crate::tokens::is_punct(cur, ':') {
        return true;
    }
    crate::tokens::is_punct(prev, '|') && crate::tokens::is_punct(cur, '|')
}

/// Append the escaped body of a string literal to `out`.
fn escape_into(s: &str, out: &mut String)
    ensures
        final(out)@ == old(out)@ + escape_chars(s@),
{
    let n = s.unicode_len();
    let mut i: usize = 0;
    while i < n
        invariant
            n == s@.len(),
            i <= n,
            out@ == old(out)@ + escape_chars(s@.take(i as int)),
        decreases n - i,
    {
        let c = s.get_char(i);
        proof {
            lemma_escape_snoc(s@.take(i as int), s@[i as int]);
            assert(s@.take(i as int).push(s@[i as int]) =~= s@.take(i + 1));
        }
        if c == '"' || c == '\\' {
            push_char(out, '\\');
        }
        push_char(out, c);
        proof {
            assert(out@ =~= old(out)@ + escape_chars(s@.take(i + 1)));
        }
        i = i + 1;
    }
    proof {
        assert(s@.take(s@.len() as int) =~= s@);
    }
}

/// Append the text of one token to `out`.
fn render_tok_into(t: &Token, out: &mut String)
    ensures
        final(out)@ == old(out)@ + spec_tok_text(t@),
    decreases t,
{
    match &t.kind {
        TokenKind::Ident(s) => {
            out.append(s.as_str());
        },
        TokenKind::Punct(c) => {
            push_char(out, *c);
            proof {
                assert(old(out)@ + seq![*c] =~= old(out)@ + spec_tok_text(t@));
            }
        },
        TokenKind::StrLit(s) => {
            push_char(out, '"');
            escape_into(s.as_str(), out);
            push_char(out, '"');
            proof {
                assert(out@ =~= old(out)@ + spec_tok_text(t@));
            }
        },
        TokenKind::Lit(s) => {
            out.append(s.as_str());
        },
        TokenKind::Group(d, ts) => {
            let open = match d {
                Delim::Paren => '(',
                Delim::Brace => '{',
                Delim::Bracket => '[',
            };
            let close = match d {
                Delim::Paren => ')',
                Delim::Brace => '}',
                Delim::Bracket => ']',
            };
            push_char(out, open);
            render_toks_into(ts, out);
            push_char(out, close);
            proof {
                assert(out@ =~= old(out)@ + spec_tok_text(t@));
            }
        },
    }
}

/// Append the text of a token sequence to `out`.
pub fn render_toks_into(toks: &Vec<Token>, out: &mut String)
    ensures
        final(out)@ == old(out)@ + spec_render_text(toks_view(toks@)),
    decreases toks,
{
    proof {
        lemma_toks_view_len(toks@);
    }
    let mut i: usize = 0;
    while i < toks.len()
        invariant
            i <= toks@.len(),
            toks_view(toks@).len() == toks@.len(),
            out@ == old(out)@ + spec_render_text(toks_view(toks@.take(i as int))),
        decreases toks@.len() - i,
    {
        proof {
            crate::tokens::lemma_toks_view_index(toks@, i as int);
            if i > 0 {
                crate::tokens::lemma_toks_view_index(toks@, i - 1);
                lemma_toks_view_len(toks@.take(i as int));
                assert(toks_view(toks@.take(i as int)).last() == toks_view(toks@.take(i as int))[
                    i - 1]);
                crate::tokens::lemma_toks_view_index(toks@.take(i as int), i - 1);
            }
        }
        if i > 0 && !no_space_tokens(&toks[i - 1], &toks[i]) {
            push_char(out, ' ');
        }
        render_tok_into(&toks[i], out);
        proof {
            lemma_render_text_snoc(toks_view(toks@.take(i as int)), toks@[i as int]@);
            lemma_toks_view_push(toks@.take(i as int), toks@[i as int]);
            assert(toks@.take(i as int).push(toks@[i as int]) =~= toks@.take(i + 1));
            lemma_toks_view_len(toks@.take(i as int));
            assert(out@ =~= old(out)@ + spec_render_text(toks_view(toks@.take(i + 1))));
        }
        i = i + 1;
    }
    proof {
        assert(toks@.take(toks@.len() as int) =~= toks@);
        assert(out@ =~= old(out)@ + spec_render_text(toks_view(toks@)));
    }
}

/// Render a token sequence to source text.
pub fn render_tokens(toks: &Vec<Token>) -> (r: String)
    ensures
        r@ == spec_render_text(toks_view(toks@)),
{
    let mut out = String::new();
    render_toks_into(toks, &mut out);
    proof {
        assert(Seq::<char>::empty() + spec_render_text(toks_view(toks@)) =~= spec_render_text(
            toks_view(toks@),
        ));
    }
    out
}

} // verus!
