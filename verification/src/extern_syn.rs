//! The boundary to the `syn` parser. The annotation grammar itself is parsed
//! by this library; `syn` is consulted only for what is genuinely Rust's own
//! grammar: whether a piece of text is a valid Rust type or expression, so
//! that owner types and failure expressions beyond the structural path
//! subset can still be accepted verbatim, exactly as a Rust parser would
//! judge them.

use vstd::prelude::*;

verus! {

/// Whether `syn` parses the text as a Rust type; a function of the text
/// alone.
pub uninterp spec fn syn_type_ok(s: Seq<char>) -> bool;

/// Whether `syn` parses the text as a Rust expression; a function of the
/// text alone.
pub uninterp spec fn syn_expr_ok(s: Seq<char>) -> bool;

/// Relies on `syn::parse_str::<syn::Type>`: whether text parses as a Rust
/// type depends on the text alone.
#[verifier::external_body]
pub(crate) fn syn_parses_type(s: &str) -> (r: bool)
    ensures
        r == syn_type_ok(s@),
{
    syn::parse_str::<syn::Type>(s).is_ok()
}

/// Relies on `syn::parse_str::<syn::Expr>`: whether text parses as a Rust
/// expression depends on the text alone.
#[verifier::external_body]
pub(crate) fn syn_parses_expr(s: &str) -> (r: bool)
    ensures
        r == syn_expr_ok(s@),
{
    syn::parse_str::<syn::Expr>(s).is_ok()
}

} // verus!
