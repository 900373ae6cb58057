//! The receivers of the standalone owner/dependent annotations: the user's
//! struct as received, held verbatim so that composition cannot disturb it.

use vstd::prelude::*;
use crate::tokens::Span;
use crate::tokens::Token;
use crate::tokens::duplicate_tokens;
use crate::tokens::toks_view;
use crate::args::chunks_view;

pub mod app_producer;
pub mod obj_producer;

verus! {

/// One field of the received struct, verbatim.
pub struct StructField {
    pub toks: Vec<Token>,
    pub span: Span,
}

/// An application struct as received.
pub struct AppStruct {
    pub vis: Vec<Token>,
    pub ident: String,
    pub attrs: Vec<Token>,
    pub generics: Vec<Token>,
    pub where_clause: Vec<Token>,
    pub fields: Vec<StructField>,
}

/// An agent struct as received.
pub struct AgentStruct {
    pub vis: Vec<Token>,
    pub ident: String,
    pub attrs: Vec<Token>,
    pub generics: Vec<Token>,
    pub where_clause: Vec<Token>,
    pub fields: Vec<StructField>,
}

/// The views of a field list.
pub open spec fn fields_view(fs: Seq<StructField>) -> Seq<Seq<crate::tokens::Tok>>
    decreases fs,
{
    if fs.len() == 0 {
        Seq::empty()
    } else {
        seq![toks_view(fs[0].toks@)] + fields_view(fs.drop_first())
    }
}

impl AppStruct {
    /// The received fields, verbatim and in order.
    pub fn fields(&self) -> (r: &Vec<StructField>)
        ensures
            r == &self.fields,
    {
        &self.fields
    }
}

impl AgentStruct {
    /// The received fields, verbatim and in order.
    pub fn fields(&self) -> (r: &Vec<StructField>)
        ensures
            r == &self.fields,
    {
        &self.fields
    }
}

} // verus!
