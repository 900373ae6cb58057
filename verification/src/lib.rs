//! A role-configuration compiler for owner/dependent type relationships.
//!
//! Given the parsed form of a relationship annotation — an owner role
//! (`app`/`parent`) or a dependent role (`agent(...)`/`child(...)`) — the
//! library validates the configuration and synthesizes the storage field, the
//! capability-trait implementation and the accessor methods that realize a
//! cycle-free ownership link, with a configurable policy for the one
//! operation that can fail at run time: upgrading a weak reference.

use vstd::prelude::*;

pub mod app;
pub mod args;
pub mod builder_sugar;
pub mod codegen;
pub mod descriptor;
pub mod diag;
pub mod expr;
pub mod extern_syn;
pub mod render;
pub mod synth;
pub mod tokens;
pub mod traits;
pub mod typath;

verus! {

} // verus!
