//! Keeps a function's body where a build-time predicate holds and puts a
//! stub that fails at run time in its place where it does not.
//!
//! The crate is the core of an attribute macro. A front end parses the
//! annotated item, hands it over as a [`syntax::Item`] with the text of the
//! predicate, and turns what comes back into tokens again: the rewritten
//! item, or a diagnostic.

use crate::error::{ConfigError, ConfigErrorView};
use crate::expand::{expansion, Expander};
use crate::syntax::{Item, ItemView};
use vstd::prelude::*;

pub mod annotation;
pub mod error;
pub mod expand;
pub mod gating;
pub mod syntax;

verus! {

/// The view of what the rewriting hands back.
pub open spec fn outcome_view(out: Result<Item, ConfigError>) -> Result<ItemView, ConfigErrorView> {
    match out {
        Ok(item) => Ok(item@),
        Err(e) => Err(e@),
    }
}

/// Rewrites `input` under the predicate `args`.
///
/// Every function that the item holds gets a body that is the stub where
/// the predicate is false and the former body where it is true. The result
/// is the rewritten item, or the error to report in its place: for an item
/// that is no function, module or impl block, and for a function with a
/// malformed `panic_return` attribute. A module and an impl block are
/// never refused: a function in them that cannot be rewritten stays as it
/// is.
pub fn cfg_or_panic(args: String, input: Item) -> (out: Result<Item, ConfigError>)
    ensures
        expansion(args@, input@, outcome_view(out)),
{
    let expander = Expander::new(args);
    let mut item = input;
    match expander.expand_item(&mut item) {
        Ok(()) => Ok(item),
        Err(e) => Err(e),
    }
}

} // verus!
