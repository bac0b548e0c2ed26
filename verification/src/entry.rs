//! The macro as a whole.

use vstd::prelude::*;

use proc_macro2::TokenStream;

use crate::expansion::{self, Piece};
use crate::source::{self, Source, SourceView};
use crate::syntax::{JoinMeMaybe, ParseError};

verus! {

/// Why the macro refuses its input.
#[derive(Debug)]
pub struct Refusal {
    pub error: ParseError,
    /// The message for the user of the macro.
    pub message: String,
}

/// What the macro makes of an input that has been read: the expansion, or the first thing that is
/// wrong with the input.
pub fn expand(source: &Source) -> (result: Result<Vec<Piece>, Refusal>)
    ensures
        match source@.parse() {
            Ok(arms) => result is Ok && result->Ok_0@ == expansion::expansion(arms),
            Err(error) => {
                &&& result is Err
                &&& result->Err_0.error == error
                &&& result->Err_0.message@ == error.spec_message(source@)
            },
        },
{
    match JoinMeMaybe::parse(source) {
        Ok(join) => Ok(join.to_tokens()),
        Err(error) => Err(Refusal { error, message: error.message(source) }),
    }
}

/// Runs several futures and streams concurrently, with support for cancelling them, for leaving
/// some of them behind, and for bodies that run on their results.
///
/// The result is what the macro expands to, or why it refuses its input.
pub fn join(input: &TokenStream) -> (result: Result<Vec<Piece>, Refusal>)
    ensures
        match SourceView::of(source::stream_trees(*input)).parse() {
            Ok(arms) => result is Ok && result->Ok_0@ == expansion::expansion(arms),
            Err(error) => {
                &&& result is Err
                &&& result->Err_0.error == error
                &&& result->Err_0.message@ == error.spec_message(SourceView::of(source::stream_trees(*input)))
            },
        },
{
    expand(&Source::read(input))
}

} // verus!
