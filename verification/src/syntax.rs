//! What counts as an identifier and as a type: both are decided by `syn`.
//!
//! `syn` reads text through the lexer of the compiler while a macro is being
//! expanded and through its own elsewhere, and prints what it read in the same
//! way. What it accepts and what it prints therefore depend on more than the
//! text, and little is claimed of it: the callers state what holds of every
//! answer.
//!
//! `syn` descends once for every level of nesting in the text, when it reads
//! it and again when it prints or drops what it read. A text is therefore read
//! only if it holds no more than `WEIGHT_LIMIT` words and structural
//! characters; a text beyond the limit is answered like one that `syn`
//! refused.

use crate::limits::{is_plain, nested_within, within, WEIGHT_LIMIT};
use quote::ToTokens;
use vstd::prelude::*;

verus! {

/// The error that `syn` reports for text it cannot parse.
#[verifier::external_type_specification]
#[verifier::external_body]
pub struct ExSynError(syn::Error);

/// Calls `syn::parse_str::<syn::Ident>` on `text` and prints the identifier it
/// found. The text must be within the limit on weight. The one claim on the
/// answer: a text of word characters only, where it is accepted, is the
/// identifier itself.
#[verifier::external_body]
pub(crate) fn parse_ident(text: &str) -> (parsed: Result<String, syn::Error>)
    requires
        nested_within(text@, WEIGHT_LIMIT as nat),
    ensures
        parsed matches Ok(ident) ==> (is_plain(text@) ==> ident@ == text@),
{
    match syn::parse_str::<syn::Ident>(text) {
        Ok(ident) => Ok(ident.to_string()),
        Err(error) => Err(error),
    }
}

/// Calls `syn::parse_str::<syn::Type>` on `text` and prints the tokens of the
/// type it found. The text must be within the limit on weight. Nothing is
/// claimed of the answer.
#[verifier::external_body]
pub(crate) fn parse_type(text: &str) -> (parsed: Result<String, syn::Error>)
    requires
        nested_within(text@, WEIGHT_LIMIT as nat),
{
    match syn::parse_str::<syn::Type>(text) {
        Ok(ty) => Ok(ty.to_token_stream().to_string()),
        Err(error) => Err(error),
    }
}

/// `ident` can be what `text` was read as: the text is within the limit on
/// weight, and a text of word characters only is read as itself.
pub open spec fn reads_as(text: Seq<char>, ident: Seq<char>) -> bool {
    nested_within(text, WEIGHT_LIMIT as nat) && (is_plain(text) ==> ident == text)
}

/// Reads `text` as an identifier. A text beyond the limit on weight is not read.
pub fn read_ident(text: &str) -> (ident: Option<String>)
    ensures
        !nested_within(text@, WEIGHT_LIMIT as nat) ==> ident is None,
        ident matches Some(read) ==> reads_as(text@, read@),
{
    if !within(text, WEIGHT_LIMIT) {
        return None;
    }
    match parse_ident(text) {
        Ok(ident) => Some(ident),
        Err(_) => None,
    }
}

/// Reads `text` as a type and gives its tokens. A text beyond the limit on
/// weight is not read.
pub fn read_type(text: &str) -> (tokens: Option<String>)
    ensures
        tokens is Some ==> nested_within(text@, WEIGHT_LIMIT as nat),
{
    if !within(text, WEIGHT_LIMIT) {
        return None;
    }
    match parse_type(text) {
        Ok(tokens) => Some(tokens),
        Err(_) => None,
    }
}

} // verus!
