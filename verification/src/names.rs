//! Generated identifiers: how a category name becomes the names of the items
//! that stand for it.

use convert_case::{Case, Casing};
use vstd::prelude::*;
use vstd::string::*;

verus! {

/// The casing convention of one identifier role.
#[derive(Debug, Clone, Copy, PartialEq, Eq, Structural)]
pub enum CaseStyle {
    /// Words run together, each capitalised: the convention of type names.
    Pascal,
    /// Lowercase words joined by underscores: the convention of function and
    /// field names.
    Snake,
}

/// `name` rewritten in `style` by the `convert_case` crate.
pub uninterp spec fn cased(name: Seq<char>, style: CaseStyle) -> Seq<char>;

/// Calls `Casing::to_case` of `convert_case` on `name`, with `Case::Pascal` or
/// `Case::Snake` as `style` says. The crate splits the text into words and
/// joins them again in the new case; the contract only gives that text its
/// name, `cased`, and claims that it depends on `name` and `style` alone.
#[verifier::external_body]
pub(crate) fn to_case(name: &str, style: CaseStyle) -> (out: String)
    ensures
        out@ == cased(name@, style),
{
    let case = match style {
        CaseStyle::Pascal => Case::Pascal,
        CaseStyle::Snake => Case::Snake,
    };
    name.to_case(case)
}

/// The text that is read as the name of the payload type of the category
/// `name`.
pub open spec fn payload_type_text(name: Seq<char>) -> Seq<char> {
    "Event"@ + cased(name, CaseStyle::Pascal)
}

/// The text that is read as the name of the field that holds the listeners of
/// the category `name`.
pub open spec fn listeners_field_text(name: Seq<char>) -> Seq<char> {
    "callbacks_"@ + cased(name, CaseStyle::Snake)
}

/// The text that is read as the name of the register function of the category
/// `name`.
pub open spec fn register_fn_text(name: Seq<char>) -> Seq<char> {
    "register_"@ + cased(name, CaseStyle::Snake)
}

/// The text that is read as the name of the fire function of the category
/// `name`.
pub open spec fn fire_fn_text(name: Seq<char>) -> Seq<char> {
    "fire_"@ + cased(name, CaseStyle::Snake)
}

/// The texts that are read as the identifiers of one category.
#[derive(Debug, Clone, PartialEq, Eq)]
pub struct IdentifierTexts {
    pub payload_type: String,
    pub listeners_field: String,
    pub register_fn: String,
    pub fire_fn: String,
}

/// `prefix` followed by `name` in `style`: the text of a generated
/// identifier.
pub fn generated(prefix: &str, name: &str, style: CaseStyle) -> (text: String)
    ensures
        text@ == prefix@ + cased(name@, style),
{
    let converted = to_case(name, style);
    let mut text = String::from_str(prefix);
    text.append(converted.as_str());
    text
}

/// Writes the texts that are read as the identifiers of the category `name`:
/// the type name in Pascal case behind `Event`, the others in snake case
/// behind the word for their role.
pub fn identifier_texts(name: &str) -> (texts: IdentifierTexts)
    ensures
        texts.payload_type@ == payload_type_text(name@),
        texts.listeners_field@ == listeners_field_text(name@),
        texts.register_fn@ == register_fn_text(name@),
        texts.fire_fn@ == fire_fn_text(name@),
{
    IdentifierTexts {
        payload_type: generated("Event", name, CaseStyle::Pascal),
        listeners_field: generated("callbacks_", name, CaseStyle::Snake),
        register_fn: generated("register_", name, CaseStyle::Snake),
        fire_fn: generated("fire_", name, CaseStyle::Snake),
    }
}

} // verus!
