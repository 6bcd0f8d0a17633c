//! The wording of what went wrong.

use crate::model::{Element, Fatal, FatalView, MismatchView, SchemaMismatch};
use vstd::prelude::*;
use vstd::string::*;

verus! {

/// The name of an element, as reports show it.
pub open spec fn element_name(element: Element) -> Seq<char> {
    match element {
        Element::Url => "url"@,
        Element::Href => "href"@,
        Element::NextPage => "next page"@,
    }
}

/// The name of an element.
pub fn name_of(element: Element) -> (out: &'static str)
    ensures
        out@ == element_name(element),
{
    match element {
        Element::Url => "url",
        Element::Href => "href",
        Element::NextPage => "next page",
    }
}

/// The report of a missing element: its name, and what surrounds the gap.
pub open spec fn mismatch_text(mismatch: MismatchView) -> Seq<char> {
    "missing "@ + element_name(mismatch.element) + " in "@ + mismatch.context
}

/// Writes the report of a missing element.
pub fn describe_mismatch(mismatch: &SchemaMismatch) -> (out: String)
    ensures
        out@ == mismatch_text(mismatch@),
{
    let mut out = String::from_str("missing ");
    out.append(name_of(mismatch.element));
    out.append(" in ");
    out.append(mismatch.context.as_str());
    out
}

/// The report of an error that ends the run: the transport's own message,
/// or the report of the element that a page lacks.
pub open spec fn fatal_text(fatal: FatalView) -> Seq<char> {
    match fatal {
        FatalView::Transport(message) => message,
        FatalView::Schema(mismatch) => mismatch_text(mismatch),
    }
}

/// Writes the report of an error that ends the run.
pub fn describe_fatal(fatal: &Fatal) -> (out: String)
    ensures
        out@ == fatal_text(fatal@),
{
    match fatal {
        Fatal::Transport(message) => message.clone(),
        Fatal::Schema(mismatch) => describe_mismatch(mismatch),
    }
}

} // verus!
