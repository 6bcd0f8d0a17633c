//! The field extractor: from one record to one row, or to the report of the
//! link that the record lacks.

use crate::model::{
    Backend, Element, MismatchView, NodeView, ResultNode, Row, RowView, SchemaMismatch,
};
use vstd::prelude::*;
use vstd::string::*;

verus! {

/// The origin that relative links are relative to.
pub const HOST_ORIGIN: &'static str = "https://github.com";

/// The description of a record that has none.
pub const NO_DESCRIPTION: &'static str = "(No description)";

/// Whether a link is a path on the host rather than a full address.
pub open spec fn is_relative(link: Seq<char>) -> bool {
    link.len() > 0 && link[0] == '/'
}

/// The full address of a link: a path on the host gets the host's origin in
/// front, anything else stays as it was found.
pub open spec fn absolute(link: Seq<char>) -> Seq<char> {
    if is_relative(link) {
        HOST_ORIGIN@ + link
    } else {
        link
    }
}

/// The name under which a record of `backend` holds its link.
pub open spec fn link_element(backend: Backend) -> Element {
    match backend {
        Backend::SearchApi => Element::Url,
        Backend::TopicListing => Element::Href,
        Backend::LegacySearch => Element::Href,
    }
}

/// The star count of a record of `backend`. The search API reports a count,
/// and a record of it that holds none counts as zero. The two listings show
/// no count: a row from them has none, which is not the same as zero.
pub open spec fn observed_stars(stars: Option<u64>, backend: Backend) -> Option<u64> {
    match backend {
        Backend::SearchApi => match stars {
            Some(n) => Some(n),
            None => Some(0),
        },
        Backend::TopicListing => None,
        Backend::LegacySearch => None,
    }
}

/// The star count of a record of `backend`.
pub fn stars_of(stars: Option<u64>, backend: Backend) -> (out: Option<u64>)
    ensures
        out == observed_stars(stars, backend),
{
    match backend {
        Backend::SearchApi => match stars {
            Some(n) => Some(n),
            None => Some(0),
        },
        Backend::TopicListing => None,
        Backend::LegacySearch => None,
    }
}

/// The description of a record, or the placeholder where it has none.
pub open spec fn description_or_placeholder(node: NodeView) -> Seq<char> {
    match node.description {
        Some(d) => d,
        None => NO_DESCRIPTION@,
    }
}

/// What extraction makes of a record: the row of a record with a link, the
/// report of the missing link otherwise.
pub open spec fn extracted(node: NodeView, backend: Backend) -> Result<RowView, MismatchView> {
    match node.url {
        Some(link) => Ok(
            RowView {
                url: absolute(link),
                stars: observed_stars(node.stars, backend),
                description: description_or_placeholder(node),
            },
        ),
        None => Err(MismatchView { element: link_element(backend), context: node.context }),
    }
}

/// The view of an outcome of extraction.
pub open spec fn outcome_view(r: Result<Row, SchemaMismatch>) -> Result<RowView, MismatchView> {
    match r {
        Ok(row) => Ok(row@),
        Err(e) => Err(e@),
    }
}

/// Makes a link absolute.
pub fn absolute_url(link: &str) -> (out: String)
    ensures
        out@ == absolute(link@),
{
    if !link.is_empty() && link.get_char(0) == '/' {
        let mut out = String::from_str(HOST_ORIGIN);
        out.append(link);
        out
    } else {
        String::from_str(link)
    }
}

/// The name under which a record of `backend` holds its link.
pub fn link_element_of(backend: Backend) -> (e: Element)
    ensures
        e == link_element(backend),
{
    match backend {
        Backend::SearchApi => Element::Url,
        Backend::TopicListing => Element::Href,
        Backend::LegacySearch => Element::Href,
    }
}

/// Extracts the row of a record. The link is required: a record without one
/// gives no row but the report of what is missing. A missing description
/// gives the placeholder. A star count is taken only from the search API,
/// where a missing one counts as zero.
pub fn extract(node: &ResultNode, backend: Backend) -> (r: Result<Row, SchemaMismatch>)
    ensures
        r is Ok <==> node@.url is Some,
        outcome_view(r) == extracted(node@, backend),
{
    match &node.url {
        Some(link) => {
            let description = match &node.description {
                Some(d) => d.clone(),
                None => String::from_str(NO_DESCRIPTION),
            };
            let stars = stars_of(node.stars, backend);
            Ok(Row { url: absolute_url(link.as_str()), stars, description })
        },
        None => Err(
            SchemaMismatch { element: link_element_of(backend), context: node.context.clone() },
        ),
    }
}

/// A record with a link gives exactly its row, whose address is the link
/// made absolute: the link itself, or the host's origin and the link where
/// the link is a path.
pub proof fn lemma_link_gives_row(node: NodeView, backend: Backend)
    requires
        node.url is Some,
    ensures
        extracted(node, backend) is Ok,
        is_relative(node.url->0) ==> extracted(node, backend)->Ok_0.url == HOST_ORIGIN@
            + node.url->0,
        !is_relative(node.url->0) ==> extracted(node, backend)->Ok_0.url == node.url->0,
{
}

/// A record without a link gives no row, but the report that names the
/// element and shows the record.
pub proof fn lemma_no_link_gives_mismatch(node: NodeView, backend: Backend)
    requires
        node.url is None,
    ensures
        extracted(node, backend) is Err,
        extracted(node, backend)->Err_0.context == node.context,
        extracted(node, backend)->Err_0.element == link_element(backend),
{
}

/// A record with a link and without a description gets the placeholder.
pub proof fn lemma_placeholder_description(node: NodeView, backend: Backend)
    requires
        node.url is Some,
        node.description is None,
    ensures
        extracted(node, backend)->Ok_0.description == NO_DESCRIPTION@,
{
}

/// A record of the search API with a link always has a star count in its
/// row: its own, or zero where it holds none. A row from a listing never
/// has one.
pub proof fn lemma_star_count(node: NodeView, backend: Backend)
    requires
        node.url is Some,
    ensures
        backend is SearchApi && node.stars is Some ==> extracted(node, backend)->Ok_0.stars
            == node.stars,
        backend is SearchApi && node.stars is None ==> extracted(node, backend)->Ok_0.stars
            == Some(0u64),
        !(backend is SearchApi) ==> extracted(node, backend)->Ok_0.stars is None,
{
}

} // verus!
