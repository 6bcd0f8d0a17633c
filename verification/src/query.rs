//! The request: which repositories are asked for, and in what order.

use crate::model::{Query, QueryView};
use vstd::prelude::*;
use vstd::string::*;

verus! {

/// The label of the ecosystem whose packages are listed.
pub const ECOSYSTEM_TAG: &'static str = "wurst";

/// The label that marks a repository as a package.
pub const DEPENDENCY_TAG: &'static str = "dependency";

/// What stands before a label in the search terms.
pub const TOPIC_QUALIFIER: &'static str = "topic:";

/// The key by which results are sorted.
pub const SORT_KEY: &'static str = "stars";

/// The direction in which results are sorted: highest first.
pub const SORT_ORDER: &'static str = "desc";

/// The search terms of a query: both labels, each as a topic, with a space
/// between them.
pub open spec fn search_text(query: QueryView) -> Seq<char> {
    TOPIC_QUALIFIER@ + query.ecosystem_tag + seq![' '] + TOPIC_QUALIFIER@ + query.dependency_tag
}

/// The query for the packages of the ecosystem.
pub fn standard_query() -> (query: Query)
    ensures
        query@ == (QueryView { ecosystem_tag: ECOSYSTEM_TAG@, dependency_tag: DEPENDENCY_TAG@ }),
{
    Query {
        ecosystem_tag: String::from_str(ECOSYSTEM_TAG),
        dependency_tag: String::from_str(DEPENDENCY_TAG),
    }
}

/// Writes the search terms of a query.
pub fn search_terms(query: &Query) -> (out: String)
    ensures
        out@ == search_text(query@),
{
    let mut out = String::from_str(TOPIC_QUALIFIER);
    out.append(query.ecosystem_tag.as_str());
    out.push(' ');
    out.append(TOPIC_QUALIFIER);
    out.append(query.dependency_tag.as_str());
    out
}

} // verus!
