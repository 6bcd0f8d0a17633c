//! The data that discovery works on: the query, the records found on a page,
//! and the rows that leave the core.

use crate::text::text_of;
use vstd::prelude::*;

verus! {

/// How pages are obtained and how it is known that more remain.
#[derive(Clone, Copy, Debug, PartialEq, Eq, Structural)]
pub enum Backend {
    /// One page that lists a topic; records carry their tag labels, and only
    /// those tagged with the dependency label count.
    TopicListing,
    /// Paginated search results that a "next page" element leads through.
    LegacySearch,
    /// A search API that streams records and flags archived ones.
    SearchApi,
}

/// The name under which a record of the given backend holds its link.
#[derive(Clone, Copy, Debug, PartialEq, Eq, Structural)]
pub enum Element {
    /// The `url` field of a record of the search API.
    Url,
    /// The `href` of the link in a block of a listing.
    Href,
    /// The "next page" element of a page of search results.
    NextPage,
}

/// What the caller chose for a run.
#[derive(Clone, Copy, Debug, PartialEq, Eq, Structural)]
pub struct Options {
    /// Whether archived records are listed too.
    pub include_archived: bool,
    /// Whether rows are gathered into one table instead of a line each.
    pub table_output: bool,
}

/// The two topic labels that a repository must carry to be listed. Results
/// are asked for by star count, highest first.
#[derive(Clone, Debug, PartialEq, Eq)]
pub struct Query {
    /// The label of the ecosystem.
    pub ecosystem_tag: String,
    /// The label that marks a repository as a package.
    pub dependency_tag: String,
}

pub struct QueryView {
    pub ecosystem_tag: Seq<char>,
    pub dependency_tag: Seq<char>,
}

impl View for Query {
    type V = QueryView;

    open spec fn view(&self) -> QueryView {
        QueryView { ecosystem_tag: self.ecosystem_tag@, dependency_tag: self.dependency_tag@ }
    }
}

/// One repository record as found on a page: each field is there or not.
#[derive(Clone, Debug, PartialEq, Eq)]
pub struct ResultNode {
    /// The link to the repository, absolute or relative to the host.
    pub url: Option<String>,
    pub description: Option<String>,
    pub stars: Option<u64>,
    pub archived: Option<bool>,
    /// The texts of the tag labels that the record carries.
    pub tags: Vec<String>,
    /// A rendering of the record, for diagnosis.
    pub context: String,
}

pub struct NodeView {
    pub url: Option<Seq<char>>,
    pub description: Option<Seq<char>>,
    pub stars: Option<u64>,
    pub archived: Option<bool>,
    pub tags: Seq<Seq<char>>,
    pub context: Seq<char>,
}

impl View for ResultNode {
    type V = NodeView;

    open spec fn view(&self) -> NodeView {
        NodeView {
            url: text_of(self.url),
            description: text_of(self.description),
            stars: self.stars,
            archived: self.archived,
            tags: self.tags.deep_view(),
            context: self.context@,
        }
    }
}

impl DeepView for ResultNode {
    type V = NodeView;

    open spec fn deep_view(&self) -> NodeView {
        self@
    }
}

/// One line of the listing.
#[derive(Clone, Debug, PartialEq, Eq)]
pub struct Row {
    pub url: String,
    /// The star count; `None` where the source shows no count at all, which
    /// is not the same as zero.
    pub stars: Option<u64>,
    pub description: String,
}

pub struct RowView {
    pub url: Seq<char>,
    pub stars: Option<u64>,
    pub description: Seq<char>,
}

impl View for Row {
    type V = RowView;

    open spec fn view(&self) -> RowView {
        RowView { url: self.url@, stars: self.stars, description: self.description@ }
    }
}

impl DeepView for Row {
    type V = RowView;

    open spec fn deep_view(&self) -> RowView {
        self@
    }
}

/// A structural element that a page or a record should hold and does not.
#[derive(Clone, Debug, PartialEq, Eq)]
pub struct SchemaMismatch {
    pub element: Element,
    /// A rendering of what surrounds the gap.
    pub context: String,
}

pub struct MismatchView {
    pub element: Element,
    pub context: Seq<char>,
}

impl View for SchemaMismatch {
    type V = MismatchView;

    open spec fn view(&self) -> MismatchView {
        MismatchView { element: self.element, context: self.context@ }
    }
}

impl DeepView for SchemaMismatch {
    type V = MismatchView;

    open spec fn deep_view(&self) -> MismatchView {
        self@
    }
}

/// What a page shows of the way to the page after it.
#[derive(Clone, Copy, Debug, PartialEq, Eq, Structural)]
pub enum NextAffordance {
    /// The page shows no pagination: it is the only one.
    Absent,
    /// The "next page" element is there and leads on.
    Enabled,
    /// The "next page" element is there and marked disabled.
    Disabled,
    /// The page shows pagination, but the "next page" element is not where
    /// it should be: whether more pages exist cannot be told.
    Missing,
}

/// One fetched unit of the result set: the records found in it, and what it
/// shows of the page after it.
#[derive(Clone, Debug, PartialEq, Eq)]
pub struct ResultPage {
    pub nodes: Vec<ResultNode>,
    pub next: NextAffordance,
    /// A rendering of the page, for diagnosis.
    pub context: String,
}

pub struct PageView {
    pub nodes: Seq<NodeView>,
    pub next: NextAffordance,
    pub context: Seq<char>,
}

impl View for ResultPage {
    type V = PageView;

    open spec fn view(&self) -> PageView {
        PageView { nodes: self.nodes.deep_view(), next: self.next, context: self.context@ }
    }
}

/// What a fetch came back with: the page, or the failure of the transport
/// with its message.
#[derive(Clone, Debug, PartialEq, Eq)]
pub enum Fetched {
    Page(ResultPage),
    Failed(String),
}

pub enum FetchedView {
    Page(PageView),
    Failed(Seq<char>),
}

impl View for Fetched {
    type V = FetchedView;

    open spec fn view(&self) -> FetchedView {
        match self {
            Fetched::Page(page) => FetchedView::Page(page@),
            Fetched::Failed(message) => FetchedView::Failed(message@),
        }
    }
}

impl DeepView for Fetched {
    type V = FetchedView;

    open spec fn deep_view(&self) -> FetchedView {
        self@
    }
}

/// An error that ends the run.
#[derive(Clone, Debug, PartialEq, Eq)]
pub enum Fatal {
    /// A fetch failed; the message is the transport's.
    Transport(String),
    /// A page does not show whether more pages exist.
    Schema(SchemaMismatch),
}

pub enum FatalView {
    Transport(Seq<char>),
    Schema(MismatchView),
}

impl View for Fatal {
    type V = FatalView;

    open spec fn view(&self) -> FatalView {
        match self {
            Fatal::Transport(message) => FatalView::Transport(message@),
            Fatal::Schema(mismatch) => FatalView::Schema(mismatch@),
        }
    }
}

} // verus!
