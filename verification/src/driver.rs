//! The pagination driver: page after page, rows in the order of the source,
//! until the source shows no further page or a fetch fails.

use crate::extract::{extract, extracted};
use crate::model::{
    Backend, Element, Fatal, FatalView, Fetched, FetchedView, MismatchView, NextAffordance,
    NodeView, Options, Query, ResultNode, Row, RowView, SchemaMismatch,
};
use crate::walk::{accepted, candidates, walk};
use vstd::prelude::*;

verus! {

/// The row of a record, where it has one.
pub open spec fn row_of(node: NodeView, backend: Backend) -> Option<RowView> {
    match extracted(node, backend) {
        Ok(row) => Some(row),
        Err(_) => None,
    }
}

/// The report on a record, where it has no row.
pub open spec fn mismatch_of(node: NodeView, backend: Backend) -> Option<MismatchView> {
    match extracted(node, backend) {
        Ok(_) => None,
        Err(mismatch) => Some(mismatch),
    }
}

/// The rows of a page: one for each candidate with a link, in the order of
/// the page.
pub open spec fn page_rows(
    nodes: Seq<NodeView>,
    backend: Backend,
    dependency_tag: Seq<char>,
    include_archived: bool,
) -> Seq<RowView> {
    candidates(nodes, backend, dependency_tag, include_archived).filter_map(
        |node: NodeView| row_of(node, backend),
    )
}

/// The reports of a page: one for each candidate without a link, in the
/// order of the page.
pub open spec fn page_mismatches(
    nodes: Seq<NodeView>,
    backend: Backend,
    dependency_tag: Seq<char>,
    include_archived: bool,
) -> Seq<MismatchView> {
    candidates(nodes, backend, dependency_tag, include_archived).filter_map(
        |node: NodeView| mismatch_of(node, backend),
    )
}

/// The rows and the reports of the records of one page. A record without a
/// link costs its own row and nothing else.
pub fn process_page(
    nodes: &Vec<ResultNode>,
    backend: Backend,
    query: &Query,
    options: &Options,
) -> (out: (Vec<Row>, Vec<SchemaMismatch>))
    ensures
        out.0.deep_view() == page_rows(
            nodes.deep_view(),
            backend,
            query@.dependency_tag,
            options.include_archived,
        ),
        out.1.deep_view() == page_mismatches(
            nodes.deep_view(),
            backend,
            query@.dependency_tag,
            options.include_archived,
        ),
{
    let found = walk(nodes, backend, query, options);
    let ghost to_row = |node: NodeView| row_of(node, backend);
    let ghost to_mismatch = |node: NodeView| mismatch_of(node, backend);
    let mut rows: Vec<Row> = Vec::new();
    let mut mismatches: Vec<SchemaMismatch> = Vec::new();
    let mut i: usize = 0;
    proof {
        assert(found.deep_view().take(0) =~= Seq::<NodeView>::empty());
        assert(rows.deep_view() =~= Seq::<RowView>::empty());
        assert(mismatches.deep_view() =~= Seq::<MismatchView>::empty());
    }
    while i < found.len()
        invariant
            i <= found.len(),
            to_row == |node: NodeView| row_of(node, backend),
            to_mismatch == |node: NodeView| mismatch_of(node, backend),
            rows.deep_view() == found.deep_view().take(i as int).filter_map(to_row),
            mismatches.deep_view() == found.deep_view().take(i as int).filter_map(to_mismatch),
        decreases found.len() - i,
    {
        let ghost rows_before = rows.deep_view();
        let ghost mismatches_before = mismatches.deep_view();
        proof {
            found.deep_view().lemma_filter_map_take_succ(to_row, i as int);
            found.deep_view().lemma_filter_map_take_succ(to_mismatch, i as int);
            assert(found.deep_view()[i as int] == found[i as int]@);
        }
        match extract(found[i], backend) {
            Ok(row) => {
                rows.push(row);
                assert(rows.deep_view() =~= rows_before + seq![row@]);
                assert(mismatches_before + Seq::<MismatchView>::empty() =~= mismatches_before);
            },
            Err(mismatch) => {
                mismatches.push(mismatch);
                assert(mismatches.deep_view() =~= mismatches_before + seq![mismatch@]);
                assert(rows_before + Seq::<RowView>::empty() =~= rows_before);
            },
        }
        i += 1;
    }
    assert(found.deep_view().take(found.len() as int) =~= found.deep_view());
    (rows, mismatches)
}

/// Whether a page is followed by another.
#[derive(Clone, Copy, Debug, PartialEq, Eq, Structural)]
pub enum Continuation {
    /// Another page follows.
    More,
    /// This page is the last.
    End,
    /// The page does not show it.
    Unknown,
}

/// Whether a page of `backend` is followed by another. The topic listing is
/// a single page whatever it shows. Elsewhere an enabled "next page" element
/// leads on, a disabled one or none ends the pages, and a page with
/// pagination but without the element leaves it open.
pub open spec fn continuation(backend: Backend, next: NextAffordance) -> Continuation {
    match backend {
        Backend::TopicListing => Continuation::End,
        _ => match next {
            NextAffordance::Enabled => Continuation::More,
            NextAffordance::Disabled => Continuation::End,
            NextAffordance::Absent => Continuation::End,
            NextAffordance::Missing => Continuation::Unknown,
        },
    }
}

/// Decides whether a page of `backend` is followed by another.
pub fn continuation_of(backend: Backend, next: NextAffordance) -> (c: Continuation)
    ensures
        c == continuation(backend, next),
{
    match backend {
        Backend::TopicListing => Continuation::End,
        _ => match next {
            NextAffordance::Enabled => Continuation::More,
            NextAffordance::Disabled => Continuation::End,
            NextAffordance::Absent => Continuation::End,
            NextAffordance::Missing => Continuation::Unknown,
        },
    }
}

/// What the driver does after a fetch.
#[derive(Clone, Debug, PartialEq, Eq)]
pub enum Outlook {
    /// Fetch the page after this one.
    More,
    /// Stop: the source has no further page.
    Exhausted,
    /// Stop: the run has failed.
    Failed(Fatal),
}

pub enum OutlookView {
    More,
    Exhausted,
    Failed(FatalView),
}

impl View for Outlook {
    type V = OutlookView;

    open spec fn view(&self) -> OutlookView {
        match self {
            Outlook::More => OutlookView::More,
            Outlook::Exhausted => OutlookView::Exhausted,
            Outlook::Failed(fatal) => OutlookView::Failed(fatal@),
        }
    }
}

/// What one fetch adds to the run.
#[derive(Clone, Debug, PartialEq, Eq)]
pub struct Step {
    /// The rows to emit, in order.
    pub rows: Vec<Row>,
    /// The records that gave no row.
    pub mismatches: Vec<SchemaMismatch>,
    pub outlook: Outlook,
}

pub struct StepView {
    pub rows: Seq<RowView>,
    pub mismatches: Seq<MismatchView>,
    pub outlook: OutlookView,
}

impl View for Step {
    type V = StepView;

    open spec fn view(&self) -> StepView {
        StepView {
            rows: self.rows.deep_view(),
            mismatches: self.mismatches.deep_view(),
            outlook: self.outlook@,
        }
    }
}

/// What one fetch adds to the run. A failed fetch adds nothing and ends the
/// run with the transport's message. A page adds its rows and reports, and the
/// run goes on, or ends, as the page shows. A page that does not
/// show it ends the run with the report of the missing element.
pub open spec fn stepped(
    fetched: FetchedView,
    backend: Backend,
    dependency_tag: Seq<char>,
    include_archived: bool,
) -> StepView {
    match fetched {
        FetchedView::Failed(message) => StepView {
            rows: Seq::empty(),
            mismatches: Seq::empty(),
            outlook: OutlookView::Failed(FatalView::Transport(message)),
        },
        FetchedView::Page(page) => StepView {
            rows: page_rows(page.nodes, backend, dependency_tag, include_archived),
            mismatches: page_mismatches(page.nodes, backend, dependency_tag, include_archived),
            outlook: match continuation(backend, page.next) {
                Continuation::More => OutlookView::More,
                Continuation::End => OutlookView::Exhausted,
                Continuation::Unknown => OutlookView::Failed(
                    FatalView::Schema(
                        MismatchView { element: Element::NextPage, context: page.context },
                    ),
                ),
            },
        },
    }
}

/// Takes what a fetch came back with, and says what to emit and what to do
/// next.
pub fn advance(fetched: &Fetched, backend: Backend, query: &Query, options: &Options) -> (step:
    Step)
    ensures
        step@ == stepped(fetched@, backend, query@.dependency_tag, options.include_archived),
{
    match fetched {
        Fetched::Failed(message) => {
            let step = Step {
                rows: Vec::new(),
                mismatches: Vec::new(),
                outlook: Outlook::Failed(Fatal::Transport(message.clone())),
            };
            assert(step@.rows =~= Seq::<RowView>::empty());
            assert(step@.mismatches =~= Seq::<MismatchView>::empty());
            step
        },
        Fetched::Page(page) => {
            let (rows, mismatches) = process_page(&page.nodes, backend, query, options);
            let outlook = match continuation_of(backend, page.next) {
                Continuation::More => Outlook::More,
                Continuation::End => Outlook::Exhausted,
                Continuation::Unknown => Outlook::Failed(
                    Fatal::Schema(
                        SchemaMismatch { element: Element::NextPage, context: page.context.clone() },
                    ),
                ),
            };
            Step { rows, mismatches, outlook }
        },
    }
}

/// What a run came to.
#[derive(Clone, Debug, PartialEq, Eq)]
pub struct Discovery {
    /// The rows, page after page, each page in its own order.
    pub rows: Vec<Row>,
    /// The records that gave no row.
    pub mismatches: Vec<SchemaMismatch>,
    /// How many fetches were made.
    pub pages_fetched: usize,
    /// How the run ended; `More` where the source ran out while a page
    /// promised another.
    pub outlook: Outlook,
}

pub struct DiscoveryView {
    pub rows: Seq<RowView>,
    pub mismatches: Seq<MismatchView>,
    pub pages_fetched: nat,
    pub outlook: OutlookView,
}

impl View for Discovery {
    type V = DiscoveryView;

    open spec fn view(&self) -> DiscoveryView {
        DiscoveryView {
            rows: self.rows.deep_view(),
            mismatches: self.mismatches.deep_view(),
            pages_fetched: self.pages_fetched as nat,
            outlook: self.outlook@,
        }
    }
}

/// What the run comes to over a source, whose entry `i` is what the fetch of
/// page `i + 1` comes back with. The pages are taken in order for as long as
/// each promises another; the first that does not, and the first failed
/// fetch, is the last one taken.
pub open spec fn discovered(
    source: Seq<FetchedView>,
    backend: Backend,
    dependency_tag: Seq<char>,
    include_archived: bool,
) -> DiscoveryView
    decreases source.len(),
{
    if source.len() == 0 {
        DiscoveryView {
            rows: Seq::empty(),
            mismatches: Seq::empty(),
            pages_fetched: 0,
            outlook: OutlookView::More,
        }
    } else {
        let before = discovered(source.drop_last(), backend, dependency_tag, include_archived);
        if before.outlook is More {
            let step = stepped(source.last(), backend, dependency_tag, include_archived);
            DiscoveryView {
                rows: before.rows + step.rows,
                mismatches: before.mismatches + step.mismatches,
                pages_fetched: before.pages_fetched + 1,
                outlook: step.outlook,
            }
        } else {
            before
        }
    }
}

/// Once a run has ended, what the source holds further on changes nothing.
pub proof fn lemma_ended_run_stays(
    source: Seq<FetchedView>,
    backend: Backend,
    dependency_tag: Seq<char>,
    include_archived: bool,
    n: int,
)
    requires
        0 <= n <= source.len(),
        !(discovered(source.take(n), backend, dependency_tag, include_archived).outlook is More),
    ensures
        discovered(source, backend, dependency_tag, include_archived) == discovered(
            source.take(n),
            backend,
            dependency_tag,
            include_archived,
        ),
    decreases source.len(),
{
    if n < source.len() {
        assert(source.drop_last().take(n) =~= source.take(n));
        lemma_ended_run_stays(source.drop_last(), backend, dependency_tag, include_archived, n);
    } else {
        assert(source.take(n) =~= source);
    }
}

/// Runs the driver over a source, whose entry `i` is what the fetch of page
/// `i + 1` comes back with: fetches page after page, emits the rows of each,
/// and stops at the first page that promises no other or at the first fetch
/// that fails.
pub fn discover_dependencies(
    source: &Vec<Fetched>,
    backend: Backend,
    query: &Query,
    options: &Options,
) -> (out: Discovery)
    ensures
        out@ == discovered(
            source.deep_view(),
            backend,
            query@.dependency_tag,
            options.include_archived,
        ),
{
    let mut rows: Vec<Row> = Vec::new();
    let mut mismatches: Vec<SchemaMismatch> = Vec::new();
    let mut outlook = Outlook::More;
    let mut page: usize = 0;
    proof {
        assert(source.deep_view().take(0) =~= Seq::<FetchedView>::empty());
        assert(rows.deep_view() =~= Seq::<RowView>::empty());
        assert(mismatches.deep_view() =~= Seq::<MismatchView>::empty());
    }
    while page < source.len() && matches!(outlook, Outlook::More)
        invariant
            page <= source.len(),
            (Discovery { rows, mismatches, pages_fetched: page, outlook })@ == discovered(
                source.deep_view().take(page as int),
                backend,
                query@.dependency_tag,
                options.include_archived,
            ),
        decreases source.len() - page,
    {
        let ghost rows_before = rows.deep_view();
        let ghost mismatches_before = mismatches.deep_view();
        let mut step = advance(&source[page], backend, query, options);
        let ghost added = step@;
        proof {
            assert(source.deep_view().take(page + 1).drop_last() =~= source.deep_view().take(
                page as int,
            ));
            assert(source.deep_view().take(page + 1).last() == source[page as int]@);
        }
        rows.append(&mut step.rows);
        mismatches.append(&mut step.mismatches);
        outlook = step.outlook;
        page += 1;
        proof {
            assert(rows.deep_view() =~= rows_before + added.rows);
            assert(mismatches.deep_view() =~= mismatches_before + added.mismatches);
        }
    }
    proof {
        if page < source.len() {
            lemma_ended_run_stays(
                source.deep_view(),
                backend,
                query@.dependency_tag,
                options.include_archived,
                page as int,
            );
        } else {
            assert(source.deep_view().take(page as int) =~= source.deep_view());
        }
    }
    Discovery { rows, mismatches, pages_fetched: page, outlook }
}

proof fn lemma_filter_map_add<A, B>(a: Seq<A>, b: Seq<A>, f: spec_fn(A) -> Option<B>)
    ensures
        (a + b).filter_map(f) == a.filter_map(f) + b.filter_map(f),
    decreases b.len(),
{
    if b.len() == 0 {
        assert(a + b =~= a);
        assert(a.filter_map(f) + b.filter_map(f) =~= a.filter_map(f));
    } else {
        lemma_filter_map_add(a, b.drop_last(), f);
        assert((a + b).drop_last() =~= a + b.drop_last());
        assert((a + b).last() == b.last());
        match f(b.last()) {
            Some(x) => {
                assert((a.filter_map(f) + b.drop_last().filter_map(f)) + seq![x] =~= a.filter_map(
                    f,
                ) + (b.drop_last().filter_map(f) + seq![x]));
            },
            None => {},
        }
    }
}

/// A record alone on a page gives one row where it is a candidate with a
/// link, one report where it is a candidate without one, and nothing where
/// it is no candidate.
pub proof fn lemma_single_record(
    node: NodeView,
    backend: Backend,
    dependency_tag: Seq<char>,
    include_archived: bool,
)
    ensures
        page_rows(seq![node], backend, dependency_tag, include_archived) == (if accepted(
            node,
            backend,
            dependency_tag,
            include_archived,
        ) && node.url is Some {
            seq![extracted(node, backend)->Ok_0]
        } else {
            Seq::empty()
        }),
        page_mismatches(seq![node], backend, dependency_tag, include_archived) == (if accepted(
            node,
            backend,
            dependency_tag,
            include_archived,
        ) && node.url is None {
            seq![extracted(node, backend)->Err_0]
        } else {
            Seq::empty()
        }),
{
    let keep = |n: NodeView| accepted(n, backend, dependency_tag, include_archived);
    let to_row = |n: NodeView| row_of(n, backend);
    let to_mismatch = |n: NodeView| mismatch_of(n, backend);
    assert(seq![node].filter(keep) =~= (if keep(node) {
        seq![node]
    } else {
        Seq::empty()
    })) by {
        reveal_with_fuel(Seq::filter, 2);
    }
    Seq::lemma_filter_map_singleton(node, to_row);
    Seq::lemma_filter_map_singleton(node, to_mismatch);
    assert(Seq::<NodeView>::empty().filter_map(to_row) =~= Seq::<RowView>::empty());
    assert(Seq::<NodeView>::empty().filter_map(to_mismatch) =~= Seq::<MismatchView>::empty());
}

/// The records of a page do not affect one another: the rows and the reports
/// of a page are those of its first part followed by those of the rest. So a
/// record without a link leaves the rows of the records around it as they
/// are.
pub proof fn lemma_records_independent(
    first: Seq<NodeView>,
    rest: Seq<NodeView>,
    backend: Backend,
    dependency_tag: Seq<char>,
    include_archived: bool,
)
    ensures
        page_rows(first + rest, backend, dependency_tag, include_archived) == page_rows(
            first,
            backend,
            dependency_tag,
            include_archived,
        ) + page_rows(rest, backend, dependency_tag, include_archived),
        page_mismatches(first + rest, backend, dependency_tag, include_archived)
            == page_mismatches(first, backend, dependency_tag, include_archived) + page_mismatches(
            rest,
            backend,
            dependency_tag,
            include_archived,
        ),
{
    let keep = |n: NodeView| accepted(n, backend, dependency_tag, include_archived);
    Seq::filter_distributes_over_add(first, rest, keep);
    lemma_filter_map_add(first.filter(keep), rest.filter(keep), |n: NodeView| row_of(n, backend));
    lemma_filter_map_add(
        first.filter(keep),
        rest.filter(keep),
        |n: NodeView| mismatch_of(n, backend),
    );
}

/// Whether the fetch of a page comes back with a page that promises another.
pub open spec fn leads_on(fetched: FetchedView, backend: Backend) -> bool {
    fetched matches FetchedView::Page(page) && continuation(backend, page.next) is More
}

/// The driver stops at the first page that promises no other: where the
/// first `n` fetches lead on and the one after them does not, `n + 1` fetches
/// are made, however many the source could answer, and the run has ended.
pub proof fn lemma_stops_at_first_end(
    source: Seq<FetchedView>,
    backend: Backend,
    dependency_tag: Seq<char>,
    include_archived: bool,
    n: int,
)
    requires
        0 <= n < source.len(),
        forall|i: int| 0 <= i < n ==> leads_on(#[trigger] source[i], backend),
        !leads_on(source[n], backend),
    ensures
        discovered(source, backend, dependency_tag, include_archived).pages_fetched == n + 1,
        !(discovered(source, backend, dependency_tag, include_archived).outlook is More),
{
    lemma_leading_pages(source, backend, dependency_tag, include_archived, n);
    assert(source.take(n + 1).drop_last() =~= source.take(n));
    assert(source.take(n + 1).last() == source[n]);
    lemma_ended_run_stays(source, backend, dependency_tag, include_archived, n + 1);
}

proof fn lemma_leading_pages(
    source: Seq<FetchedView>,
    backend: Backend,
    dependency_tag: Seq<char>,
    include_archived: bool,
    n: int,
)
    requires
        0 <= n <= source.len(),
        forall|i: int| 0 <= i < n ==> leads_on(#[trigger] source[i], backend),
    ensures
        discovered(source.take(n), backend, dependency_tag, include_archived).pages_fetched == n,
        discovered(source.take(n), backend, dependency_tag, include_archived).outlook is More,
    decreases n,
{
    if n > 0 {
        lemma_leading_pages(source, backend, dependency_tag, include_archived, n - 1);
        assert(source.take(n).drop_last() =~= source.take(n - 1));
        assert(source.take(n).last() == source[n - 1]);
        assert(leads_on(source[n - 1], backend));
    }
}

/// A run makes no more fetches than the source can answer.
pub proof fn lemma_fetches_bounded(
    source: Seq<FetchedView>,
    backend: Backend,
    dependency_tag: Seq<char>,
    include_archived: bool,
)
    ensures
        discovered(source, backend, dependency_tag, include_archived).pages_fetched
            <= source.len(),
    decreases source.len(),
{
    if source.len() > 0 {
        lemma_fetches_bounded(source.drop_last(), backend, dependency_tag, include_archived);
    }
}

/// Two runs over the same source, with the same backend, tag and choice on
/// archived records, come to the same rows, the same reports and the same
/// end.
pub proof fn lemma_run_repeats(
    source: Seq<FetchedView>,
    backend: Backend,
    dependency_tag: Seq<char>,
    include_archived: bool,
    first: Discovery,
    second: Discovery,
)
    requires
        first@ == discovered(source, backend, dependency_tag, include_archived),
        second@ == discovered(source, backend, dependency_tag, include_archived),
    ensures
        first@ == second@,
        first.rows.deep_view() == second.rows.deep_view(),
{
}

} // verus!
