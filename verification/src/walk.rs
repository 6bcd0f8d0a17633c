//! The result-set walker: which of the records of a page are candidates.

use crate::model::{Backend, NodeView, Options, Query, ResultNode};
use crate::text::{char_is_whitespace, chars_of, is_whitespace};
use vstd::prelude::*;

verus! {

/// The first position at or after `i` that holds no whitespace, or the
/// length of `s` where there is none.
pub open spec fn skip_whitespace(s: Seq<char>, i: int) -> int
    decreases s.len() - i,
{
    if 0 <= i < s.len() && is_whitespace(s[i]) {
        skip_whitespace(s, i + 1)
    } else {
        i
    }
}

/// The end of the last stretch before `j` that holds no whitespace, or 0
/// where there is none.
pub open spec fn skip_whitespace_back(s: Seq<char>, j: int) -> int
    decreases j,
{
    if 0 < j <= s.len() && is_whitespace(s[j - 1]) {
        skip_whitespace_back(s, j - 1)
    } else {
        j
    }
}

/// `s` without the whitespace at its two ends.
pub open spec fn trimmed(s: Seq<char>) -> Seq<char> {
    let from = skip_whitespace(s, 0);
    let to = skip_whitespace_back(s, s.len() as int);
    if from < to {
        s.subrange(from, to)
    } else {
        Seq::empty()
    }
}

proof fn lemma_skip_stops(s: Seq<char>, i: int)
    requires
        0 <= i <= s.len(),
    ensures
        i <= skip_whitespace(s, i) <= s.len(),
        skip_whitespace(s, i) < s.len() ==> !is_whitespace(s[skip_whitespace(s, i)]),
    decreases s.len() - i,
{
    if i < s.len() && is_whitespace(s[i]) {
        lemma_skip_stops(s, i + 1);
    }
}

proof fn lemma_skip_back_stops(s: Seq<char>, j: int)
    requires
        0 <= j <= s.len(),
    ensures
        0 <= skip_whitespace_back(s, j) <= j,
        skip_whitespace_back(s, j) > 0 ==> !is_whitespace(s[skip_whitespace_back(s, j) - 1]),
    decreases j,
{
    if 0 < j && is_whitespace(s[j - 1]) {
        lemma_skip_back_stops(s, j - 1);
    }
}

/// What is left of a text after trimming neither begins nor ends with
/// whitespace.
pub proof fn lemma_trimmed_ends(s: Seq<char>)
    ensures
        trimmed(s).len() > 0 ==> !is_whitespace(trimmed(s).first()) && !is_whitespace(
            trimmed(s).last(),
        ),
{
    lemma_skip_stops(s, 0);
    lemma_skip_back_stops(s, s.len() as int);
}

/// A text without whitespace at its ends is trimmed to itself.
pub proof fn lemma_trimmed_keeps_bare_text(s: Seq<char>)
    requires
        s.len() > 0 ==> !is_whitespace(s.first()) && !is_whitespace(s.last()),
    ensures
        trimmed(s) == s,
{
    assert(trimmed(s) =~= s);
}

/// Whether a tag label, without the whitespace around it, is exactly the
/// tag looked for.
pub fn tag_matches(label: &str, tag: &str) -> (b: bool)
    ensures
        b == (trimmed(label@) == tag@),
{
    let chars = chars_of(label);
    let want = chars_of(tag);
    let mut from: usize = 0;
    while from < chars.len() && char_is_whitespace(chars[from])
        invariant
            from <= chars.len(),
            skip_whitespace(chars@, 0) == skip_whitespace(chars@, from as int),
        decreases chars.len() - from,
    {
        from += 1;
    }
    let mut to: usize = chars.len();
    while to > 0 && char_is_whitespace(chars[to - 1])
        invariant
            to <= chars.len(),
            skip_whitespace_back(chars@, chars.len() as int) == skip_whitespace_back(
                chars@,
                to as int,
            ),
        decreases to,
    {
        to -= 1;
    }
    assert(skip_whitespace(chars@, 0) == from);
    assert(skip_whitespace_back(chars@, chars.len() as int) == to);
    if from >= to {
        assert(want.len() == 0 ==> tag@ =~= Seq::<char>::empty());
        return want.len() == 0;
    }
    if want.len() != to - from {
        return false;
    }
    let mut k: usize = 0;
    while k < want.len()
        invariant
            k <= want.len(),
            from < to <= chars.len(),
            want.len() == to - from,
            chars@ == label@,
            want@ == tag@,
            skip_whitespace(chars@, 0) == from,
            skip_whitespace_back(chars@, chars.len() as int) == to,
            forall|j: int| 0 <= j < k ==> want[j] == chars[from + j],
        decreases want.len() - k,
    {
        if want[k] != chars[from + k] {
            assert(trimmed(label@)[k as int] != tag@[k as int]);
            return false;
        }
        k += 1;
    }
    assert(trimmed(label@) =~= tag@);
    true
}

/// Whether one of the tag labels, trimmed, is exactly `tag`.
pub open spec fn carries_tag(labels: Seq<Seq<char>>, tag: Seq<char>) -> bool {
    exists|i: int| 0 <= i < labels.len() && trimmed(#[trigger] labels[i]) == tag
}

/// Whether a record of a page is a candidate. On the topic listing it must
/// carry the dependency tag; among search results every record counts; from
/// the search API an archived record counts only where archived ones were
/// asked for.
pub open spec fn accepted(
    node: NodeView,
    backend: Backend,
    dependency_tag: Seq<char>,
    include_archived: bool,
) -> bool {
    match backend {
        Backend::TopicListing => carries_tag(node.tags, dependency_tag),
        Backend::LegacySearch => true,
        Backend::SearchApi => include_archived || node.archived != Some(true),
    }
}

/// Decides whether a record is a candidate.
pub fn accepts(node: &ResultNode, backend: Backend, query: &Query, options: &Options) -> (b: bool)
    ensures
        b == accepted(node@, backend, query@.dependency_tag, options.include_archived),
{
    match backend {
        Backend::TopicListing => {
            let mut i: usize = 0;
            while i < node.tags.len()
                invariant
                    i <= node.tags.len(),
                    backend is TopicListing,
                    forall|j: int|
                        0 <= j < i ==> trimmed(#[trigger] node@.tags[j]) != query@.dependency_tag,
                decreases node.tags.len() - i,
            {
                if tag_matches(node.tags[i].as_str(), query.dependency_tag.as_str()) {
                    assert(node@.tags[i as int] == node.tags[i as int]@);
                    assert(trimmed(node@.tags[i as int]) == query@.dependency_tag);
                    return true;
                }
                assert(node@.tags[i as int] == node.tags[i as int]@);
                i += 1;
            }
            false
        },
        Backend::LegacySearch => true,
        Backend::SearchApi => {
            options.include_archived || match node.archived {
                Some(archived) => !archived,
                None => true,
            }
        },
    }
}

/// The candidates among the records of a page, in the order of the page.
pub open spec fn candidates(
    nodes: Seq<NodeView>,
    backend: Backend,
    dependency_tag: Seq<char>,
    include_archived: bool,
) -> Seq<NodeView> {
    nodes.filter(|node: NodeView| accepted(node, backend, dependency_tag, include_archived))
}

/// Walks the records of a page and hands out the candidates, in the order in
/// which the page holds them.
pub fn walk<'a>(
    nodes: &'a Vec<ResultNode>,
    backend: Backend,
    query: &Query,
    options: &Options,
) -> (out: Vec<&'a ResultNode>)
    ensures
        out.deep_view() == candidates(
            nodes.deep_view(),
            backend,
            query@.dependency_tag,
            options.include_archived,
        ),
{
    let ghost keep = |node: NodeView|
        accepted(node, backend, query@.dependency_tag, options.include_archived);
    let mut out: Vec<&'a ResultNode> = Vec::new();
    let mut i: usize = 0;
    proof {
        reveal(Seq::filter);
        assert(nodes.deep_view().take(0) =~= Seq::<NodeView>::empty());
    }
    while i < nodes.len()
        invariant
            i <= nodes.len(),
            keep == |node: NodeView|
                accepted(node, backend, query@.dependency_tag, options.include_archived),
            out.deep_view() == nodes.deep_view().take(i as int).filter(keep),
        decreases nodes.len() - i,
    {
        let node = &nodes[i];
        let ghost before = out.deep_view();
        proof {
            reveal(Seq::filter);
            assert(nodes.deep_view().take(i + 1).drop_last() =~= nodes.deep_view().take(i as int));
            assert(nodes.deep_view().take(i + 1).last() == node@);
        }
        if accepts(node, backend, query, options) {
            out.push(node);
            assert(out.deep_view() =~= before.push(node@));
        }
        i += 1;
    }
    assert(nodes.deep_view().take(nodes.len() as int) =~= nodes.deep_view());
    out
}

/// From the search API, with archived records asked for, every record is a
/// candidate.
pub proof fn lemma_archived_included(nodes: Seq<NodeView>, dependency_tag: Seq<char>)
    ensures
        candidates(nodes, Backend::SearchApi, dependency_tag, true) == nodes,
    decreases nodes.len(),
{
    reveal(Seq::filter);
    if nodes.len() > 0 {
        lemma_archived_included(nodes.drop_last(), dependency_tag);
        assert(nodes.drop_last().push(nodes.last()) =~= nodes);
    }
}

/// From the search API, without archived records asked for, the candidates
/// are the records that are not flagged as archived, and no others.
pub proof fn lemma_archived_skipped(nodes: Seq<NodeView>, dependency_tag: Seq<char>)
    ensures
        candidates(nodes, Backend::SearchApi, dependency_tag, false) == nodes.filter(
            |node: NodeView| node.archived != Some(true),
        ),
    decreases nodes.len(),
{
    reveal(Seq::filter);
    if nodes.len() > 0 {
        lemma_archived_skipped(nodes.drop_last(), dependency_tag);
    }
}

} // verus!
