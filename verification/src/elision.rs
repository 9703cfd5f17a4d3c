//! Which lines of a snippet are shown.
//!
//! A snippet may be shown with some of its nested snippets collapsed. The
//! tags to keep are the tag of the snippet itself and the tags that the
//! documentation names with it. A nested snippet is kept if its tag is among
//! them or if a snippet nested in it is kept; a nested snippet that is not
//! kept, inside one that is, is collapsed to a single line.

use crate::content::{
    contains_name, lemma_snippet_views, ContentSnippetDescription, ContentSnippetView,
};
use crate::documents::Documents;
use vstd::prelude::*;

verus! {

/// How the snippets in `nested` lie between the lines `lo` and `hi`: each
/// begins at `lo` or later and ends before `hi`, each ends after it begins
/// and before the next one begins, and the snippets nested in each lie
/// between its two tag lines in the same way.
pub open spec fn laid_out(nested: Seq<ContentSnippetView>, lo: int, hi: int) -> bool
    decreases nested,
{
    forall|i: int|
        0 <= i < nested.len() ==> {
            &&& lo <= (#[trigger] nested[i]).begin < nested[i].end < hi
            &&& (i + 1 < nested.len() ==> nested[i].end < nested[i + 1].begin)
            &&& laid_out(nested[i].nested, nested[i].begin as int + 1, nested[i].end as int)
        }
}

/// Whether `snippet` is kept: its tag is among `tags`, or a snippet nested
/// in it is kept.
pub open spec fn is_kept(snippet: ContentSnippetView, tags: Seq<Seq<char>>) -> bool
    decreases snippet, 0nat,
{
    tags.contains(snippet.tag) || any_kept(snippet.nested, tags, snippet.nested.len())
}

/// Whether one of the first `n` snippets of `nested` is kept.
pub open spec fn any_kept(nested: Seq<ContentSnippetView>, tags: Seq<Seq<char>>, n: nat) -> bool
    decreases nested, n,
{
    0 < n <= nested.len() && (any_kept(nested, tags, (n - 1) as nat) || is_kept(
        nested[n - 1],
        tags,
    ))
}

/// Whether `line` belongs to a collapsed snippet when `snippet` is shown
/// with the tags `tags` kept: `snippet` is kept, and the line lies in a
/// nested snippet that is not kept, or is collapsed inside a nested snippet.
pub open spec fn is_elided(snippet: ContentSnippetView, tags: Seq<Seq<char>>, line: int) -> bool
    decreases snippet, 0nat,
{
    is_kept(snippet, tags) && (elided_within(
        snippet.nested,
        tags,
        snippet.nested.len(),
        line,
    ) || collapsed(snippet.nested, tags, snippet.nested.len(), line))
}

/// Whether `line` is collapsed inside one of the first `n` snippets of
/// `nested`.
pub open spec fn elided_within(
    nested: Seq<ContentSnippetView>,
    tags: Seq<Seq<char>>,
    n: nat,
    line: int,
) -> bool
    decreases nested, n,
{
    0 < n <= nested.len() && (elided_within(nested, tags, (n - 1) as nat, line) || is_elided(
        nested[n - 1],
        tags,
        line,
    ))
}

/// Whether `line` lies in one of the first `n` snippets of `nested` that is
/// not kept.
pub open spec fn collapsed(
    nested: Seq<ContentSnippetView>,
    tags: Seq<Seq<char>>,
    n: nat,
    line: int,
) -> bool
    decreases n,
{
    0 < n <= nested.len() && (collapsed(nested, tags, (n - 1) as nat, line) || (!is_kept(
        nested[n - 1],
        tags,
    ) && nested[n - 1].begin <= line <= nested[n - 1].end))
}

/// Where none of the first `n` snippets of `nested` is kept, no line is
/// collapsed inside them.
pub proof fn lemma_nothing_kept_nothing_elided(
    nested: Seq<ContentSnippetView>,
    tags: Seq<Seq<char>>,
    n: nat,
    line: int,
)
    requires
        !any_kept(nested, tags, n),
    ensures
        !elided_within(nested, tags, n, line),
    decreases n,
{
    if 0 < n <= nested.len() {
        lemma_nothing_kept_nothing_elided(nested, tags, (n - 1) as nat, line);
        assert(!is_kept(nested[n - 1], tags));
        assert(!is_elided(nested[n - 1], tags, line));
    }
}

/// Marks the lines from `begin` to `end`, both included.
pub fn mark_lines(marks: &mut Vec<bool>, begin: usize, end: usize)
    requires
        begin <= end < old(marks).len(),
    ensures
        final(marks).len() == old(marks).len(),
        forall|l: int|
            0 <= l < old(marks).len() ==> final(marks)[l] == (old(marks)[l] || begin <= l <= end),
{
    let mut l: usize = begin;
    while l <= end
        invariant
            begin <= l <= end + 1,
            end < marks.len(),
            marks.len() == old(marks).len(),
            forall|k: int| 0 <= k < marks.len() ==> marks[k] == (old(marks)[k] || begin <= k < l),
        decreases end + 1 - l,
    {
        marks.set(l, true);
        l += 1;
    }
}

impl Documents {
    /// Marks in `elided_lines` the lines that are collapsed when `snip_desc`
    /// is shown with the tags `tags` kept, and tells whether `snip_desc` is
    /// kept. Nothing is marked where it is not.
    #[verifier::rlimit(30)]
    pub fn has_elided_lines(
        tags: &Vec<String>,
        elided_lines: &mut Vec<bool>,
        snip_desc: &ContentSnippetDescription,
    ) -> (keep_this: bool)
        requires
            snip_desc.begin < snip_desc.end < old(elided_lines).len(),
            laid_out(snip_desc@.nested, snip_desc.begin + 1, snip_desc.end as int),
        ensures
            keep_this == is_kept(snip_desc@, tags.deep_view()),
            final(elided_lines).len() == old(elided_lines).len(),
            forall|l: int|
                0 <= l < old(elided_lines).len() ==> final(elided_lines)[l] == (old(
                    elided_lines,
                )[l] || is_elided(snip_desc@, tags.deep_view(), l)),
        decreases snip_desc,
    {
        let ghost names = tags.deep_view();
        let ghost nested = snip_desc@.nested;
        proof {
            lemma_snippet_views(snip_desc.nested@);
        }
        let mut keep_this = contains_name(tags, snip_desc.tag.as_str());
        let mut keep_nested: Vec<bool> = Vec::new();
        let mut i: usize = 0;
        while i < snip_desc.nested.len()
            invariant
                i <= snip_desc.nested.len(),
                names == tags.deep_view(),
                nested == snip_desc@.nested,
                nested.len() == snip_desc.nested.len(),
                snip_desc.end < elided_lines.len(),
                laid_out(nested, snip_desc.begin + 1, snip_desc.end as int),
                elided_lines.len() == old(elided_lines).len(),
                keep_this == (names.contains(snip_desc@.tag) || any_kept(nested, names, i as nat)),
                keep_nested.len() == i,
                forall|j: int| 0 <= j < i ==> #[trigger] keep_nested[j] == is_kept(nested[j], names),
                forall|l: int|
                    0 <= l < elided_lines.len() ==> #[trigger] elided_lines[l] == (old(
                        elided_lines,
                    )[l] || elided_within(nested, names, i as nat, l)),
            decreases snip_desc.nested.len() - i,
        {
            let child = &snip_desc.nested[i];
            proof {
                lemma_snippet_views(snip_desc.nested@);
                assert(nested[i as int] == child@);
            }
            let keep = Self::has_elided_lines(tags, elided_lines, child);
            if keep {
                keep_this = true;
            }
            keep_nested.push(keep);
            i += 1;
        }
        if keep_this {
            let ghost within = elided_lines@;
            let mut j: usize = 0;
            while j < snip_desc.nested.len()
                invariant
                    j <= snip_desc.nested.len(),
                    nested == snip_desc@.nested,
                    nested.len() == snip_desc.nested.len(),
                    snip_desc.end < elided_lines.len(),
                    laid_out(nested, snip_desc.begin + 1, snip_desc.end as int),
                    elided_lines.len() == within.len(),
                    keep_nested.len() == nested.len(),
                    forall|k: int|
                        0 <= k < nested.len() ==> #[trigger] keep_nested[k] == is_kept(
                            nested[k],
                            names,
                        ),
                    forall|l: int|
                        0 <= l < elided_lines.len() ==> #[trigger] elided_lines[l] == (within[l]
                            || collapsed(nested, names, j as nat, l)),
                decreases snip_desc.nested.len() - j,
            {
                if !keep_nested[j] {
                    let child = &snip_desc.nested[j];
                    proof {
                        lemma_snippet_views(snip_desc.nested@);
                        assert(nested[j as int] == child@);
                    }
                    mark_lines(elided_lines, child.begin, child.end);
                }
                j += 1;
            }
        } else {
            proof {
                assert forall|l: int| !elided_within(nested, names, nested.len(), l) by {
                    lemma_nothing_kept_nothing_elided(nested, names, nested.len(), l);
                }
            }
        }
        keep_this
    }
}

} // verus!
