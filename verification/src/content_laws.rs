//! What holds of every content file and of every snippet shown.

use crate::content::{
    ellipsis_line_of, find_from, grow, lemma_found_laid_out, lemma_root_reads_all,
    nothing_removed, removed_with, root_of, snippet_body, snippet_text, Body,
    ContentSnippetView, ContentView, SnippetError,
};
use crate::elision::{collapsed, elided_within, is_elided, is_kept, laid_out};
use crate::error::GeoffreyErrorView;
use crate::md_grammar::SnippetView;
use crate::render::{
    follows_elided, is_filler, is_removed, next_tag, precedes_elided, rendered, rendered_line,
    strip_indentation,
};
use crate::tag_line::TagLineView;
use vstd::prelude::*;

verus! {

/// The tags of the first `n` snippets of `nested` and of all the snippets
/// nested in them, in the order in which the snippets are closed.
pub open spec fn tags_upto(nested: Seq<ContentSnippetView>, n: nat) -> Seq<Seq<char>>
    decreases nested, n,
{
    if 0 < n <= nested.len() {
        tags_upto(nested, (n - 1) as nat) + tags_in(nested[n - 1].nested).push(nested[n - 1].tag)
    } else {
        Seq::empty()
    }
}

/// The tags of the snippets of `nested` and of all the snippets nested in
/// them, in the order in which the snippets are closed.
pub open spec fn tags_in(nested: Seq<ContentSnippetView>) -> Seq<Seq<char>>
    decreases nested, nested.len() + 1,
{
    tags_upto(nested, nested.len())
}

/// The tags of the first snippets of a list do not depend on the snippets
/// behind them.
pub proof fn lemma_tags_upto_push(nested: Seq<ContentSnippetView>, snippet: ContentSnippetView, n: nat)
    requires
        n <= nested.len(),
    ensures
        tags_upto(nested.push(snippet), n) == tags_upto(nested, n),
    decreases n,
{
    if n > 0 {
        lemma_tags_upto_push(nested, snippet, (n - 1) as nat);
        assert(nested.push(snippet)[n - 1] == nested[n - 1]);
    }
}

/// The reading of a snippet adds to the tags seen so far the tags of the
/// snippets that it finds, and where no tag was seen twice before, none is
/// afterwards.
pub proof fn lemma_snippet_body_seen(
    tags: Seq<Option<TagLineView>>,
    pos: nat,
    tag: Seq<char>,
    seen: Seq<Seq<char>>,
    nested: Seq<ContentSnippetView>,
    base: Seq<Seq<char>>,
)
    requires
        seen == base + tags_in(nested),
        seen.no_duplicates(),
        snippet_body(tags, pos, tag, seen, nested) is Ok,
    ensures
        ({
            let body = snippet_body(tags, pos, tag, seen, nested)->Ok_0;
            &&& body.seen == base + tags_in(body.nested)
            &&& body.seen.no_duplicates()
        }),
    decreases
            (if pos < tags.len() {
                tags.len() - pos
            } else {
                0
            }),
{
    if pos < tags.len() {
        match tags[pos as int] {
            None => {
                lemma_snippet_body_seen(tags, pos + 1, tag, seen, nested, base);
            },
            Some(line) => {
                if line.tag.len() != 0 && line.tag != tag {
                    let child = snippet_body(tags, pos + 1, line.tag, seen, Seq::empty())->Ok_0;
                    assert(tags_in(Seq::<ContentSnippetView>::empty()) =~= Seq::empty());
                    assert(seen + tags_in(Seq::<ContentSnippetView>::empty()) =~= seen);
                    lemma_snippet_body_seen(tags, pos + 1, line.tag, seen, Seq::empty(), seen);
                    let snippet = ContentSnippetView {
                        tag: line.tag,
                        indentation: line.indentation,
                        ellipsis_line: ellipsis_line_of(line.indentation),
                        begin: pos,
                        end: pos + child.len,
                        nested: child.nested,
                    };
                    let more = nested.push(snippet);
                    let closed = child.seen.push(line.tag);
                    lemma_tags_upto_push(nested, snippet, nested.len());
                    assert(more[more.len() - 1] == snippet);
                    assert(tags_in(more) == tags_in(nested) + tags_in(child.nested).push(line.tag));
                    assert(closed =~= base + tags_in(more));
                    assert(closed.no_duplicates()) by {
                        assert forall|i: int, j: int|
                            0 <= i < closed.len() && 0 <= j < closed.len() && i != j implies closed[i]
                            != closed[j] by {
                            if i < child.seen.len() && j < child.seen.len() {
                                assert(closed[i] == child.seen[i]);
                                assert(closed[j] == child.seen[j]);
                            } else if i < child.seen.len() {
                                assert(child.seen.contains(closed[i]));
                            } else {
                                assert(child.seen.contains(closed[j]));
                            }
                        }
                    }
                    lemma_snippet_body_seen(tags, pos + 1 + child.len, tag, closed, more, base);
                }
            },
        }
    }
}

/// No two snippets of a content file have the same tag, wherever they are
/// nested.
pub proof fn law_tags_are_unique(tags: Seq<Option<TagLineView>>)
    requires
        root_of(tags) is Ok,
    ensures
        tags_in(root_of(tags)->Ok_0.nested).no_duplicates(),
{
    let none = Seq::<ContentSnippetView>::empty();
    let nothing = Seq::<Seq<char>>::empty();
    assert(tags_in(none) =~= nothing);
    assert(nothing + tags_in(none) =~= nothing);
    lemma_snippet_body_seen(tags, 0, Seq::empty(), nothing, none, nothing);
    let body = snippet_body(tags, 0, Seq::empty(), nothing, none)->Ok_0;
    assert(nothing + tags_in(body.nested) =~= tags_in(body.nested));
}

/// Whether every snippet of `nested`, and every snippet nested in one of
/// them, lies between two tag lines with its tag: it begins at a tag line
/// with its tag and its indentation, it ends at a tag line with its tag, its
/// tag is not empty, and the line that stands for it has its indentation.
pub open spec fn delimited(tags: Seq<Option<TagLineView>>, nested: Seq<ContentSnippetView>) -> bool
    decreases nested,
{
    forall|i: int|
        0 <= i < nested.len() ==> {
            &&& (#[trigger] nested[i]).end < tags.len()
            &&& nested[i].tag.len() > 0
            &&& tags[nested[i].begin as int] == Some(
                TagLineView { indentation: nested[i].indentation, tag: nested[i].tag },
            )
            &&& tags[nested[i].end as int] is Some
            &&& tags[nested[i].end as int]->0.tag == nested[i].tag
            &&& nested[i].ellipsis_line == ellipsis_line_of(nested[i].indentation)
            &&& delimited(tags, nested[i].nested)
        }
}

/// The snippets that the reading of a snippet finds lie between two tag
/// lines with their tags, and the reading of any snippet but the root ends
/// with a tag line that has the tag of the snippet.
pub proof fn lemma_snippet_body_delimited(
    tags: Seq<Option<TagLineView>>,
    pos: nat,
    tag: Seq<char>,
    seen: Seq<Seq<char>>,
    nested: Seq<ContentSnippetView>,
)
    requires
        pos <= tags.len(),
        delimited(tags, nested),
        snippet_body(tags, pos, tag, seen, nested) is Ok,
    ensures
        ({
            let body = snippet_body(tags, pos, tag, seen, nested)->Ok_0;
            &&& delimited(tags, body.nested)
            &&& pos + body.len <= tags.len()
            &&& tag.len() > 0 ==> {
                &&& body.len >= 1
                &&& tags[pos + body.len - 1] is Some
                &&& tags[pos + body.len - 1]->0.tag == tag
            }
        }),
    decreases tags.len() - pos,
{
    if pos < tags.len() {
        match tags[pos as int] {
            None => {
                lemma_snippet_body_delimited(tags, pos + 1, tag, seen, nested);
            },
            Some(line) => {
                if line.tag.len() != 0 && line.tag != tag {
                    let none = Seq::<ContentSnippetView>::empty();
                    let child = snippet_body(tags, pos + 1, line.tag, seen, none)->Ok_0;
                    lemma_snippet_body_delimited(tags, pos + 1, line.tag, seen, none);
                    let snippet = ContentSnippetView {
                        tag: line.tag,
                        indentation: line.indentation,
                        ellipsis_line: ellipsis_line_of(line.indentation),
                        begin: pos,
                        end: pos + child.len,
                        nested: child.nested,
                    };
                    let more = nested.push(snippet);
                    assert(delimited(tags, more)) by {
                        assert forall|i: int| 0 <= i < more.len() implies {
                            &&& (#[trigger] more[i]).end < tags.len()
                            &&& more[i].tag.len() > 0
                            &&& tags[more[i].begin as int] == Some(
                                TagLineView { indentation: more[i].indentation, tag: more[i].tag },
                            )
                            &&& tags[more[i].end as int] is Some
                            &&& tags[more[i].end as int]->0.tag == more[i].tag
                            &&& more[i].ellipsis_line == ellipsis_line_of(more[i].indentation)
                            &&& delimited(tags, more[i].nested)
                        } by {
                            if i < nested.len() {
                                assert(more[i] == nested[i]);
                            }
                        }
                    }
                    lemma_snippet_body_delimited(
                        tags,
                        pos + 1 + child.len,
                        tag,
                        child.seen.push(line.tag),
                        more,
                    );
                }
            },
        }
    }
}

/// Every snippet of a content file lies between two tag lines with its
/// tag, wherever it is nested.
pub proof fn law_snippets_lie_between_their_tag_lines(tags: Seq<Option<TagLineView>>)
    requires
        root_of(tags) is Ok,
    ensures
        delimited(tags, root_of(tags)->Ok_0.nested),
{
    lemma_snippet_body_delimited(tags, 0, Seq::empty(), Seq::empty(), Seq::empty());
}

/// Whether line `l` opens or closes one of the first `n` snippets of
/// `nested` or a snippet nested in one of them.
pub open spec fn bounds_upto(nested: Seq<ContentSnippetView>, n: nat, l: int) -> bool
    decreases nested, n,
{
    0 < n <= nested.len() && (bounds_upto(nested, (n - 1) as nat, l) || nested[n - 1].begin == l
        || nested[n - 1].end == l || bounds_in(nested[n - 1].nested, l))
}

/// Whether line `l` opens or closes one of the snippets of `nested` or a
/// snippet nested in one of them.
pub open spec fn bounds_in(nested: Seq<ContentSnippetView>, l: int) -> bool
    decreases nested, nested.len() + 1,
{
    bounds_upto(nested, nested.len(), l)
}

/// A line that opens or closes a snippet still does so when a snippet is
/// added behind the others.
pub proof fn lemma_bounds_upto_push(
    nested: Seq<ContentSnippetView>,
    snippet: ContentSnippetView,
    n: nat,
    l: int,
)
    requires
        n <= nested.len(),
    ensures
        bounds_upto(nested.push(snippet), n, l) == bounds_upto(nested, n, l),
    decreases n,
{
    if n > 0 {
        lemma_bounds_upto_push(nested, snippet, (n - 1) as nat, l);
        assert(nested.push(snippet)[n - 1] == nested[n - 1]);
    }
}

/// The reading of a snippet leaves no tag line out: where every tag line
/// from line `lo` to the line at which the reading begins opens or closes a
/// snippet found so far, every tag line from `lo` to the end of the reading
/// opens or closes a snippet found, but for the tag line that closes the
/// snippet read.
pub proof fn lemma_snippet_body_bounds(
    tags: Seq<Option<TagLineView>>,
    pos: nat,
    tag: Seq<char>,
    seen: Seq<Seq<char>>,
    nested: Seq<ContentSnippetView>,
    lo: int,
)
    requires
        0 <= lo <= pos <= tags.len(),
        forall|l: int| lo <= l < pos && (#[trigger] tags[l]) is Some ==> bounds_in(nested, l),
        snippet_body(tags, pos, tag, seen, nested) is Ok,
    ensures
        ({
            let body = snippet_body(tags, pos, tag, seen, nested)->Ok_0;
            forall|l: int|
                lo <= l < pos + body.len - (if tag.len() > 0 {
                    1int
                } else {
                    0int
                }) && (#[trigger] tags[l]) is Some ==> bounds_in(body.nested, l)
        }),
    decreases tags.len() - pos,
{
    if pos < tags.len() {
        match tags[pos as int] {
            None => {
                lemma_snippet_body_bounds(tags, pos + 1, tag, seen, nested, lo);
            },
            Some(line) => {
                if line.tag.len() != 0 && line.tag != tag {
                    let none = Seq::<ContentSnippetView>::empty();
                    let child = snippet_body(tags, pos + 1, line.tag, seen, none)->Ok_0;
                    lemma_snippet_body_bounds(tags, pos + 1, line.tag, seen, none, pos as int + 1);
                    lemma_snippet_body_delimited(tags, pos + 1, line.tag, seen, none);
                    let snippet = ContentSnippetView {
                        tag: line.tag,
                        indentation: line.indentation,
                        ellipsis_line: ellipsis_line_of(line.indentation),
                        begin: pos,
                        end: pos + child.len,
                        nested: child.nested,
                    };
                    let more = nested.push(snippet);
                    let next = pos + 1 + child.len;
                    assert forall|l: int| lo <= l < next && (#[trigger] tags[l]) is Some implies bounds_in(
                        more,
                        l,
                    ) by {
                        lemma_bounds_upto_push(nested, snippet, nested.len(), l);
                        assert(more[more.len() - 1] == snippet);
                    }
                    lemma_snippet_body_bounds(
                        tags,
                        next,
                        tag,
                        child.seen.push(line.tag),
                        more,
                        lo,
                    );
                }
            },
        }
    }
}

/// No tag line of a content file is left out: every tag line opens or
/// closes a snippet.
pub proof fn law_every_tag_line_bounds_a_snippet(tags: Seq<Option<TagLineView>>, l: int)
    requires
        root_of(tags) is Ok,
        0 <= l < tags.len(),
        tags[l] is Some,
    ensures
        bounds_in(root_of(tags)->Ok_0.nested, l),
{
    lemma_snippet_body_bounds(tags, 0, Seq::empty(), Seq::empty(), Seq::empty(), 0);
    lemma_root_reads_all(tags);
}

/// A content file without a tag line has no snippet but the root.
pub proof fn law_file_without_tag_lines_has_no_snippet(tags: Seq<Option<TagLineView>>)
    requires
        forall|l: int| 0 <= l < tags.len() ==> tags[l] is None,
    ensures
        root_of(tags) is Ok,
        root_of(tags)->Ok_0.nested == Seq::<ContentSnippetView>::empty(),
{
    lemma_plain_lines(tags, 0, tags.len(), Seq::empty(), Seq::empty(), Seq::empty());
}

/// Two tag lines with one tag make a snippet: a content file with no other
/// tag line has this one snippet, from the first of the two lines to the
/// second, with the indentation of the first.
pub proof fn law_two_tag_lines_make_a_snippet(
    tags: Seq<Option<TagLineView>>,
    opening: nat,
    closing: nat,
)
    requires
        opening < closing < tags.len(),
        tags[opening as int] matches Some(line) && line.tag.len() > 0,
        tags[closing as int] matches Some(line) && line.tag == tags[opening as int]->0.tag,
        forall|l: int| 0 <= l < tags.len() && l != opening && l != closing ==> tags[l] is None,
    ensures
        root_of(tags) is Ok,
        root_of(tags)->Ok_0.nested == seq![
            ContentSnippetView {
                tag: tags[opening as int]->0.tag,
                indentation: tags[opening as int]->0.indentation,
                ellipsis_line: ellipsis_line_of(tags[opening as int]->0.indentation),
                begin: opening,
                end: closing,
                nested: Seq::empty(),
            },
        ],
{
    let line = tags[opening as int]->0;
    let root = Seq::<char>::empty();
    let nothing = Seq::<Seq<char>>::empty();
    let none = Seq::<ContentSnippetView>::empty();
    lemma_plain_lines(tags, 0, opening, root, nothing, none);
    lemma_plain_lines(tags, opening + 1, closing, line.tag, nothing, none);
    let child = snippet_body(tags, opening + 1, line.tag, nothing, none)->Ok_0;
    assert(child.len == closing - opening);
    let found = none.push(
        ContentSnippetView {
            tag: line.tag,
            indentation: line.indentation,
            ellipsis_line: ellipsis_line_of(line.indentation),
            begin: opening,
            end: opening + child.len,
            nested: child.nested,
        },
    );
    lemma_plain_lines(tags, closing + 1, tags.len(), root, nothing.push(line.tag), found);
    assert(found =~= seq![found[0]]);
}

/// The snippets of a content file do not overlap: every snippet ends after
/// it begins, the snippets nested in one lie between its two tag lines, and
/// of two snippets side by side the first ends before the second begins.
pub proof fn law_snippets_do_not_overlap(tags: Seq<Option<TagLineView>>)
    requires
        root_of(tags) is Ok,
    ensures
        laid_out(root_of(tags)->Ok_0.nested, 0, tags.len() as int),
{
    lemma_root_reads_all(tags);
}

/// What is collapsed of a snippet lies between its two tag lines.
pub proof fn law_collapsed_lines_lie_inside(
    snippet: ContentSnippetView,
    tags: Seq<Seq<char>>,
    line: int,
)
    requires
        laid_out(snippet.nested, snippet.begin as int + 1, snippet.end as int),
        is_elided(snippet, tags, line),
    ensures
        snippet.begin < line < snippet.end,
    decreases snippet,
{
    lemma_collapsed_lines_lie_inside(snippet, tags, snippet.nested.len(), line);
}

/// What is collapsed on account of the first `n` snippets nested in a
/// snippet lies between the tag lines of that snippet.
pub proof fn lemma_collapsed_lines_lie_inside(
    snippet: ContentSnippetView,
    tags: Seq<Seq<char>>,
    n: nat,
    line: int,
)
    requires
        laid_out(snippet.nested, snippet.begin as int + 1, snippet.end as int),
        n <= snippet.nested.len(),
        elided_within(snippet.nested, tags, n, line) || collapsed(snippet.nested, tags, n, line),
    ensures
        snippet.begin < line < snippet.end,
    decreases snippet, n,
{
    let last = snippet.nested[n - 1];
    if is_elided(last, tags, line) {
        law_collapsed_lines_lie_inside(last, tags, line);
    } else if !(!is_kept(last, tags) && last.begin <= line <= last.end) {
        lemma_collapsed_lines_lie_inside(snippet, tags, (n - 1) as nat, line);
    }
}

/// Lines that are no tag lines belong to the snippet that is read: the
/// reading goes on behind them.
pub proof fn lemma_plain_lines(
    tags: Seq<Option<TagLineView>>,
    pos: nat,
    next: nat,
    tag: Seq<char>,
    seen: Seq<Seq<char>>,
    nested: Seq<ContentSnippetView>,
)
    requires
        pos <= next <= tags.len(),
        forall|i: int| pos <= i < next ==> tags[i] is None,
    ensures
        snippet_body(tags, pos, tag, seen, nested) == grow(
            snippet_body(tags, next, tag, seen, nested),
            (next - pos) as nat,
        ),
    decreases next - pos,
{
    if pos < next {
        lemma_plain_lines(tags, pos + 1, next, tag, seen, nested);
        match snippet_body(tags, next, tag, seen, nested) {
            Ok(body) => {
                assert(grow(Ok(Body { len: body.len + (next - pos - 1) as nat, ..body }), 1) == grow(
                    Ok::<Body, SnippetError>(body),
                    (next - pos) as nat,
                ));
            },
            Err(_) => {},
        }
    } else {
        match snippet_body(tags, next, tag, seen, nested) {
            Ok(body) => {
                assert(Body { len: body.len + 0, ..body } == body);
            },
            Err(_) => {},
        }
    }
}

/// A second snippet with a tag is refused when it is closed, wherever it is
/// nested: if a snippet with the tag has been closed before, and a tag line
/// with that tag opens a snippet that the next tag line closes, the reading
/// fails with that tag as the double one.
pub proof fn law_second_snippet_with_a_tag_fails(
    tags: Seq<Option<TagLineView>>,
    opening: nat,
    closing: nat,
    tag: Seq<char>,
    seen: Seq<Seq<char>>,
    nested: Seq<ContentSnippetView>,
)
    requires
        opening < closing < tags.len(),
        tags[opening as int] matches Some(line) && line.tag.len() > 0 && line.tag != tag
            && seen.contains(line.tag),
        tags[closing as int] matches Some(line) && line.tag == tags[opening as int]->0.tag,
        forall|i: int| opening < i < closing ==> tags[i] is None,
    ensures
        snippet_body(tags, opening, tag, seen, nested) == Err::<Body, SnippetError>(
            SnippetError::DoubleTag(tags[opening as int]->0.tag),
        ),
{
    let double = tags[opening as int]->0.tag;
    lemma_plain_lines(tags, opening + 1, closing, double, seen, Seq::empty());
}

/// A content file with two snippets of one tag side by side, and no other
/// tag line, is refused for its double tag.
pub proof fn law_two_snippets_with_one_tag_fail(
    tags: Seq<Option<TagLineView>>,
    first: (nat, nat),
    second: (nat, nat),
)
    requires
        first.0 < first.1 < second.0 < second.1 < tags.len(),
        tags[first.0 as int] matches Some(line) && line.tag.len() > 0,
        forall|i: int|
            0 <= i < tags.len() ==> (tags[i] is Some <==> (i == first.0 || i == first.1 || i
                == second.0 || i == second.1)),
        forall|i: int|
            0 <= i < tags.len() && tags[i] is Some ==> (#[trigger] tags[i])->0.tag
                == tags[first.0 as int]->0.tag,
    ensures
        root_of(tags) == Err::<ContentSnippetView, SnippetError>(
            SnippetError::DoubleTag(tags[first.0 as int]->0.tag),
        ),
{
    let double = tags[first.0 as int]->0.tag;
    let line = tags[first.0 as int]->0;
    let root = Seq::<char>::empty();
    let nothing = Seq::<Seq<char>>::empty();
    let none = Seq::<ContentSnippetView>::empty();
    assert(tags[first.1 as int]->0.tag == double);
    assert(tags[second.0 as int]->0.tag == double);
    assert(tags[second.1 as int]->0.tag == double);
    lemma_plain_lines(tags, 0, first.0, root, nothing, none);
    lemma_plain_lines(tags, first.0 + 1, first.1, double, nothing, none);
    let child = snippet_body(tags, first.0 + 1, double, nothing, none)->Ok_0;
    assert(!child.seen.contains(double));
    let closed = child.seen.push(double);
    assert(closed[0] == double);
    let found = none.push(
        ContentSnippetView {
            tag: double,
            indentation: line.indentation,
            ellipsis_line: ellipsis_line_of(line.indentation),
            begin: first.0,
            end: first.0 + child.len,
            nested: child.nested,
        },
    );
    assert(first.0 + 1 + child.len == first.1 + 1);
    lemma_plain_lines(tags, first.1 + 1, second.0, root, closed, found);
    law_second_snippet_with_a_tag_fails(tags, second.0, second.1, root, closed, found);
}

/// The tag of the last tag line from line `pos` on; `tag` where no tag line
/// follows.
pub open spec fn last_tag(tags: Seq<Option<TagLineView>>, pos: nat, tag: Seq<char>) -> Seq<char>
    decreases tags.len() - pos,
{
    if pos >= tags.len() {
        tag
    } else {
        match tags[pos as int] {
            None => last_tag(tags, pos + 1, tag),
            Some(line) => last_tag(tags, pos + 1, line.tag),
        }
    }
}

/// Whether every tag line from line `pos` on has a tag that is not empty, is
/// not `tag`, and is the tag of no later tag line: no tag line from `pos` on
/// closes a snippet.
pub open spec fn nothing_closes(tags: Seq<Option<TagLineView>>, pos: nat, tag: Seq<char>) -> bool {
    forall|i: int|
        pos <= i < tags.len() && (#[trigger] tags[i]) is Some ==> {
            &&& tags[i]->0.tag.len() > 0
            &&& tags[i]->0.tag != tag
            &&& forall|j: int|
                i < j < tags.len() && (#[trigger] tags[j]) is Some ==> tags[j]->0.tag
                    != tags[i]->0.tag
        }
}

/// A snippet that is opened and never closed is refused: where no tag line
/// from line `pos` on closes a snippet, the reading of a snippet from there
/// fails at the end of the file, inside the snippet that was opened last.
/// That is the snippet read if no tag line follows, which then must not be
/// the root.
pub proof fn law_open_snippet_fails(
    tags: Seq<Option<TagLineView>>,
    pos: nat,
    tag: Seq<char>,
    seen: Seq<Seq<char>>,
    nested: Seq<ContentSnippetView>,
)
    requires
        nothing_closes(tags, pos, tag),
        last_tag(tags, pos, tag).len() > 0,
    ensures
        snippet_body(tags, pos, tag, seen, nested) == Err::<Body, SnippetError>(
            SnippetError::EndTagNotFound(last_tag(tags, pos, tag)),
        ),
    decreases tags.len() - pos,
{
    if pos < tags.len() {
        match tags[pos as int] {
            None => {
                law_open_snippet_fails(tags, pos + 1, tag, seen, nested);
            },
            Some(line) => {
                lemma_last_tag_not_empty(tags, pos + 1, line.tag);
                law_open_snippet_fails(tags, pos + 1, line.tag, seen, Seq::empty());
            },
        }
    }
}

/// Where no tag line has an empty tag, the last tag behind a tag that is
/// not empty is not empty.
pub proof fn lemma_last_tag_not_empty(tags: Seq<Option<TagLineView>>, pos: nat, tag: Seq<char>)
    requires
        tag.len() > 0,
        forall|i: int| pos <= i < tags.len() && (#[trigger] tags[i]) is Some ==> tags[i]->0.tag.len() > 0,
    ensures
        last_tag(tags, pos, tag).len() > 0,
    decreases tags.len() - pos,
{
    if pos < tags.len() {
        match tags[pos as int] {
            None => {
                lemma_last_tag_not_empty(tags, pos + 1, tag);
            },
            Some(line) => {
                lemma_last_tag_not_empty(tags, pos + 1, line.tag);
            },
        }
    }
}

/// A content file in which a snippet is opened and no tag line closes a
/// snippet is refused for the snippet that was opened last.
pub proof fn law_open_snippet_fails_the_file(tags: Seq<Option<TagLineView>>)
    requires
        nothing_closes(tags, 0, Seq::empty()),
        exists|i: int| 0 <= i < tags.len() && (#[trigger] tags[i]) is Some,
    ensures
        root_of(tags) == Err::<ContentSnippetView, SnippetError>(
            SnippetError::EndTagNotFound(last_tag(tags, 0, Seq::empty())),
        ),
{
    let opened = choose|i: int| 0 <= i < tags.len() && (#[trigger] tags[i]) is Some;
    lemma_last_tag_of_opened(tags, 0, opened as nat, Seq::empty());
    law_open_snippet_fails(tags, 0, Seq::empty(), Seq::empty(), Seq::empty());
}

/// Where a tag line follows and no tag line has an empty tag, the last tag
/// is not empty.
pub proof fn lemma_last_tag_of_opened(
    tags: Seq<Option<TagLineView>>,
    pos: nat,
    opened: nat,
    tag: Seq<char>,
)
    requires
        pos <= opened < tags.len(),
        tags[opened as int] is Some,
        forall|i: int| pos <= i < tags.len() && (#[trigger] tags[i]) is Some ==> tags[i]->0.tag.len() > 0,
    ensures
        last_tag(tags, pos, tag).len() > 0,
    decreases tags.len() - pos,
{
    match tags[pos as int] {
        None => {
            lemma_last_tag_of_opened(tags, pos + 1, opened, tag);
        },
        Some(line) => {
            lemma_last_tag_not_empty(tags, pos + 1, line.tag);
        },
    }
}

/// A snippet is refused if and only if it is missing: to ask for a tag
/// that no snippet of the content file has is refused with the path of the
/// file and the tag, whether the snippet is asked for as it is or with
/// nested snippets collapsed; to ask for a tag that a snippet has gives its
/// text.
pub proof fn law_missing_snippet_is_refused(
    content: ContentView,
    path: Seq<char>,
    tag: Seq<char>,
    sub_ids: Seq<Seq<char>>,
)
    ensures
        find_from(content.root.nested, tag, 0) is None ==> {
            &&& snippet_text(content, path, SnippetView::FullBlock { id: tag }) == Err::<
                Seq<char>,
                GeoffreyErrorView,
            >(GeoffreyErrorView::ContentSnippetNotFound(path, tag))
            &&& snippet_text(content, path, SnippetView::ElidedBlock { main_id: tag, sub_ids })
                == Err::<Seq<char>, GeoffreyErrorView>(
                GeoffreyErrorView::ContentSnippetNotFound(path, tag),
            )
        },
        find_from(content.root.nested, tag, 0) is Some ==> {
            &&& snippet_text(content, path, SnippetView::FullBlock { id: tag }) is Ok
            &&& snippet_text(content, path, SnippetView::ElidedBlock { main_id: tag, sub_ids }) is Ok
        },
        snippet_text(content, path, SnippetView::FullFile) is Ok,
{
}

/// No blank line stays beside a removed line: of the lines `lo` to `hi`,
/// `hi` excluded, a blank line that is not collapsed and has a removed line
/// directly in front of it or directly behind it is removed too.
pub proof fn law_no_blank_line_stays_beside_a_removed_line(
    lines: Seq<Seq<char>>,
    elided: Seq<bool>,
    lo: int,
    hi: int,
    l: int,
)
    requires
        lo <= l < hi,
        is_filler(lines, elided, l),
        (lo < l && is_removed(lines, elided, lo, hi, l - 1)) || (l + 1 < hi && is_removed(
            lines,
            elided,
            lo,
            hi,
            l + 1,
        )),
    ensures
        is_removed(lines, elided, lo, hi, l),
{
    if lo < l && is_removed(lines, elided, lo, hi, l - 1) {
        if precedes_elided(lines, elided, hi, l - 1) {
            assert(precedes_elided(lines, elided, hi, l));
        } else {
            assert(follows_elided(lines, elided, lo, l));
        }
    } else {
        if follows_elided(lines, elided, lo, l + 1) {
            assert(follows_elided(lines, elided, lo, l));
        } else {
            assert(precedes_elided(lines, elided, hi, l));
        }
    }
}

/// The first tag line of a span of lines depends on these lines alone.
pub proof fn lemma_next_tag_is_local(
    tags: Seq<Option<TagLineView>>,
    other_tags: Seq<Option<TagLineView>>,
    l: int,
    hi: int,
)
    requires
        0 <= l,
        forall|k: int| l <= k < hi ==> tags[k] == other_tags[k],
    ensures
        next_tag(tags, l, hi) == next_tag(other_tags, l, hi),
    decreases hi - l,
{
    if l < hi {
        lemma_next_tag_is_local(tags, other_tags, l + 1, hi);
    }
}

/// The text of a snippet is made of the lines between its tag lines and of
/// nothing else: two files that agree on the lines `lo` to `hi`, `hi`
/// excluded, on which of them are tag lines and on which are removed, give
/// the same text for these lines.
pub proof fn law_text_of_lines_is_local(
    lines: Seq<Seq<char>>,
    tags: Seq<Option<TagLineView>>,
    removed: Seq<bool>,
    other_lines: Seq<Seq<char>>,
    other_tags: Seq<Option<TagLineView>>,
    other_removed: Seq<bool>,
    indentation: Seq<char>,
    lo: int,
    l: int,
    hi: int,
)
    requires
        0 <= lo <= l,
        forall|k: int|
            lo <= k < hi ==> lines[k] == other_lines[k] && tags[k] == other_tags[k] && removed[k]
                == other_removed[k],
    ensures
        rendered(lines, tags, removed, indentation, lo, l, hi) == rendered(
            other_lines,
            other_tags,
            other_removed,
            indentation,
            lo,
            l,
            hi,
        ),
    decreases hi - l,
{
    if l < hi {
        lemma_next_tag_is_local(tags, other_tags, l, hi);
        law_text_of_lines_is_local(
            lines,
            tags,
            removed,
            other_lines,
            other_tags,
            other_removed,
            indentation,
            lo,
            l + 1,
            hi,
        );
    }
}

/// Whether the reading of the snippet `tag` from line `pos` on, with the
/// tags `seen` and the snippets `nested` found before, comes to read the
/// snippet `inner`, at whatever depth inside, from line `line` on, with the
/// tags `inner_seen` and the snippets `inner_nested` found before.
///
/// The reading comes to itself. It comes through a line that is no tag
/// line, into a snippet that a tag line opens, and past a snippet that has
/// been read and whose tag was not seen before.
pub open spec fn comes_to(
    tags: Seq<Option<TagLineView>>,
    pos: nat,
    tag: Seq<char>,
    seen: Seq<Seq<char>>,
    nested: Seq<ContentSnippetView>,
    line: nat,
    inner: Seq<char>,
    inner_seen: Seq<Seq<char>>,
    inner_nested: Seq<ContentSnippetView>,
) -> bool
    decreases
            (if pos < tags.len() {
                tags.len() - pos
            } else {
                0
            }),
{
    (pos == line && tag == inner && seen == inner_seen && nested == inner_nested) || (pos
        < tags.len() && match tags[pos as int] {
        None => comes_to(
            tags,
            pos + 1,
            tag,
            seen,
            nested,
            line,
            inner,
            inner_seen,
            inner_nested,
        ),
        Some(opening) => opening.tag.len() > 0 && opening.tag != tag && (comes_to(
            tags,
            pos + 1,
            opening.tag,
            seen,
            Seq::empty(),
            line,
            inner,
            inner_seen,
            inner_nested,
        ) || match snippet_body(tags, pos + 1, opening.tag, seen, Seq::empty()) {
            Err(_) => false,
            Ok(child) => !child.seen.contains(opening.tag) && comes_to(
                tags,
                pos + 1 + child.len,
                tag,
                child.seen.push(opening.tag),
                nested.push(
                    ContentSnippetView {
                        tag: opening.tag,
                        indentation: opening.indentation,
                        ellipsis_line: ellipsis_line_of(opening.indentation),
                        begin: pos,
                        end: pos + child.len,
                        nested: child.nested,
                    },
                ),
                line,
                inner,
                inner_seen,
                inner_nested,
            ),
        }),
    })
}

/// What fails inside fails the whole: where the reading of a snippet comes
/// to read a snippet inside it, at whatever depth, and that reading fails,
/// the reading of the snippet fails with the same error.
pub proof fn law_failure_inside_fails_the_snippet(
    tags: Seq<Option<TagLineView>>,
    pos: nat,
    tag: Seq<char>,
    seen: Seq<Seq<char>>,
    nested: Seq<ContentSnippetView>,
    line: nat,
    inner: Seq<char>,
    inner_seen: Seq<Seq<char>>,
    inner_nested: Seq<ContentSnippetView>,
)
    requires
        comes_to(tags, pos, tag, seen, nested, line, inner, inner_seen, inner_nested),
        snippet_body(tags, line, inner, inner_seen, inner_nested) is Err,
    ensures
        snippet_body(tags, pos, tag, seen, nested) == Err::<Body, SnippetError>(
            snippet_body(tags, line, inner, inner_seen, inner_nested)->Err_0,
        ),
    decreases
            (if pos < tags.len() {
                tags.len() - pos
            } else {
                0
            }),
{
    if !(pos == line && tag == inner && seen == inner_seen && nested == inner_nested) {
        match tags[pos as int] {
            None => {
                law_failure_inside_fails_the_snippet(
                    tags,
                    pos + 1,
                    tag,
                    seen,
                    nested,
                    line,
                    inner,
                    inner_seen,
                    inner_nested,
                );
            },
            Some(opening) => {
                let none = Seq::<ContentSnippetView>::empty();
                if comes_to(
                    tags,
                    pos + 1,
                    opening.tag,
                    seen,
                    none,
                    line,
                    inner,
                    inner_seen,
                    inner_nested,
                ) {
                    law_failure_inside_fails_the_snippet(
                        tags,
                        pos + 1,
                        opening.tag,
                        seen,
                        none,
                        line,
                        inner,
                        inner_seen,
                        inner_nested,
                    );
                } else {
                    let child = snippet_body(tags, pos + 1, opening.tag, seen, none)->Ok_0;
                    law_failure_inside_fails_the_snippet(
                        tags,
                        pos + 1 + child.len,
                        tag,
                        child.seen.push(opening.tag),
                        nested.push(
                            ContentSnippetView {
                                tag: opening.tag,
                                indentation: opening.indentation,
                                ellipsis_line: ellipsis_line_of(opening.indentation),
                                begin: pos,
                                end: pos + child.len,
                                nested: child.nested,
                            },
                        ),
                        line,
                        inner,
                        inner_seen,
                        inner_nested,
                    );
                }
            },
        }
    }
}

/// Two snippets with one tag are refused, wherever they are nested: where
/// the reading of a content file comes, at whatever depth, to a tag line
/// that opens a snippet whose tag a snippet closed before has, and the
/// snippet is read to its end, the file is refused for the double tag.
pub proof fn law_double_tag_fails_at_any_depth(
    tags: Seq<Option<TagLineView>>,
    line: nat,
    inner: Seq<char>,
    inner_seen: Seq<Seq<char>>,
    inner_nested: Seq<ContentSnippetView>,
)
    requires
        comes_to(
            tags,
            0,
            Seq::empty(),
            Seq::empty(),
            Seq::empty(),
            line,
            inner,
            inner_seen,
            inner_nested,
        ),
        line < tags.len(),
        tags[line as int] matches Some(opening) && opening.tag.len() > 0 && opening.tag != inner
            && inner_seen.contains(opening.tag),
        snippet_body(tags, line + 1, tags[line as int]->0.tag, inner_seen, Seq::empty()) is Ok,
    ensures
        root_of(tags) == Err::<ContentSnippetView, SnippetError>(
            SnippetError::DoubleTag(tags[line as int]->0.tag),
        ),
{
    let double = tags[line as int]->0.tag;
    let none = Seq::<ContentSnippetView>::empty();
    lemma_snippet_body_keeps_seen(tags, line + 1, double, inner_seen, none, double);
    law_failure_inside_fails_the_snippet(
        tags,
        0,
        Seq::empty(),
        Seq::empty(),
        Seq::empty(),
        line,
        inner,
        inner_seen,
        inner_nested,
    );
}

/// The reading of a snippet forgets no tag: a tag seen before is seen
/// afterwards.
pub proof fn lemma_snippet_body_keeps_seen(
    tags: Seq<Option<TagLineView>>,
    pos: nat,
    tag: Seq<char>,
    seen: Seq<Seq<char>>,
    nested: Seq<ContentSnippetView>,
    known: Seq<char>,
)
    requires
        seen.contains(known),
        snippet_body(tags, pos, tag, seen, nested) is Ok,
    ensures
        snippet_body(tags, pos, tag, seen, nested)->Ok_0.seen.contains(known),
    decreases
            (if pos < tags.len() {
                tags.len() - pos
            } else {
                0
            }),
{
    if pos < tags.len() {
        match tags[pos as int] {
            None => {
                lemma_snippet_body_keeps_seen(tags, pos + 1, tag, seen, nested, known);
            },
            Some(opening) => {
                if opening.tag.len() != 0 && opening.tag != tag {
                    let none = Seq::<ContentSnippetView>::empty();
                    let child = snippet_body(tags, pos + 1, opening.tag, seen, none)->Ok_0;
                    lemma_snippet_body_keeps_seen(tags, pos + 1, opening.tag, seen, none, known);
                    let i = choose|i: int| 0 <= i < child.seen.len() && child.seen[i] == known;
                    assert(child.seen.push(opening.tag)[i] == known);
                    lemma_snippet_body_keeps_seen(
                        tags,
                        pos + 1 + child.len,
                        tag,
                        child.seen.push(opening.tag),
                        nested.push(
                            ContentSnippetView {
                                tag: opening.tag,
                                indentation: opening.indentation,
                                ellipsis_line: ellipsis_line_of(opening.indentation),
                                begin: pos,
                                end: pos + child.len,
                                nested: child.nested,
                            },
                        ),
                        known,
                    );
                }
            },
        }
    }
}

/// Only the root snippet may end with the file: where the reading of a
/// content file comes, at whatever depth, to the end of the file inside a
/// snippet that is not the root, the file is refused for this snippet, the
/// innermost that is open at the end of the file.
pub proof fn law_snippet_open_at_the_end_fails_the_file(
    tags: Seq<Option<TagLineView>>,
    open: Seq<char>,
    open_seen: Seq<Seq<char>>,
    open_nested: Seq<ContentSnippetView>,
)
    requires
        open.len() > 0,
        comes_to(
            tags,
            0,
            Seq::empty(),
            Seq::empty(),
            Seq::empty(),
            tags.len(),
            open,
            open_seen,
            open_nested,
        ),
    ensures
        root_of(tags) == Err::<ContentSnippetView, SnippetError>(
            SnippetError::EndTagNotFound(open),
        ),
{
    law_failure_inside_fails_the_snippet(
        tags,
        0,
        Seq::empty(),
        Seq::empty(),
        Seq::empty(),
        tags.len(),
        open,
        open_seen,
        open_nested,
    );
}

/// A snippet without a closing tag line is refused: where no tag line from
/// line `pos` on has the tag of the snippet that is read, and the snippet is
/// not the root, its reading fails, whatever snippets open and close inside
/// it.
pub proof fn law_snippet_without_closing_tag_line_fails(
    tags: Seq<Option<TagLineView>>,
    pos: nat,
    tag: Seq<char>,
    seen: Seq<Seq<char>>,
    nested: Seq<ContentSnippetView>,
)
    requires
        pos <= tags.len(),
        tag.len() > 0,
        delimited(tags, nested),
        forall|l: int| pos <= l < tags.len() && (#[trigger] tags[l]) is Some ==> tags[l]->0.tag != tag,
    ensures
        snippet_body(tags, pos, tag, seen, nested) is Err,
{
    if snippet_body(tags, pos, tag, seen, nested) is Ok {
        lemma_snippet_body_delimited(tags, pos, tag, seen, nested);
    }
}

/// The lines `l` to `hi`, `hi` excluded, without the tag lines among them,
/// each without `indentation` at its start, one after the other.
pub open spec fn lines_without_tag_lines(
    lines: Seq<Seq<char>>,
    tags: Seq<Option<TagLineView>>,
    indentation: Seq<char>,
    l: int,
    hi: int,
) -> Seq<char>
    decreases hi - l,
{
    if l >= hi {
        Seq::empty()
    } else if tags[l] is Some {
        lines_without_tag_lines(lines, tags, indentation, l + 1, hi)
    } else {
        strip_indentation(lines[l], indentation) + lines_without_tag_lines(
            lines,
            tags,
            indentation,
            l + 1,
            hi,
        )
    }
}

/// Where no line is removed, the text of lines is the lines without the
/// tag lines among them.
pub proof fn lemma_nothing_removed_shows_the_lines(
    lines: Seq<Seq<char>>,
    tags: Seq<Option<TagLineView>>,
    indentation: Seq<char>,
    lo: int,
    l: int,
    hi: int,
)
    requires
        0 <= lo <= l,
        hi <= lines.len(),
    ensures
        rendered(lines, tags, nothing_removed(lines.len()), indentation, lo, l, hi)
            == lines_without_tag_lines(lines, tags, indentation, l, hi),
    decreases hi - l,
{
    if l < hi {
        lemma_nothing_removed_shows_the_lines(lines, tags, indentation, lo, l + 1, hi);
        assert(Seq::<char>::empty() + lines_without_tag_lines(lines, tags, indentation, l + 1, hi)
            =~= lines_without_tag_lines(lines, tags, indentation, l + 1, hi));
    }
}

/// A snippet asked for as it is gives the lines strictly between its two
/// tag lines, in their order, without the tag lines of the snippets nested
/// in it, each line without the indentation of the snippet; no line in
/// front of its opening tag line or behind its closing tag line is in the
/// text. The whole file gives all its lines but the tag lines.
pub proof fn law_snippet_is_its_lines_without_tag_lines(
    content: ContentView,
    path: Seq<char>,
    tag: Seq<char>,
)
    requires
        laid_out(content.root.nested, 0, content.lines.len() as int),
    ensures
        find_from(content.root.nested, tag, 0) matches Some(found) ==> snippet_text(
            content,
            path,
            SnippetView::FullBlock { id: tag },
        ) == Ok::<Seq<char>, GeoffreyErrorView>(
            lines_without_tag_lines(
                content.lines,
                content.tags,
                found.indentation,
                found.begin as int + 1,
                found.end as int,
            ),
        ),
        snippet_text(content, path, SnippetView::FullFile) == Ok::<Seq<char>, GeoffreyErrorView>(
            lines_without_tag_lines(
                content.lines,
                content.tags,
                Seq::empty(),
                0,
                content.lines.len() as int,
            ),
        ),
{
    lemma_nothing_removed_shows_the_lines(
        content.lines,
        content.tags,
        Seq::empty(),
        0,
        0,
        content.lines.len() as int,
    );
    match find_from(content.root.nested, tag, 0) {
        Some(found) => {
            lemma_found_laid_out(content.root.nested, tag, 0, 0, content.lines.len() as int);
            lemma_nothing_removed_shows_the_lines(
                content.lines,
                content.tags,
                found.indentation,
                found.begin as int + 1,
                found.begin as int + 1,
                found.end as int,
            );
        },
        None => {},
    }
}

/// A snippet that is not kept lies in collapsed lines: where one of the
/// first `n` snippets of `nested` is not kept, its lines are collapsed.
pub proof fn lemma_snippet_not_kept_is_collapsed(
    nested: Seq<ContentSnippetView>,
    tags: Seq<Seq<char>>,
    n: nat,
    i: int,
    line: int,
)
    requires
        0 <= i < n <= nested.len(),
        !is_kept(nested[i], tags),
        nested[i].begin <= line <= nested[i].end,
    ensures
        collapsed(nested, tags, n, line),
    decreases n,
{
    if i < n - 1 {
        lemma_snippet_not_kept_is_collapsed(nested, tags, (n - 1) as nat, i, line);
    }
}

/// A nested snippet that is not asked for is replaced by one line: where a
/// snippet is shown with tags to keep, and a snippet directly nested in it
/// is not kept, every line of the nested snippet, its tag lines included,
/// is removed. Where a shown line stands directly in front of it, the first
/// of its lines gives the line that stands for it, with the indentation of
/// the nested snippet itself, and its other lines give nothing.
pub proof fn law_snippet_not_kept_is_one_line(
    lines: Seq<Seq<char>>,
    tag_lines: Seq<Option<TagLineView>>,
    snippet: ContentSnippetView,
    tags: Seq<Seq<char>>,
    i: int,
)
    requires
        is_kept(snippet, tags),
        0 <= i < snippet.nested.len(),
        !is_kept(snippet.nested[i], tags),
        snippet.begin < snippet.nested[i].begin <= snippet.nested[i].end < snippet.end
            < lines.len(),
        tag_lines[snippet.nested[i].begin as int] == Some(
            TagLineView {
                indentation: snippet.nested[i].indentation,
                tag: snippet.nested[i].tag,
            },
        ),
    ensures
        forall|l: int|
            snippet.nested[i].begin <= l <= snippet.nested[i].end ==> #[trigger] removed_with(
                lines,
                snippet,
                tags,
            )[l],
        !removed_with(lines, snippet, tags)[snippet.nested[i].begin - 1] ==> rendered_line(
            lines,
            tag_lines,
            removed_with(lines, snippet, tags),
            snippet.indentation,
            snippet.begin as int + 1,
            snippet.nested[i].begin as int,
            snippet.end as int,
        ) == strip_indentation(
            ellipsis_line_of(snippet.nested[i].indentation),
            snippet.indentation,
        ),
        forall|l: int|
            snippet.nested[i].begin < l <= snippet.nested[i].end ==> #[trigger] rendered_line(
                lines,
                tag_lines,
                removed_with(lines, snippet, tags),
                snippet.indentation,
                snippet.begin as int + 1,
                l,
                snippet.end as int,
            ) == Seq::<char>::empty(),
{
    let child = snippet.nested[i];
    let removed = removed_with(lines, snippet, tags);
    assert forall|l: int| child.begin <= l <= child.end implies #[trigger] removed[l] by {
        lemma_snippet_not_kept_is_collapsed(snippet.nested, tags, snippet.nested.len(), i, l);
        assert(is_elided(snippet, tags, l));
    }
    assert forall|l: int| child.begin < l <= child.end implies #[trigger] rendered_line(
        lines,
        tag_lines,
        removed,
        snippet.indentation,
        snippet.begin as int + 1,
        l,
        snippet.end as int,
    ) == Seq::<char>::empty() by {
        assert(removed[l]);
        assert(removed[l - 1]);
    }
    assert(removed[child.begin as int]);
}

/// Of snippets that lie one after the other, an earlier one ends before a
/// later one begins.
pub proof fn lemma_laid_out_in_order(
    nested: Seq<ContentSnippetView>,
    lo: int,
    hi: int,
    i: int,
    j: int,
)
    requires
        laid_out(nested, lo, hi),
        0 <= i < j < nested.len(),
    ensures
        nested[i].end < nested[j].begin,
    decreases j - i,
{
    if i + 1 < j {
        lemma_laid_out_in_order(nested, lo, hi, i + 1, j);
        assert(nested[i].end < nested[i + 1].begin);
        assert(nested[i + 1].begin < nested[i + 1].end);
    }
}

/// Of the first `n` snippets of `nested`, only the one that holds a line
/// can collapse it: where the line lies in the snippet with the index `i`,
/// which is kept and collapses nothing at that line, the line is not
/// collapsed.
pub proof fn lemma_line_of_a_kept_snippet(
    nested: Seq<ContentSnippetView>,
    lo: int,
    hi: int,
    tags: Seq<Seq<char>>,
    n: nat,
    i: int,
    line: int,
)
    requires
        laid_out(nested, lo, hi),
        0 <= i < nested.len(),
        n <= nested.len(),
        is_kept(nested[i], tags),
        !is_elided(nested[i], tags, line),
        nested[i].begin <= line <= nested[i].end,
    ensures
        !elided_within(nested, tags, n, line),
        !collapsed(nested, tags, n, line),
    decreases n,
{
    if n > 0 {
        lemma_line_of_a_kept_snippet(nested, lo, hi, tags, (n - 1) as nat, i, line);
        let j = n - 1;
        if j != i {
            if j < i {
                lemma_laid_out_in_order(nested, lo, hi, j, i);
            } else {
                lemma_laid_out_in_order(nested, lo, hi, i, j);
            }
            if is_elided(nested[j], tags, line) {
                law_collapsed_lines_lie_inside(nested[j], tags, line);
            }
        }
    }
}

/// A nested snippet that is asked for is shown: where a snippet is shown
/// with tags to keep, and a snippet directly nested in it has one of these
/// tags and no snippet nested in it, no line of the nested snippet is
/// collapsed, and no line stands for it. Each of its lines that is shown
/// and is no tag line gives itself, without the indentation of the snippet
/// shown.
pub proof fn law_snippet_kept_is_shown(
    lines: Seq<Seq<char>>,
    tag_lines: Seq<Option<TagLineView>>,
    removed: Seq<bool>,
    snippet: ContentSnippetView,
    tags: Seq<Seq<char>>,
    i: int,
    line: int,
)
    requires
        laid_out(snippet.nested, snippet.begin as int + 1, snippet.end as int),
        0 <= i < snippet.nested.len(),
        tags.contains(snippet.nested[i].tag),
        snippet.nested[i].nested.len() == 0,
        snippet.nested[i].begin <= line <= snippet.nested[i].end,
    ensures
        !is_elided(snippet, tags, line),
        !removed[line] && tag_lines[line] is None ==> rendered_line(
            lines,
            tag_lines,
            removed,
            snippet.indentation,
            snippet.begin as int + 1,
            line,
            snippet.end as int,
        ) == strip_indentation(lines[line], snippet.indentation),
{
    lemma_line_of_a_kept_snippet(
        snippet.nested,
        snippet.begin as int + 1,
        snippet.end as int,
        tags,
        snippet.nested.len(),
        i,
        line,
    );
}

} // verus!
