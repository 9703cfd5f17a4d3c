//! The text of a snippet as it goes into the documentation.
//!
//! The lines of a snippet are shown in their order. Tag lines are never
//! shown. A run of removed lines, the collapsed lines and the blank lines
//! around them, is shown as one line that stands for what was collapsed.
//! Every line shown loses the indentation of the snippet once.

use crate::content::ellipsis_line_of;
use crate::tag_line::{tag_view, tag_views, TagLine, TagLineView};
use crate::text::{is_blank, is_blank_str, strip_prefix};
use vstd::prelude::*;
use vstd::string::StringExecFns;

verus! {

/// Whether line `l` is a blank line that is not collapsed.
pub open spec fn is_filler(lines: Seq<Seq<char>>, elided: Seq<bool>, l: int) -> bool {
    !elided[l] && is_blank(lines[l])
}

/// Whether line `l`, a blank line after line `lo`, follows a collapsed line
/// with nothing but blank lines in between.
pub open spec fn follows_elided(lines: Seq<Seq<char>>, elided: Seq<bool>, lo: int, l: int) -> bool
    decreases l - lo,
{
    lo < l && is_filler(lines, elided, l) && (elided[l - 1] || follows_elided(
        lines,
        elided,
        lo,
        l - 1,
    ))
}

/// Whether line `l`, a blank line before line `hi`, precedes a collapsed
/// line with nothing but blank lines in between.
pub open spec fn precedes_elided(lines: Seq<Seq<char>>, elided: Seq<bool>, hi: int, l: int) -> bool
    decreases hi - l,
{
    l + 1 < hi && is_filler(lines, elided, l) && (elided[l + 1] || precedes_elided(
        lines,
        elided,
        hi,
        l + 1,
    ))
}

/// Whether line `l` is removed from the lines `lo` to `hi`, `hi` excluded:
/// it is collapsed, or it belongs to a run of blank lines with a collapsed
/// line directly in front of the run or directly behind it.
pub open spec fn is_removed(
    lines: Seq<Seq<char>>,
    elided: Seq<bool>,
    lo: int,
    hi: int,
    l: int,
) -> bool {
    lo <= l < hi && (elided[l] || follows_elided(lines, elided, lo, l) || precedes_elided(
        lines,
        elided,
        hi,
        l,
    ))
}

/// `line` without `indentation` at its start; `line` as it is where it does
/// not start with `indentation`.
pub open spec fn strip_indentation(line: Seq<char>, indentation: Seq<char>) -> Seq<char> {
    if indentation.is_prefix_of(line) {
        line.skip(indentation.len() as int)
    } else {
        line
    }
}

/// The first tag line from line `l` on and before line `hi`.
pub open spec fn next_tag(tags: Seq<Option<TagLineView>>, l: int, hi: int) -> Option<TagLineView>
    decreases hi - l,
{
    if l >= hi {
        None
    } else if tags[l] is Some {
        tags[l]
    } else {
        next_tag(tags, l + 1, hi)
    }
}

/// The line that stands for the run of removed lines which starts at line
/// `l`: it has the indentation of the first snippet collapsed in the run,
/// whose opening tag line is the first tag line of the run.
pub open spec fn placeholder(tags: Seq<Option<TagLineView>>, l: int, hi: int) -> Seq<char> {
    match next_tag(tags, l, hi) {
        Some(tag) => ellipsis_line_of(tag.indentation),
        None => Seq::empty(),
    }
}

/// The text of the lines `l` to `hi`, `hi` excluded, of the lines shown from
/// `lo` on.
pub open spec fn rendered(
    lines: Seq<Seq<char>>,
    tags: Seq<Option<TagLineView>>,
    removed: Seq<bool>,
    indentation: Seq<char>,
    lo: int,
    l: int,
    hi: int,
) -> Seq<char>
    decreases hi - l,
{
    if l >= hi {
        Seq::empty()
    } else {
        rendered_line(lines, tags, removed, indentation, lo, l, hi) + rendered(
            lines,
            tags,
            removed,
            indentation,
            lo,
            l + 1,
            hi,
        )
    }
}

/// What line `l` adds to the text: nothing if it is a tag line or goes on a
/// run of removed lines, the line that stands for the run if it starts one,
/// and otherwise the line itself.
pub open spec fn rendered_line(
    lines: Seq<Seq<char>>,
    tags: Seq<Option<TagLineView>>,
    removed: Seq<bool>,
    indentation: Seq<char>,
    lo: int,
    l: int,
    hi: int,
) -> Seq<char> {
    if removed[l] {
        if l > lo && removed[l - 1] {
            Seq::empty()
        } else {
            strip_indentation(placeholder(tags, l, hi), indentation)
        }
    } else if tags[l] is Some {
        Seq::empty()
    } else {
        strip_indentation(lines[l], indentation)
    }
}

/// As many marks as `n`, none of them set.
pub fn no_marks(n: usize) -> (marks: Vec<bool>)
    ensures
        marks.len() == n,
        forall|l: int| 0 <= l < n ==> !marks[l],
{
    let mut marks: Vec<bool> = Vec::new();
    while marks.len() < n
        invariant
            marks.len() <= n,
            forall|l: int| 0 <= l < marks.len() ==> !marks[l],
        decreases n - marks.len(),
    {
        marks.push(false);
    }
    marks
}

/// Marks the lines that are removed from the lines `lo` to `hi`, `hi`
/// excluded, where `elided` marks the lines that are collapsed.
pub fn removed_lines(lines: &Vec<String>, elided: &Vec<bool>, lo: usize, hi: usize) -> (removed:
    Vec<bool>)
    requires
        lo <= hi <= lines.len(),
        elided.len() == lines.len(),
    ensures
        removed.len() == lines.len(),
        forall|l: int|
            0 <= l < lines.len() ==> removed[l] == is_removed(
                lines.deep_view(),
                elided@,
                lo as int,
                hi as int,
                l,
            ),
{
    let ghost texts = lines.deep_view();
    let mut removed = no_marks(lines.len());
    let mut after = false;
    let mut l: usize = lo;
    while l < hi
        invariant
            lo <= l <= hi <= lines.len(),
            elided.len() == lines.len(),
            removed.len() == lines.len(),
            texts == lines.deep_view(),
            after == (l > lo && (elided[l - 1] || follows_elided(texts, elided@, lo as int, l - 1))),
            forall|k: int|
                0 <= k < lines.len() ==> #[trigger] removed[k] == (lo <= k < l && (elided[k]
                    || follows_elided(texts, elided@, lo as int, k))),
        decreases hi - l,
    {
        assert(texts[l as int] == lines@[l as int]@);
        if elided[l] {
            removed.set(l, true);
            after = true;
        } else if after && is_blank_str(lines[l].as_str()) {
            removed.set(l, true);
        } else {
            after = false;
        }
        l += 1;
    }
    let ghost forward = removed@;
    let mut before = false;
    let mut l: usize = hi;
    while l > lo
        invariant
            lo <= l <= hi <= lines.len(),
            elided.len() == lines.len(),
            removed.len() == lines.len(),
            forward.len() == lines.len(),
            texts == lines.deep_view(),
            before == (l < hi && (elided[l as int] || precedes_elided(
                texts,
                elided@,
                hi as int,
                l as int,
            ))),
            forall|k: int|
                0 <= k < lines.len() ==> #[trigger] removed[k] == (forward[k] || (l <= k < hi
                    && precedes_elided(texts, elided@, hi as int, k))),
        decreases l - lo,
    {
        l -= 1;
        assert(texts[l as int] == lines@[l as int]@);
        if elided[l] {
            before = true;
        } else if before && is_blank_str(lines[l].as_str()) {
            removed.set(l, true);
        } else {
            before = false;
        }
    }
    removed
}

/// The first tag line from line `l` on and before line `hi`.
pub fn next_tag_line(tags: &Vec<Option<TagLine>>, l: usize, hi: usize) -> (r: Option<&TagLine>)
    requires
        l <= hi <= tags.len(),
    ensures
        tag_view_of(r) == next_tag(tag_views(tags@), l as int, hi as int),
{
    let mut k: usize = l;
    while k < hi
        invariant
            l <= k <= hi <= tags.len(),
            next_tag(tag_views(tags@), l as int, hi as int) == next_tag(
                tag_views(tags@),
                k as int,
                hi as int,
            ),
        decreases hi - k,
    {
        assert(tag_views(tags@)[k as int] == tag_view(tags@[k as int]));
        match &tags[k] {
            Some(tag) => {
                return Some(tag);
            },
            None => {},
        }
        k += 1;
    }
    None
}

/// A borrowed tag line, by its view.
pub open spec fn tag_view_of(tag: Option<&TagLine>) -> Option<TagLineView> {
    match tag {
        Some(t) => Some(t@),
        None => None,
    }
}

/// Adds `line` to `text`, without `indentation` at its start.
pub fn push_stripped(text: &mut String, line: &str, indentation: &str)
    ensures
        final(text)@ == old(text)@ + strip_indentation(line@, indentation@),
{
    match strip_prefix(line, indentation) {
        Some(rest) => text.append(rest),
        None => text.append(line),
    }
}

/// The text of the lines `lo` to `hi`, `hi` excluded, where `removed` marks
/// the lines that are removed and `tags` says which lines are tag lines.
pub fn render_lines(
    lines: &Vec<String>,
    tags: &Vec<Option<TagLine>>,
    removed: &Vec<bool>,
    indentation: &str,
    lo: usize,
    hi: usize,
) -> (text: String)
    requires
        lo <= hi <= lines.len(),
        tags.len() == lines.len(),
        removed.len() == lines.len(),
    ensures
        text@ == rendered(
            lines.deep_view(),
            tag_views(tags@),
            removed@,
            indentation@,
            lo as int,
            lo as int,
            hi as int,
        ),
{
    let ghost texts = lines.deep_view();
    let ghost all = tag_views(tags@);
    let mut text = String::new();
    let mut l: usize = lo;
    assert(text@ + rendered(texts, all, removed@, indentation@, lo as int, lo as int, hi as int)
        =~= rendered(texts, all, removed@, indentation@, lo as int, lo as int, hi as int));
    while l < hi
        invariant
            lo <= l <= hi <= lines.len(),
            tags.len() == lines.len(),
            removed.len() == lines.len(),
            texts == lines.deep_view(),
            all == tag_views(tags@),
            text@ + rendered(texts, all, removed@, indentation@, lo as int, l as int, hi as int)
                == rendered(texts, all, removed@, indentation@, lo as int, lo as int, hi as int),
        decreases hi - l,
    {
        let ghost before = text@;
        let ghost piece = rendered_line(
            texts,
            all,
            removed@,
            indentation@,
            lo as int,
            l as int,
            hi as int,
        );
        let ghost rest = rendered(
            texts,
            all,
            removed@,
            indentation@,
            lo as int,
            l + 1,
            hi as int,
        );
        assert(texts[l as int] == lines@[l as int]@);
        assert(all[l as int] == tag_view(tags@[l as int]));
        if removed[l] {
            if !(l > lo && removed[l - 1]) {
                match next_tag_line(tags, l, hi) {
                    Some(tag) => {
                        let mut line = tag.indentation.clone();
                        line.append("// ...\n");
                        push_stripped(&mut text, line.as_str(), indentation);
                    },
                    None => {
                        push_stripped(&mut text, "", indentation);
                    },
                }
            }
        } else if tags[l].is_none() {
            push_stripped(&mut text, lines[l].as_str(), indentation);
        }
        proof {
            reveal_strlit("");
            assert("".view() =~= Seq::<char>::empty());
            assert(text@ =~= before + piece);
            assert((before + piece) + rest =~= before + (piece + rest));
        }
        l += 1;
    }
    text
}

} // verus!
