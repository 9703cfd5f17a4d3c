//! The matcher of tag lines in content files.
//!
//! A tag line is a line of a content file that holds the pattern of
//! [`tag_pattern`]: spaces, the comment marker `//!`, and a tag in square
//! brackets. What the pattern finds in a line is decided by the `regex`
//! crate; this module turns its answer into a [`TagLine`].

use crate::error::{GeoffreyError, GeoffreyErrorView};
use vstd::prelude::*;

verus! {

/// The error of the `regex` crate.
#[verifier::external_type_specification]
#[verifier::external_body]
pub struct ExRegexError(regex::Error);

/// What a search with a pattern finds in a text.
pub enum Captures {
    /// The pattern is no regular expression, or too large a one.
    Invalid,
    /// The pattern matches nowhere in the text.
    NoMatch,
    /// The leftmost match: the text of every group of the pattern, the whole
    /// match first, `None` for a group that took no part in the match.
    Groups(Seq<Option<Seq<char>>>),
}

/// What the `regex` crate finds when it compiles `pattern` and searches
/// `haystack` for its first match.
pub uninterp spec fn captures_of(pattern: Seq<char>, haystack: Seq<char>) -> Captures;

/// The groups of a match, each by its view.
pub open spec fn group_views(groups: Seq<Option<String>>) -> Seq<Option<Seq<char>>> {
    groups.map_values(
        |g: Option<String>|
            match g {
                Some(s) => Some(s@),
                None => None,
            },
    )
}

/// What [`regex_captures`] returns, by its views.
pub open spec fn captures_view(r: Result<Option<Vec<Option<String>>>, regex::Error>) -> Captures {
    match r {
        Err(_) => Captures::Invalid,
        Ok(None) => Captures::NoMatch,
        Ok(Some(groups)) => Captures::Groups(group_views(groups@)),
    }
}

/// Compiles `pattern` with `regex::Regex::new` and searches `haystack` with
/// `Regex::captures`. The error of the first is handed on. Of a match, every
/// group that `Captures::iter` yields is copied out as a string.
///
/// Both calls depend on their arguments alone, so the outcome is
/// [`captures_of`] of the two texts; nothing else is claimed of it.
#[verifier::external_body]
fn regex_captures(pattern: &str, haystack: &str) -> (r: Result<
    Option<Vec<Option<String>>>,
    regex::Error,
>)
    ensures
        captures_view(r) == captures_of(pattern@, haystack@),
{
    match regex::Regex::new(pattern) {
        Ok(re) => Ok(
            re.captures(haystack).map(
                |c| c.iter().map(|g| g.map(|m| m.as_str().to_owned())).collect(),
            ),
        ),
        Err(e) => Err(e),
    }
}

/// A tag line of a content file.
#[derive(Debug)]
pub struct TagLine {
    /// The spaces in front of the comment marker.
    pub indentation: String,
    /// The tag between the brackets.
    pub tag: String,
}

/// The view of a [`TagLine`].
pub struct TagLineView {
    pub indentation: Seq<char>,
    pub tag: Seq<char>,
}

impl View for TagLine {
    type V = TagLineView;

    open spec fn view(&self) -> TagLineView {
        TagLineView { indentation: self.indentation@, tag: self.tag@ }
    }
}

/// The pattern of a tag line. Its first group takes the spaces in front of
/// the comment marker, its second group the tag.
pub open spec fn tag_pattern_text() -> Seq<char> {
    "( *)//! \\[(.*)\\]"@
}

/// The pattern of a tag line.
pub fn tag_pattern() -> (r: &'static str)
    ensures
        r@ == tag_pattern_text(),
{
    "( *)//! \\[(.*)\\]"
}

/// What a search with the pattern of a tag line says of the line searched:
/// no match, no tag line; a match with its two groups, a tag line. Anything
/// else cannot come from that pattern and is an error.
pub open spec fn tag_line_of_captures(captures: Captures) -> Result<
    Option<TagLineView>,
    GeoffreyErrorView,
> {
    match captures {
        Captures::Invalid => Err(GeoffreyErrorView::RegexError),
        Captures::NoMatch => Ok(None),
        Captures::Groups(groups) => if groups.len() > 2 && groups[1] is Some && groups[2] is Some {
            Ok(Some(TagLineView { indentation: groups[1]->0, tag: groups[2]->0 }))
        } else {
            Err(GeoffreyErrorView::RegexError)
        },
    }
}

/// What `line` is: a tag line, or none.
pub open spec fn tag_line_of(line: Seq<char>) -> Result<Option<TagLineView>, GeoffreyErrorView> {
    tag_line_of_captures(captures_of(tag_pattern_text(), line))
}

/// An optional tag line, by its view.
pub open spec fn tag_view(tag: Option<TagLine>) -> Option<TagLineView> {
    match tag {
        Some(t) => Some(t@),
        None => None,
    }
}

/// The `tag_view` of every element.
pub open spec fn tag_views(tags: Seq<Option<TagLine>>) -> Seq<Option<TagLineView>> {
    tags.map_values(|t: Option<TagLine>| tag_view(t))
}

/// What the matchers of this module return, by its views.
pub open spec fn tag_line_result_view(r: Result<Option<TagLine>, GeoffreyError>) -> Result<
    Option<TagLineView>,
    GeoffreyErrorView,
> {
    match r {
        Ok(tag) => Ok(tag_view(tag)),
        Err(e) => Err(e@),
    }
}

/// Reads a tag line from what a search with the pattern of a tag line has
/// found.
pub fn tag_line_from_captures(captures: Result<Option<Vec<Option<String>>>, regex::Error>) -> (r:
    Result<Option<TagLine>, GeoffreyError>)
    ensures
        tag_line_result_view(r) == tag_line_of_captures(captures_view(captures)),
{
    match captures {
        Err(_) => Err(GeoffreyError::RegexError),
        Ok(None) => Ok(None),
        Ok(Some(groups)) => {
            if groups.len() <= 2 {
                return Err(GeoffreyError::RegexError);
            }
            match (&groups[1], &groups[2]) {
                (Some(indentation), Some(tag)) => Ok(
                    Some(TagLine { indentation: indentation.clone(), tag: tag.clone() }),
                ),
                _ => Err(GeoffreyError::RegexError),
            }
        },
    }
}

/// Tells whether `line` is a tag line, and which.
pub fn match_tag_line(line: &str) -> (r: Result<Option<TagLine>, GeoffreyError>)
    ensures
        tag_line_result_view(r) == tag_line_of(line@),
{
    tag_line_from_captures(regex_captures(tag_pattern(), line))
}

/// The tag lines among `lines`: for every line its tag line, or `None`.
pub open spec fn tag_lines_of(lines: Seq<Seq<char>>) -> Result<
    Seq<Option<TagLineView>>,
    GeoffreyErrorView,
> {
    if exists|i: int| 0 <= i < lines.len() && (#[trigger] tag_line_of(lines[i])) is Err {
        Err(GeoffreyErrorView::RegexError)
    } else {
        Ok(Seq::new(lines.len(), |i: int| tag_line_of(lines[i])->Ok_0))
    }
}

/// What [`match_tag_lines`] returns, by its views.
pub open spec fn tag_lines_result_view(r: Result<Vec<Option<TagLine>>, GeoffreyError>) -> Result<
    Seq<Option<TagLineView>>,
    GeoffreyErrorView,
> {
    match r {
        Ok(tags) => Ok(tag_views(tags@)),
        Err(e) => Err(e@),
    }
}

/// Matches every line of a content file against the pattern of a tag line.
pub fn match_tag_lines(lines: &Vec<String>) -> (r: Result<Vec<Option<TagLine>>, GeoffreyError>)
    ensures
        tag_lines_result_view(r) == tag_lines_of(lines.deep_view()),
{
    let mut tags: Vec<Option<TagLine>> = Vec::new();
    let mut i: usize = 0;
    while i < lines.len()
        invariant
            i <= lines.len(),
            tags.len() == i,
            forall|j: int|
                0 <= j < i ==> #[trigger] tag_line_of(lines.deep_view()[j]) == Ok::<
                    Option<TagLineView>,
                    GeoffreyErrorView,
                >(tag_view(tags@[j])),
        decreases lines.len() - i,
    {
        assert(lines.deep_view()[i as int] == lines@[i as int]@);
        match match_tag_line(lines[i].as_str()) {
            Ok(tag) => {
                tags.push(tag);
            },
            Err(e) => {
                return Err(GeoffreyError::RegexError);
            },
        }
        i += 1;
    }
    proof {
        assert(tag_views(tags@) =~= Seq::new(
            lines.deep_view().len(),
            |i: int| tag_line_of(lines.deep_view()[i])->Ok_0,
        ));
    }
    Ok(tags)
}

} // verus!
