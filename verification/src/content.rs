//! The snippets of a content file.
//!
//! A content file marks its snippets with tag lines. The first tag line with
//! a tag opens a snippet, the next tag line with the same tag closes it, and
//! a tag line with another tag in between opens a nested snippet. The file
//! as a whole is the root snippet, which has the empty tag.

use crate::content_laws::{law_tags_are_unique, tags_in};
use crate::documents::{Documents, MdSnippetTag};
use crate::elision::{is_elided, laid_out};
use crate::error::{GeoffreyError, GeoffreyErrorView};
use crate::lines::{lines_inclusive, split_lines_inclusive};
use crate::md_grammar::SnippetView;
use crate::render::{is_removed, no_marks, removed_lines, render_lines, rendered};
use crate::tag_line::{
    match_tag_lines, tag_lines_of, tag_view, tag_views, TagLine, TagLineView,
};
use crate::text::{owned, str_eq};
use vstd::prelude::*;
use vstd::string::StringExecFns;

verus! {

/// A snippet of a content file: the lines from the tag line that opens it to
/// the tag line that closes it, both included.
#[derive(Debug)]
pub struct ContentSnippetDescription {
    /// The tag of the snippet; empty for the root snippet.
    pub tag: String,
    /// The spaces in front of the comment marker of the opening tag line.
    pub indentation: String,
    /// The line that stands for the snippet where it is collapsed.
    pub ellipsis_line: String,
    /// The index of the opening tag line.
    pub begin: usize,
    /// The index of the closing tag line.
    pub end: usize,
    /// The snippets nested in this one, in the order of their lines.
    pub nested: Vec<ContentSnippetDescription>,
}

/// The view of a [`ContentSnippetDescription`].
pub struct ContentSnippetView {
    pub tag: Seq<char>,
    pub indentation: Seq<char>,
    pub ellipsis_line: Seq<char>,
    pub begin: nat,
    pub end: nat,
    pub nested: Seq<ContentSnippetView>,
}

/// The view of `snippet`: its texts as sequences of characters, its nested
/// snippets by their views.
pub open spec fn snippet_view(snippet: ContentSnippetDescription) -> ContentSnippetView
    decreases snippet,
{
    ContentSnippetView {
        tag: snippet.tag@,
        indentation: snippet.indentation@,
        ellipsis_line: snippet.ellipsis_line@,
        begin: snippet.begin as nat,
        end: snippet.end as nat,
        nested: snippet_views(snippet.nested@),
    }
}

/// The snippets in `snippets`, each by its view.
pub open spec fn snippet_views(snippets: Seq<ContentSnippetDescription>) -> Seq<
    ContentSnippetView,
>
    decreases snippets,
{
    if snippets.len() == 0 {
        Seq::empty()
    } else {
        snippet_views(snippets.drop_last()).push(snippet_view(snippets.last()))
    }
}

impl View for ContentSnippetDescription {
    type V = ContentSnippetView;

    open spec fn view(&self) -> ContentSnippetView {
        snippet_view(*self)
    }
}

/// The views of snippets are as many as the snippets, and each is the view
/// of the snippet in its place.
pub proof fn lemma_snippet_views(snippets: Seq<ContentSnippetDescription>)
    ensures
        snippet_views(snippets).len() == snippets.len(),
        forall|i: int| 0 <= i < snippets.len() ==> #[trigger] snippet_views(snippets)[i] == snippets[i]@,
    decreases snippets.len(),
{
    if snippets.len() > 0 {
        lemma_snippet_views(snippets.drop_last());
    }
}

/// The views of snippets with one more are the views with one more.
pub proof fn lemma_snippet_views_push(
    snippets: Seq<ContentSnippetDescription>,
    snippet: ContentSnippetDescription,
)
    ensures
        snippet_views(snippets.push(snippet)) == snippet_views(snippets).push(snippet@),
{
    assert(snippets.push(snippet).drop_last() =~= snippets);
}

/// The line that stands for a collapsed snippet whose opening tag line has
/// the given indentation.
pub open spec fn ellipsis_line_of(indentation: Seq<char>) -> Seq<char> {
    indentation + "// ...\n"@
}

/// Why the tag lines of a content file do not make up snippets.
pub enum SnippetError {
    /// A tag line has an empty tag.
    EmptyTag,
    /// A second snippet with this tag was closed.
    DoubleTag(Seq<char>),
    /// The file ends inside the snippet with this tag.
    EndTagNotFound(Seq<char>),
}

/// The error by which the content file at `path` is refused for `error`.
pub open spec fn snippet_error_view(path: Seq<char>, error: SnippetError) -> GeoffreyErrorView {
    match error {
        SnippetError::EmptyTag => GeoffreyErrorView::ContentSnippetEmptyTag(path),
        SnippetError::DoubleTag(tag) => GeoffreyErrorView::ContentSnippetDoubleTag(path, tag),
        SnippetError::EndTagNotFound(tag) => GeoffreyErrorView::ContentSnippetEndTagNotFound(
            path,
            tag,
        ),
    }
}

/// What the lines of a snippet hold, read up to the line that closes it.
pub struct Body {
    /// The snippets nested in it.
    pub nested: Seq<ContentSnippetView>,
    /// The number of lines read, the closing tag line included.
    pub len: nat,
    /// The tags of all snippets closed so far.
    pub seen: Seq<Seq<char>>,
}

/// `r` with `lines` more lines read.
pub open spec fn grow(r: Result<Body, SnippetError>, lines: nat) -> Result<Body, SnippetError> {
    match r {
        Ok(body) => Ok(Body { len: body.len + lines, ..body }),
        Err(e) => Err(e),
    }
}

/// Reads the lines of the snippet with the tag `tag` from line `pos` on.
/// `tags` says of every line of the file whether it is a tag line, `seen`
/// holds the tags of the snippets closed before `pos`, and `nested` the
/// nested snippets found before `pos`.
///
/// A line that is no tag line belongs to the snippet. A tag line with the
/// tag of the snippet closes it. A tag line with another tag opens a nested
/// snippet, which is read to its end and must have a tag not seen before.
/// A tag line with an empty tag is an error. The end of the file closes the
/// root snippet and is an error inside any other.
pub open spec fn snippet_body(
    tags: Seq<Option<TagLineView>>,
    pos: nat,
    tag: Seq<char>,
    seen: Seq<Seq<char>>,
    nested: Seq<ContentSnippetView>,
) -> Result<Body, SnippetError>
    decreases
            (if pos < tags.len() {
                tags.len() - pos
            } else {
                0
            }),
{
    if pos >= tags.len() {
        if tag.len() == 0 {
            Ok(Body { nested, len: 0, seen })
        } else {
            Err(SnippetError::EndTagNotFound(tag))
        }
    } else {
        match tags[pos as int] {
            None => grow(snippet_body(tags, pos + 1, tag, seen, nested), 1),
            Some(line) => if line.tag.len() == 0 {
                Err(SnippetError::EmptyTag)
            } else if line.tag == tag {
                Ok(Body { nested, len: 1, seen })
            } else {
                match snippet_body(tags, pos + 1, line.tag, seen, Seq::empty()) {
                    Err(e) => Err(e),
                    Ok(child) => if child.seen.contains(line.tag) {
                        Err(SnippetError::DoubleTag(line.tag))
                    } else {
                        grow(
                            snippet_body(
                                tags,
                                pos + 1 + child.len,
                                tag,
                                child.seen.push(line.tag),
                                nested.push(
                                    ContentSnippetView {
                                        tag: line.tag,
                                        indentation: line.indentation,
                                        ellipsis_line: ellipsis_line_of(line.indentation),
                                        begin: pos,
                                        end: pos + child.len,
                                        nested: child.nested,
                                    },
                                ),
                            ),
                            1 + child.len,
                        )
                    },
                }
            },
        }
    }
}

/// The index of the last line of a span of lines that ends before line
/// `next`; zero where there is no such line.
pub open spec fn last_line(next: nat) -> nat {
    if next > 0 {
        (next - 1) as nat
    } else {
        0
    }
}

/// The root snippet of a content file with the given tag lines.
pub open spec fn root_of(tags: Seq<Option<TagLineView>>) -> Result<
    ContentSnippetView,
    SnippetError,
> {
    match snippet_body(tags, 0, Seq::empty(), Seq::empty(), Seq::empty()) {
        Ok(body) => Ok(
            ContentSnippetView {
                tag: Seq::empty(),
                indentation: Seq::empty(),
                ellipsis_line: Seq::empty(),
                begin: 0,
                end: last_line(tags.len()),
                nested: body.nested,
            },
        ),
        Err(e) => Err(e),
    }
}

/// Whether `name` is among `names`.
pub fn contains_name(names: &Vec<String>, name: &str) -> (r: bool)
    ensures
        r == names.deep_view().contains(name@),
{
    let mut i: usize = 0;
    while i < names.len()
        invariant
            i <= names.len(),
            forall|j: int| 0 <= j < i ==> names.deep_view()[j] != name@,
        decreases names.len() - i,
    {
        assert(names.deep_view()[i as int] == names@[i as int]@);
        if str_eq(names[i].as_str(), name) {
            return true;
        }
        i += 1;
    }
    false
}

/// The first snippet with the tag `tag` among the snippets of `nested` from
/// the one with the index `i` on, and among the snippets nested in them; a
/// snippet comes before those nested in it.
pub open spec fn find_from(nested: Seq<ContentSnippetView>, tag: Seq<char>, i: nat) -> Option<
    ContentSnippetView,
>
    decreases nested, nested.len() - i,
{
    if i >= nested.len() {
        None
    } else if nested[i as int].tag == tag {
        Some(nested[i as int])
    } else {
        match find_from(nested[i as int].nested, tag, 0) {
            Some(found) => Some(found),
            None => find_from(nested, tag, i + 1),
        }
    }
}

/// A borrowed snippet, by its view.
pub open spec fn found_view(found: Option<&ContentSnippetDescription>) -> Option<
    ContentSnippetView,
> {
    match found {
        Some(snippet) => Some(snippet@),
        None => None,
    }
}

/// Looks for the snippet with the tag `tag` among `nested` and the snippets
/// nested in them.
pub fn find_snippet<'a>(nested: &'a Vec<ContentSnippetDescription>, tag: &str) -> (r: Option<
    &'a ContentSnippetDescription,
>)
    ensures
        found_view(r) == find_from(snippet_views(nested@), tag@, 0),
    decreases nested,
{
    let ghost views = snippet_views(nested@);
    proof {
        lemma_snippet_views(nested@);
    }
    let mut i: usize = 0;
    while i < nested.len()
        invariant
            i <= nested.len(),
            views == snippet_views(nested@),
            views.len() == nested.len(),
            find_from(views, tag@, 0) == find_from(views, tag@, i as nat),
        decreases nested.len() - i,
    {
        let snippet = &nested[i];
        proof {
            lemma_snippet_views(nested@);
            assert(views[i as int] == snippet@);
        }
        if str_eq(snippet.tag.as_str(), tag) {
            return Some(snippet);
        }
        match find_snippet(&snippet.nested, tag) {
            Some(found) => {
                return Some(found);
            },
            None => {},
        }
        i += 1;
    }
    None
}

/// The snippets that are laid out between two lines stay so when the second
/// line is moved on.
pub proof fn lemma_laid_out_widen(nested: Seq<ContentSnippetView>, lo: int, hi: int, wider: int)
    requires
        laid_out(nested, lo, hi),
        hi <= wider,
    ensures
        laid_out(nested, lo, wider),
{
}

/// The snippets that the reading of a snippet finds lie inside it, one after
/// the other, and so do the snippets nested in each of them. The reading
/// ends inside the file, and that of any snippet but the root takes in one
/// line at least, the closing tag line.
pub proof fn lemma_snippet_body_laid_out(
    tags: Seq<Option<TagLineView>>,
    pos: nat,
    tag: Seq<char>,
    seen: Seq<Seq<char>>,
    nested: Seq<ContentSnippetView>,
    lo: int,
)
    requires
        0 <= lo <= pos <= tags.len(),
        laid_out(nested, lo, pos as int),
        snippet_body(tags, pos, tag, seen, nested) is Ok,
    ensures
        ({
            let body = snippet_body(tags, pos, tag, seen, nested)->Ok_0;
            &&& pos + body.len <= tags.len()
            &&& tag.len() > 0 ==> body.len >= 1
            &&& laid_out(
                body.nested,
                lo,
                pos + body.len - (if tag.len() > 0 {
                    1int
                } else {
                    0int
                }),
            )
        }),
    decreases tags.len() - pos,
{
    if pos < tags.len() {
        match tags[pos as int] {
            None => {
                lemma_laid_out_widen(nested, lo, pos as int, pos as int + 1);
                lemma_snippet_body_laid_out(tags, pos + 1, tag, seen, nested, lo);
            },
            Some(line) => {
                if line.tag.len() != 0 && line.tag != tag {
                    let inner = snippet_body(tags, pos + 1, line.tag, seen, Seq::empty());
                    let child = inner->Ok_0;
                    lemma_snippet_body_laid_out(
                        tags,
                        pos + 1,
                        line.tag,
                        seen,
                        Seq::empty(),
                        pos as int + 1,
                    );
                    let snippet = ContentSnippetView {
                        tag: line.tag,
                        indentation: line.indentation,
                        ellipsis_line: ellipsis_line_of(line.indentation),
                        begin: pos,
                        end: pos + child.len,
                        nested: child.nested,
                    };
                    let next = pos + 1 + child.len;
                    assert(laid_out(nested.push(snippet), lo, next as int)) by {
                        assert forall|i: int| 0 <= i < nested.push(snippet).len() implies {
                            &&& lo <= (#[trigger] nested.push(snippet)[i]).begin < nested.push(
                                snippet,
                            )[i].end < next
                            &&& (i + 1 < nested.push(snippet).len() ==> nested.push(snippet)[i].end
                                < nested.push(snippet)[i + 1].begin)
                            &&& laid_out(
                                nested.push(snippet)[i].nested,
                                nested.push(snippet)[i].begin as int + 1,
                                nested.push(snippet)[i].end as int,
                            )
                        } by {
                            if i < nested.len() {
                                assert(nested.push(snippet)[i] == nested[i]);
                                if i + 1 < nested.len() {
                                    assert(nested.push(snippet)[i + 1] == nested[i + 1]);
                                }
                            }
                        }
                    }
                    lemma_snippet_body_laid_out(
                        tags,
                        next,
                        tag,
                        child.seen.push(line.tag),
                        nested.push(snippet),
                        lo,
                    );
                }
            },
        }
    }
}

/// A snippet found among snippets that are laid out between two lines lies
/// between them, has the tag sought, and the snippets nested in it are laid
/// out between its tag lines.
pub proof fn lemma_found_laid_out(
    nested: Seq<ContentSnippetView>,
    tag: Seq<char>,
    i: nat,
    lo: int,
    hi: int,
)
    requires
        laid_out(nested, lo, hi),
        find_from(nested, tag, i) is Some,
    ensures
        ({
            let found = find_from(nested, tag, i)->0;
            &&& found.tag == tag
            &&& lo <= found.begin < found.end < hi
            &&& laid_out(found.nested, found.begin as int + 1, found.end as int)
        }),
    decreases nested, nested.len() - i,
{
    if i < nested.len() && nested[i as int].tag != tag {
        let inner = nested[i as int];
        if find_from(inner.nested, tag, 0) is Some {
            lemma_found_laid_out(inner.nested, tag, 0, inner.begin as int + 1, inner.end as int);
        } else {
            lemma_found_laid_out(nested, tag, i + 1, lo, hi);
        }
    }
}

impl Documents {
    /// Reads the lines of `current_snippet` from line `position` on, up to
    /// the tag line that closes it, and returns the snippet with its end and
    /// its nested snippets.
    ///
    /// `tags` says of every line of the file whether it is a tag line, and
    /// `seen` holds the tags of the snippets closed so far. The nested
    /// snippets that `current_snippet` holds already are kept in front of
    /// those that are found.
    pub fn parse_next_content_snippet(
        path: &str,
        tags: &Vec<Option<TagLine>>,
        position: &mut usize,
        seen: &mut Vec<String>,
        current_snippet: ContentSnippetDescription,
    ) -> (r: Result<ContentSnippetDescription, GeoffreyError>)
        requires
            *old(position) <= tags.len(),
        ensures
            match snippet_body(
                tag_views(tags@),
                *old(position) as nat,
                current_snippet.tag@,
                old(seen).deep_view(),
                snippet_views(current_snippet.nested@),
            ) {
                Ok(body) => {
                    &&& r matches Ok(snippet)
                    &&& snippet@ == (ContentSnippetView {
                        end: last_line(*final(position) as nat),
                        nested: body.nested,
                        ..current_snippet@
                    })
                    &&& *final(position) == *old(position) + body.len
                    &&& *final(position) <= tags.len()
                    &&& final(seen).deep_view() == body.seen
                },
                Err(e) => r matches Err(error) && error@ == snippet_error_view(path@, e),
            },
        decreases tags.len() - *old(position),
    {
        let ghost all = tag_views(tags@);
        let ghost start = *position as nat;
        let ghost goal = snippet_body(
            all,
            start,
            current_snippet.tag@,
            seen.deep_view(),
            snippet_views(current_snippet.nested@),
        );
        let mut current = current_snippet;
        while *position < tags.len()
            invariant
                start <= *position <= tags.len(),
                start == *old(position),
                all == tag_views(tags@),
                current.tag == current_snippet.tag,
                current.indentation == current_snippet.indentation,
                current.ellipsis_line == current_snippet.ellipsis_line,
                current.begin == current_snippet.begin,
                goal == grow(
                    snippet_body(
                        all,
                        *position as nat,
                        current.tag@,
                        seen.deep_view(),
                        snippet_views(current.nested@),
                    ),
                    (*position - start) as nat,
                ),
                goal == snippet_body(
                    all,
                    start,
                    current_snippet.tag@,
                    old(seen).deep_view(),
                    snippet_views(current_snippet.nested@),
                ),
            decreases tags.len() - *position,
        {
            let pos = *position;
            let ghost seen_before = seen.deep_view();
            let ghost nested_before = snippet_views(current.nested@);
            assert(all[pos as int] == tag_view(tags@[pos as int]));
            match &tags[pos] {
                None => {
                    *position = pos + 1;
                },
                Some(line) => {
                    if line.tag.as_str().is_empty() {
                        return Err(GeoffreyError::ContentSnippetEmptyTag(owned(path)));
                    }
                    if str_eq(line.tag.as_str(), current.tag.as_str()) {
                        current.end = pos;
                        *position = pos + 1;
                        return Ok(current);
                    }
                    let mut ellipsis_line = line.indentation.clone();
                    ellipsis_line.append("// ...\n");
                    let new_snippet = ContentSnippetDescription {
                        tag: line.tag.clone(),
                        indentation: line.indentation.clone(),
                        ellipsis_line,
                        begin: pos,
                        end: 0,
                        nested: Vec::new(),
                    };
                    *position = pos + 1;
                    let nested_snippet = match Self::parse_next_content_snippet(
                        path,
                        tags,
                        position,
                        seen,
                        new_snippet,
                    ) {
                        Ok(snippet) => snippet,
                        Err(e) => {
                            return Err(e);
                        },
                    };
                    if contains_name(seen, nested_snippet.tag.as_str()) {
                        return Err(
                            GeoffreyError::ContentSnippetDoubleTag(owned(path), nested_snippet.tag),
                        );
                    }
                    let ghost closed = seen.deep_view();
                    seen.push(nested_snippet.tag.clone());
                    assert(seen.deep_view() =~= closed.push(nested_snippet.tag@));
                    let ghost child = nested_snippet@;
                    proof {
                        lemma_snippet_views_push(current.nested@, nested_snippet);
                    }
                    current.nested.push(nested_snippet);
                },
            }
        }
        if current.tag.as_str().is_empty() {
            current.end = if tags.len() > 0 {
                tags.len() - 1
            } else {
                0
            };
            Ok(current)
        } else {
            Err(GeoffreyError::ContentSnippetEndTagNotFound(owned(path), current.tag))
        }
    }
}

/// A content file: its lines, which of them are tag lines, and its
/// snippets.
#[derive(Debug)]
pub struct ContentFile {
    data: Vec<String>,
    tags: Vec<Option<TagLine>>,
    root: ContentSnippetDescription,
}

/// What a content file holds: its lines with their line endings, the tag
/// line of every line that is one, and the root snippet.
pub struct ContentView {
    pub lines: Seq<Seq<char>>,
    pub tags: Seq<Option<TagLineView>>,
    pub root: ContentSnippetView,
}

/// The content file with the given lines, where `tags` says which of them
/// are tag lines.
pub open spec fn content_of_lines(
    path: Seq<char>,
    lines: Seq<Seq<char>>,
    tags: Seq<Option<TagLineView>>,
) -> Result<ContentView, GeoffreyErrorView> {
    match root_of(tags) {
        Ok(root) => Ok(ContentView { lines, tags, root }),
        Err(e) => Err(snippet_error_view(path, e)),
    }
}

/// The content file at `path` with the text `text`.
pub open spec fn content_of(path: Seq<char>, text: Seq<char>) -> Result<
    ContentView,
    GeoffreyErrorView,
> {
    match tag_lines_of(lines_inclusive(text)) {
        Ok(tags) => content_of_lines(path, lines_inclusive(text), tags),
        Err(e) => Err(e),
    }
}

/// A result with a content file, by its views.
pub open spec fn content_result_view(r: Result<ContentFile, GeoffreyError>) -> Result<
    ContentView,
    GeoffreyErrorView,
> {
    match r {
        Ok(file) => Ok(file@),
        Err(e) => Err(e@),
    }
}

/// As many marks as `n`, none of them set.
pub open spec fn nothing_removed(n: nat) -> Seq<bool> {
    Seq::new(n, |l: int| false)
}

/// The lines of `snippet` that are removed when it is shown with the tags
/// `tags` kept.
pub open spec fn removed_with(
    lines: Seq<Seq<char>>,
    snippet: ContentSnippetView,
    tags: Seq<Seq<char>>,
) -> Seq<bool> {
    Seq::new(
        lines.len(),
        |l: int|
            is_removed(
                lines,
                Seq::new(lines.len(), |k: int| is_elided(snippet, tags, k)),
                snippet.begin as int + 1,
                snippet.end as int,
                l,
            ),
    )
}

/// The text that `snippet` asks for of the content file `content` at
/// `path`.
///
/// The whole file is all its lines but the tag lines. A snippet is the
/// lines between its two tag lines but the tag lines, each without the
/// indentation of the snippet. A snippet with nested snippets to keep is
/// shown without the lines that are removed, with one line in place of each
/// run of them; any tag may be named to keep, whether a snippet has it or
/// not. To ask for a snippet with a tag that no snippet has is an error.
pub open spec fn snippet_text(content: ContentView, path: Seq<char>, snippet: SnippetView) -> Result<
    Seq<char>,
    GeoffreyErrorView,
> {
    match snippet {
        SnippetView::FullFile => Ok(
            rendered(
                content.lines,
                content.tags,
                nothing_removed(content.lines.len()),
                Seq::empty(),
                0,
                0,
                content.lines.len() as int,
            ),
        ),
        SnippetView::FullBlock { id } => match find_from(content.root.nested, id, 0) {
            None => Err(GeoffreyErrorView::ContentSnippetNotFound(path, id)),
            Some(found) => Ok(
                rendered(
                    content.lines,
                    content.tags,
                    nothing_removed(content.lines.len()),
                    found.indentation,
                    found.begin as int + 1,
                    found.begin as int + 1,
                    found.end as int,
                ),
            ),
        },
        SnippetView::ElidedBlock { main_id, sub_ids } => match find_from(
            content.root.nested,
            main_id,
            0,
        ) {
            None => Err(GeoffreyErrorView::ContentSnippetNotFound(path, main_id)),
            Some(found) => Ok(
                rendered(
                    content.lines,
                    content.tags,
                    removed_with(content.lines, found, seq![main_id] + sub_ids),
                    found.indentation,
                    found.begin as int + 1,
                    found.begin as int + 1,
                    found.end as int,
                ),
            ),
        },
    }
}

/// What [`ContentFile::snippet`] returns, by its views.
pub open spec fn text_result_view(r: Result<String, GeoffreyError>) -> Result<
    Seq<char>,
    GeoffreyErrorView,
> {
    match r {
        Ok(text) => Ok(text@),
        Err(e) => Err(e@),
    }
}

impl View for ContentFile {
    type V = ContentView;

    closed spec fn view(&self) -> ContentView {
        ContentView { lines: self.data.deep_view(), tags: tag_views(self.tags@), root: self.root@ }
    }
}

impl ContentFile {
    #[verifier::type_invariant]
    spec fn well_formed(self) -> bool {
        &&& self.tags.len() == self.data.len()
        &&& root_of(tag_views(self.tags@)) == Ok::<ContentSnippetView, SnippetError>(self.root@)
    }

    /// A content file without lines.
    pub fn new() -> (file: ContentFile)
        ensures
            content_of_lines(Seq::empty(), Seq::empty(), Seq::empty()) == Ok::<
                ContentView,
                GeoffreyErrorView,
            >(file@),
    {
        let file = ContentFile {
            data: Vec::new(),
            tags: Vec::new(),
            root: ContentSnippetDescription {
                tag: String::new(),
                indentation: String::new(),
                ellipsis_line: String::new(),
                begin: 0,
                end: 0,
                nested: Vec::new(),
            },
        };
        proof {
            assert(tag_views(file.tags@) =~= Seq::empty());
            assert(file.data.deep_view() =~= Seq::empty());
        }
        file
    }

    /// The content file at `path` with the lines `lines`, where `tags` says
    /// of every line whether it is a tag line.
    pub fn with_tag_lines(path: &str, lines: Vec<String>, tags: Vec<Option<TagLine>>) -> (r: Result<
        ContentFile,
        GeoffreyError,
    >)
        requires
            tags.len() == lines.len(),
        ensures
            content_result_view(r) == content_of_lines(
                path@,
                lines.deep_view(),
                tag_views(tags@),
            ),
    {
        let content_snippet = ContentSnippetDescription {
            tag: String::new(),
            indentation: String::new(),
            ellipsis_line: String::new(),
            begin: 0,
            end: 0,
            nested: Vec::new(),
        };
        let mut position: usize = 0;
        let mut seen: Vec<String> = Vec::new();
        proof {
            assert(seen.deep_view() =~= Seq::empty());
        }
        match Documents::parse_next_content_snippet(
            path,
            &tags,
            &mut position,
            &mut seen,
            content_snippet,
        ) {
            Ok(root) => {
                proof {
                    lemma_snippet_body_laid_out(
                        tag_views(tags@),
                        0,
                        Seq::empty(),
                        Seq::empty(),
                        Seq::empty(),
                        0,
                    );
                    lemma_root_reads_all(tag_views(tags@));
                }
                Ok(ContentFile { data: lines, tags, root })
            },
            Err(e) => Err(e),
        }
    }

    /// The lines of the file with their line endings.
    pub fn lines(&self) -> (lines: &Vec<String>)
        ensures
            lines.deep_view() == self@.lines,
    {
        &self.data
    }

    /// The root snippet of the file. No two of the snippets nested in it,
    /// at whatever depth, have the same tag, and they lie in the lines of
    /// the file without overlap.
    pub fn root(&self) -> (root: &ContentSnippetDescription)
        ensures
            root@ == self@.root,
            tags_in(root@.nested).no_duplicates(),
            laid_out(root@.nested, 0, self@.lines.len() as int),
    {
        proof {
            use_type_invariant(self);
            law_tags_are_unique(tag_views(self.tags@));
            lemma_root_reads_all(tag_views(self.tags@));
        }
        &self.root
    }

    /// Looks for the snippet with the tag `tag`.
    pub fn find(&self, tag: &str) -> (r: Option<&ContentSnippetDescription>)
        ensures
            found_view(r) == find_from(self@.root.nested, tag@, 0),
    {
        find_snippet(&self.root.nested, tag)
    }

    /// The text that `tag` asks for of this file, the content file at
    /// `path`.
    pub fn snippet(&self, path: &str, tag: &MdSnippetTag) -> (r: Result<String, GeoffreyError>)
        ensures
            text_result_view(r) == snippet_text(self@, path@, tag@),
    {
        proof {
            use_type_invariant(self);
            lemma_snippet_body_laid_out(
                tag_views(self.tags@),
                0,
                Seq::empty(),
                Seq::empty(),
                Seq::empty(),
                0,
            );
            lemma_root_reads_all(tag_views(self.tags@));
        }
        let n = self.data.len();
        match tag {
            MdSnippetTag::FullFile => {
                let removed = no_marks(n);
                proof {
                    reveal_strlit("");
                    assert(""@ =~= Seq::<char>::empty());
                    assert(removed@ =~= nothing_removed(n as nat));
                }
                Ok(render_lines(&self.data, &self.tags, &removed, "", 0, n))
            },
            MdSnippetTag::FullSnippet { main } => {
                match find_snippet(&self.root.nested, main.as_str()) {
                    None => Err(
                        GeoffreyError::ContentSnippetNotFound(owned(path), main.clone()),
                    ),
                    Some(found) => {
                        proof {
                            lemma_found_laid_out(self.root@.nested, main@, 0, 0, n as int);
                        }
                        let removed = no_marks(n);
                        assert(removed@ =~= nothing_removed(n as nat));
                        Ok(
                            render_lines(
                                &self.data,
                                &self.tags,
                                &removed,
                                found.indentation.as_str(),
                                found.begin + 1,
                                found.end,
                            ),
                        )
                    },
                }
            },
            MdSnippetTag::ElidedSnippet { main, sub } => {
                let mut all_tags: Vec<String> = Vec::new();
                all_tags.push(main.clone());
                let mut i: usize = 0;
                while i < sub.len()
                    invariant
                        i <= sub.len(),
                        all_tags.deep_view() == seq![main@] + sub.deep_view().take(i as int),
                    decreases sub.len() - i,
                {
                    let ghost before = all_tags.deep_view();
                    all_tags.push(sub[i].clone());
                    assert(all_tags.deep_view() =~= before.push(sub@[i as int]@));
                    assert(sub.deep_view().take(i + 1) =~= sub.deep_view().take(i as int).push(
                        sub@[i as int]@,
                    ));
                    i += 1;
                }
                assert(sub.deep_view().take(sub.len() as int) =~= sub.deep_view());
                let ghost names = seq![main@] + sub.deep_view();
                match find_snippet(&self.root.nested, main.as_str()) {
                    None => Err(
                        GeoffreyError::ContentSnippetNotFound(owned(path), main.clone()),
                    ),
                    Some(found) => {
                        proof {
                            lemma_found_laid_out(self.root@.nested, main@, 0, 0, n as int);
                        }
                        let mut elided = no_marks(n);
                        Documents::has_elided_lines(&all_tags, &mut elided, found);
                        assert(elided@ =~= Seq::new(
                            self.data.deep_view().len(),
                            |l: int| is_elided(found@, names, l),
                        ));
                        let removed = removed_lines(
                            &self.data,
                            &elided,
                            found.begin + 1,
                            found.end,
                        );
                        assert(removed@ =~= removed_with(self.data.deep_view(), found@, names));
                        Ok(
                            render_lines(
                                &self.data,
                                &self.tags,
                                &removed,
                                found.indentation.as_str(),
                                found.begin + 1,
                                found.end,
                            ),
                        )
                    },
                }
            },
        }
    }
}

/// The reading of the root snippet takes in every line of the file.
pub proof fn lemma_root_reads_all(tags: Seq<Option<TagLineView>>)
    requires
        root_of(tags) is Ok,
    ensures
        snippet_body(tags, 0, Seq::empty(), Seq::empty(), Seq::empty())->Ok_0.len == tags.len(),
        laid_out(root_of(tags)->Ok_0.nested, 0, tags.len() as int),
{
    lemma_snippet_body_laid_out(tags, 0, Seq::empty(), Seq::empty(), Seq::empty(), 0);
    lemma_root_body_len(tags, 0, Seq::empty(), Seq::empty());
}

/// The reading of the root snippet from a line on takes in every line from
/// there to the end of the file.
pub proof fn lemma_root_body_len(
    tags: Seq<Option<TagLineView>>,
    pos: nat,
    seen: Seq<Seq<char>>,
    nested: Seq<ContentSnippetView>,
)
    requires
        pos <= tags.len(),
        snippet_body(tags, pos, Seq::empty(), seen, nested) is Ok,
    ensures
        snippet_body(tags, pos, Seq::empty(), seen, nested)->Ok_0.len == tags.len() - pos,
    decreases tags.len() - pos,
{
    let tag = Seq::<char>::empty();
    if pos < tags.len() {
        match tags[pos as int] {
            None => {
                lemma_root_body_len(tags, pos + 1, seen, nested);
            },
            Some(line) => {
                if line.tag.len() != 0 && line.tag != tag {
                    let child = snippet_body(tags, pos + 1, line.tag, seen, Seq::empty())->Ok_0;
                    lemma_snippet_body_laid_out(
                        tags,
                        pos + 1,
                        line.tag,
                        seen,
                        Seq::empty(),
                        pos as int + 1,
                    );
                    lemma_root_body_len(
                        tags,
                        pos + 1 + child.len,
                        child.seen.push(line.tag),
                        nested.push(
                            ContentSnippetView {
                                tag: line.tag,
                                indentation: line.indentation,
                                ellipsis_line: ellipsis_line_of(line.indentation),
                                begin: pos,
                                end: pos + child.len,
                                nested: child.nested,
                            },
                        ),
                    );
                }
            },
        }
    }
}

impl Documents {
    /// Parses the content file at `path`, whose text is `text`, into its
    /// lines and snippets.
    pub fn parse_content_file(path: &str, text: &str) -> (r: Result<ContentFile, GeoffreyError>)
        ensures
            content_result_view(r) == content_of(path@, text@),
    {
        let pieces = split_lines_inclusive(text);
        let mut data: Vec<String> = Vec::new();
        let mut i: usize = 0;
        while i < pieces.len()
            invariant
                i <= pieces.len(),
                data.len() == i,
                forall|j: int| 0 <= j < i ==> (#[trigger] data@[j])@ == pieces@[j]@,
            decreases pieces.len() - i,
        {
            data.push(owned(pieces[i]));
            i += 1;
        }
        assert(data.deep_view() =~= pieces.deep_view());
        let tags = match match_tag_lines(&data) {
            Ok(tags) => tags,
            Err(e) => {
                return Err(e);
            },
        };
        ContentFile::with_tag_lines(path, data, tags)
    }
}

} // verus!
