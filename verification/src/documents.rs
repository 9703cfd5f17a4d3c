//! The documentation files of a run and the content files that they quote.
//!
//! A run has three steps. The documentation files are parsed into segments,
//! which tells the content files that they quote. The content files are
//! parsed into snippets. Then every documentation file is put together
//! again, with the text of the snippet it asks for behind every tag. The
//! caller reads and writes the files; nothing here touches one.

use crate::content::{snippet_text, text_result_view, ContentFile, ContentView};
use crate::error::{GeoffreyError, GeoffreyErrorView};
use crate::lines::{lines_inclusive, lines_of, split_lines_inclusive, LineCursor};
use crate::md_grammar::{
    attribute, lemma_section_lines, lemma_section_next, section, tag_envelope,
    GeoffreyCodeBlockParseErrorView, MdParseErrorView, SectionView, SnippetView,
};
use crate::md_parser::{
    geoffrey_attribute, geoffrey_tag_envelope, parse_section, GeoffreyCodeBlockParseError,
    MdParseError, Section, Snippet,
};
use crate::text::{chars_of, owned, str_eq, trim, trim_of};
use vstd::prelude::*;
use vstd::string::StringExecFns;

verus! {

/// The part of a content file that a tag asks for.
#[derive(Debug)]
pub enum MdSnippetTag {
    /// The whole file.
    FullFile,
    /// The snippet with the tag `main`.
    FullSnippet { main: String },
    /// The snippet with the tag `main`, in which every nested snippet is
    /// collapsed but those that hold one of `sub`.
    ElidedSnippet { main: String, sub: Vec<String> },
}

impl View for MdSnippetTag {
    type V = SnippetView;

    open spec fn view(&self) -> SnippetView {
        match self {
            MdSnippetTag::FullFile => SnippetView::FullFile,
            MdSnippetTag::FullSnippet { main } => SnippetView::FullBlock { id: main@ },
            MdSnippetTag::ElidedSnippet { main, sub } => SnippetView::ElidedBlock {
                main_id: main@,
                sub_ids: sub.deep_view(),
            },
        }
    }
}

/// What a tag asks for: a snippet of the content file at a path.
#[derive(Debug)]
pub struct MdSnippetId {
    pub path: String,
    pub tag: MdSnippetTag,
}

/// The view of a [`MdSnippetId`].
pub struct MdSnippetIdView {
    pub path: Seq<char>,
    pub tag: SnippetView,
}

impl View for MdSnippetId {
    type V = MdSnippetIdView;

    open spec fn view(&self) -> MdSnippetIdView {
        MdSnippetIdView { path: self.path@, tag: self.tag@ }
    }
}

/// A piece of a documentation file: text that stays as it is and, behind
/// it, the snippet to put in.
#[derive(Debug)]
pub struct MdSegment {
    pub text: String,
    pub snippet_id: Option<MdSnippetId>,
}

/// The view of a [`MdSegment`].
pub struct MdSegmentView {
    pub text: Seq<char>,
    pub snippet_id: Option<MdSnippetIdView>,
}

impl View for MdSegment {
    type V = MdSegmentView;

    open spec fn view(&self) -> MdSegmentView {
        MdSegmentView {
            text: self.text@,
            snippet_id: match self.snippet_id {
                Some(id) => Some(id@),
                None => None,
            },
        }
    }
}

/// The segments in `segments`, each by its view.
pub open spec fn segment_views(segments: Seq<MdSegment>) -> Seq<MdSegmentView> {
    segments.map_values(|s: MdSegment| s@)
}

/// A documentation file: its path and its segments.
#[derive(Debug)]
pub struct MdFile {
    pub path: String,
    pub segments: Vec<MdSegment>,
}

/// The view of a [`MdFile`].
pub struct MdFileView {
    pub path: Seq<char>,
    pub segments: Seq<MdSegmentView>,
}

impl View for MdFile {
    type V = MdFileView;

    open spec fn view(&self) -> MdFileView {
        MdFileView { path: self.path@, segments: segment_views(self.segments@) }
    }
}

impl MdFile {
    /// The documentation file at `path`, not parsed yet.
    pub fn new(path: String) -> (file: MdFile)
        ensures
            file@ == (MdFileView { path: path@, segments: Seq::empty() }),
    {
        let file = MdFile { path, segments: Vec::new() };
        assert(segment_views(file.segments@) =~= Seq::empty());
        file
    }
}

/// The segments `segments` with `text` at the end of the last of them.
pub open spec fn add_text(segments: Seq<MdSegmentView>, text: Seq<char>) -> Seq<MdSegmentView> {
    segments.drop_last().push(
        MdSegmentView {
            text: segments.last().text + text,
            snippet_id: segments.last().snippet_id,
        },
    )
}

/// The segments `segments` with a code block behind them: `head`, the tag
/// line and the opening fence, goes to the end of the last segment, which
/// then asks for the snippet `id`; `tail`, the closing fence, starts the
/// next segment.
pub open spec fn add_block(
    segments: Seq<MdSegmentView>,
    head: Seq<char>,
    id: MdSnippetIdView,
    tail: Seq<char>,
) -> Seq<MdSegmentView> {
    segments.drop_last().push(
        MdSegmentView { text: segments.last().text + head, snippet_id: Some(id) },
    ).push(MdSegmentView { text: tail, snippet_id: None })
}

/// The segments `segments` with the lines from the one with the index `pos`
/// on behind them. `lines` are the lines of the file without their line
/// endings, which the parser reads; `pieces` are the same lines with their
/// line endings, which the segments keep.
///
/// A line of text goes to the end of the last segment as it is. So do a tag
/// line and the line of the opening fence behind it; the line of the
/// closing fence starts the next segment, and the lines between the fences
/// are left out. The first section that is refused ends the parse: the
/// error comes with the line that the section starts with.
pub open spec fn segments_from(
    pieces: Seq<Seq<char>>,
    lines: Seq<Seq<char>>,
    pos: nat,
    segments: Seq<MdSegmentView>,
) -> Result<Seq<MdSegmentView>, (Seq<char>, MdParseErrorView)>
    decreases lines.len() - pos,
{
    if pos >= lines.len() {
        Ok(segments)
    } else {
        let found = section(pos, lines[pos as int], lines, pos + 1);
        proof {
            lemma_section_next(pos, lines[pos as int], lines, pos + 1);
        }
        match found.result {
            Err(e) => Err((lines[pos as int], e)),
            Ok(SectionView::TextLine(_)) => segments_from(
                pieces,
                lines,
                found.next,
                add_text(segments, pieces[pos as int]),
            ),
            Ok(SectionView::GeoffreyCodeBlock { tag, .. }) => segments_from(
                pieces,
                lines,
                found.next,
                add_block(
                    segments,
                    pieces[pos as int] + pieces[pos as int + 1],
                    MdSnippetIdView { path: tag.file_name, tag: tag.snippet },
                    pieces[found.next - 1],
                ),
            ),
        }
    }
}

/// The segments of a documentation file with the text `text`.
pub open spec fn segments_of(text: Seq<char>) -> Result<
    Seq<MdSegmentView>,
    (Seq<char>, MdParseErrorView),
> {
    segments_from(
        lines_inclusive(text),
        lines_of(text),
        0,
        seq![MdSegmentView { text: Seq::empty(), snippet_id: None }],
    )
}

/// `s` without the pair of square brackets around it, trimmed; `s` as it is
/// where no such pair stands around it.
pub open spec fn without_brackets(s: Seq<char>) -> Seq<char> {
    if s.len() >= 2 && s[0] == '[' && s.last() == ']' {
        trim(s.subrange(1, s.len() - 1))
    } else {
        s
    }
}

/// The snippet that the tag line `line` asks for, as the line writes it:
/// what stands behind the name of the content file, without the brackets
/// around it. It is empty where the tag asks for the whole file.
pub open spec fn snippet_of_tag_line(line: Seq<char>) -> Seq<char> {
    match tag_envelope(0, line) {
        Ok((attributes, _)) => match attribute(attributes) {
            Ok((rest, _)) => without_brackets(rest),
            Err(_) => Seq::empty(),
        },
        Err(_) => Seq::empty(),
    }
}

/// The error by which the documentation file at `path` is refused when the
/// section that starts with `line` is refused for `error`. A tag without its
/// code block and a code block that never ends are told by the snippet
/// that the tag asks for; every other error is handed on as it is.
pub open spec fn md_error_view(path: Seq<char>, line: Seq<char>, error: MdParseErrorView) -> GeoffreyErrorView {
    match error {
        MdParseErrorView::GeoffreyTagWithoutCodeBlock {
            ..
        } => GeoffreyErrorView::CodeBlockMustFollowTag(path, snippet_of_tag_line(line)),
        MdParseErrorView::GeoffreyCodeBlockError {
            error: GeoffreyCodeBlockParseErrorView::UnmatchedBackticks,
            ..
        } => GeoffreyErrorView::CodeBlockEndMissing(path, snippet_of_tag_line(line)),
        _ => GeoffreyErrorView::MarkdownError(path, error),
    }
}

/// The documentation file at `path` with the text `text`.
pub open spec fn md_file_of(path: Seq<char>, text: Seq<char>) -> Result<
    MdFileView,
    GeoffreyErrorView,
> {
    match segments_of(text) {
        Ok(segments) => Ok(MdFileView { path, segments }),
        Err((line, e)) => Err(md_error_view(path, line, e)),
    }
}

/// The content file at `path` among `content`, from the entry with the
/// index `i` on: the first one with that path.
pub open spec fn content_at(content: Seq<(Seq<char>, ContentView)>, path: Seq<char>, i: nat) -> Option<
    ContentView,
>
    decreases content.len() - i,
{
    if i >= content.len() {
        None
    } else if content[i as int].0 == path {
        Some(content[i as int].1)
    } else {
        content_at(content, path, i + 1)
    }
}

/// `text` in front of the text in `r`.
pub open spec fn after(text: Seq<char>, r: Result<Seq<char>, GeoffreyErrorView>) -> Result<
    Seq<char>,
    GeoffreyErrorView,
> {
    match r {
        Ok(rest) => Ok(text + rest),
        Err(e) => Err(e),
    }
}

/// The text of one segment: its own text and, behind it, the snippet that
/// it asks for. The content file must be among `content`, and must hold the
/// snippet.
pub open spec fn synced_segment(
    segment: MdSegmentView,
    content: Seq<(Seq<char>, ContentView)>,
) -> Result<Seq<char>, GeoffreyErrorView> {
    match segment.snippet_id {
        None => Ok(segment.text),
        Some(id) => match content_at(content, id.path, 0) {
            None => Err(GeoffreyErrorView::ContentFileNotFound(id.path)),
            Some(file) => after(segment.text, snippet_text(file, id.path, id.tag)),
        },
    }
}

/// The text of the segments from the one with the index `i` on. The first
/// segment that fails gives the error.
pub open spec fn synced_from(
    segments: Seq<MdSegmentView>,
    content: Seq<(Seq<char>, ContentView)>,
    i: nat,
) -> Result<Seq<char>, GeoffreyErrorView>
    decreases segments.len() - i,
{
    if i >= segments.len() {
        Ok(Seq::empty())
    } else {
        match synced_segment(segments[i as int], content) {
            Ok(text) => after(text, synced_from(segments, content, i + 1)),
            Err(e) => Err(e),
        }
    }
}

/// The text of a documentation file with the given segments, brought up to
/// date with the content files `content`.
pub open spec fn synced_text(
    segments: Seq<MdSegmentView>,
    content: Seq<(Seq<char>, ContentView)>,
) -> Result<Seq<char>, GeoffreyErrorView> {
    synced_from(segments, content, 0)
}

/// The content files in `content` with their paths, each by its view.
pub open spec fn content_views(content: Seq<(String, ContentFile)>) -> Seq<
    (Seq<char>, ContentView),
> {
    content.map_values(|entry: (String, ContentFile)| (entry.0@, entry.1@))
}

/// The snippet that the tag line `line` asks for, as the line writes it.
pub fn snippet_of_tag<'a>(line: &'a str) -> (r: &'a str)
    ensures
        r@ == snippet_of_tag_line(line@),
{
    proof {
        reveal_strlit("");
        assert(""@ =~= Seq::<char>::empty());
    }
    let attributes = match geoffrey_tag_envelope(0, line) {
        Ok((attributes, _)) => attributes,
        Err(_) => {
            return "";
        },
    };
    let rest = match geoffrey_attribute(attributes) {
        Ok((rest, _)) => rest,
        Err(_) => {
            return "";
        },
    };
    let v = chars_of(rest);
    let n = v.len();
    if n >= 2 && v[0] == '[' && v[n - 1] == ']' {
        trim_of(rest.substring_char(1, n - 1))
    } else {
        rest
    }
}

/// The error by which the documentation file at `path` is refused when the
/// section that starts with `line` is refused for `error`.
pub fn md_error(path: &str, line: &str, error: MdParseError) -> (r: GeoffreyError)
    ensures
        r@ == md_error_view(path@, line@, error@),
{
    match error {
        MdParseError::GeoffreyTagWithoutCodeBlock {
            ..
        } => GeoffreyError::CodeBlockMustFollowTag(owned(path), owned(snippet_of_tag(line))),
        MdParseError::GeoffreyCodeBlockError {
            line_number,
            text,
            error: GeoffreyCodeBlockParseError::UnmatchedBackticks,
        } => GeoffreyError::CodeBlockEndMissing(owned(path), owned(snippet_of_tag(line))),
        error => GeoffreyError::MarkdownError(owned(path), error),
    }
}

/// An owned copy of what a tag asks for.
pub fn owned_snippet(snippet: &Snippet) -> (r: MdSnippetTag)
    ensures
        r@ == snippet@,
{
    match snippet {
        Snippet::FullFile => MdSnippetTag::FullFile,
        Snippet::FullBlock { id } => MdSnippetTag::FullSnippet { main: owned(id) },
        Snippet::ElidedBlock { main_id, sub_ids } => {
            let mut sub: Vec<String> = Vec::new();
            let mut i: usize = 0;
            while i < sub_ids.len()
                invariant
                    i <= sub_ids.len(),
                    sub.len() == i,
                    forall|j: int| 0 <= j < i ==> (#[trigger] sub@[j])@ == sub_ids@[j]@,
                decreases sub_ids.len() - i,
            {
                sub.push(owned(sub_ids[i]));
                i += 1;
            }
            assert(sub.deep_view() =~= sub_ids.deep_view());
            MdSnippetTag::ElidedSnippet { main: owned(main_id), sub }
        },
    }
}

/// Looks for the content file at `path` among `content`.
pub fn find_content<'a>(content: &'a Vec<(String, ContentFile)>, path: &str) -> (r: Option<
    &'a ContentFile,
>)
    ensures
        match r {
            Some(file) => content_at(content_views(content@), path@, 0) == Some(file@),
            None => content_at(content_views(content@), path@, 0) is None,
        },
{
    let mut i: usize = 0;
    while i < content.len()
        invariant
            i <= content.len(),
            content_at(content_views(content@), path@, 0) == content_at(
                content_views(content@),
                path@,
                i as nat,
            ),
        decreases content.len() - i,
    {
        assert(content_views(content@)[i as int] == (content@[i as int].0@, content@[i as int].1@));
        if str_eq(content[i].0.as_str(), path) {
            return Some(&content[i].1);
        }
        i += 1;
    }
    None
}

/// The documentation files of a run and the content files that they quote.
#[derive(Debug)]
pub struct Documents {
    md_files: Vec<MdFile>,
    content: Vec<(String, ContentFile)>,
}

/// The view of [`Documents`].
pub struct DocumentsView {
    pub md_files: Seq<MdFileView>,
    pub content: Seq<(Seq<char>, ContentView)>,
}

/// The files in `files`, each by its view.
pub open spec fn md_file_views(files: Seq<MdFile>) -> Seq<MdFileView> {
    files.map_values(|f: MdFile| f@)
}

impl View for Documents {
    type V = DocumentsView;

    closed spec fn view(&self) -> DocumentsView {
        DocumentsView {
            md_files: md_file_views(self.md_files@),
            content: content_views(self.content@),
        }
    }
}

/// Whether `extension` is the extension of a markdown file: `md` in upper or
/// lower case.
pub open spec fn is_md_extension(extension: Seq<char>) -> bool {
    &&& extension.len() == 2
    &&& extension[0] == 'm' || extension[0] == 'M'
    &&& extension[1] == 'd' || extension[1] == 'D'
}

/// The documentation files of a run that have not been parsed: one file
/// for every path, with no segments.
pub open spec fn unparsed(paths: Seq<Seq<char>>) -> Seq<MdFileView> {
    paths.map_values(|path: Seq<char>| MdFileView { path, segments: Seq::empty() })
}

/// The text of every file in `files`, from the one with the index `i` on,
/// brought up to date; the first file that fails gives the error.
pub open spec fn synced_files(
    files: Seq<MdFileView>,
    content: Seq<(Seq<char>, ContentView)>,
    i: nat,
) -> Result<Seq<(Seq<char>, Seq<char>)>, GeoffreyErrorView>
    decreases files.len() - i,
{
    if i >= files.len() {
        Ok(Seq::empty())
    } else {
        match synced_text(files[i as int].segments, content) {
            Err(e) => Err(e),
            Ok(text) => match synced_files(files, content, i + 1) {
                Err(e) => Err(e),
                Ok(rest) => Ok(seq![(files[i as int].path, text)] + rest),
            },
        }
    }
}

/// Texts with their paths, each by its view.
pub open spec fn text_views(texts: Seq<(String, String)>) -> Seq<(Seq<char>, Seq<char>)> {
    texts.map_values(|t: (String, String)| (t.0@, t.1@))
}

/// What [`Documents::sync`] returns, by its views.
pub open spec fn sync_result_view(r: Result<Vec<(String, String)>, GeoffreyError>) -> Result<
    Seq<(Seq<char>, Seq<char>)>,
    GeoffreyErrorView,
> {
    match r {
        Ok(texts) => Ok(text_views(texts@)),
        Err(e) => Err(e@),
    }
}

/// What [`Documents::parse_single_md_file`] returns, by its views.
pub open spec fn md_file_result_view(r: Result<MdFile, GeoffreyError>) -> Result<
    MdFileView,
    GeoffreyErrorView,
> {
    match r {
        Ok(file) => Ok(file@),
        Err(e) => Err(e@),
    }
}

impl Documents {
    /// The documentation files at `md_paths`, found at or below `doc_path`
    /// and not parsed yet, with no content file. Without a documentation
    /// file there is nothing to run.
    pub fn new(doc_path: &str, md_paths: Vec<String>) -> (r: Result<Documents, GeoffreyError>)
        ensures
            md_paths.len() == 0 ==> (r matches Err(e) && e@
                == GeoffreyErrorView::NoMarkdownFilesInPath(doc_path@)),
            md_paths.len() > 0 ==> (r matches Ok(documents) && documents@ == (DocumentsView {
                md_files: unparsed(md_paths.deep_view()),
                content: Seq::empty(),
            })),
    {
        if md_paths.len() == 0 {
            return Err(GeoffreyError::NoMarkdownFilesInPath(owned(doc_path)));
        }
        let mut md_files: Vec<MdFile> = Vec::new();
        let mut i: usize = 0;
        while i < md_paths.len()
            invariant
                i <= md_paths.len(),
                md_files.len() == i,
                forall|j: int|
                    0 <= j < i ==> (#[trigger] md_files@[j])@ == (MdFileView {
                        path: md_paths@[j]@,
                        segments: Seq::empty(),
                    }),
            decreases md_paths.len() - i,
        {
            md_files.push(MdFile::new(md_paths[i].clone()));
            i += 1;
        }
        let documents = Documents { md_files, content: Vec::new() };
        proof {
            assert(md_file_views(documents.md_files@) =~= unparsed(md_paths.deep_view()));
            assert(content_views(documents.content@) =~= Seq::empty());
        }
        Ok(documents)
    }

    /// Accepts `path` as the path of a documentation file if `extension`,
    /// the extension of its file name, is that of a markdown file.
    pub fn is_md_file(path: String, extension: Option<&str>) -> (r: Result<String, GeoffreyError>)
        ensures
            match extension {
                Some(e) if is_md_extension(e@) => r == Ok::<String, GeoffreyError>(path),
                _ => r matches Err(e) && e@ == GeoffreyErrorView::NotAMarkdownFile(path@),
            },
    {
        match extension {
            Some(e) => {
                let v = chars_of(e);
                if v.len() == 2 && (v[0] == 'm' || v[0] == 'M') && (v[1] == 'd' || v[1] == 'D') {
                    return Ok(path);
                }
                Err(GeoffreyError::NotAMarkdownFile(path))
            },
            None => Err(GeoffreyError::NotAMarkdownFile(path)),
        }
    }

    /// Parses the documentation file at `path`, whose text is `text`, into
    /// its segments. The segments keep the lines as they stand in the text,
    /// with their line endings.
    pub fn parse_single_md_file(path: &str, text: &str) -> (r: Result<MdFile, GeoffreyError>)
        ensures
            md_file_result_view(r) == md_file_of(path@, text@),
    {
        let pieces = split_lines_inclusive(text);
        let mut lines = LineCursor::new(text);
        let mut segments: Vec<MdSegment> = Vec::new();
        let mut segment = MdSegment { text: String::new(), snippet_id: None };
        assert(segment_views(segments@).push(segment@) =~= seq![
            MdSegmentView { text: Seq::empty(), snippet_id: None },
        ]);
        loop
            invariant
                pieces.deep_view() == lines_inclusive(text@),
                lines.lines() == lines_of(text@),
                segments_of(text@) == segments_from(
                    pieces.deep_view(),
                    lines.lines(),
                    lines.position(),
                    segment_views(segments@).push(segment@),
                ),
            ensures
                segments_of(text@) == Ok::<Seq<MdSegmentView>, (Seq<char>, MdParseErrorView)>(
                    segment_views(segments@).push(segment@),
                ),
            decreases lines.lines().len() - lines.position(),
        {
            let ghost before = segment_views(segments@);
            let ghost last = segment@;
            assert(before.push(last).drop_last() =~= before);
            let (line_index, line) = match lines.next() {
                Some(next) => next,
                None => {
                    break ;
                },
            };
            proof {
                lemma_section_lines(line_index as nat, line@, lines.lines(), line_index as nat + 1);
                lemma_section_next(line_index as nat, line@, lines.lines(), line_index as nat + 1);
            }
            match parse_section(line_index, line, &mut lines) {
                Err(e) => {
                    return Err(md_error(path, line, e));
                },
                Ok(Section::TextLine(_)) => {
                    assert(pieces.deep_view()[line_index as int] == pieces@[line_index as int]@);
                    segment.text.append(pieces[line_index]);
                },
                Ok(Section::GeoffreyCodeBlock { tag, .. }) => {
                    let closing = lines.lines_read() - 1;
                    proof {
                        assert(pieces.deep_view()[line_index as int] == pieces@[line_index as int]@);
                        assert(pieces.deep_view()[line_index + 1] == pieces@[line_index + 1]@);
                        assert(pieces.deep_view()[closing as int] == pieces@[closing as int]@);
                    }
                    segment.text.append(pieces[line_index]);
                    segment.text.append(pieces[line_index + 1]);
                    segment.snippet_id = Some(
                        MdSnippetId { path: owned(tag.file_name), tag: owned_snippet(&tag.snippet) },
                    );
                    let ghost full = segment@;
                    segments.push(segment);
                    assert(segment_views(segments@) =~= before.push(full));
                    assert(last.text + (pieces@[line_index as int]@ + pieces@[line_index + 1]@)
                        =~= last.text + pieces@[line_index as int]@ + pieces@[line_index + 1]@);
                    segment = MdSegment { text: owned(pieces[closing]), snippet_id: None };
                },
            }
        }
        let ghost before = segment_views(segments@);
        let ghost last = segment@;
        segments.push(segment);
        assert(segment_views(segments@) =~= before.push(last));
        Ok(MdFile { path: owned(path), segments })
    }

    /// Puts the segments of a documentation file together again, with the
    /// text of the snippet it asks for behind every segment that asks for
    /// one.
    pub fn sync_segments(segments: &Vec<MdSegment>, content: &Vec<(String, ContentFile)>) -> (r:
        Result<String, GeoffreyError>)
        ensures
            text_result_view(r) == synced_text(segment_views(segments@), content_views(content@)),
    {
        let ghost views = segment_views(segments@);
        let ghost files = content_views(content@);
        let mut synced_file = String::new();
        let mut i: usize = 0;
        assert(after(synced_file@, synced_from(views, files, 0)) == synced_from(views, files, 0))
            by {
            match synced_from(views, files, 0) {
                Ok(text) => {
                    assert(synced_file@ + text =~= text);
                },
                Err(_) => {},
            }
        }
        while i < segments.len()
            invariant
                i <= segments.len(),
                views == segment_views(segments@),
                files == content_views(content@),
                synced_text(views, files) == after(
                    synced_file@,
                    synced_from(views, files, i as nat),
                ),
            decreases segments.len() - i,
        {
            let ghost before = synced_file@;
            let segment = &segments[i];
            assert(views[i as int] == segment@);
            synced_file.append(segment.text.as_str());
            match &segment.snippet_id {
                None => {},
                Some(snippet_id) => {
                    let content_cache = match find_content(content, snippet_id.path.as_str()) {
                        Some(file) => file,
                        None => {
                            return Err(
                                GeoffreyError::ContentFileNotFound(snippet_id.path.clone()),
                            );
                        },
                    };
                    match content_cache.snippet(snippet_id.path.as_str(), &snippet_id.tag) {
                        Ok(text) => {
                            synced_file.append(text.as_str());
                        },
                        Err(e) => {
                            return Err(e);
                        },
                    }
                },
            }
            proof {
                let piece = synced_segment(views[i as int], files)->Ok_0;
                assert(synced_file@ =~= before + piece);
                match synced_from(views, files, i as nat + 1) {
                    Ok(rest) => {
                        assert((before + piece) + rest =~= before + (piece + rest));
                    },
                    Err(_) => {},
                }
            }
            i += 1;
        }
        proof {
            assert(synced_file@ + Seq::<char>::empty() =~= synced_file@);
        }
        Ok(synced_file)
    }

    /// Parses the documentation files: `md_texts` holds the text of every
    /// file, in the order of the paths that the run was made with. Returns
    /// the paths of the content files that the documentation quotes, each
    /// once, in the order in which they are first quoted.
    ///
    /// The first file that does not parse ends the run with its error, and
    /// the documents stay as they were.
    pub fn parse(&mut self, md_texts: &Vec<String>) -> (r: Result<Vec<String>, GeoffreyError>)
        requires
            md_texts.len() == old(self)@.md_files.len(),
        ensures
            final(self)@.content == old(self)@.content,
            final(self)@.md_files.len() == old(self)@.md_files.len(),
            r is Ok ==> forall|i: int|
                0 <= i < md_texts.len() ==> md_file_of(
                    old(self)@.md_files[i].path,
                    md_texts.deep_view()[i],
                ) == Ok::<MdFileView, GeoffreyErrorView>(#[trigger] final(self)@.md_files[i]),
            r matches Ok(paths) ==> quoted_paths(final(self)@.md_files) == paths.deep_view(),
            r matches Err(e) ==> final(self)@ == old(self)@ && exists|i: int|
                0 <= i < md_texts.len() && (#[trigger] md_file_of(
                    old(self)@.md_files[i].path,
                    md_texts.deep_view()[i],
                )) == Err::<MdFileView, GeoffreyErrorView>(e@) && forall|j: int|
                    0 <= j < i ==> (#[trigger] md_file_of(
                        old(self)@.md_files[j].path,
                        md_texts.deep_view()[j],
                    )) is Ok,
    {
        let mut parsed: Vec<MdFile> = Vec::new();
        let mut i: usize = 0;
        while i < md_texts.len()
            invariant
                i <= md_texts.len(),
                md_texts.len() == self.md_files.len(),
                *self == *old(self),
                parsed.len() == i,
                forall|j: int|
                    0 <= j < i ==> md_file_of(self@.md_files[j].path, md_texts.deep_view()[j])
                        == Ok::<MdFileView, GeoffreyErrorView>((#[trigger] parsed@[j])@),
            decreases md_texts.len() - i,
        {
            assert(self@.md_files[i as int] == self.md_files@[i as int]@);
            assert(md_texts.deep_view()[i as int] == md_texts@[i as int]@);
            match Self::parse_single_md_file(
                self.md_files[i].path.as_str(),
                md_texts[i].as_str(),
            ) {
                Ok(file) => {
                    parsed.push(file);
                },
                Err(e) => {
                    proof {
                        let failed = i as int;
                        assert(md_file_of(
                            old(self)@.md_files[failed].path,
                            md_texts.deep_view()[failed],
                        ) == Err::<MdFileView, GeoffreyErrorView>(e@));
                        assert forall|j: int| 0 <= j < failed implies (#[trigger] md_file_of(
                            old(self)@.md_files[j].path,
                            md_texts.deep_view()[j],
                        )) is Ok by {
                            let done = parsed@[j];
                        }
                    }
                    return Err(e);
                },
            }
            i += 1;
        }
        let paths = quoted(&parsed);
        self.md_files = parsed;
        proof {
            assert forall|i: int| 0 <= i < md_texts.len() implies md_file_of(
                old(self)@.md_files[i].path,
                md_texts.deep_view()[i],
            ) == Ok::<MdFileView, GeoffreyErrorView>(#[trigger] self@.md_files[i]) by {
                assert(self@.md_files[i] == self.md_files@[i]@);
            }
        }
        Ok(paths)
    }

    /// Holds `content_file`, the content file at `path`, for
    /// [`Documents::sync`], in front of the content files held already: of
    /// two content files with one path, the one added last counts.
    pub fn add_content_file(&mut self, path: &str, content_file: ContentFile)
        ensures
            final(self)@.md_files == old(self)@.md_files,
            final(self)@.content == seq![(path@, content_file@)] + old(self)@.content,
    {
        let ghost before = content_views(self.content@);
        let ghost added = (path@, content_file@);
        self.content.insert(0, (owned(path), content_file));
        assert(content_views(self.content@) =~= seq![added] + before);
    }

    /// The documentation files of the run, with their paths and, once they
    /// are parsed, their segments.
    pub fn md_files(&self) -> (files: &Vec<MdFile>)
        ensures
            md_file_views(files@) == self@.md_files,
    {
        &self.md_files
    }

    /// Brings every documentation file up to date: returns, for every file
    /// in its order, its path and its new text. The first segment that
    /// cannot be brought up to date ends the run with its error.
    pub fn sync(self) -> (r: Result<Vec<(String, String)>, GeoffreyError>)
        ensures
            sync_result_view(r) == synced_files(self@.md_files, self@.content, 0),
    {
        let ghost files = md_file_views(self.md_files@);
        let ghost content = content_views(self.content@);
        let mut texts: Vec<(String, String)> = Vec::new();
        let mut i: usize = 0;
        assert(texts_after(text_views(texts@), synced_files(files, content, 0)) == synced_files(
            files,
            content,
            0,
        )) by {
            match synced_files(files, content, 0) {
                Ok(rest) => {
                    assert(text_views(texts@) + rest =~= rest);
                },
                Err(_) => {},
            }
        }
        while i < self.md_files.len()
            invariant
                i <= self.md_files.len(),
                files == md_file_views(self.md_files@),
                content == content_views(self.content@),
                synced_files(files, content, 0) == texts_after(
                    text_views(texts@),
                    synced_files(files, content, i as nat),
                ),
            decreases self.md_files.len() - i,
        {
            let ghost before = text_views(texts@);
            let md_file = &self.md_files[i];
            assert(files[i as int] == md_file@);
            match Self::sync_segments(&md_file.segments, &self.content) {
                Ok(text) => {
                    let ghost added = (md_file.path@, text@);
                    texts.push((md_file.path.clone(), text));
                    proof {
                        assert(text_views(texts@) =~= before.push(added));
                        match synced_files(files, content, i as nat + 1) {
                            Ok(rest) => {
                                assert(before + (seq![added] + rest) =~= before.push(added) + rest);
                            },
                            Err(_) => {},
                        }
                    }
                },
                Err(e) => {
                    return Err(e);
                },
            }
            i += 1;
        }
        proof {
            assert(text_views(texts@) + Seq::<(Seq<char>, Seq<char>)>::empty() =~= text_views(
                texts@,
            ));
        }
        Ok(texts)
    }
}

/// The texts `done` in front of the texts in `r`.
pub open spec fn texts_after(
    done: Seq<(Seq<char>, Seq<char>)>,
    r: Result<Seq<(Seq<char>, Seq<char>)>, GeoffreyErrorView>,
) -> Result<Seq<(Seq<char>, Seq<char>)>, GeoffreyErrorView> {
    match r {
        Ok(rest) => Ok(done + rest),
        Err(e) => Err(e),
    }
}

/// The paths of the content files that the segments from the one with the
/// index `i` on ask for, each once and none that is in `paths` already,
/// behind `paths`.
pub open spec fn quoted_from(segments: Seq<MdSegmentView>, i: nat, paths: Seq<Seq<char>>) -> Seq<
    Seq<char>,
>
    decreases segments.len() - i,
{
    if i >= segments.len() {
        paths
    } else {
        match segments[i as int].snippet_id {
            Some(id) if !paths.contains(id.path) => quoted_from(segments, i + 1, paths.push(id.path)),
            _ => quoted_from(segments, i + 1, paths),
        }
    }
}

/// The paths of the content files that the files from the one with the
/// index `i` on quote, each once and none that is in `paths` already, behind
/// `paths`.
pub open spec fn quoted_paths_from(files: Seq<MdFileView>, i: nat, paths: Seq<Seq<char>>) -> Seq<
    Seq<char>,
>
    decreases files.len() - i,
{
    if i >= files.len() {
        paths
    } else {
        quoted_paths_from(files, i + 1, quoted_from(files[i as int].segments, 0, paths))
    }
}

/// The paths of the content files that `files` quote, each once, in the
/// order in which they are first quoted.
pub open spec fn quoted_paths(files: Seq<MdFileView>) -> Seq<Seq<char>> {
    quoted_paths_from(files, 0, Seq::empty())
}

/// The paths of the content files that `files` quote.
pub fn quoted(files: &Vec<MdFile>) -> (paths: Vec<String>)
    ensures
        paths.deep_view() == quoted_paths(md_file_views(files@)),
{
    let mut paths: Vec<String> = Vec::new();
    let mut i: usize = 0;
    assert(paths.deep_view() =~= Seq::empty());
    while i < files.len()
        invariant
            i <= files.len(),
            quoted_paths(md_file_views(files@)) == quoted_paths_from(
                md_file_views(files@),
                i as nat,
                paths.deep_view(),
            ),
        decreases files.len() - i,
    {
        let file = &files[i];
        assert(md_file_views(files@)[i as int] == file@);
        let ghost segments = segment_views(file.segments@);
        let ghost goal = quoted_from(segments, 0, paths.deep_view());
        let mut k: usize = 0;
        while k < file.segments.len()
            invariant
                k <= file.segments.len(),
                segments == segment_views(file.segments@),
                goal == quoted_from(segments, k as nat, paths.deep_view()),
            decreases file.segments.len() - k,
        {
            assert(segments[k as int] == file.segments@[k as int]@);
            match &file.segments[k].snippet_id {
                Some(id) => {
                    if !crate::content::contains_name(&paths, id.path.as_str()) {
                        let ghost before = paths.deep_view();
                        paths.push(id.path.clone());
                        assert(paths.deep_view() =~= before.push(id.path@));
                    }
                },
                None => {},
            }
            k += 1;
        }
        i += 1;
    }
    paths
}

} // verus!
