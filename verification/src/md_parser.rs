//! The parser of markdown documentation.
//!
//! A documentation file is a sequence of lines. A line that holds a tag, an
//! HTML comment of the form `<!-- [geoffrey] [path] [snippet] -->`, starts a
//! section that also takes in the fenced code block which must follow it;
//! every other line is a section of its own.

use crate::lines::LineCursor;
use crate::md_grammar::{
    attribute, code_block, code_block_begin, code_block_end, geoffrey_code_block as section_of_tag,
    lemma_attribute_shrinks, section, sections_from, sections_of, snippet_elided_block,
    snippet_full_block, snippet_full_file, snippet_list, sub_ids as sub_ids_from, tag_data,
    tag_envelope, GeoffreyCodeBlockParseErrorView, GeoffreyTagParseErrorView, GeoffreyTagView,
    MdParseErrorView, ParseContextView, SectionView, SnippetView,
};
use crate::text::{
    lemma_run_len, owned, run_len, split_at_first, split_run, starts_with, strip_char,
    strip_prefix, trim, trim_of, CharClass,
};
use vstd::prelude::*;
use vstd::string::StrSliceExecFns;

verus! {

/// A documentation file with its sections.
#[derive(Debug, PartialEq, Eq)]
pub struct Document<'a> {
    pub content: String,
    pub has_geoffrey_code_blocks: bool,
    pub sections: Vec<Section<'a>>,
}

/// One section of a documentation file.
#[derive(Debug, PartialEq, Eq)]
pub enum Section<'a> {
    /// A line of ordinary text, without its line ending.
    TextLine(&'a str),
    /// A tag line and the code block after it.
    GeoffreyCodeBlock {
        /// The tag line as it stands in the file.
        tag_line: &'a str,
        /// The number of blanks in front of the tag.
        indentation: usize,
        /// What the tag asks for.
        tag: GeoffreyTag<'a>,
        /// The opening fence with its language word.
        begin: &'a str,
        /// The closing fence.
        end: &'a str,
    },
}

/// What a tag asks for: a snippet of a content file.
#[derive(Debug, PartialEq, Eq)]
pub struct GeoffreyTag<'a> {
    pub file_name: &'a str,
    pub snippet: Snippet<'a>,
    pub options: Vec<GeoffreyOption>,
}

/// The part of a content file that a tag asks for.
#[derive(Debug, PartialEq, Eq)]
pub enum Snippet<'a> {
    /// The whole file.
    FullFile,
    /// The snippet with the given tag.
    FullBlock { id: &'a str },
    /// The snippet with the tag `main_id`, in which every nested snippet is
    /// collapsed but those that hold one of `sub_ids`.
    ElidedBlock { main_id: &'a str, sub_ids: Vec<&'a str> },
}

/// An option of a tag. None is defined yet.
#[derive(Debug, PartialEq, Eq)]
pub struct GeoffreyOption {}

/// The line that an error of a later line refers back to.
#[derive(Debug, Default, Clone, Copy)]
pub struct ParseContext<'a> {
    /// The number of the line, counted from one.
    pub line_number: usize,
    /// The line.
    pub text: &'a str,
}

/// Why a bracketed attribute was not accepted.
#[derive(Debug, PartialEq, Eq)]
pub enum GeoffreyTagAttributeParseError {
    /// The text does not start with an opening bracket.
    NotAnAttribute,
    /// The bracket holds nothing or is never closed.
    UnmatchedBracket,
    /// The attribute holds nothing but white space, or it starts with a
    /// second opening bracket.
    Empty,
    /// The attribute holds an opening bracket.
    InvalidCharacter,
}

/// Why the attributes of a tag were not accepted.
#[derive(Debug, PartialEq, Eq)]
pub enum GeoffreyTagParseError {
    InappropriateTagRemainder { remainder: String },
    InvalidFileName { tag_data: String, error: GeoffreyTagAttributeParseError },
    InappropriateSnippetRemainder,
    NotEllidedBlockSnippet,
    NotFullBlockSnippet,
    InvalidFullBlockSnippet,
    InvalidFullFileSnippet,
    InvalidSnippetMainId { error: GeoffreyTagAttributeParseError },
    InvalidSnippetSubIds { error: GeoffreyTagAttributeParseError },
    UnmatchedNestedBrackets,
}

/// Why the code block after a tag was not accepted.
#[derive(Debug, PartialEq, Eq)]
pub enum GeoffreyCodeBlockParseError {
    Unexpected,
    NotCodeBlockBegin,
    InappropriateCodeBlockRemainder { remainder: String },
    InvalidLanguageSpecifier { remainder: String },
    InvalidBackticksCount,
    InvalidBackticksEnd,
    UnmatchedBackticks,
}

/// Why a documentation file was not accepted.
#[derive(Debug, PartialEq, Eq)]
pub enum MdParseError {
    /// The line holds no tag. This is no failure of the file: such a line is
    /// ordinary text.
    NotAGeoffreyTag,
    GeoffreyTagError { line_number: usize, text: String, error: GeoffreyTagParseError },
    GeoffreyTagWithoutCodeBlock { line_number: usize, text: String },
    GeoffreyCodeBlockError { line_number: usize, text: String, error: GeoffreyCodeBlockParseError },
}

impl<'a> View for Snippet<'a> {
    type V = SnippetView;

    open spec fn view(&self) -> SnippetView {
        match self {
            Snippet::FullFile => SnippetView::FullFile,
            Snippet::FullBlock { id } => SnippetView::FullBlock { id: id@ },
            Snippet::ElidedBlock { main_id, sub_ids } => SnippetView::ElidedBlock {
                main_id: main_id@,
                sub_ids: sub_ids.deep_view(),
            },
        }
    }
}

impl<'a> View for GeoffreyTag<'a> {
    type V = GeoffreyTagView;

    open spec fn view(&self) -> GeoffreyTagView {
        GeoffreyTagView {
            file_name: self.file_name@,
            snippet: self.snippet@,
            options: self.options@.len(),
        }
    }
}

impl<'a> View for Section<'a> {
    type V = SectionView;

    open spec fn view(&self) -> SectionView {
        match self {
            Section::TextLine(line) => SectionView::TextLine(line@),
            Section::GeoffreyCodeBlock {
                tag_line,
                indentation,
                tag,
                begin,
                end,
            } => SectionView::GeoffreyCodeBlock {
                tag_line: tag_line@,
                indentation: *indentation as nat,
                tag: tag@,
                begin: begin@,
                end: end@,
            },
        }
    }
}

impl<'a> View for ParseContext<'a> {
    type V = ParseContextView;

    open spec fn view(&self) -> ParseContextView {
        ParseContextView { line_number: self.line_number as nat, text: self.text@ }
    }
}

impl View for GeoffreyTagParseError {
    type V = GeoffreyTagParseErrorView;

    open spec fn view(&self) -> GeoffreyTagParseErrorView {
        match self {
            GeoffreyTagParseError::InappropriateTagRemainder {
                remainder,
            } => GeoffreyTagParseErrorView::InappropriateTagRemainder { remainder: remainder@ },
            GeoffreyTagParseError::InvalidFileName {
                tag_data,
                error,
            } => GeoffreyTagParseErrorView::InvalidFileName { tag_data: tag_data@, error: *error },
            GeoffreyTagParseError::InappropriateSnippetRemainder => GeoffreyTagParseErrorView::InappropriateSnippetRemainder,
            GeoffreyTagParseError::NotEllidedBlockSnippet => GeoffreyTagParseErrorView::NotEllidedBlockSnippet,
            GeoffreyTagParseError::NotFullBlockSnippet => GeoffreyTagParseErrorView::NotFullBlockSnippet,
            GeoffreyTagParseError::InvalidFullBlockSnippet => GeoffreyTagParseErrorView::InvalidFullBlockSnippet,
            GeoffreyTagParseError::InvalidFullFileSnippet => GeoffreyTagParseErrorView::InvalidFullFileSnippet,
            GeoffreyTagParseError::InvalidSnippetMainId {
                error,
            } => GeoffreyTagParseErrorView::InvalidSnippetMainId { error: *error },
            GeoffreyTagParseError::InvalidSnippetSubIds {
                error,
            } => GeoffreyTagParseErrorView::InvalidSnippetSubIds { error: *error },
            GeoffreyTagParseError::UnmatchedNestedBrackets => GeoffreyTagParseErrorView::UnmatchedNestedBrackets,
        }
    }
}

impl View for GeoffreyCodeBlockParseError {
    type V = GeoffreyCodeBlockParseErrorView;

    open spec fn view(&self) -> GeoffreyCodeBlockParseErrorView {
        match self {
            GeoffreyCodeBlockParseError::Unexpected => GeoffreyCodeBlockParseErrorView::Unexpected,
            GeoffreyCodeBlockParseError::NotCodeBlockBegin => GeoffreyCodeBlockParseErrorView::NotCodeBlockBegin,
            GeoffreyCodeBlockParseError::InappropriateCodeBlockRemainder {
                remainder,
            } => GeoffreyCodeBlockParseErrorView::InappropriateCodeBlockRemainder {
                remainder: remainder@,
            },
            GeoffreyCodeBlockParseError::InvalidLanguageSpecifier {
                remainder,
            } => GeoffreyCodeBlockParseErrorView::InvalidLanguageSpecifier { remainder: remainder@ },
            GeoffreyCodeBlockParseError::InvalidBackticksCount => GeoffreyCodeBlockParseErrorView::InvalidBackticksCount,
            GeoffreyCodeBlockParseError::InvalidBackticksEnd => GeoffreyCodeBlockParseErrorView::InvalidBackticksEnd,
            GeoffreyCodeBlockParseError::UnmatchedBackticks => GeoffreyCodeBlockParseErrorView::UnmatchedBackticks,
        }
    }
}

impl View for MdParseError {
    type V = MdParseErrorView;

    open spec fn view(&self) -> MdParseErrorView {
        match self {
            MdParseError::NotAGeoffreyTag => MdParseErrorView::NotAGeoffreyTag,
            MdParseError::GeoffreyTagError {
                line_number,
                text,
                error,
            } => MdParseErrorView::GeoffreyTagError {
                line_number: *line_number as nat,
                text: text@,
                error: error@,
            },
            MdParseError::GeoffreyTagWithoutCodeBlock {
                line_number,
                text,
            } => MdParseErrorView::GeoffreyTagWithoutCodeBlock {
                line_number: *line_number as nat,
                text: text@,
            },
            MdParseError::GeoffreyCodeBlockError {
                line_number,
                text,
                error,
            } => MdParseErrorView::GeoffreyCodeBlockError {
                line_number: *line_number as nat,
                text: text@,
                error: error@,
            },
        }
    }
}

/// The sections in `sections`, each by its view.
pub open spec fn section_views(sections: Seq<Section>) -> Seq<SectionView> {
    sections.map_values(|s: Section| s@)
}

/// What [`geoffrey_attribute`] returns, by its views.
pub open spec fn attribute_view(
    r: Result<(&str, &str), GeoffreyTagAttributeParseError>,
) -> Result<(Seq<char>, Seq<char>), GeoffreyTagAttributeParseError> {
    match r {
        Ok((rest, attribute)) => Ok((rest@, attribute@)),
        Err(e) => Err(e),
    }
}

/// What the parsers of the snippet of a tag return, by its views.
pub open spec fn snippet_result_view(r: Result<(&str, Snippet), GeoffreyTagParseError>) -> Result<
    (Seq<char>, SnippetView),
    GeoffreyTagParseErrorView,
> {
    match r {
        Ok((rest, snippet)) => Ok((rest@, snippet@)),
        Err(e) => Err(e@),
    }
}

/// What [`geoffrey_tag_envelope`] returns, by its views.
pub open spec fn envelope_view(r: Result<(&str, usize), MdParseError>) -> Result<
    (Seq<char>, nat),
    MdParseErrorView,
> {
    match r {
        Ok((attributes, indentation)) => Ok((attributes@, indentation as nat)),
        Err(e) => Err(e@),
    }
}

/// What [`md_code_block_begin`] returns, by its views.
pub open spec fn begin_view(r: Result<(&str, &str), GeoffreyCodeBlockParseError>) -> Result<
    (Seq<char>, Seq<char>),
    GeoffreyCodeBlockParseErrorView,
> {
    match r {
        Ok((fence, backticks)) => Ok((fence@, backticks@)),
        Err(e) => Err(e@),
    }
}

/// What [`md_code_block_end`] returns, by its views.
pub open spec fn end_view(r: Result<&str, MdParseError>) -> Result<Seq<char>, MdParseErrorView> {
    match r {
        Ok(fence) => Ok(fence@),
        Err(e) => Err(e@),
    }
}

/// What [`md_code_block`] returns, by its views.
pub open spec fn block_view(r: Result<(&str, &str), MdParseError>) -> Result<
    (Seq<char>, Seq<char>),
    MdParseErrorView,
> {
    match r {
        Ok((begin, end)) => Ok((begin@, end@)),
        Err(e) => Err(e@),
    }
}

/// What the parsers of a section return, by its views.
pub open spec fn section_result_view(r: Result<Section, MdParseError>) -> Result<
    SectionView,
    MdParseErrorView,
> {
    match r {
        Ok(section) => Ok(section@),
        Err(e) => Err(e@),
    }
}

/// What [`parse`] returns, by its views.
pub open spec fn sections_result_view(r: Result<Vec<Section>, MdParseError>) -> Result<
    Seq<SectionView>,
    MdParseErrorView,
> {
    match r {
        Ok(sections) => Ok(section_views(sections@)),
        Err(e) => Err(e@),
    }
}

/// Parses a documentation file into its sections.
///
/// Every line that holds no tag is a section of its own. A tag line takes in
/// the lines of the code block that follows it. The first line that is
/// refused ends the parse with its error.
pub fn parse<'a>(file_content: &'a str) -> (r: Result<Vec<Section<'a>>, MdParseError>)
    ensures
        sections_result_view(r) == sections_of(file_content@),
{
    let mut sections: Vec<Section<'a>> = Vec::new();
    let mut remaining_lines = LineCursor::new(file_content);
    assert(section_views(sections@) =~= Seq::empty());
    loop
        invariant
            sections_of(file_content@) == sections_from(
                remaining_lines.lines(),
                remaining_lines.position(),
                section_views(sections@),
            ),
        decreases remaining_lines.lines().len() - remaining_lines.position(),
    {
        let ghost before = section_views(sections@);
        let ghost pos = remaining_lines.position();
        match remaining_lines.next() {
            None => {
                return Ok(sections);
            },
            Some((line_index, line)) => {
                proof {
                    crate::md_grammar::lemma_section_next(
                        pos,
                        line@,
                        remaining_lines.lines(),
                        pos + 1,
                    );
                }
                match parse_section(line_index, line, &mut remaining_lines) {
                    Err(e) => {
                        return Err(e);
                    },
                    Ok(section) => {
                        sections.push(section);
                        assert(section_views(sections@) =~= before.push(section@));
                    },
                }
            },
        }
    }
}

/// Parses the section that starts with `line`, the line with the index
/// `line_index` that was read last from `remaining_lines`.
///
/// A line that holds no tag is a section of text, and no further line is
/// read. A tag line takes in its code block.
pub fn parse_section<'a>(
    line_index: usize,
    line: &'a str,
    remaining_lines: &mut LineCursor<'a>,
) -> (r: Result<Section<'a>, MdParseError>)
    requires
        line_index < usize::MAX,
    ensures
        final(remaining_lines).lines() == old(remaining_lines).lines(),
        section_result_view(r) == section(
            line_index as nat,
            line@,
            old(remaining_lines).lines(),
            old(remaining_lines).position(),
        ).result,
        final(remaining_lines).position() == section(
            line_index as nat,
            line@,
            old(remaining_lines).lines(),
            old(remaining_lines).position(),
        ).next,
{
    match geoffrey_tag_envelope(line_index, line) {
        Ok((attributes, indentation)) => geoffrey_code_block(
            line,
            indentation,
            attributes,
            remaining_lines,
            ParseContext { line_number: line_index + 1, text: line },
        ),
        Err(MdParseError::NotAGeoffreyTag) => Ok(Section::TextLine(line)),
        Err(e) => Err(e),
    }
}

/// Reads the line that opens a code block: the fence with its language
/// word, and the backticks of the fence.
pub fn md_code_block_begin<'a>(i: &'a str) -> (r: Result<
    (&'a str, &'a str),
    GeoffreyCodeBlockParseError,
>)
    ensures
        begin_view(r) == code_block_begin(i@),
{
    let i = trim_of(i);
    proof {
        lemma_run_len(i@, CharClass::Except(' ', '\t'));
    }
    let (code_block_fence, i) = split_run(i, CharClass::Except(' ', '\t'));
    if code_block_fence.is_empty() {
        return Err(GeoffreyCodeBlockParseError::NotCodeBlockBegin);
    }
    let i = trim_of(i);
    if !i.is_empty() {
        return Err(
            GeoffreyCodeBlockParseError::InappropriateCodeBlockRemainder { remainder: owned(i) },
        );
    }
    proof {
        lemma_run_len(code_block_fence@, CharClass::Only('`'));
    }
    let (backticks, lang) = split_run(code_block_fence, CharClass::Only('`'));
    if backticks.unicode_len() < 3 {
        return Err(GeoffreyCodeBlockParseError::InvalidBackticksCount);
    }
    let (_, rem) = split_run(lang, CharClass::Alphanumeric);
    let rem = trim_of(rem);
    if !rem.is_empty() {
        return Err(
            GeoffreyCodeBlockParseError::InvalidLanguageSpecifier { remainder: owned(rem) },
        );
    }
    Ok((code_block_fence, backticks))
}

/// Reads on to the line that closes a code block and returns its fence.
///
/// A line that does not start with `backticks` is passed over. The first
/// one that does must hold nothing else. Where no line does, the error names
/// the line that opened the block.
pub fn md_code_block_end<'a>(
    lines: &mut LineCursor<'a>,
    backticks: &'a str,
    code_block_begin_context: ParseContext<'a>,
) -> (r: Result<&'a str, MdParseError>)
    ensures
        final(lines).lines() == old(lines).lines(),
        end_view(r) == code_block_end(
            old(lines).lines(),
            old(lines).position(),
            backticks@,
            code_block_begin_context@,
        ).result,
        final(lines).position() == code_block_end(
            old(lines).lines(),
            old(lines).position(),
            backticks@,
            code_block_begin_context@,
        ).next,
{
    loop
        invariant
            lines.lines() == old(lines).lines(),
            code_block_end(
                old(lines).lines(),
                old(lines).position(),
                backticks@,
                code_block_begin_context@,
            ) == code_block_end(
                lines.lines(),
                lines.position(),
                backticks@,
                code_block_begin_context@,
            ),
        decreases lines.lines().len() - lines.position(),
    {
        match lines.next() {
            None => {
                return Err(
                    MdParseError::GeoffreyCodeBlockError {
                        line_number: code_block_begin_context.line_number,
                        text: owned(code_block_begin_context.text),
                        error: GeoffreyCodeBlockParseError::UnmatchedBackticks,
                    },
                );
            },
            Some((n, line)) => {
                let i = trim_of(line);
                match strip_prefix(i, backticks) {
                    Some(rest) => {
                        let rest = trim_of(rest);
                        if !rest.is_empty() {
                            return Err(
                                MdParseError::GeoffreyCodeBlockError {
                                    line_number: n + 1,
                                    text: owned(rest),
                                    error: GeoffreyCodeBlockParseError::InvalidBackticksEnd,
                                },
                            );
                        }
                        return Ok(backticks);
                    },
                    None => {},
                }
            },
        }
    }
}

/// Reads the code block that must start with the next line: its opening
/// fence and its closing fence. `tag_context` is the tag line in front.
///
/// Where no line follows, or the next line opens no code block, the tag
/// is without its code block: the error holds the number and the text of
/// the tag line, whatever keeps the next line from opening a code block.
pub fn md_code_block<'a>(lines: &mut LineCursor<'a>, tag_context: ParseContext<'a>) -> (r: Result<
    (&'a str, &'a str),
    MdParseError,
>)
    ensures
        final(lines).lines() == old(lines).lines(),
        block_view(r) == code_block(
            old(lines).lines(),
            old(lines).position(),
            tag_context@,
        ).result,
        final(lines).position() == code_block(
            old(lines).lines(),
            old(lines).position(),
            tag_context@,
        ).next,
{
    let (line_index, line) = match lines.next() {
        Some(next) => next,
        None => {
            return Err(
                MdParseError::GeoffreyTagWithoutCodeBlock {
                    line_number: tag_context.line_number,
                    text: owned(tag_context.text),
                },
            );
        },
    };
    let (begin, backticks) = match md_code_block_begin(line) {
        Ok(fence) => fence,
        Err(_) => {
            return Err(
                MdParseError::GeoffreyTagWithoutCodeBlock {
                    line_number: tag_context.line_number,
                    text: owned(tag_context.text),
                },
            );
        },
    };
    match md_code_block_end(
        lines,
        backticks,
        ParseContext { line_number: line_index + 1, text: line },
    ) {
        Ok(end) => Ok((begin, end)),
        Err(e) => Err(e),
    }
}

/// Reads the envelope of a tag from a line: what follows the marker inside
/// the HTML comment, and the number of blanks in front of the comment.
///
/// `NotAGeoffreyTag` says that the line is ordinary text. Any other error
/// refuses the line.
pub fn geoffrey_tag_envelope<'a>(line_index: usize, line: &'a str) -> (r: Result<
    (&'a str, usize),
    MdParseError,
>)
    requires
        line_index < usize::MAX,
    ensures
        envelope_view(r) == tag_envelope(line_index as nat, line@),
{
    proof {
        lemma_run_len(line@, CharClass::Blank);
    }
    let (spaces, i) = split_run(line, CharClass::Blank);
    let i = match strip_prefix(i, "<!--") {
        Some(i) => i,
        None => {
            return Err(MdParseError::NotAGeoffreyTag);
        },
    };
    let (md_comment, i) = match split_at_first(i, "-->") {
        Some(parts) => parts,
        None => {
            return Err(MdParseError::NotAGeoffreyTag);
        },
    };
    let (_, md_comment) = split_run(md_comment, CharClass::Blank);
    let attributes = match strip_prefix(md_comment, "[geoffrey]") {
        Some(attributes) => attributes,
        None => {
            return Err(MdParseError::NotAGeoffreyTag);
        },
    };
    let (_, rem) = split_run(i, CharClass::Blank);
    if !rem.is_empty() {
        return Err(
            MdParseError::GeoffreyTagError {
                line_number: line_index + 1,
                text: owned(i),
                error: GeoffreyTagParseError::InappropriateTagRemainder { remainder: owned(rem) },
            },
        );
    }
    Ok((attributes, spaces.unicode_len()))
}

/// Reads the attributes of a tag: the name of the content file and the
/// snippet. Nothing may follow the snippet.
pub fn geoffrey_tag_data<'a>(i: &'a str) -> (r: Result<(&'a str, Snippet<'a>), GeoffreyTagParseError>)
    ensures
        snippet_result_view(r) == tag_data(i@),
{
    let (rest, file_name) = match geoffrey_attribute(i) {
        Ok(found) => found,
        Err(e) => {
            return Err(GeoffreyTagParseError::InvalidFileName { tag_data: owned(i), error: e });
        },
    };
    let (rem, snippet) = match geoffrey_attributes_snippet_list(rest) {
        Ok(found) => found,
        Err(e) => {
            return Err(e);
        },
    };
    if !rem.is_empty() {
        return Err(GeoffreyTagParseError::InappropriateSnippetRemainder);
    }
    Ok((file_name, snippet))
}

/// Reads the section of a tag line: the tag from `attributes`, then the
/// code block from the lines that follow.
pub fn geoffrey_code_block<'a>(
    tag_line: &'a str,
    indentation: usize,
    attributes: &'a str,
    lines: &mut LineCursor<'a>,
    tag_context: ParseContext<'a>,
) -> (r: Result<Section<'a>, MdParseError>)
    ensures
        final(lines).lines() == old(lines).lines(),
        section_result_view(r) == section_of_tag(
            tag_line@,
            indentation as nat,
            attributes@,
            old(lines).lines(),
            old(lines).position(),
            tag_context@,
        ).result,
        final(lines).position() == section_of_tag(
            tag_line@,
            indentation as nat,
            attributes@,
            old(lines).lines(),
            old(lines).position(),
            tag_context@,
        ).next,
{
    let (file_name, snippet) = match geoffrey_tag_data(attributes) {
        Ok(found) => found,
        Err(e) => {
            return Err(
                MdParseError::GeoffreyTagError {
                    line_number: tag_context.line_number,
                    text: owned(tag_context.text),
                    error: e,
                },
            );
        },
    };
    let (begin, end) = match md_code_block(lines, tag_context) {
        Ok(fences) => fences,
        Err(e) => {
            return Err(e);
        },
    };
    Ok(
        Section::GeoffreyCodeBlock {
            tag_line,
            indentation,
            tag: GeoffreyTag { file_name, snippet, options: Vec::new() },
            begin,
            end,
        },
    )
}

/// Reads a bracketed attribute from the start of `i`, white space aside:
/// what follows it, trimmed, and the attribute between its brackets,
/// trimmed.
pub fn geoffrey_attribute<'a>(i: &'a str) -> (r: Result<
    (&'a str, &'a str),
    GeoffreyTagAttributeParseError,
>)
    ensures
        attribute_view(r) == attribute(i@),
{
    let i = trim_of(i);
    let i = match strip_char(i, '[') {
        Some(i) => i,
        None => {
            return Err(GeoffreyTagAttributeParseError::NotAnAttribute);
        },
    };
    proof {
        lemma_run_len(i@, CharClass::Except(']', ']'));
    }
    let ghost inner = i@;
    let (attribute, i) = split_run(i, CharClass::Except(']', ']'));
    if attribute.is_empty() {
        return Err(GeoffreyTagAttributeParseError::UnmatchedBracket);
    }
    let i = match strip_char(i, ']') {
        Some(i) => i,
        None => {
            return Err(GeoffreyTagAttributeParseError::UnmatchedBracket);
        },
    };
    assert(i@ =~= inner.skip(run_len(inner, CharClass::Except(']', ']')) as int + 1));
    let i = trim_of(i);
    proof {
        lemma_run_len(attribute@, CharClass::Except('[', '['));
    }
    let (head, rem) = split_run(attribute, CharClass::Except('[', '['));
    if head.is_empty() {
        return Err(GeoffreyTagAttributeParseError::Empty);
    }
    if !rem.is_empty() {
        return Err(GeoffreyTagAttributeParseError::InvalidCharacter);
    }
    let attribute = trim_of(attribute);
    if attribute.is_empty() {
        return Err(GeoffreyTagAttributeParseError::Empty);
    }
    Ok((i, attribute))
}

/// Reads the snippet of a tag in any of its three forms, and what follows.
pub fn geoffrey_attributes_snippet_list<'a>(i: &'a str) -> (r: Result<
    (&'a str, Snippet<'a>),
    GeoffreyTagParseError,
>)
    ensures
        snippet_result_view(r) == snippet_list(i@),
{
    let i = trim_of(i);
    match geoffrey_attributes_snippet_elided_block(i) {
        Err(GeoffreyTagParseError::NotEllidedBlockSnippet) => {},
        r => {
            return r;
        },
    }
    match geoffrey_attributes_snippet_full_block(i) {
        Err(GeoffreyTagParseError::NotFullBlockSnippet) => {},
        r => {
            return r;
        },
    }
    geoffrey_attributes_snippet_full_file(i)
}

/// Reads a snippet that is named by a bracket around one attribute or more,
/// and what follows the bracket.
pub fn geoffrey_attributes_snippet_elided_block<'a>(i: &'a str) -> (r: Result<
    (&'a str, Snippet<'a>),
    GeoffreyTagParseError,
>)
    ensures
        snippet_result_view(r) == snippet_elided_block(i@),
{
    let outer = match strip_char(trim_of(i), '[') {
        Some(outer) => outer,
        None => {
            return Err(GeoffreyTagParseError::NotEllidedBlockSnippet);
        },
    };
    let inner = trim_of(outer);
    if strip_char(inner, '[').is_none() {
        return Err(GeoffreyTagParseError::NotEllidedBlockSnippet);
    }
    let (first, main_id) = match geoffrey_attribute(inner) {
        Ok(found) => found,
        Err(e) => {
            return Err(GeoffreyTagParseError::InvalidSnippetMainId { error: e });
        },
    };
    let mut sub_ids: Vec<&'a str> = Vec::new();
    let mut rest = first;
    assert(sub_ids.deep_view() =~= Seq::empty());
    loop
        invariant
            starts_with(trim(i@), '['),
            inner@ == trim(trim(i@).skip(1)),
            starts_with(inner@, '['),
            attribute(inner@) == Ok::<(Seq<char>, Seq<char>), GeoffreyTagAttributeParseError>(
                (first@, main_id@),
            ),
            sub_ids_from(first@, Seq::empty()) == sub_ids_from(rest@, sub_ids.deep_view()),
        ensures
            sub_ids_from(first@, Seq::empty()) == Ok::<
                (Seq<char>, Seq<Seq<char>>),
                GeoffreyTagParseErrorView,
            >((rest@, sub_ids.deep_view())),
        decreases rest@.len(),
    {
        let ghost before = sub_ids.deep_view();
        match geoffrey_attribute(rest) {
            Ok((next, sub_id)) => {
                proof {
                    lemma_attribute_shrinks(rest@);
                }
                sub_ids.push(sub_id);
                assert(sub_ids.deep_view() =~= before.push(sub_id@));
                rest = next;
            },
            Err(GeoffreyTagAttributeParseError::NotAnAttribute) => {
                break ;
            },
            Err(e) => {
                return Err(GeoffreyTagParseError::InvalidSnippetSubIds { error: e });
            },
        }
    }
    let closing = match strip_char(trim_of(rest), ']') {
        Some(closing) => closing,
        None => {
            return Err(GeoffreyTagParseError::UnmatchedNestedBrackets);
        },
    };
    Ok((trim_of(closing), Snippet::ElidedBlock { main_id, sub_ids }))
}

/// Reads a snippet that is named by one attribute, and what follows it.
pub fn geoffrey_attributes_snippet_full_block<'a>(i: &'a str) -> (r: Result<
    (&'a str, Snippet<'a>),
    GeoffreyTagParseError,
>)
    ensures
        snippet_result_view(r) == snippet_full_block(i@),
{
    match geoffrey_attribute(i) {
        Ok((i, id)) => Ok((i, Snippet::FullBlock { id })),
        Err(GeoffreyTagAttributeParseError::NotAnAttribute) => Err(
            GeoffreyTagParseError::NotFullBlockSnippet,
        ),
        Err(_) => Err(GeoffreyTagParseError::InvalidFullBlockSnippet),
    }
}

/// Reads the snippet of a tag that names none: nothing but white space may
/// stand there.
pub fn geoffrey_attributes_snippet_full_file<'a>(i: &'a str) -> (r: Result<
    (&'a str, Snippet<'a>),
    GeoffreyTagParseError,
>)
    ensures
        snippet_result_view(r) == snippet_full_file(i@),
{
    let i = trim_of(i);
    if !i.is_empty() {
        return Err(GeoffreyTagParseError::InvalidFullFileSnippet);
    }
    Ok((i, Snippet::FullFile))
}

} // verus!
