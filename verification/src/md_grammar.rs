//! The grammar of tags and fenced code blocks, as functions on sequences of
//! characters. The parser in `md_parser` computes exactly these.

use crate::md_parser::GeoffreyTagAttributeParseError;
use crate::text::{
    find, lemma_run_len, lemma_trailing_len, run_len, starts_with, trim, trim_start, CharClass,
};
use vstd::prelude::*;

verus! {

/// The view of a `Snippet`.
pub enum SnippetView {
    FullFile,
    FullBlock { id: Seq<char> },
    ElidedBlock { main_id: Seq<char>, sub_ids: Seq<Seq<char>> },
}

/// The view of a `GeoffreyTag`; of its options, their number.
pub struct GeoffreyTagView {
    pub file_name: Seq<char>,
    pub snippet: SnippetView,
    pub options: nat,
}

/// The view of a `Section`.
pub enum SectionView {
    TextLine(Seq<char>),
    GeoffreyCodeBlock {
        tag_line: Seq<char>,
        indentation: nat,
        tag: GeoffreyTagView,
        begin: Seq<char>,
        end: Seq<char>,
    },
}

/// The view of a `ParseContext`.
pub struct ParseContextView {
    pub line_number: nat,
    pub text: Seq<char>,
}

/// The view of a `GeoffreyTagParseError`.
pub enum GeoffreyTagParseErrorView {
    InappropriateTagRemainder { remainder: Seq<char> },
    InvalidFileName { tag_data: Seq<char>, error: GeoffreyTagAttributeParseError },
    InappropriateSnippetRemainder,
    NotEllidedBlockSnippet,
    NotFullBlockSnippet,
    InvalidFullBlockSnippet,
    InvalidFullFileSnippet,
    InvalidSnippetMainId { error: GeoffreyTagAttributeParseError },
    InvalidSnippetSubIds { error: GeoffreyTagAttributeParseError },
    UnmatchedNestedBrackets,
}

/// The view of a `GeoffreyCodeBlockParseError`.
pub enum GeoffreyCodeBlockParseErrorView {
    Unexpected,
    NotCodeBlockBegin,
    InappropriateCodeBlockRemainder { remainder: Seq<char> },
    InvalidLanguageSpecifier { remainder: Seq<char> },
    InvalidBackticksCount,
    InvalidBackticksEnd,
    UnmatchedBackticks,
}

/// The view of a `MdParseError`.
pub enum MdParseErrorView {
    NotAGeoffreyTag,
    GeoffreyTagError { line_number: nat, text: Seq<char>, error: GeoffreyTagParseErrorView },
    GeoffreyTagWithoutCodeBlock { line_number: nat, text: Seq<char> },
    GeoffreyCodeBlockError {
        line_number: nat,
        text: Seq<char>,
        error: GeoffreyCodeBlockParseErrorView,
    },
}

/// What a parser that reads further lines has found, and the number of
/// lines that have been read once it is done.
pub struct Scan<T> {
    pub result: Result<T, MdParseErrorView>,
    pub next: nat,
}

/// The word that makes an HTML comment a tag.
pub open spec fn marker() -> Seq<char> {
    "[geoffrey]"@
}

/// The start of an HTML comment.
pub open spec fn comment_open() -> Seq<char> {
    "<!--"@
}

/// The end of an HTML comment.
pub open spec fn comment_close() -> Seq<char> {
    "-->"@
}

/// A bracketed attribute at the start of `i`, white space aside: what
/// follows it, trimmed, and the attribute between its brackets, trimmed.
///
/// The attribute ends at the first closing bracket. It holds no opening
/// bracket, and more than white space: an attribute is never empty.
pub open spec fn attribute(i: Seq<char>) -> Result<
    (Seq<char>, Seq<char>),
    GeoffreyTagAttributeParseError,
> {
    let i = trim(i);
    if !starts_with(i, '[') {
        Err(GeoffreyTagAttributeParseError::NotAnAttribute)
    } else {
        let i = i.skip(1);
        let n = run_len(i, CharClass::Except(']', ']')) as int;
        if n == 0 || n >= i.len() {
            Err(GeoffreyTagAttributeParseError::UnmatchedBracket)
        } else {
            let attribute = i.take(n);
            let rest = trim(i.skip(n + 1));
            let m = run_len(attribute, CharClass::Except('[', '['));
            if m == 0 {
                Err(GeoffreyTagAttributeParseError::Empty)
            } else if m < attribute.len() {
                Err(GeoffreyTagAttributeParseError::InvalidCharacter)
            } else if trim(attribute).len() == 0 {
                Err(GeoffreyTagAttributeParseError::Empty)
            } else {
                Ok((rest, trim(attribute)))
            }
        }
    }
}

/// The snippet of a tag that names none: the whole file. Nothing but white
/// space may stand there.
pub open spec fn snippet_full_file(i: Seq<char>) -> Result<
    (Seq<char>, SnippetView),
    GeoffreyTagParseErrorView,
> {
    let i = trim(i);
    if i.len() > 0 {
        Err(GeoffreyTagParseErrorView::InvalidFullFileSnippet)
    } else {
        Ok((i, SnippetView::FullFile))
    }
}

/// The snippet of a tag that names it by one attribute, and what follows.
pub open spec fn snippet_full_block(i: Seq<char>) -> Result<
    (Seq<char>, SnippetView),
    GeoffreyTagParseErrorView,
> {
    match attribute(i) {
        Ok((rest, id)) => Ok((rest, SnippetView::FullBlock { id })),
        Err(GeoffreyTagAttributeParseError::NotAnAttribute) => Err(
            GeoffreyTagParseErrorView::NotFullBlockSnippet,
        ),
        Err(_) => Err(GeoffreyTagParseErrorView::InvalidFullBlockSnippet),
    }
}

/// The attributes at the start of `i`, as many as follow one another, added
/// to `ids`, and what follows the last of them.
pub open spec fn sub_ids(i: Seq<char>, ids: Seq<Seq<char>>) -> Result<
    (Seq<char>, Seq<Seq<char>>),
    GeoffreyTagParseErrorView,
>
    decreases i.len(),
{
    match attribute(i) {
        Ok((rest, id)) => {
            proof {
                lemma_attribute_shrinks(i);
            }
            sub_ids(rest, ids.push(id))
        },
        Err(GeoffreyTagAttributeParseError::NotAnAttribute) => Ok((i, ids)),
        Err(error) => Err(GeoffreyTagParseErrorView::InvalidSnippetSubIds { error }),
    }
}

/// The snippet of a tag that names it by a bracket around one attribute or
/// more: the first is the snippet, the others are the nested snippets to
/// show. What follows the closing bracket comes first, trimmed.
pub open spec fn snippet_elided_block(i: Seq<char>) -> Result<
    (Seq<char>, SnippetView),
    GeoffreyTagParseErrorView,
> {
    let i = trim(i);
    if !starts_with(i, '[') || !starts_with(trim(i.skip(1)), '[') {
        Err(GeoffreyTagParseErrorView::NotEllidedBlockSnippet)
    } else {
        match attribute(trim(i.skip(1))) {
            Err(error) => Err(GeoffreyTagParseErrorView::InvalidSnippetMainId { error }),
            Ok((i, main_id)) => match sub_ids(i, Seq::empty()) {
                Err(e) => Err(e),
                Ok((i, sub_ids)) => {
                    let i = trim(i);
                    if !starts_with(i, ']') {
                        Err(GeoffreyTagParseErrorView::UnmatchedNestedBrackets)
                    } else {
                        Ok((trim(i.skip(1)), SnippetView::ElidedBlock { main_id, sub_ids }))
                    }
                },
            },
        }
    }
}

/// The snippet of a tag in any of its three forms, and what follows it.
pub open spec fn snippet_list(i: Seq<char>) -> Result<
    (Seq<char>, SnippetView),
    GeoffreyTagParseErrorView,
> {
    let i = trim(i);
    match snippet_elided_block(i) {
        Err(GeoffreyTagParseErrorView::NotEllidedBlockSnippet) => match snippet_full_block(i) {
            Err(GeoffreyTagParseErrorView::NotFullBlockSnippet) => snippet_full_file(i),
            r => r,
        },
        r => r,
    }
}

/// The attributes of a tag: the name of the content file and the snippet.
/// Nothing may follow the snippet.
pub open spec fn tag_data(i: Seq<char>) -> Result<
    (Seq<char>, SnippetView),
    GeoffreyTagParseErrorView,
> {
    match attribute(i) {
        Err(error) => Err(GeoffreyTagParseErrorView::InvalidFileName { tag_data: i, error }),
        Ok((rest, file_name)) => match snippet_list(rest) {
            Err(e) => Err(e),
            Ok((remainder, snippet)) => if remainder.len() > 0 {
                Err(GeoffreyTagParseErrorView::InappropriateSnippetRemainder)
            } else {
                Ok((file_name, snippet))
            },
        },
    }
}

/// The envelope of a tag: blanks, an HTML comment that starts with the
/// marker, blanks. Gives what follows the marker inside the comment and the
/// number of blanks in front of the comment.
///
/// The comment goes up to the first `-->` behind its start. A line that is
/// no such comment, or whose comment does not start with the marker, is no
/// tag, whatever else it holds. A line with the marker and with anything
/// but blanks behind the comment is refused.
pub open spec fn tag_envelope(line_index: nat, line: Seq<char>) -> Result<
    (Seq<char>, nat),
    MdParseErrorView,
> {
    let spaces = run_len(line, CharClass::Blank);
    let inner = line.skip(spaces as int).skip(comment_open().len() as int);
    if !comment_open().is_prefix_of(line.skip(spaces as int)) {
        Err(MdParseErrorView::NotAGeoffreyTag)
    } else {
        match find(inner, comment_close()) {
            None => Err(MdParseErrorView::NotAGeoffreyTag),
            Some(n) => {
                let comment = inner.take(n as int);
                let comment = comment.skip(run_len(comment, CharClass::Blank) as int);
                let behind = inner.skip((n + comment_close().len()) as int);
                let remainder = behind.skip(run_len(behind, CharClass::Blank) as int);
                if !marker().is_prefix_of(comment) {
                    Err(MdParseErrorView::NotAGeoffreyTag)
                } else if remainder.len() > 0 {
                    Err(
                        MdParseErrorView::GeoffreyTagError {
                            line_number: line_index + 1,
                            text: behind,
                            error: GeoffreyTagParseErrorView::InappropriateTagRemainder {
                                remainder,
                            },
                        },
                    )
                } else {
                    Ok((comment.skip(marker().len() as int), spaces))
                }
            },
        }
    }
}

/// The line that opens a code block, trimmed: the fence with its language
/// word, and the backticks of the fence alone.
///
/// The line holds one word: three backticks or more, then ASCII letters and
/// digits.
pub open spec fn code_block_begin(i: Seq<char>) -> Result<
    (Seq<char>, Seq<char>),
    GeoffreyCodeBlockParseErrorView,
> {
    let i = trim(i);
    let n = run_len(i, CharClass::Except(' ', '\t'));
    let fence = i.take(n as int);
    let rest = trim(i.skip(n as int));
    let ticks = run_len(fence, CharClass::Only('`'));
    let language = fence.skip(ticks as int);
    let remainder = trim(language.skip(run_len(language, CharClass::Alphanumeric) as int));
    if n == 0 {
        Err(GeoffreyCodeBlockParseErrorView::NotCodeBlockBegin)
    } else if rest.len() > 0 {
        Err(GeoffreyCodeBlockParseErrorView::InappropriateCodeBlockRemainder { remainder: rest })
    } else if ticks < 3 {
        Err(GeoffreyCodeBlockParseErrorView::InvalidBackticksCount)
    } else if remainder.len() > 0 {
        Err(GeoffreyCodeBlockParseErrorView::InvalidLanguageSpecifier { remainder })
    } else {
        Ok((fence, fence.take(ticks as int)))
    }
}

/// The end of a code block, sought from line `pos` on: the first line that
/// starts with `backticks`, white space aside, ends the search. It closes
/// the block if it holds nothing else and is an error if it does; so is the
/// end of the text, reported at the line in `begin` that opened the block.
pub open spec fn code_block_end(
    lines: Seq<Seq<char>>,
    pos: nat,
    backticks: Seq<char>,
    begin: ParseContextView,
) -> Scan<Seq<char>>
    decreases lines.len() - pos,
{
    if pos >= lines.len() {
        Scan {
            result: Err(
                MdParseErrorView::GeoffreyCodeBlockError {
                    line_number: begin.line_number,
                    text: begin.text,
                    error: GeoffreyCodeBlockParseErrorView::UnmatchedBackticks,
                },
            ),
            next: pos,
        }
    } else {
        let i = trim(lines[pos as int]);
        let rest = trim(i.skip(backticks.len() as int));
        if !backticks.is_prefix_of(i) {
            code_block_end(lines, pos + 1, backticks, begin)
        } else if rest.len() > 0 {
            Scan {
                result: Err(
                    MdParseErrorView::GeoffreyCodeBlockError {
                        line_number: pos + 1,
                        text: rest,
                        error: GeoffreyCodeBlockParseErrorView::InvalidBackticksEnd,
                    },
                ),
                next: pos + 1,
            }
        } else {
            Scan { result: Ok(backticks), next: pos + 1 }
        }
    }
}

/// The code block that starts at line `pos`: its opening fence and its
/// closing fence. `tag` is the line of the tag in front.
///
/// The line at `pos` must open the code block. Where there is no such line,
/// or where it opens none for whatever reason, the tag is without its code
/// block, and the error names the tag.
pub open spec fn code_block(lines: Seq<Seq<char>>, pos: nat, tag: ParseContextView) -> Scan<
    (Seq<char>, Seq<char>),
> {
    if pos >= lines.len() {
        Scan {
            result: Err(
                MdParseErrorView::GeoffreyTagWithoutCodeBlock {
                    line_number: tag.line_number,
                    text: tag.text,
                },
            ),
            next: pos,
        }
    } else {
        let line = lines[pos as int];
        match code_block_begin(line) {
            Err(_) => Scan {
                result: Err(
                    MdParseErrorView::GeoffreyTagWithoutCodeBlock {
                        line_number: tag.line_number,
                        text: tag.text,
                    },
                ),
                next: pos + 1,
            },
            Ok((begin, backticks)) => {
                let end = code_block_end(
                    lines,
                    pos + 1,
                    backticks,
                    ParseContextView { line_number: pos + 1, text: line },
                );
                match end.result {
                    Err(e) => Scan { result: Err(e), next: end.next },
                    Ok(end_fence) => Scan { result: Ok((begin, end_fence)), next: end.next },
                }
            },
        }
    }
}

/// The section of a tag line: the tag from `attributes`, the code block
/// from line `pos` on.
pub open spec fn geoffrey_code_block(
    tag_line: Seq<char>,
    indentation: nat,
    attributes: Seq<char>,
    lines: Seq<Seq<char>>,
    pos: nat,
    tag: ParseContextView,
) -> Scan<SectionView> {
    match tag_data(attributes) {
        Err(error) => Scan {
            result: Err(
                MdParseErrorView::GeoffreyTagError {
                    line_number: tag.line_number,
                    text: tag.text,
                    error,
                },
            ),
            next: pos,
        },
        Ok((file_name, snippet)) => {
            let block = code_block(lines, pos, tag);
            match block.result {
                Err(e) => Scan { result: Err(e), next: block.next },
                Ok((begin, end)) => Scan {
                    result: Ok(
                        SectionView::GeoffreyCodeBlock {
                            tag_line,
                            indentation,
                            tag: GeoffreyTagView { file_name, snippet, options: 0 },
                            begin,
                            end,
                        },
                    ),
                    next: block.next,
                },
            }
        },
    }
}

/// The section that starts with `line`, the line before `pos`.
pub open spec fn section(line_index: nat, line: Seq<char>, lines: Seq<Seq<char>>, pos: nat) -> Scan<
    SectionView,
> {
    match tag_envelope(line_index, line) {
        Ok((attributes, indentation)) => geoffrey_code_block(
            line,
            indentation,
            attributes,
            lines,
            pos,
            ParseContextView { line_number: line_index + 1, text: line },
        ),
        Err(MdParseErrorView::NotAGeoffreyTag) => Scan {
            result: Ok(SectionView::TextLine(line)),
            next: pos,
        },
        Err(e) => Scan { result: Err(e), next: pos },
    }
}

/// The sections of the lines from `pos` on, added to `sections`.
pub open spec fn sections_from(lines: Seq<Seq<char>>, pos: nat, sections: Seq<SectionView>) -> Result<
    Seq<SectionView>,
    MdParseErrorView,
>
    decreases lines.len() - pos,
{
    if pos >= lines.len() {
        Ok(sections)
    } else {
        let s = section(pos, lines[pos as int], lines, pos + 1);
        match s.result {
            Err(e) => Err(e),
            Ok(found) => {
                proof {
                    lemma_section_next(pos, lines[pos as int], lines, pos + 1);
                }
                sections_from(lines, s.next, sections.push(found))
            },
        }
    }
}

/// The sections of a documentation file.
pub open spec fn sections_of(content: Seq<char>) -> Result<Seq<SectionView>, MdParseErrorView> {
    sections_from(crate::lines::lines_of(content), 0, Seq::empty())
}

/// Trimming never makes a text longer.
pub proof fn lemma_trim_len(s: Seq<char>)
    ensures
        trim(s).len() <= trim_start(s).len() <= s.len(),
{
    lemma_run_len(s, CharClass::Whitespace);
    lemma_trailing_len(trim_start(s), CharClass::Whitespace);
}

/// What follows an attribute is shorter than the text that the attribute
/// was read from.
pub proof fn lemma_attribute_shrinks(i: Seq<char>)
    ensures
        attribute(i) matches Ok((rest, _)) ==> rest.len() < i.len(),
{
    lemma_trim_len(i);
    let t = trim(i);
    if starts_with(t, '[') {
        let u = t.skip(1);
        let n = run_len(u, CharClass::Except(']', ']')) as int;
        if !(n == 0 || n >= u.len()) {
            lemma_trim_len(u.skip(n + 1));
        }
    }
}

/// The search for the end of a code block never goes back, nor past the
/// last line.
pub proof fn lemma_code_block_end_next(
    lines: Seq<Seq<char>>,
    pos: nat,
    backticks: Seq<char>,
    begin: ParseContextView,
)
    ensures
        pos <= code_block_end(lines, pos, backticks, begin).next,
        pos <= lines.len() ==> code_block_end(lines, pos, backticks, begin).next <= lines.len(),
    decreases lines.len() - pos,
{
    if pos < lines.len() {
        lemma_code_block_end_next(lines, pos + 1, backticks, begin);
    }
}

/// Where the end of a code block is found, the search has read one line at
/// least and none past the last.
pub proof fn lemma_code_block_end_found(
    lines: Seq<Seq<char>>,
    pos: nat,
    backticks: Seq<char>,
    begin: ParseContextView,
)
    requires
        code_block_end(lines, pos, backticks, begin).result is Ok,
    ensures
        pos < code_block_end(lines, pos, backticks, begin).next <= lines.len(),
    decreases lines.len() - pos,
{
    if pos < lines.len() {
        let i = trim(lines[pos as int]);
        if !backticks.is_prefix_of(i) {
            lemma_code_block_end_found(lines, pos + 1, backticks, begin);
        }
    }
}

/// A section of text takes in no further line. A section with a code block
/// takes in two lines at least, the fences, and none past the last.
pub proof fn lemma_section_lines(line_index: nat, line: Seq<char>, lines: Seq<Seq<char>>, pos: nat)
    ensures
        section(line_index, line, lines, pos).result matches Ok(SectionView::TextLine(_))
            ==> section(line_index, line, lines, pos).next == pos,
        section(line_index, line, lines, pos).result matches Ok(
            SectionView::GeoffreyCodeBlock { .. },
        ) ==> pos + 2 <= section(line_index, line, lines, pos).next <= lines.len(),
{
    if pos < lines.len() {
        match code_block_begin(lines[pos as int]) {
            Ok((begin, backticks)) => {
                let context = ParseContextView { line_number: pos + 1, text: lines[pos as int] };
                if code_block_end(lines, pos + 1, backticks, context).result is Ok {
                    lemma_code_block_end_found(lines, pos + 1, backticks, context);
                }
            },
            _ => {},
        }
    }
}

/// A section never ends before the line at which the search for its code
/// block began, nor past the last line.
pub proof fn lemma_section_next(line_index: nat, line: Seq<char>, lines: Seq<Seq<char>>, pos: nat)
    ensures
        pos <= section(line_index, line, lines, pos).next,
        pos <= lines.len() ==> section(line_index, line, lines, pos).next <= lines.len(),
{
    if pos < lines.len() {
        match code_block_begin(lines[pos as int]) {
            Ok((begin, backticks)) => {
                lemma_code_block_end_next(
                    lines,
                    pos + 1,
                    backticks,
                    ParseContextView { line_number: pos + 1, text: lines[pos as int] },
                );
            },
            _ => {},
        }
    }
}

} // verus!
