//! What holds of every documentation file and of the grammar of its tags.

use crate::content::{find_from, ContentView};
use crate::documents::{
    add_block, add_text, content_at, md_error_view, md_file_of, segments_from,
    snippet_of_tag_line, synced_files, synced_from, synced_segment, synced_text, MdFileView,
    MdSegmentView, MdSnippetIdView,
};
use crate::error::GeoffreyErrorView;
use crate::lines::{concat, lemma_split_inclusive_concat, lines_inclusive, lines_of};
use crate::md_grammar::{
    attribute, code_block, code_block_begin, code_block_end, comment_close, comment_open,
    lemma_section_next, lemma_trim_len, marker, section, sections_from,
    sections_of, tag_data, tag_envelope, GeoffreyCodeBlockParseErrorView, MdParseErrorView,
    ParseContextView, Scan, SectionView, SnippetView,
};
use crate::md_parser::GeoffreyTagAttributeParseError;
use crate::text::{
    is_alphanumeric, lemma_find_is, lemma_run_len, lemma_run_len_is, run_len, trim, trim_start,
    CharClass,
};
use vstd::prelude::*;

verus! {

/// An attribute is a text in square brackets: where a text, white space
/// aside, starts with a bracket around a text that holds no bracket and
/// more than white space, the attribute is the text in the brackets,
/// trimmed, and what follows is what stands behind the closing bracket,
/// trimmed.
pub proof fn law_attribute_is_a_text_in_brackets(i: Seq<char>, body: Seq<char>, tail: Seq<char>)
    requires
        trim(i) == seq!['['] + body + seq![']'] + tail,
        trim(body).len() > 0,
        forall|k: int| 0 <= k < body.len() ==> body[k] != '[' && body[k] != ']',
    ensures
        attribute(i) == Ok::<(Seq<char>, Seq<char>), GeoffreyTagAttributeParseError>(
            (trim(tail), trim(body)),
        ),
{
    lemma_trim_len(body);
    let text = trim(i);
    let inner = text.skip(1);
    assert(text[0] == '[');
    assert(inner =~= body + seq![']'] + tail);
    assert forall|k: int| 0 <= k < body.len() implies CharClass::Except(']', ']').contains(
        #[trigger] inner[k],
    ) by {
        assert(inner[k] == body[k]);
    }
    assert(inner[body.len() as int] == ']');
    lemma_run_len_is(inner, CharClass::Except(']', ']'), body.len() as int);
    assert(inner.take(body.len() as int) =~= body);
    assert(inner.skip(body.len() as int + 1) =~= tail);
    lemma_run_len_is(body, CharClass::Except('[', '['), body.len() as int);
}

/// Every attribute is a text in square brackets, and none is empty: a text
/// from which an attribute is read starts, white space aside, with a bracket
/// around a text that holds no bracket and more than white space.
pub proof fn law_attribute_comes_from_brackets(i: Seq<char>)
    requires
        attribute(i) is Ok,
    ensures
        attribute(i)->Ok_0.1.len() > 0,
        exists|body: Seq<char>, tail: Seq<char>|
            {
                &&& #[trigger] (seq!['['] + body + seq![']'] + tail) == trim(i)
                &&& trim(body).len() > 0
                &&& forall|k: int| 0 <= k < body.len() ==> body[k] != '[' && body[k] != ']'
                &&& attribute(i) == Ok::<(Seq<char>, Seq<char>), GeoffreyTagAttributeParseError>(
                    (trim(tail), trim(body)),
                )
            },
{
    let text = trim(i);
    let inner = text.skip(1);
    let n = run_len(inner, CharClass::Except(']', ']')) as int;
    let body = inner.take(n);
    let tail = inner.skip(n + 1);
    lemma_run_len(inner, CharClass::Except(']', ']'));
    lemma_run_len(body, CharClass::Except('[', '['));
    assert(seq!['['] + body + seq![']'] + tail =~= text);
    assert forall|k: int| 0 <= k < body.len() implies body[k] != '[' && body[k] != ']' by {
        assert(body[k] == inner[k]);
    }
}

/// Whether `s` holds nothing but spaces and tabs.
pub open spec fn all_blanks(s: Seq<char>) -> bool {
    forall|k: int| 0 <= k < s.len() ==> CharClass::Blank.contains(#[trigger] s[k])
}

/// A tag line is an HTML comment that starts with the marker: a line made
/// of blanks, the start of a comment, blanks, the marker, attributes that
/// hold no `>`, the end of the comment and blanks has the envelope of a
/// tag, with these attributes and as many blanks in front as the line has.
pub proof fn law_tag_line_is_a_comment_with_the_marker(
    line_index: nat,
    indentation: Seq<char>,
    gap: Seq<char>,
    attributes: Seq<char>,
    rest: Seq<char>,
)
    requires
        all_blanks(indentation),
        all_blanks(gap),
        all_blanks(rest),
        forall|k: int| 0 <= k < attributes.len() ==> attributes[k] != '>',
    ensures
        tag_envelope(
            line_index,
            indentation + comment_open() + gap + marker() + attributes + comment_close() + rest,
        ) == Ok::<(Seq<char>, nat), MdParseErrorView>((attributes, indentation.len())),
{
    reveal_strlit("<!--");
    reveal_strlit("-->");
    reveal_strlit("[geoffrey]");
    let open = comment_open();
    let close = comment_close();
    let word = marker();
    let line = indentation + open + gap + word + attributes + close + rest;
    let spaces = indentation.len() as int;
    assert(line[spaces] == open[0]);
    assert forall|k: int| 0 <= k < spaces implies CharClass::Blank.contains(#[trigger] line[k]) by {
        assert(line[k] == indentation[k]);
    }
    lemma_run_len_is(line, CharClass::Blank, spaces);
    let i = line.skip(spaces);
    assert(i =~= open + gap + word + attributes + close + rest);
    assert(open =~= i.subrange(0, open.len() as int));
    let inner = i.skip(open.len() as int);
    assert(inner =~= gap + word + attributes + close + rest);
    let comment = gap + word + attributes;
    let n = comment.len() as int;
    assert forall|k: int| 0 <= k < n + 2 implies inner[k] != '>' by {
        if k < gap.len() {
            assert(inner[k] == gap[k]);
        } else if k < gap.len() + word.len() {
            assert(inner[k] == word[k - gap.len()]);
        } else if k < n {
            assert(inner[k] == attributes[k - gap.len() - word.len()]);
        } else {
            assert(inner[k] == close[k - n]);
        }
    }
    assert forall|j: int| 0 <= j < n implies !close.is_prefix_of(#[trigger] inner.skip(j)) by {
        if close.is_prefix_of(inner.skip(j)) {
            assert(inner.skip(j).subrange(0, close.len() as int)[2] == close[2]);
            assert(inner[j + 2] == '>');
        }
    }
    let after = inner.skip(n);
    assert(after =~= close + rest);
    assert(close =~= after.subrange(0, close.len() as int));
    lemma_find_is(inner, close, n as nat);
    assert(inner.take(n) =~= comment);
    let behind = inner.skip(n + close.len());
    assert(behind =~= rest);
    lemma_run_len_is(rest, CharClass::Blank, rest.len() as int);
    assert(rest.skip(rest.len() as int) =~= Seq::<char>::empty());
    assert forall|k: int| 0 <= k < gap.len() implies CharClass::Blank.contains(
        #[trigger] comment[k],
    ) by {
        assert(comment[k] == gap[k]);
    }
    assert(comment[gap.len() as int] == word[0]);
    lemma_run_len_is(comment, CharClass::Blank, gap.len() as int);
    let tagged = comment.skip(gap.len() as int);
    assert(tagged =~= word + attributes);
    assert(word =~= tagged.subrange(0, word.len() as int));
    assert(tagged.skip(word.len() as int) =~= attributes);
}

/// The word of `n` backticks.
pub open spec fn backticks(n: nat) -> Seq<char> {
    Seq::new(n, |k: int| '`')
}

/// The opening fence of a code block is three backticks or more with a word
/// of ASCII letters and digits behind them: a line that holds such a fence
/// and nothing else, white space aside, opens a code block with that fence
/// and those backticks.
pub proof fn law_fence_is_backticks_and_a_word(i: Seq<char>, n: nat, word: Seq<char>)
    requires
        n >= 3,
        forall|k: int| 0 <= k < word.len() ==> is_alphanumeric(#[trigger] word[k]),
        trim(i) == backticks(n) + word,
    ensures
        code_block_begin(i) == Ok::<(Seq<char>, Seq<char>), GeoffreyCodeBlockParseErrorView>(
            (trim(i), backticks(n)),
        ),
{
    let text = trim(i);
    let nothing = Seq::<char>::empty();
    assert forall|k: int| 0 <= k < text.len() implies CharClass::Except(' ', '\t').contains(
        #[trigger] text[k],
    ) by {
        if k >= n {
            assert(text[k] == word[k - n]);
        }
    }
    lemma_run_len_is(text, CharClass::Except(' ', '\t'), text.len() as int);
    assert(text.take(text.len() as int) =~= text);
    assert(text.skip(text.len() as int) =~= nothing);
    assert(trim_start(nothing) =~= nothing);
    assert(trim(nothing) =~= nothing);
    if n < text.len() {
        assert(text[n as int] == word[0]);
    }
    lemma_run_len_is(text, CharClass::Only('`'), n as int);
    assert(text.take(n as int) =~= backticks(n));
    assert(text.skip(n as int) =~= word);
    lemma_run_len_is(word, CharClass::Alphanumeric, word.len() as int);
    assert(word.skip(word.len() as int) =~= nothing);
}

/// A line that holds the opening backticks and nothing else, white space
/// aside, closes the code block.
pub proof fn law_same_fence_closes(
    lines: Seq<Seq<char>>,
    pos: nat,
    backticks: Seq<char>,
    begin: ParseContextView,
)
    requires
        pos < lines.len(),
        trim(lines[pos as int]) == backticks,
    ensures
        code_block_end(lines, pos, backticks, begin) == (Scan {
            result: Ok::<Seq<char>, MdParseErrorView>(backticks),
            next: pos + 1,
        }),
{
    let rest = backticks.skip(backticks.len() as int);
    assert(rest =~= Seq::<char>::empty());
    assert(trim_start(rest) =~= rest);
    assert(trim(rest) =~= rest);
    assert(backticks =~= backticks.subrange(0, backticks.len() as int));
}

/// A line that starts with the opening backticks and goes on, with more
/// backticks or with anything else but white space, does not close the code
/// block: the line is refused.
pub proof fn law_longer_fence_is_refused(
    lines: Seq<Seq<char>>,
    pos: nat,
    backticks: Seq<char>,
    more: Seq<char>,
    begin: ParseContextView,
)
    requires
        pos < lines.len(),
        trim(lines[pos as int]) == backticks + more,
        trim(more).len() > 0,
    ensures
        code_block_end(lines, pos, backticks, begin) == (Scan {
            result: Err::<Seq<char>, MdParseErrorView>(
                MdParseErrorView::GeoffreyCodeBlockError {
                    line_number: pos + 1,
                    text: trim(more),
                    error: GeoffreyCodeBlockParseErrorView::InvalidBackticksEnd,
                },
            ),
            next: pos + 1,
        }),
{
    let line = backticks + more;
    assert(line.skip(backticks.len() as int) =~= more);
    assert(backticks =~= line.subrange(0, backticks.len() as int));
}

/// The segments of a text are made along with its sections: from any line
/// on, the lines have segments if and only if they have sections, and where
/// they have none, both fail with the same error.
pub proof fn lemma_segments_follow_sections(
    pieces: Seq<Seq<char>>,
    lines: Seq<Seq<char>>,
    pos: nat,
    segments: Seq<MdSegmentView>,
    sections: Seq<SectionView>,
)
    ensures
        match sections_from(lines, pos, sections) {
            Ok(_) => segments_from(pieces, lines, pos, segments) is Ok,
            Err(e) => segments_from(pieces, lines, pos, segments) matches Err(refused)
                && refused.1 == e,
        },
    decreases lines.len() - pos,
{
    if pos < lines.len() {
        let found = section(pos, lines[pos as int], lines, pos + 1);
        lemma_section_next(pos, lines[pos as int], lines, pos + 1);
        match found.result {
            Err(_) => {},
            Ok(SectionView::TextLine(line)) => {
                lemma_segments_follow_sections(
                    pieces,
                    lines,
                    found.next,
                    add_text(segments, pieces[pos as int]),
                    sections.push(SectionView::TextLine(line)),
                );
            },
            Ok(SectionView::GeoffreyCodeBlock { tag_line, indentation, tag, begin, end }) => {
                lemma_segments_follow_sections(
                    pieces,
                    lines,
                    found.next,
                    add_block(
                        segments,
                        pieces[pos as int] + pieces[pos as int + 1],
                        MdSnippetIdView { path: tag.file_name, tag: tag.snippet },
                        pieces[found.next - 1],
                    ),
                    sections.push(
                        SectionView::GeoffreyCodeBlock { tag_line, indentation, tag, begin, end },
                    ),
                );
            },
        }
    }
}

/// A documentation file has segments if and only if it has sections: what
/// the parser of sections refuses, the parser of segments refuses for the
/// same error, and it refuses nothing else. A tag without its code block is
/// then refused as such a tag, a code block that never ends as such a code
/// block, and every other error is handed on with the path of the file.
pub proof fn law_segments_follow_sections(path: Seq<char>, text: Seq<char>)
    ensures
        match sections_of(text) {
            Ok(_) => md_file_of(path, text) is Ok,
            Err(e) => match e {
                MdParseErrorView::GeoffreyTagWithoutCodeBlock {
                    ..
                } => md_file_of(path, text) matches Err(
                    GeoffreyErrorView::CodeBlockMustFollowTag(p, _),
                ) && p == path,
                MdParseErrorView::GeoffreyCodeBlockError {
                    error: GeoffreyCodeBlockParseErrorView::UnmatchedBackticks,
                    ..
                } => md_file_of(path, text) matches Err(
                    GeoffreyErrorView::CodeBlockEndMissing(p, _),
                ) && p == path,
                _ => md_file_of(path, text) == Err::<MdFileView, GeoffreyErrorView>(
                    GeoffreyErrorView::MarkdownError(path, e),
                ),
            },
        },
{
    lemma_segments_follow_sections(
        lines_inclusive(text),
        lines_of(text),
        0,
        seq![MdSegmentView { text: Seq::empty(), snippet_id: None }],
        Seq::empty(),
    );
}

/// A tag without a code block is refused as such, and the error names the
/// tag: where a tag line is followed by the end of the text, or by a line
/// that opens no code block for whatever reason, the tag is without its
/// code block, whatever the lines behind hold.
pub proof fn law_tag_without_code_block_names_the_tag(
    lines: Seq<Seq<char>>,
    pos: nat,
    tag: ParseContextView,
)
    requires
        pos >= lines.len() || code_block_begin(lines[pos as int]) is Err,
    ensures
        code_block(lines, pos, tag).result == Err::<(Seq<char>, Seq<char>), MdParseErrorView>(
            MdParseErrorView::GeoffreyTagWithoutCodeBlock {
                line_number: tag.line_number,
                text: tag.text,
            },
        ),
{
}

/// A documentation file with a tag without a code block is refused for this
/// tag: where the lines before a tag line make segments, and the tag line,
/// whose attributes are in order, is followed by the end of the text or by
/// a line that opens no code block, the file is refused with its path and
/// the snippet that the tag asks for.
pub proof fn law_tag_without_code_block_is_refused(
    path: Seq<char>,
    pieces: Seq<Seq<char>>,
    lines: Seq<Seq<char>>,
    pos: nat,
    segments: Seq<MdSegmentView>,
)
    requires
        pos < lines.len(),
        tag_envelope(pos, lines[pos as int]) is Ok,
        tag_data(tag_envelope(pos, lines[pos as int])->Ok_0.0) is Ok,
        pos + 1 >= lines.len() || code_block_begin(lines[pos as int + 1]) is Err,
    ensures
        segments_from(pieces, lines, pos, segments) matches Err(refused) && md_error_view(
            path,
            refused.0,
            refused.1,
        ) == GeoffreyErrorView::CodeBlockMustFollowTag(path, snippet_of_tag_line(lines[pos as int])),
{
}

/// The search for the end of a code block fails at the end of the text
/// where no line from `pos` on starts with the backticks, white space
/// aside; the error names the line that opened the code block.
pub proof fn lemma_code_block_never_ends(
    lines: Seq<Seq<char>>,
    pos: nat,
    backticks: Seq<char>,
    begin: ParseContextView,
)
    requires
        forall|l: int| pos <= l < lines.len() ==> !backticks.is_prefix_of(trim(#[trigger] lines[l])),
    ensures
        code_block_end(lines, pos, backticks, begin).result == Err::<Seq<char>, MdParseErrorView>(
            MdParseErrorView::GeoffreyCodeBlockError {
                line_number: begin.line_number,
                text: begin.text,
                error: GeoffreyCodeBlockParseErrorView::UnmatchedBackticks,
            },
        ),
    decreases lines.len() - pos,
{
    if pos < lines.len() {
        lemma_code_block_never_ends(lines, pos + 1, backticks, begin);
    }
}

/// A documentation file with a code block that never ends is refused for
/// the tag of the code block: where a tag line, whose attributes are in
/// order, is followed by a line that opens a code block, and no line behind
/// starts with the backticks of the fence, the file is refused with its
/// path and the snippet that the tag asks for.
pub proof fn law_code_block_without_end_is_refused(
    path: Seq<char>,
    pieces: Seq<Seq<char>>,
    lines: Seq<Seq<char>>,
    pos: nat,
    segments: Seq<MdSegmentView>,
)
    requires
        pos + 1 < lines.len(),
        tag_envelope(pos, lines[pos as int]) is Ok,
        tag_data(tag_envelope(pos, lines[pos as int])->Ok_0.0) is Ok,
        code_block_begin(lines[pos as int + 1]) is Ok,
        forall|l: int|
            pos + 1 < l < lines.len() ==> !code_block_begin(lines[pos as int + 1])->Ok_0.1.is_prefix_of(
                trim(#[trigger] lines[l]),
            ),
    ensures
        segments_from(pieces, lines, pos, segments) matches Err(refused) && md_error_view(
            path,
            refused.0,
            refused.1,
        ) == GeoffreyErrorView::CodeBlockEndMissing(path, snippet_of_tag_line(lines[pos as int])),
{
    let opening = lines[pos as int + 1];
    lemma_code_block_never_ends(
        lines,
        pos + 2,
        code_block_begin(opening)->Ok_0.1,
        ParseContextView { line_number: pos + 2, text: opening },
    );
}

/// A text without a tag has a section for every line: if no line of the
/// text has the envelope of a tag, the sections of the text are its lines,
/// each as a line of text.
pub proof fn law_text_without_tags_has_a_section_for_every_line(text: Seq<char>)
    requires
        holds_no_tag(text),
    ensures
        sections_of(text) == Ok::<Seq<SectionView>, MdParseErrorView>(
            Seq::new(lines_of(text).len(), |i: int| SectionView::TextLine(lines_of(text)[i])),
        ),
{
    lemma_text_lines_are_sections(lines_of(text), 0, Seq::empty());
    assert(Seq::<SectionView>::empty() + text_lines(lines_of(text), 0) =~= Seq::new(
        lines_of(text).len(),
        |i: int| SectionView::TextLine(lines_of(text)[i]),
    ));
}

/// The lines from the one with the index `pos` on, each as a section of
/// text.
pub open spec fn text_lines(lines: Seq<Seq<char>>, pos: nat) -> Seq<SectionView> {
    Seq::new((lines.len() - pos) as nat, |k: int| SectionView::TextLine(lines[pos + k]))
}

/// Lines without the envelope of a tag are sections of text, one each.
pub proof fn lemma_text_lines_are_sections(
    lines: Seq<Seq<char>>,
    pos: nat,
    sections: Seq<SectionView>,
)
    requires
        pos <= lines.len(),
        forall|i: int|
            pos <= i < lines.len() ==> tag_envelope(i as nat, #[trigger] lines[i]) == Err::<
                (Seq<char>, nat),
                MdParseErrorView,
            >(MdParseErrorView::NotAGeoffreyTag),
    ensures
        sections_from(lines, pos, sections) == Ok::<Seq<SectionView>, MdParseErrorView>(
            sections + text_lines(lines, pos),
        ),
    decreases lines.len() - pos,
{
    if pos < lines.len() {
        let line = lines[pos as int];
        lemma_text_lines_are_sections(lines, pos + 1, sections.push(SectionView::TextLine(line)));
        assert(sections.push(SectionView::TextLine(line)) + text_lines(lines, pos + 1)
            =~= sections + text_lines(lines, pos));
    } else {
        assert(sections + text_lines(lines, pos) =~= sections);
    }
}

/// The first segment that fails gives the error of the file: where every
/// segment from the one with the index `from` to the one with the index
/// `failing` gives its text and that one fails, the segments from `from` on
/// fail with its error.
pub proof fn lemma_first_failing_segment(
    segments: Seq<MdSegmentView>,
    content: Seq<(Seq<char>, ContentView)>,
    from: nat,
    failing: nat,
)
    requires
        from <= failing < segments.len(),
        forall|j: int| from <= j < failing ==> synced_segment(#[trigger] segments[j], content) is Ok,
        synced_segment(segments[failing as int], content) is Err,
    ensures
        synced_from(segments, content, from) == Err::<Seq<char>, GeoffreyErrorView>(
            synced_segment(segments[failing as int], content)->Err_0,
        ),
    decreases failing - from,
{
    if from < failing {
        lemma_first_failing_segment(segments, content, from + 1, failing);
    }
}

/// A run with a missing snippet fails: where a segment of a documentation
/// file asks for a snippet of a content file that is held, by a tag that no
/// snippet of that file has, and every segment before gives its text, the
/// file cannot be brought up to date: the error holds the path of the
/// content file and the tag, and no text is given for the file.
pub proof fn law_run_with_a_missing_snippet_fails(
    segments: Seq<MdSegmentView>,
    content: Seq<(Seq<char>, ContentView)>,
    failing: nat,
    tag: Seq<char>,
)
    requires
        failing < segments.len(),
        forall|j: int| 0 <= j < failing ==> synced_segment(#[trigger] segments[j], content) is Ok,
        segments[failing as int].snippet_id matches Some(id) && content_at(content, id.path, 0)
            matches Some(file) && find_from(file.root.nested, tag, 0) is None && (id.tag
            == SnippetView::FullBlock { id: tag } || (id.tag matches SnippetView::ElidedBlock {
            main_id,
            ..
        } && main_id == tag)),
    ensures
        synced_text(segments, content) == Err::<Seq<char>, GeoffreyErrorView>(
            GeoffreyErrorView::ContentSnippetNotFound(
                segments[failing as int].snippet_id->0.path,
                tag,
            ),
        ),
{
    lemma_first_failing_segment(segments, content, 0, failing);
}

/// A run in which a documentation file fails gives no text at all: where
/// every file from the one with the index `from` to the one with the index
/// `failing` can be brought up to date and that one cannot, the run fails
/// with its error.
pub proof fn law_first_failing_file_fails_the_run(
    files: Seq<MdFileView>,
    content: Seq<(Seq<char>, ContentView)>,
    from: nat,
    failing: nat,
)
    requires
        from <= failing < files.len(),
        forall|j: int| from <= j < failing ==> synced_text((#[trigger] files[j]).segments, content) is Ok,
        synced_text(files[failing as int].segments, content) is Err,
    ensures
        synced_files(files, content, from) == Err::<
            Seq<(Seq<char>, Seq<char>)>,
            GeoffreyErrorView,
        >(synced_text(files[failing as int].segments, content)->Err_0),
    decreases failing - from,
{
    if from < failing {
        law_first_failing_file_fails_the_run(files, content, from + 1, failing);
    }
}

/// Whether no line of `text` has the envelope of a tag.
pub open spec fn holds_no_tag(text: Seq<char>) -> bool {
    forall|i: int|
        0 <= i < lines_of(text).len() ==> tag_envelope(i as nat, #[trigger] lines_of(text)[i])
            == Err::<(Seq<char>, nat), MdParseErrorView>(MdParseErrorView::NotAGeoffreyTag)
}

/// Lines without the envelope of a tag go to the end of the segment that
/// was begun, as they stand in the text.
pub proof fn lemma_text_lines_are_one_segment(
    pieces: Seq<Seq<char>>,
    lines: Seq<Seq<char>>,
    pos: nat,
    text: Seq<char>,
)
    requires
        pos <= lines.len() == pieces.len(),
        forall|i: int|
            pos <= i < lines.len() ==> tag_envelope(i as nat, #[trigger] lines[i]) == Err::<
                (Seq<char>, nat),
                MdParseErrorView,
            >(MdParseErrorView::NotAGeoffreyTag),
    ensures
        segments_from(pieces, lines, pos, seq![MdSegmentView { text, snippet_id: None }]) == Ok::<
            Seq<MdSegmentView>,
            (Seq<char>, MdParseErrorView),
        >(seq![MdSegmentView { text: text + concat(pieces.skip(pos as int)), snippet_id: None }]),
    decreases lines.len() - pos,
{
    let begun = seq![MdSegmentView { text, snippet_id: None }];
    if pos < lines.len() {
        let piece = pieces[pos as int];
        assert(add_text(begun, piece) =~= seq![
            MdSegmentView { text: text + piece, snippet_id: None },
        ]);
        lemma_text_lines_are_one_segment(pieces, lines, pos + 1, text + piece);
        assert(pieces.skip(pos as int)[0] == piece);
        assert(pieces.skip(pos as int).drop_first() =~= pieces.skip(pos as int + 1));
        assert(text + piece + concat(pieces.skip(pos as int + 1)) =~= text + concat(
            pieces.skip(pos as int),
        ));
    } else {
        assert(text + concat(pieces.skip(pos as int)) =~= text);
    }
}

/// A documentation file without a tag stays as it is: if no line of the
/// text has the envelope of a tag, the text parses, and its segments put
/// together again are the text, whatever the content files.
pub proof fn law_text_without_tags_stays(
    path: Seq<char>,
    text: Seq<char>,
    content: Seq<(Seq<char>, ContentView)>,
)
    requires
        holds_no_tag(text),
    ensures
        md_file_of(path, text) is Ok,
        synced_text(md_file_of(path, text)->Ok_0.segments, content) == Ok::<
            Seq<char>,
            GeoffreyErrorView,
        >(text),
{
    let nothing = Seq::<char>::empty();
    lemma_text_lines_are_one_segment(lines_inclusive(text), lines_of(text), 0, nothing);
    lemma_split_inclusive_concat(text, '\n');
    assert(lines_inclusive(text).skip(0) =~= lines_inclusive(text));
    assert(nothing + text =~= text);
    let segments = seq![MdSegmentView { text, snippet_id: None }];
    assert(synced_from(segments, content, 1) == Ok::<Seq<char>, GeoffreyErrorView>(nothing));
    assert(text + nothing =~= text);
}

} // verus!
