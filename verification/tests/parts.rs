use geoffrey::content::{contains_name, find_snippet, ContentFile};
use geoffrey::documents::{find_content, owned_snippet, quoted, Documents, MdSnippetTag};
use geoffrey::elision::mark_lines;
use geoffrey::lines::{strip_ending, LineCursor};
use geoffrey::md_parser::{
    geoffrey_attributes_snippet_elided_block, geoffrey_attributes_snippet_full_block,
    GeoffreyTagParseError, Snippet,
};
use geoffrey::render::{next_tag_line, no_marks, push_stripped, removed_lines, render_lines};
use geoffrey::tag_line::match_tag_lines;
use geoffrey::text::{
    chars_of, is_blank_str, leading, owned, split_run, str_eq, strip_char, strip_prefix,
    trailing, trim_end_of, trim_start_of, CharClass,
};

fn strings(texts: &[&str]) -> Vec<String> {
    texts.iter().map(|t| t.to_string()).collect()
}

fn nested_file() -> ContentFile {
    Documents::parse_content_file(
        "foo.cpp",
        "//! [m]\nx\n\n  //! [a]\n  in a\n  //! [b]\n  in b\n  //! [b]\n  //! [a]\n\n//! [c]\nin c\n//! [c]\n \ny\n//! [m]\n",
    )
    .unwrap()
}

#[test]
fn characters_of_a_text() {
    assert_eq!(chars_of(""), Vec::<char>::new());
    assert_eq!(chars_of("a\u{e9}\u{1f600}"), vec!['a', '\u{e9}', '\u{1f600}']);
    assert_eq!(owned("a\u{e9}"), "a\u{e9}");
}

#[test]
fn runs_at_both_ends() {
    assert_eq!(leading(&chars_of("  \tx "), CharClass::Blank), 3);
    assert_eq!(leading(&chars_of("x"), CharClass::Blank), 0);
    assert_eq!(leading(&chars_of(""), CharClass::Blank), 0);
    assert_eq!(leading(&chars_of("   "), CharClass::Blank), 3);
    assert_eq!(trailing(&chars_of(" x \n"), CharClass::Whitespace), 2);
    assert_eq!(trailing(&chars_of(" \n"), CharClass::Whitespace), 2);
    assert_eq!(leading(&chars_of("ab1-c"), CharClass::Alphanumeric), 3);
    assert_eq!(leading(&chars_of("```cpp"), CharClass::Only('`')), 3);
    assert_eq!(leading(&chars_of("ab]c"), CharClass::Except(']', ']')), 2);
    assert_eq!(leading(&chars_of("ab->"), CharClass::Except('-', '>')), 2);
    assert_eq!(leading(&chars_of("ab>-"), CharClass::Except('-', '>')), 2);
}

#[test]
fn split_after_a_run() {
    assert_eq!(split_run("  ab ", CharClass::Blank), ("  ", "ab "));
    assert_eq!(split_run("ab", CharClass::Blank), ("", "ab"));
    assert_eq!(split_run("\u{e9}\u{e9}x", CharClass::Except('x', 'x')), ("\u{e9}\u{e9}", "x"));
    assert_eq!(split_run("", CharClass::Whitespace), ("", ""));
    assert_eq!(trim_start_of(" \n a "), "a ");
    assert_eq!(trim_end_of(" a \t\n"), " a");
}

#[test]
fn prefixes_are_stripped() {
    assert_eq!(strip_prefix("<!-- x", "<!--"), Some(" x"));
    assert_eq!(strip_prefix("<!-", "<!--"), None);
    assert_eq!(strip_prefix("x<!--", "<!--"), None);
    assert_eq!(strip_prefix("abc", ""), Some("abc"));
    assert_eq!(strip_prefix("abc", "abc"), Some(""));
    assert_eq!(strip_prefix("\u{e9}t\u{e9}", "\u{e9}"), Some("t\u{e9}"));
    assert_eq!(strip_char("[a", '['), Some("a"));
    assert_eq!(strip_char("a[", '['), None);
    assert_eq!(strip_char("", '['), None);
}

#[test]
fn texts_are_compared_and_tested_for_blankness() {
    assert!(str_eq("", ""));
    assert!(str_eq("ab\u{e9}", "ab\u{e9}"));
    assert!(!str_eq("ab", "abc"));
    assert!(!str_eq("abd", "abc"));
    assert!(is_blank_str(""));
    assert!(is_blank_str(" \t\r\n"));
    assert!(!is_blank_str(" x "));
}

#[test]
fn line_endings_are_stripped() {
    assert_eq!(strip_ending("a\n"), "a");
    assert_eq!(strip_ending("a\r\n"), "a");
    assert_eq!(strip_ending("a\r"), "a\r");
    assert_eq!(strip_ending("a"), "a");
    assert_eq!(strip_ending("\n"), "");
    assert_eq!(strip_ending("\r\n"), "");
    assert_eq!(strip_ending(""), "");
    assert_eq!(strip_ending("a\n\r\n"), "a\n");
}

#[test]
fn cursor_counts_the_lines_read() {
    let mut lines = LineCursor::new("a\nb\nc");
    assert_eq!(lines.lines_read(), 0);
    assert_eq!(lines.next(), Some((0, "a")));
    assert_eq!(lines.next(), Some((1, "b")));
    assert_eq!(lines.lines_read(), 2);
    assert_eq!(lines.remaining(), vec![(2, "c")]);
    assert_eq!(lines.next(), Some((2, "c")));
    assert_eq!(lines.next(), None);
    assert_eq!(lines.next(), None);
    assert_eq!(lines.lines_read(), 3);
    assert_eq!(lines.count(), 0);
    assert_eq!(LineCursor::new("a\nb\n").count(), 2);
}

#[test]
fn attribute_parsers_tell_that_another_form_follows() {
    assert_eq!(
        geoffrey_attributes_snippet_elided_block("[foo]"),
        Err(GeoffreyTagParseError::NotEllidedBlockSnippet)
    );
    assert_eq!(
        geoffrey_attributes_snippet_elided_block("foo"),
        Err(GeoffreyTagParseError::NotEllidedBlockSnippet)
    );
    assert_eq!(
        geoffrey_attributes_snippet_full_block("foo"),
        Err(GeoffreyTagParseError::NotFullBlockSnippet)
    );
}

#[test]
fn names_are_found_in_a_list() {
    let names = strings(&["a", "bc", ""]);
    assert!(contains_name(&names, "a"));
    assert!(contains_name(&names, "bc"));
    assert!(contains_name(&names, ""));
    assert!(!contains_name(&names, "b"));
    assert!(!contains_name(&Vec::new(), "a"));
}

#[test]
fn snippets_are_found_at_any_depth() {
    let file = nested_file();
    let nested = &file.root().nested;
    assert_eq!(find_snippet(nested, "m").unwrap().end, 15);
    assert_eq!(find_snippet(nested, "b").unwrap().begin, 5);
    assert_eq!(find_snippet(nested, "c").unwrap().begin, 10);
    assert!(find_snippet(nested, "x").is_none());
    assert!(find_snippet(&find_snippet(nested, "a").unwrap().nested, "c").is_none());
}

#[test]
fn lines_are_marked() {
    let mut marks = no_marks(5);
    assert_eq!(marks, vec![false; 5]);
    mark_lines(&mut marks, 1, 2);
    assert_eq!(marks, vec![false, true, true, false, false]);
    mark_lines(&mut marks, 2, 4);
    assert_eq!(marks, vec![false, true, true, true, true]);
    mark_lines(&mut marks, 0, 0);
    assert_eq!(marks, vec![true; 5]);
    assert_eq!(no_marks(0), Vec::<bool>::new());
}

#[test]
fn collapsed_lines_of_a_snippet() {
    let file = nested_file();
    let main = file.find("m").unwrap();
    let n = file.lines().len();
    let lines = |marks: &Vec<bool>| -> Vec<usize> {
        marks.iter().enumerate().filter(|(_, m)| **m).map(|(i, _)| i).collect()
    };

    let mut elided = no_marks(n);
    assert!(Documents::has_elided_lines(&strings(&["m"]), &mut elided, main));
    assert_eq!(lines(&elided), vec![3, 4, 5, 6, 7, 8, 10, 11, 12]);

    let mut elided = no_marks(n);
    assert!(Documents::has_elided_lines(&strings(&["m", "a"]), &mut elided, main));
    assert_eq!(lines(&elided), vec![5, 6, 7, 10, 11, 12]);

    let mut elided = no_marks(n);
    assert!(Documents::has_elided_lines(&strings(&["b"]), &mut elided, main));
    assert_eq!(lines(&elided), vec![10, 11, 12]);

    let mut elided = no_marks(n);
    assert!(Documents::has_elided_lines(&strings(&["m", "c", "b"]), &mut elided, main));
    assert_eq!(lines(&elided), Vec::<usize>::new());

    let mut elided = no_marks(n);
    elided[1] = true;
    assert!(!Documents::has_elided_lines(&strings(&["z"]), &mut elided, main));
    assert_eq!(lines(&elided), vec![1]);

    let mut elided = no_marks(n);
    assert!(!Documents::has_elided_lines(&strings(&["c"]), &mut elided, file.find("a").unwrap()));
    assert_eq!(lines(&elided), Vec::<usize>::new());
}

#[test]
fn blank_lines_beside_collapsed_lines_are_removed() {
    let lines = strings(&["a\n", "\n", "x\n", " \n", "\n", "b\n", "\n", "y\n", "\n", "\n"]);
    let mut elided = no_marks(10);
    elided[2] = true;
    elided[7] = true;
    let removed = removed_lines(&lines, &elided, 0, 10);
    assert_eq!(
        removed,
        vec![false, true, true, true, true, false, true, true, true, true]
    );
    let removed = removed_lines(&lines, &elided, 1, 9);
    assert_eq!(
        removed,
        vec![false, true, true, true, true, false, true, true, true, false]
    );
    let removed = removed_lines(&lines, &no_marks(10), 0, 10);
    assert_eq!(removed, vec![false; 10]);
    let removed = removed_lines(&lines, &elided, 3, 7);
    assert_eq!(removed, vec![false; 10]);
    let removed = removed_lines(&lines, &elided, 2, 2);
    assert_eq!(removed, vec![false; 10]);
}

#[test]
fn lines_are_rendered() {
    let lines = strings(&["  a\n", "  //! [t]\n", "    b\n", "  //! [t]\n", "c\n"]);
    let tags = match_tag_lines(&lines).unwrap();
    assert_eq!(render_lines(&lines, &tags, &no_marks(5), "  ", 0, 5), "a\n  b\nc\n");
    assert_eq!(render_lines(&lines, &tags, &no_marks(5), "", 2, 3), "    b\n");
    assert_eq!(render_lines(&lines, &tags, &no_marks(5), "", 3, 3), "");
    let removed = vec![false, true, true, true, false];
    assert_eq!(render_lines(&lines, &tags, &removed, "", 0, 5), "  a\n  // ...\nc\n");
    assert_eq!(render_lines(&lines, &tags, &removed, "  ", 0, 5), "a\n// ...\nc\n");
    assert_eq!(render_lines(&lines, &tags, &removed, "", 2, 5), "  // ...\nc\n");
    let removed = vec![true, false, false, false, true];
    assert_eq!(render_lines(&lines, &tags, &removed, "", 0, 5), "  // ...\n    b\n");
    assert_eq!(next_tag_line(&tags, 0, 5).unwrap().tag, "t");
    assert_eq!(next_tag_line(&tags, 2, 5).unwrap().indentation, "  ");
    assert!(next_tag_line(&tags, 4, 5).is_none());
    assert!(next_tag_line(&tags, 0, 1).is_none());
    let mut text = String::from(">");
    push_stripped(&mut text, "  ab", "  ");
    push_stripped(&mut text, " cd", "  ");
    push_stripped(&mut text, "ef", "");
    assert_eq!(text, ">ab cdef");
}

#[test]
fn snippets_are_copied() {
    assert!(matches!(owned_snippet(&Snippet::FullFile), MdSnippetTag::FullFile));
    match owned_snippet(&Snippet::FullBlock { id: "a" }) {
        MdSnippetTag::FullSnippet { main } => assert_eq!(main, "a"),
        other => panic!("unexpected: {:?}", other),
    }
    match owned_snippet(&Snippet::ElidedBlock { main_id: "a", sub_ids: vec!["b", "c"] }) {
        MdSnippetTag::ElidedSnippet { main, sub } => {
            assert_eq!(main, "a");
            assert_eq!(sub, strings(&["b", "c"]));
        }
        other => panic!("unexpected: {:?}", other),
    }
}

#[test]
fn content_files_are_found_by_their_path() {
    let content = vec![
        ("a.cpp".to_string(), Documents::parse_content_file("a.cpp", "one\n").unwrap()),
        ("b.cpp".to_string(), Documents::parse_content_file("b.cpp", "two\nlines\n").unwrap()),
        ("a.cpp".to_string(), Documents::parse_content_file("a.cpp", "1\n2\n3\n").unwrap()),
    ];
    assert_eq!(find_content(&content, "a.cpp").unwrap().lines().len(), 1);
    assert_eq!(find_content(&content, "b.cpp").unwrap().lines().len(), 2);
    assert!(find_content(&content, "c.cpp").is_none());
    assert!(find_content(&Vec::new(), "a.cpp").is_none());
}

#[test]
fn segments_are_put_together() {
    let file = Documents::parse_single_md_file(
        "a.md",
        "one\n<!-- [geoffrey] [a.cpp] -->\n```\n```\n<!-- [geoffrey] [b.cpp] [t] -->\n```\n```\n",
    )
    .unwrap();
    assert_eq!(quoted(&vec![]), Vec::<String>::new());
    let content = vec![
        ("a.cpp".to_string(), Documents::parse_content_file("a.cpp", "in a\n").unwrap()),
        ("b.cpp".to_string(), Documents::parse_content_file("b.cpp", "//! [t]\nin b\n//! [t]\n").unwrap()),
    ];
    assert_eq!(
        Documents::sync_segments(&file.segments, &content).unwrap(),
        "one\n<!-- [geoffrey] [a.cpp] -->\n```\nin a\n```\n<!-- [geoffrey] [b.cpp] [t] -->\n```\nin b\n```\n"
    );
    assert_eq!(Documents::sync_segments(&Vec::new(), &content).unwrap(), "");
    assert_eq!(quoted(&vec![file]), strings(&["a.cpp", "b.cpp"]));
}
