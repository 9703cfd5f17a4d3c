use geoffrey::cpp_snippet_parser;
use geoffrey::documents::{snippet_of_tag, Documents, MdFile, MdSnippetTag};
use geoffrey::error::GeoffreyError;
use geoffrey::lines::{split_lines, split_lines_inclusive, LineCursor};
use geoffrey::md_parser::{
    md_code_block, GeoffreyCodeBlockParseError, GeoffreyTagAttributeParseError,
    GeoffreyTagParseError, MdParseError, ParseContext,
};
use geoffrey::md_parser::{
    geoffrey_attribute, geoffrey_tag_data, geoffrey_tag_envelope, md_code_block_begin, parse,
};
use geoffrey::text::{split_at_first, trim_of, CharClass};

fn run(md: &str, files: &[(&str, &str)]) -> Result<String, GeoffreyError> {
    let mut documents = Documents::new("docs", vec!["docs/readme.md".to_string()])?;
    let paths = documents.parse(&vec![md.to_string()])?;
    for path in paths {
        if let Some((_, text)) = files.iter().find(|(p, _)| *p == path) {
            documents.add_content_file(&path, Documents::parse_content_file(&path, text)?);
        }
    }
    let mut synced = documents.sync()?;
    assert_eq!(synced.len(), 1);
    let (path, text) = synced.remove(0);
    assert_eq!(path, "docs/readme.md");
    Ok(text)
}

#[test]
fn valid_snippet_tags() {
}

#[test]
fn source_file_has_no_sections() {
    assert_eq!(cpp_snippet_parser::parse(""), Ok(vec![]));
    assert_eq!(cpp_snippet_parser::parse("int x;\n//! [a]\n```\n"), Ok(vec![]));
}

#[test]
fn sync_fills_the_fenced_block_with_the_region() {
    let text = run(
        "<!-- [geoffrey] [foo.cpp] [bar] -->\n```\n```\n",
        &[("foo.cpp", "//! [bar]\nint x;\n//! [bar]")],
    )
    .unwrap();
    assert_eq!(text, "<!-- [geoffrey] [foo.cpp] [bar] -->\n```\nint x;\n```\n");
}

#[test]
fn sync_replaces_what_the_block_held() {
    let text = run(
        "# Title\n\n<!-- [geoffrey] [foo.cpp] [bar] -->\n```cpp\nint old;\nint older;\n```\nThe end.\n",
        &[("foo.cpp", "int a;\n//! [bar]\nint x;\n//! [bar]\n")],
    )
    .unwrap();
    assert_eq!(
        text,
        "# Title\n\n<!-- [geoffrey] [foo.cpp] [bar] -->\n```cpp\nint x;\n```\nThe end.\n"
    );
}

#[test]
fn sync_of_text_without_tags_gives_the_text() {
    let md = "# Title\n\nSome text.\n```\ncode\n```\n<!-- a comment -->\n";
    assert_eq!(run(md, &[]).unwrap(), md);
    assert_eq!(run("", &[]).unwrap(), "");
    assert_eq!(run("\n", &[]).unwrap(), "\n");
}

#[test]
fn sync_keeps_the_line_endings() {
    assert_eq!(run("one\r\ntwo", &[]).unwrap(), "one\r\ntwo");
    assert_eq!(run("one\n\ntwo\r", &[]).unwrap(), "one\n\ntwo\r");
}

#[test]
fn sync_keeps_the_fence_lines_as_they_stand() {
    let text = run(
        "<!-- [geoffrey] [foo.cpp] -->\r\n   ```cpp  \r\nold\r\n ```\t\r\nend",
        &[("foo.cpp", "int x;\n")],
    )
    .unwrap();
    assert_eq!(text, "<!-- [geoffrey] [foo.cpp] -->\r\n   ```cpp  \r\nint x;\n ```\t\r\nend");
}

#[test]
fn sync_of_a_block_that_ends_the_file() {
    let text = run("<!-- [geoffrey] [foo.cpp] -->\n```\n```", &[("foo.cpp", "int x;\n")]).unwrap();
    assert_eq!(text, "<!-- [geoffrey] [foo.cpp] -->\n```\nint x;\n```");
}

#[test]
fn sync_keeps_the_indentation_of_the_tag() {
    let text = run(
        "- item\n  <!-- [geoffrey] [foo.cpp] -->\n  ````cpp\n  ```\n  ````\n",
        &[("foo.cpp", "int x;\n")],
    )
    .unwrap();
    assert_eq!(text, "- item\n  <!-- [geoffrey] [foo.cpp] -->\n  ````cpp\nint x;\n  ````\n");
}

#[test]
fn sync_with_whole_file_and_elided_region() {
    let source = "//! [m]\na\n//! [x]\nb\n//! [x]\n//! [m]\n";
    let text = run(
        "<!-- [geoffrey] [foo.cpp] -->\n```\n```\n<!-- [geoffrey] [foo.cpp] [[m]] -->\n```\n```\n<!-- [geoffrey] [foo.cpp] [[m][x]] -->\n```\n```\n",
        &[("foo.cpp", source)],
    )
    .unwrap();
    assert_eq!(
        text,
        "<!-- [geoffrey] [foo.cpp] -->\n```\na\nb\n```\n<!-- [geoffrey] [foo.cpp] [[m]] -->\n```\na\n// ...\n```\n<!-- [geoffrey] [foo.cpp] [[m][x]] -->\n```\na\nb\n```\n"
    );
}

#[test]
fn sync_without_the_content_file_fails() {
    match run("<!-- [geoffrey] [foo.cpp] [bar] -->\n```\n```\n", &[]) {
        Err(GeoffreyError::ContentFileNotFound(path)) => assert_eq!(path, "foo.cpp"),
        other => panic!("unexpected: {:?}", other),
    }
}

#[test]
fn sync_without_the_region_fails() {
    match run(
        "<!-- [geoffrey] [src/foo.cpp] [bar] -->\n```\n```\n",
        &[("src/foo.cpp", "//! [baz]\nint x;\n//! [baz]\n")],
    ) {
        Err(GeoffreyError::ContentSnippetNotFound(path, tag)) => {
            assert_eq!(path, "src/foo.cpp");
            assert_eq!(tag, "bar");
        }
        other => panic!("unexpected: {:?}", other),
    }
}

#[test]
fn tag_without_code_block_names_the_file_and_the_tag() {
    let parse = |text: &str| {
        let mut documents = Documents::new("docs", vec!["docs/readme.md".to_string()]).unwrap();
        documents.parse(&vec![text.to_string()])
    };
    for (text, tag) in [
        ("text\n<!-- [geoffrey] [foo.cpp] -->\n\n```\n```\n", ""),
        ("<!-- [geoffrey] [foo.cpp] [bar] -->", "bar"),
        ("<!-- [geoffrey] [foo.cpp] [ bar ] -->\n", "bar"),
        ("<!-- [geoffrey] [foo.cpp] [bar] -->\nx\n```\n```\n", "bar"),
        ("<!-- [geoffrey] [foo.cpp] [bar] -->\n``\n``\n", "bar"),
        ("<!-- [geoffrey] [foo.cpp] [bar] -->\n~~~\n~~~\n", "bar"),
        ("<!-- [geoffrey] [foo.cpp] [bar] -->\n```cpp rs\n```\n", "bar"),
        ("<!-- [geoffrey] [foo.cpp] [bar] -->\n```c++\n```\n", "bar"),
        ("  <!-- [geoffrey] [foo.cpp] [[m] [s] [t]] -->\ntext\n", "[m] [s] [t]"),
    ] {
        match parse(text) {
            Err(GeoffreyError::CodeBlockMustFollowTag(path, found)) => {
                assert_eq!(path, "docs/readme.md");
                assert_eq!(found, tag);
            }
            other => panic!("unexpected: {:?}", other),
        }
    }
}

#[test]
fn code_block_that_never_ends_names_the_file_and_the_tag() {
    let parse = |text: &str| {
        let mut documents = Documents::new("docs", vec!["docs/readme.md".to_string()]).unwrap();
        documents.parse(&vec![text.to_string()])
    };
    for (text, tag) in [
        ("<!-- [geoffrey] [foo.cpp] -->\n```\n", ""),
        ("text\n<!-- [geoffrey] [foo.cpp] [bar] -->\n```cpp\nint x;\n``\n", "bar"),
        ("<!-- [geoffrey] [foo.cpp] [[m][s]] -->\n````\n```\n", "[m][s]"),
    ] {
        match parse(text) {
            Err(GeoffreyError::CodeBlockEndMissing(path, found)) => {
                assert_eq!(path, "docs/readme.md");
                assert_eq!(found, tag);
            }
            other => panic!("unexpected: {:?}", other),
        }
    }
}

#[test]
fn closing_fence_that_does_not_match_names_the_file_and_the_line() {
    let mut documents = Documents::new("docs", vec!["docs/readme.md".to_string()]).unwrap();
    match documents.parse(&vec!["text\n<!-- [geoffrey] [foo.cpp] -->\n```\n````\n".to_string()]) {
        Err(GeoffreyError::MarkdownError(
            path,
            MdParseError::GeoffreyCodeBlockError { line_number, text, error },
        )) => {
            assert_eq!(path, "docs/readme.md");
            assert_eq!(line_number, 4);
            assert_eq!(text, "`");
            assert_eq!(error, GeoffreyCodeBlockParseError::InvalidBackticksEnd);
        }
        other => panic!("unexpected: {:?}", other),
    }
}

#[test]
fn line_after_a_tag_that_opens_no_fence_is_a_missing_code_block() {
    let tag_context =
        ParseContext { line_number: 42, text: "<!-- [geoffrey] [foo.cpp] -->" };
    for text in ["x\n```\n```\n", "", "\n```\n```\n", "``\n``\n", "~~~\n~~~\n", "``` ```", "```c++\n```\n"] {
        let mut lines = LineCursor::new(text);
        assert_eq!(
            md_code_block(&mut lines, tag_context),
            Err(MdParseError::GeoffreyTagWithoutCodeBlock {
                line_number: 42,
                text: "<!-- [geoffrey] [foo.cpp] -->".to_string(),
            })
        );
    }
}

#[test]
fn snippet_of_a_tag_line() {
    assert_eq!(snippet_of_tag("<!-- [geoffrey] [foo.cpp] -->"), "");
    assert_eq!(snippet_of_tag("  <!-- [geoffrey] [foo.cpp]  [ bar ]  -->  "), "bar");
    assert_eq!(snippet_of_tag("<!-- [geoffrey] [foo.cpp] [[m] [s]] -->"), "[m] [s]");
    assert_eq!(snippet_of_tag("<!-- [geoffrey] [foo.cpp] [bar -->"), "[bar");
    assert_eq!(snippet_of_tag("<!-- [geoffrey] foo.cpp -->"), "");
    assert_eq!(snippet_of_tag("text"), "");
}

#[test]
fn parse_names_every_quoted_file_once() {
    let mut documents =
        Documents::new("docs", vec!["a.md".to_string(), "b.md".to_string()]).unwrap();
    let paths = documents
        .parse(&vec![
            "<!-- [geoffrey] [x.cpp] -->\n```\n```\n<!-- [geoffrey] [y.cpp] [t] -->\n```\n```\n"
                .to_string(),
            "<!-- [geoffrey] [y.cpp] -->\n```\n```\n<!-- [geoffrey] [z.cpp] -->\n```\n```\n"
                .to_string(),
        ])
        .unwrap();
    assert_eq!(paths, vec!["x.cpp", "y.cpp", "z.cpp"]);
}

#[test]
fn content_file_added_last_counts() {
    let mut documents = Documents::new("docs", vec!["a.md".to_string()]).unwrap();
    documents.parse(&vec!["<!-- [geoffrey] [x.cpp] -->\n```\n```\n".to_string()]).unwrap();
    documents.add_content_file("x.cpp", Documents::parse_content_file("x.cpp", "old\n").unwrap());
    documents.add_content_file("y.cpp", Documents::parse_content_file("y.cpp", "other\n").unwrap());
    documents.add_content_file("x.cpp", Documents::parse_content_file("x.cpp", "new\n").unwrap());
    assert_eq!(
        documents.sync().unwrap(),
        vec![("a.md".to_string(), "<!-- [geoffrey] [x.cpp] -->\n```\nnew\n```\n".to_string())]
    );
}

#[test]
fn documents_document_new_with_empty_dir_as_path_fails() {
    match Documents::new("/tmp/geoffrey", vec![]) {
        Err(GeoffreyError::NoMarkdownFilesInPath(_)) => (),
        _ => panic!("Document::new with empty dir as path should fail!"),
    }
}

#[test]
fn documents_document_new_with_file_as_path_but_not_md_file_fails() {
    match Documents::is_md_file("/tmp/geoffrey/hypnotoad.txt".to_string(), Some("txt")) {
        Err(GeoffreyError::NotAMarkdownFile(_)) => (),
        _ => panic!("Document::new with file as path path but not md file should fail!"),
    }
}

#[test]
fn documents_document_new_with_file_as_path_which_is_md_file_succeeds() {
    let doc_path = "/tmp/geoffrey/hypnotoad.md".to_string();
    let md_file = Documents::is_md_file(doc_path.clone(), Some("md")).unwrap();
    let documents = Documents::new(&doc_path, vec![md_file]).unwrap();
    assert_eq!(documents.md_files().len(), 1);
    assert_eq!(documents.md_files()[0].path, doc_path);
}

#[test]
fn documents_document_new_with_dir_as_path_and_single_md_file_succeeds() {
    let doc_path = "/tmp/geoffrey".to_string();
    let md_file = "/tmp/geoffrey/hypnotoad.md".to_string();
    let found = Documents::is_md_file(md_file.clone(), Some("md")).unwrap();
    let documents = Documents::new(&doc_path, vec![found]).unwrap();
    assert_eq!(documents.md_files().len(), 1);
    assert_eq!(documents.md_files()[0].path, md_file);
}

#[test]
fn documents_document_new_with_dir_as_path_and_md_file_in_nested_dir_succeeds() {
    let md_file_1 = "/tmp/geoffrey/brain_slug.md".to_string();
    let md_file_2 = "/tmp/geoffrey/hypnotoad/hypnotoad.md".to_string();
    let documents =
        Documents::new("/tmp/geoffrey", vec![md_file_2.clone(), md_file_1.clone()]).unwrap();
    assert_eq!(documents.md_files().len(), 2);
    let mut files = documents.md_files().iter().map(|f| f.path.clone()).collect::<Vec<String>>();
    files.sort();
    assert_eq!(files[0], md_file_1);
    assert_eq!(files[1], md_file_2);
}

#[test]
fn documents_document_new_with_dir_as_path_and_multiple_md_file_succeeds() {
    let md_file_1 = "/tmp/geoffrey/brain_slug.md".to_string();
    let md_file_2 = "/tmp/geoffrey/hypnotoad.md".to_string();
    let documents =
        Documents::new("/tmp/geoffrey", vec![md_file_1.clone(), md_file_2.clone()]).unwrap();
    assert_eq!(documents.md_files().len(), 2);
    let mut files = documents.md_files().iter().map(|f| f.path.clone()).collect::<Vec<String>>();
    files.sort();
    assert_eq!(files[0], md_file_1);
    assert_eq!(files[1], md_file_2);
}

#[test]
fn documents_without_markdown_files_fail() {
    match Documents::new("docs", vec![]) {
        Err(GeoffreyError::NoMarkdownFilesInPath(path)) => assert_eq!(path, "docs"),
        other => panic!("unexpected: {:?}", other),
    }
}

#[test]
fn markdown_files_by_extension() {
    assert_eq!(Documents::is_md_file("a.md".to_string(), Some("md")).unwrap(), "a.md");
    assert_eq!(Documents::is_md_file("a.MD".to_string(), Some("MD")).unwrap(), "a.MD");
    assert_eq!(Documents::is_md_file("a.Md".to_string(), Some("Md")).unwrap(), "a.Md");
    assert!(matches!(
        Documents::is_md_file("hypnotoad.txt".to_string(), Some("txt")),
        Err(GeoffreyError::NotAMarkdownFile(path)) if path == "hypnotoad.txt"
    ));
    assert!(matches!(
        Documents::is_md_file("hypnotoad".to_string(), None),
        Err(GeoffreyError::NotAMarkdownFile(_))
    ));
    assert!(matches!(
        Documents::is_md_file("a.mdx".to_string(), Some("mdx")),
        Err(GeoffreyError::NotAMarkdownFile(_))
    ));
}

#[test]
fn segments_of_a_markdown_file() {
    let file = Documents::parse_single_md_file(
        "a.md",
        "one\n  <!-- [geoffrey] [x.cpp] [[m] [s]] -->\n  ```cpp\n  old\n  ```\ntwo\n",
    )
    .unwrap();
    assert_eq!(file.path, "a.md");
    assert_eq!(file.segments.len(), 2);
    assert_eq!(
        file.segments[0].text,
        "one\n  <!-- [geoffrey] [x.cpp] [[m] [s]] -->\n  ```cpp\n"
    );
    let id = file.segments[0].snippet_id.as_ref().unwrap();
    assert_eq!(id.path, "x.cpp");
    match &id.tag {
        MdSnippetTag::ElidedSnippet { main, sub } => {
            assert_eq!(main, "m");
            assert_eq!(sub, &vec!["s".to_string()]);
        }
        other => panic!("unexpected: {:?}", other),
    }
    assert_eq!(file.segments[1].text, "  ```\ntwo\n");
    assert!(file.segments[1].snippet_id.is_none());
    let empty = MdFile::new("b.md".to_string());
    assert_eq!(empty.path, "b.md");
    assert!(empty.segments.is_empty());
}

#[test]
fn fence_of_three_closed_by_four_fails() {
    let mut lines = LineCursor::new("```\n````\n");
    let tag_context =
        ParseContext { line_number: 1, text: "<!-- [geoffrey] [foo.cpp] -->" };
    assert_eq!(
        md_code_block(&mut lines, tag_context),
        Err(MdParseError::GeoffreyCodeBlockError {
            line_number: 2,
            text: "`".to_string(),
            error: GeoffreyCodeBlockParseError::InvalidBackticksEnd,
        })
    );
}

#[test]
fn fence_of_four_closed_by_four_succeeds() {
    let mut lines = LineCursor::new("````\n```\n````\nrest\n");
    assert_eq!(md_code_block(&mut lines, ParseContext::default()), Ok(("````", "````")));
    assert_eq!(lines.remaining(), vec![(3, "rest")]);
}

#[test]
fn fence_that_never_closes_names_the_opening_line() {
    let mut lines = LineCursor::new("text\n ```cpp\nint x;\n``\n");
    assert_eq!(lines.next(), Some((0, "text")));
    assert_eq!(
        md_code_block(&mut lines, ParseContext::default()),
        Err(MdParseError::GeoffreyCodeBlockError {
            line_number: 2,
            text: " ```cpp".to_string(),
            error: GeoffreyCodeBlockParseError::UnmatchedBackticks,
        })
    );
    assert_eq!(lines.count(), 0);
}

#[test]
fn errors_of_the_opening_fence() {
    assert_eq!(md_code_block_begin(""), Err(GeoffreyCodeBlockParseError::NotCodeBlockBegin));
    assert_eq!(md_code_block_begin(" \t "), Err(GeoffreyCodeBlockParseError::NotCodeBlockBegin));
    assert_eq!(
        md_code_block_begin("``` cpp"),
        Err(GeoffreyCodeBlockParseError::InappropriateCodeBlockRemainder {
            remainder: "cpp".to_string()
        })
    );
    assert_eq!(md_code_block_begin("``"), Err(GeoffreyCodeBlockParseError::InvalidBackticksCount));
    assert_eq!(md_code_block_begin("~~~"), Err(GeoffreyCodeBlockParseError::InvalidBackticksCount));
    assert_eq!(
        md_code_block_begin("```c++"),
        Err(GeoffreyCodeBlockParseError::InvalidLanguageSpecifier { remainder: "++".to_string() })
    );
}

#[test]
fn errors_of_an_attribute() {
    assert_eq!(geoffrey_attribute("foo"), Err(GeoffreyTagAttributeParseError::NotAnAttribute));
    assert_eq!(geoffrey_attribute("[foo"), Err(GeoffreyTagAttributeParseError::UnmatchedBracket));
    assert_eq!(geoffrey_attribute("[]"), Err(GeoffreyTagAttributeParseError::UnmatchedBracket));
    assert_eq!(geoffrey_attribute("[[foo]"), Err(GeoffreyTagAttributeParseError::Empty));
    assert_eq!(geoffrey_attribute("[foo[]"), Err(GeoffreyTagAttributeParseError::InvalidCharacter));
    assert_eq!(geoffrey_attribute("[ ]"), Err(GeoffreyTagAttributeParseError::Empty));
    assert_eq!(geoffrey_attribute("[ \t ] x"), Err(GeoffreyTagAttributeParseError::Empty));
    assert_eq!(geoffrey_tag_data("[foo.cpp] [ ]"), Err(GeoffreyTagParseError::InvalidFullBlockSnippet));
    assert_eq!(
        geoffrey_tag_data("[ ] [bar]"),
        Err(GeoffreyTagParseError::InvalidFileName {
            tag_data: "[ ] [bar]".to_string(),
            error: GeoffreyTagAttributeParseError::Empty,
        })
    );
}

#[test]
fn errors_of_the_tag_data() {
    assert_eq!(
        geoffrey_tag_data(" foo"),
        Err(GeoffreyTagParseError::InvalidFileName {
            tag_data: " foo".to_string(),
            error: GeoffreyTagAttributeParseError::NotAnAttribute,
        })
    );
    assert_eq!(
        geoffrey_tag_data("[foo.cpp] [bar] baz"),
        Err(GeoffreyTagParseError::InappropriateSnippetRemainder)
    );
    assert_eq!(geoffrey_tag_data("[foo.cpp] bar"), Err(GeoffreyTagParseError::InvalidFullFileSnippet));
    assert_eq!(geoffrey_tag_data("[foo.cpp] [bar"), Err(GeoffreyTagParseError::InvalidFullBlockSnippet));
    assert_eq!(
        geoffrey_tag_data("[foo.cpp] [[]]"),
        Err(GeoffreyTagParseError::InvalidSnippetMainId {
            error: GeoffreyTagAttributeParseError::UnmatchedBracket,
        })
    );
    assert_eq!(
        geoffrey_tag_data("[foo.cpp] [[a][]]"),
        Err(GeoffreyTagParseError::InvalidSnippetSubIds {
            error: GeoffreyTagAttributeParseError::UnmatchedBracket,
        })
    );
    assert_eq!(
        geoffrey_tag_data("[foo.cpp] [[a] b]"),
        Err(GeoffreyTagParseError::UnmatchedNestedBrackets)
    );
}

#[test]
fn errors_of_the_envelope() {
    assert_eq!(geoffrey_tag_envelope(0, "text"), Err(MdParseError::NotAGeoffreyTag));
    assert_eq!(geoffrey_tag_envelope(0, "<!-- other -->"), Err(MdParseError::NotAGeoffreyTag));
    assert_eq!(geoffrey_tag_envelope(0, "<!---->"), Err(MdParseError::NotAGeoffreyTag));
    assert_eq!(geoffrey_tag_envelope(0, "<!-- [geoffrey] -- "), Err(MdParseError::NotAGeoffreyTag));
    assert_eq!(geoffrey_tag_envelope(6, "<!-- other --> bar"), Err(MdParseError::NotAGeoffreyTag));
    assert_eq!(geoffrey_tag_envelope(6, "<!-- a > b --> bar"), Err(MdParseError::NotAGeoffreyTag));
    assert_eq!(
        geoffrey_tag_envelope(6, "<!-- [geoffrey] [foo.cpp] --> \tbar "),
        Err(MdParseError::GeoffreyTagError {
            line_number: 7,
            text: " \tbar ".to_string(),
            error: GeoffreyTagParseError::InappropriateTagRemainder {
                remainder: "bar ".to_string()
            },
        })
    );
}

#[test]
fn comment_is_read_up_to_its_end() {
    assert_eq!(
        geoffrey_tag_envelope(0, "<!-- [geoffrey] [foo-bar.cpp] -->"),
        Ok((" [foo-bar.cpp] ", 0))
    );
    assert_eq!(
        geoffrey_tag_envelope(0, " <!--[geoffrey][a->b.cpp][x > y]-->"),
        Ok(("[a->b.cpp][x > y]", 1))
    );
    assert_eq!(
        geoffrey_tag_envelope(0, "<!-- [geoffrey] [a] --> <!-- b -->"),
        Err(MdParseError::GeoffreyTagError {
            line_number: 1,
            text: " <!-- b -->".to_string(),
            error: GeoffreyTagParseError::InappropriateTagRemainder {
                remainder: "<!-- b -->".to_string()
            },
        })
    );
    let text = run(
        "<!-- [geoffrey] [foo-bar.cpp] [a-b] -->\n```\n```\n",
        &[("foo-bar.cpp", "//! [a-b]\nint x;\n//! [a-b]\n")],
    )
    .unwrap();
    assert_eq!(text, "<!-- [geoffrey] [foo-bar.cpp] [a-b] -->\n```\nint x;\n```\n");
}

#[test]
fn comment_without_the_marker_is_text() {
    let md = "<!-- note --> and text\n<!-- a -- b -->\n<!--x--><!--y-->\n";
    assert_eq!(run(md, &[]).unwrap(), md);
}

#[test]
fn text_is_found_in_a_text() {
    assert_eq!(split_at_first("a-->b-->c", "-->"), Some(("a", "b-->c")));
    assert_eq!(split_at_first("-->", "-->"), Some(("", "")));
    assert_eq!(split_at_first("a--->", "-->"), Some(("a-", "")));
    assert_eq!(split_at_first("a--", "-->"), None);
    assert_eq!(split_at_first("", "-->"), None);
    assert_eq!(split_at_first("abc", ""), Some(("", "abc")));
    assert_eq!(split_at_first("", ""), Some(("", "")));
    assert_eq!(split_at_first("\u{e9}\u{e9}xy", "xy"), Some(("\u{e9}\u{e9}", "")));
}

#[test]
fn parse_of_a_tag_with_bad_attributes_fails() {
    assert_eq!(
        parse("ok\n<!-- [geoffrey] foo.cpp -->\n```\n```\n"),
        Err(MdParseError::GeoffreyTagError {
            line_number: 2,
            text: "<!-- [geoffrey] foo.cpp -->".to_string(),
            error: GeoffreyTagParseError::InvalidFileName {
                tag_data: " foo.cpp ".to_string(),
                error: GeoffreyTagAttributeParseError::NotAnAttribute,
            },
        })
    );
}

#[test]
fn lines_of_a_text() {
    assert_eq!(split_lines(""), Vec::<&str>::new());
    assert_eq!(split_lines("a"), vec!["a"]);
    assert_eq!(split_lines("a\n"), vec!["a"]);
    assert_eq!(split_lines("a\n\nb\r\nc\r"), vec!["a", "", "b", "c\r"]);
    assert_eq!(split_lines("\r\n\n"), vec!["", ""]);
    assert_eq!(split_lines_inclusive(""), Vec::<&str>::new());
    assert_eq!(split_lines_inclusive("a\n\nb\r\nc"), vec!["a\n", "\n", "b\r\n", "c"]);
    assert_eq!(split_lines_inclusive("a\n"), vec!["a\n"]);
}

#[test]
fn white_space_is_trimmed() {
    assert_eq!(trim_of("  a b \t\r\n"), "a b");
    assert_eq!(trim_of("\u{a0}\u{3000}x\u{2003}\u{85}"), "x");
    assert_eq!(trim_of("\u{200b}x"), "\u{200b}x");
    assert_eq!(trim_of(" \n "), "");
    assert_eq!(trim_of(""), "");
    for c in ['\u{0}', ' ', '\t', '\n', '\u{b}', '\u{c}', '\r', '\u{1c}', 'a', '0', '_', '\u{85}',
        '\u{a0}', '\u{1680}', '\u{180e}', '\u{2000}', '\u{200a}', '\u{200b}', '\u{2028}',
        '\u{2029}', '\u{202f}', '\u{205f}', '\u{3000}', '\u{feff}']
    {
        assert_eq!(CharClass::Whitespace.test(c), c.is_whitespace());
        assert_eq!(CharClass::Alphanumeric.test(c), c.is_ascii_alphanumeric());
    }
}
