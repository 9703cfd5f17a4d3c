use geoffrey::lines::LineCursor;
use geoffrey::md_parser::{
    geoffrey_attribute, geoffrey_attributes_snippet_elided_block,
    geoffrey_attributes_snippet_full_block, geoffrey_attributes_snippet_full_file,
    geoffrey_attributes_snippet_list, geoffrey_code_block, geoffrey_tag_data,
    geoffrey_tag_envelope, md_code_block, md_code_block_begin, md_code_block_end, parse,
    parse_section, Document, GeoffreyTag, ParseContext, Section, Snippet,
};

#[test]
fn valid_geoffrey_attributes() {
    assert_eq!(geoffrey_attribute("[foo]"), Ok(("", "foo")));
    assert_eq!(geoffrey_attribute(" [foo]"), Ok(("", "foo")));
    assert_eq!(geoffrey_attribute("[foo] "), Ok(("", "foo")));
    assert_eq!(geoffrey_attribute(" [foo] "), Ok(("", "foo")));
    assert_eq!(geoffrey_attribute("\t[foo]\t"), Ok(("", "foo")));
    assert_eq!(geoffrey_attribute("[ foo ]"), Ok(("", "foo")));
    assert_eq!(geoffrey_attribute("[foo bar]"), Ok(("", "foo bar")));
    assert_eq!(geoffrey_attribute("[foo]["), Ok(("[", "foo")));
    assert_eq!(geoffrey_attribute("[foo]]"), Ok(("]", "foo")));
    assert_eq!(geoffrey_attribute("[foo]bar["), Ok(("bar[", "foo")));
    assert_eq!(geoffrey_attribute("[foo]bar]"), Ok(("bar]", "foo")));
    assert_eq!(geoffrey_attribute("[foo]bar"), Ok(("bar", "foo")));
}

#[test]
fn invalid_geoffrey_attributes() {
    assert!(geoffrey_attribute("").is_err());
    assert!(geoffrey_attribute("foo").is_err());
    assert!(geoffrey_attribute("foo[").is_err());
    assert!(geoffrey_attribute("foo[]").is_err());
    assert!(geoffrey_attribute("foo[bar]").is_err());
    assert!(geoffrey_attribute("[]").is_err());
    assert!(geoffrey_attribute("[[]").is_err());
    assert!(geoffrey_attribute("[]]").is_err());
    assert!(geoffrey_attribute("[foo[]").is_err());
    assert!(geoffrey_attribute("[foo[bar]").is_err());
    assert!(geoffrey_attribute("[[foo]").is_err());
    assert!(geoffrey_attribute("[]foo]").is_err());
}

#[test]
fn valid_geoffrey_attributes_snippet_full_file() {
    assert_eq!(
        geoffrey_attributes_snippet_full_file(""),
        Ok(("", Snippet::FullFile))
    );
    assert_eq!(
        geoffrey_attributes_snippet_full_file(" "),
        Ok(("", Snippet::FullFile))
    );
    assert_eq!(
        geoffrey_attributes_snippet_full_file("  "),
        Ok(("", Snippet::FullFile))
    );
    assert_eq!(
        geoffrey_attributes_snippet_full_file("\t"),
        Ok(("", Snippet::FullFile))
    );
    assert_eq!(
        geoffrey_attributes_snippet_full_file(" \t"),
        Ok(("", Snippet::FullFile))
    );
    assert_eq!(
        geoffrey_attributes_snippet_full_file("\t "),
        Ok(("", Snippet::FullFile))
    );
    assert_eq!(
        geoffrey_attributes_snippet_full_file(" \t "),
        Ok(("", Snippet::FullFile))
    );
}

#[test]
fn invalid_geoffrey_attributes_snippet_full_file() {
    assert!(geoffrey_attributes_snippet_full_file("foo").is_err());
    assert!(geoffrey_attributes_snippet_full_file("[foo]").is_err());
}

#[test]
fn valid_geoffrey_attributes_snippet_full_block() {
    assert_eq!(
        geoffrey_attributes_snippet_full_block("[foo]"),
        Ok(("", Snippet::FullBlock { id: "foo" }))
    );
    assert_eq!(
        geoffrey_attributes_snippet_full_block("[foo bar]"),
        Ok(("", Snippet::FullBlock { id: "foo bar" }))
    );
    assert_eq!(
        geoffrey_attributes_snippet_full_block("[foo] bar"),
        Ok(("bar", Snippet::FullBlock { id: "foo" }))
    );
    assert_eq!(
        geoffrey_attributes_snippet_full_block(" [foo] "),
        Ok(("", Snippet::FullBlock { id: "foo" }))
    );
    assert_eq!(
        geoffrey_attributes_snippet_full_block("\t[foo]\t"),
        Ok(("", Snippet::FullBlock { id: "foo" }))
    );
    assert_eq!(
        geoffrey_attributes_snippet_full_block("[foo]["),
        Ok(("[", Snippet::FullBlock { id: "foo" }))
    );
}

#[test]
fn invalid_geoffrey_attributes_snippet_full_block() {
    assert!(geoffrey_attributes_snippet_full_block("foo").is_err());
    assert!(geoffrey_attributes_snippet_full_block("foo[").is_err());
    assert!(geoffrey_attributes_snippet_full_block("[foo[").is_err());
}

#[test]
fn valid_geoffrey_attributes_snippet_elided_block() {
    assert_eq!(
        geoffrey_attributes_snippet_elided_block("[[foo]]"),
        Ok((
            "",
            Snippet::ElidedBlock {
                main_id: "foo",
                sub_ids: vec![]
            }
        ))
    );
    assert_eq!(
        geoffrey_attributes_snippet_elided_block("[[foo bar]]"),
        Ok((
            "",
            Snippet::ElidedBlock {
                main_id: "foo bar",
                sub_ids: vec![]
            }
        ))
    );
    assert_eq!(
        geoffrey_attributes_snippet_elided_block(" [[foo]] "),
        Ok((
            "",
            Snippet::ElidedBlock {
                main_id: "foo",
                sub_ids: vec![]
            }
        ))
    );
    assert_eq!(
        geoffrey_attributes_snippet_elided_block("\t[[foo]]\t"),
        Ok((
            "",
            Snippet::ElidedBlock {
                main_id: "foo",
                sub_ids: vec![]
            }
        ))
    );
    assert_eq!(
        geoffrey_attributes_snippet_elided_block("[[foo][bar]]"),
        Ok((
            "",
            Snippet::ElidedBlock {
                main_id: "foo",
                sub_ids: vec!["bar"]
            }
        ))
    );
    assert_eq!(
        geoffrey_attributes_snippet_elided_block("[[foo] [bar]]"),
        Ok((
            "",
            Snippet::ElidedBlock {
                main_id: "foo",
                sub_ids: vec!["bar"]
            }
        ))
    );
    assert_eq!(
        geoffrey_attributes_snippet_elided_block("[ [foo][bar] ]"),
        Ok((
            "",
            Snippet::ElidedBlock {
                main_id: "foo",
                sub_ids: vec!["bar"]
            }
        ))
    );
    assert_eq!(
        geoffrey_attributes_snippet_elided_block("[[foo]\t[bar]]"),
        Ok((
            "",
            Snippet::ElidedBlock {
                main_id: "foo",
                sub_ids: vec!["bar"]
            }
        ))
    );
    assert_eq!(
        geoffrey_attributes_snippet_elided_block("[ [foo] [bar] ]"),
        Ok((
            "",
            Snippet::ElidedBlock {
                main_id: "foo",
                sub_ids: vec!["bar"]
            }
        ))
    );
    assert_eq!(
        geoffrey_attributes_snippet_elided_block("[ [ foo ] [ bar ] ]"),
        Ok((
            "",
            Snippet::ElidedBlock {
                main_id: "foo",
                sub_ids: vec!["bar"]
            }
        ))
    );
    assert_eq!(
        geoffrey_attributes_snippet_elided_block("[[foo] [bar] [baz]]"),
        Ok((
            "",
            Snippet::ElidedBlock {
                main_id: "foo",
                sub_ids: vec!["bar", "baz"]
            }
        ))
    );
    assert_eq!(
        geoffrey_attributes_snippet_elided_block("[[foo]]bar"),
        Ok((
            "bar",
            Snippet::ElidedBlock {
                main_id: "foo",
                sub_ids: vec![]
            }
        ))
    );
    assert_eq!(
        geoffrey_attributes_snippet_elided_block("[[foo]][bar"),
        Ok((
            "[bar",
            Snippet::ElidedBlock {
                main_id: "foo",
                sub_ids: vec![]
            }
        ))
    );
}

#[test]
fn invalid_geoffrey_attributes_snippet_elided_block() {
    assert!(geoffrey_attributes_snippet_elided_block("foo").is_err());
    assert!(geoffrey_attributes_snippet_elided_block("[foo]").is_err());
    assert!(geoffrey_attributes_snippet_elided_block("[foo]]").is_err());
    assert!(geoffrey_attributes_snippet_elided_block("[[foo] bar]").is_err());
    assert!(geoffrey_attributes_snippet_elided_block("[[foo] bar]]").is_err());
    assert!(geoffrey_attributes_snippet_elided_block("[[foo] [bar]").is_err());
    assert!(geoffrey_attributes_snippet_elided_block("[[foo]-[bar]]").is_err());
    assert!(geoffrey_attributes_snippet_elided_block("[foo][bar]]").is_err());
    assert!(geoffrey_attributes_snippet_elided_block("[[foo][]]").is_err());
}

#[test]
fn valid_geoffrey_attributes_snippet_list() {
    assert_eq!(
        geoffrey_attributes_snippet_list(""),
        Ok(("", Snippet::FullFile))
    );
    assert_eq!(
        geoffrey_attributes_snippet_list("  "),
        Ok(("", Snippet::FullFile))
    );
    assert_eq!(
        geoffrey_attributes_snippet_list("[foo]"),
        Ok(("", Snippet::FullBlock { id: "foo" }))
    );
    assert_eq!(
        geoffrey_attributes_snippet_list("[ foo ]"),
        Ok(("", Snippet::FullBlock { id: "foo" }))
    );
    assert_eq!(
        geoffrey_attributes_snippet_list("[foo] bar"),
        Ok(("bar", Snippet::FullBlock { id: "foo" }))
    );
    assert_eq!(
        geoffrey_attributes_snippet_list("[[foo]]"),
        Ok((
            "",
            Snippet::ElidedBlock {
                main_id: "foo",
                sub_ids: vec![]
            }
        ))
    );
    assert_eq!(
        geoffrey_attributes_snippet_list("[[  foo  ]]"),
        Ok((
            "",
            Snippet::ElidedBlock {
                main_id: "foo",
                sub_ids: vec![]
            }
        ))
    );
    assert_eq!(
        geoffrey_attributes_snippet_list("[[foo][bar]]"),
        Ok((
            "",
            Snippet::ElidedBlock {
                main_id: "foo",
                sub_ids: vec!["bar"]
            }
        ))
    );
    assert_eq!(
        geoffrey_attributes_snippet_list("[[foo]] bar"),
        Ok((
            "bar",
            Snippet::ElidedBlock {
                main_id: "foo",
                sub_ids: vec![]
            }
        ))
    );
}

#[test]
fn invalid_geoffrey_attributes_snippet_list() {
    assert!(geoffrey_attributes_snippet_list("foo").is_err());
    assert!(geoffrey_attributes_snippet_list("foo bar").is_err());
    assert!(geoffrey_attributes_snippet_list("[foo").is_err());
    assert!(geoffrey_attributes_snippet_list("foo[").is_err());
    assert!(geoffrey_attributes_snippet_list("[foo[").is_err());
    assert!(geoffrey_attributes_snippet_list("[]").is_err());
    assert!(geoffrey_attributes_snippet_list("[[foo[").is_err());
    assert!(geoffrey_attributes_snippet_list("[[foo][").is_err());
    assert!(geoffrey_attributes_snippet_list("[[foo][]]").is_err());
    assert!(geoffrey_attributes_snippet_list("[[]]").is_err());
}

#[test]
fn valid_geoffrey_tag_envelope() {
    assert_eq!(
        geoffrey_tag_envelope(1, "<!--[geoffrey] foo-->"),
        Ok((" foo", 0))
    );
    assert_eq!(
        geoffrey_tag_envelope(0, "<!--[geoffrey][foo.cpp]-->"),
        Ok(("[foo.cpp]", 0))
    );
    assert_eq!(
        geoffrey_tag_envelope(1, "<!--[geoffrey][foo.cpp][bar]-->"),
        Ok(("[foo.cpp][bar]", 0))
    );
    assert_eq!(
        geoffrey_tag_envelope(1, "<!--[geoffrey][foo.cpp][[bar]]-->"),
        Ok(("[foo.cpp][[bar]]", 0))
    );
    assert_eq!(
        geoffrey_tag_envelope(1, "<!--[geoffrey][foo.cpp]\n-->"),
        Ok(("[foo.cpp]\n", 0))
    );
    assert_eq!(
        geoffrey_tag_envelope(1, "<!-- [geoffrey] [foo.cpp] -->"),
        Ok((" [foo.cpp] ", 0))
    );
    assert_eq!(
        geoffrey_tag_envelope(1, "<!--\t[geoffrey]\t[foo.cpp]\t-->"),
        Ok(("\t[foo.cpp]\t", 0))
    );
    assert_eq!(
        geoffrey_tag_envelope(1, "<!-- [geoffrey] [foo.cpp] --> "),
        Ok((" [foo.cpp] ", 0))
    );
    assert_eq!(
        geoffrey_tag_envelope(1, "  <!-- [geoffrey] [foo.cpp] -->"),
        Ok((" [foo.cpp] ", 2))
    );
    assert_eq!(
        geoffrey_tag_envelope(1, "\t<!-- [geoffrey] [foo.cpp] -->"),
        Ok((" [foo.cpp] ", 1))
    );
}

#[test]
fn invalid_geoffrey_tag_envelope() {
    assert!(geoffrey_tag_envelope(0, "<!-- [geof] [foo.cpp] -->").is_err());
    assert!(geoffrey_tag_envelope(1, "<!- [geoffrey] [foo.cpp] -->").is_err());
    assert!(geoffrey_tag_envelope(1, "<-- [geoffrey] [foo.cpp] -->").is_err());
    assert!(geoffrey_tag_envelope(1, "<!-- [geoffrey] [foo.cpp] --").is_err());
    assert!(geoffrey_tag_envelope(1, "<!-- [geoffrey] [foo.cpp] ->").is_err());
    assert!(geoffrey_tag_envelope(1, "<!-- geoffrey [foo.cpp] -->").is_err());

    assert!(geoffrey_tag_envelope(1, "<!-- [geoffrey] [foo.cpp] --> bar").is_err());
}

#[test]
fn valid_geoffrey_tag_data() {
    assert_eq!(
        geoffrey_tag_data("[foo.cpp]"),
        Ok(("foo.cpp", Snippet::FullFile))
    );
    assert_eq!(
        geoffrey_tag_data(" [foo.cpp] "),
        Ok(("foo.cpp", Snippet::FullFile))
    );
    assert_eq!(
        geoffrey_tag_data("\t[foo.cpp]\t"),
        Ok(("foo.cpp", Snippet::FullFile))
    );
    assert_eq!(
        geoffrey_tag_data("[foo.cpp][bar]"),
        Ok(("foo.cpp", Snippet::FullBlock { id: "bar" }))
    );
    assert_eq!(
        geoffrey_tag_data("[foo.cpp][[bar]]"),
        Ok((
            "foo.cpp",
            Snippet::ElidedBlock {
                main_id: "bar",
                sub_ids: vec![]
            }
        ))
    );
    assert_eq!(
        geoffrey_tag_data("[foo.cpp][[bar][baz]]"),
        Ok((
            "foo.cpp",
            Snippet::ElidedBlock {
                main_id: "bar",
                sub_ids: vec!["baz"]
            }
        ))
    );
}

#[test]
fn invalid_geoffrey_tag_data() {
    assert!(geoffrey_tag_data("foo").is_err());
    assert!(geoffrey_tag_data(" foo").is_err());
    assert!(geoffrey_tag_data("[foo.cpp] bar").is_err());
    assert!(geoffrey_tag_data("[foo.cpp] [bar] baz").is_err());
    assert!(geoffrey_tag_data("[foo.cpp] [[bar]] baz").is_err());
}

#[test]
fn valid_md_code_block_begin() {
    assert_eq!(md_code_block_begin("```"), Ok(("```", "```")));
    assert_eq!(md_code_block_begin("``` "), Ok(("```", "```")));
    assert_eq!(md_code_block_begin("```\t"), Ok(("```", "```")));
    assert_eq!(md_code_block_begin("````"), Ok(("````", "````")));
    assert_eq!(md_code_block_begin(" ```"), Ok(("```", "```")));
    assert_eq!(md_code_block_begin("```cpp"), Ok(("```cpp", "```")));
}

#[test]
fn invalid_md_code_block_begin() {
    assert!(md_code_block_begin("abc").is_err());
    assert!(md_code_block_begin("abc").is_err());
    assert!(md_code_block_begin("` ``").is_err());
    assert!(md_code_block_begin("``` ``").is_err());
    assert!(md_code_block_begin("``").is_err());
    assert!(md_code_block_begin("```cpp rs").is_err());
}

#[test]
fn valid_md_code_block_end() {
    let mut lines = LineCursor::new("```");
    assert_eq!(
        md_code_block_end(&mut lines, "```", ParseContext::default()),
        Ok("```")
    );
    assert_eq!(lines.count(), 0);

    let mut lines = LineCursor::new("````\n");
    assert_eq!(
        md_code_block_end(&mut lines, "````", ParseContext::default()),
        Ok("````")
    );
    assert_eq!(lines.count(), 0);

    let mut lines = LineCursor::new("``` \n");
    assert_eq!(
        md_code_block_end(&mut lines, "```", ParseContext::default()),
        Ok("```")
    );

    let mut lines = LineCursor::new(" ```\n");
    assert_eq!(
        md_code_block_end(&mut lines, "```", ParseContext::default()),
        Ok("```")
    );

    let mut lines = LineCursor::new("\n```\n");
    assert_eq!(
        md_code_block_end(&mut lines, "```", ParseContext::default()),
        Ok("```")
    );

    let mut lines = LineCursor::new("int main() {}\n```\n");
    assert_eq!(
        md_code_block_end(&mut lines, "```", ParseContext::default()),
        Ok("```")
    );

    let mut lines = LineCursor::new("```\n\n# Foo");
    assert_eq!(
        md_code_block_end(&mut lines, "```", ParseContext::default()),
        Ok("```")
    );
    assert_eq!(lines.remaining(), vec![(1, ""), (2, "# Foo")]);

    let mut lines = LineCursor::new("```\n````\n");
    assert_eq!(
        md_code_block_end(&mut lines, "````", ParseContext::default()),
        Ok("````")
    );
    assert_eq!(lines.remaining(), Vec::<(usize, &str)>::new());

    let mut lines = LineCursor::new("```\n````\n");
    assert_eq!(
        md_code_block_end(&mut lines, "```", ParseContext::default()),
        Ok("```")
    );
    assert_eq!(lines.remaining(), vec![(1, "````")]);
}

#[test]
fn invalid_md_code_block_end() {
    let code_block_begin_context = ParseContext {
        line_number: 42,
        text: "    ````cpp",
    };

    let mut lines = LineCursor::new("```\n");
    assert!(md_code_block_end(&mut lines, "````", code_block_begin_context).is_err());

    let mut lines = LineCursor::new("````");
    assert!(md_code_block_end(&mut lines, "```", code_block_begin_context).is_err());

    let mut lines = LineCursor::new("```` ```");
    assert!(md_code_block_end(&mut lines, "```", code_block_begin_context).is_err());

    let mut lines = LineCursor::new("``\n");
    assert!(md_code_block_end(&mut lines, "```", code_block_begin_context).is_err());

    let mut lines = LineCursor::new("```cpp\n");
    assert!(md_code_block_end(&mut lines, "```", code_block_begin_context).is_err());

    let mut lines = LineCursor::new("a```\n");
    assert!(md_code_block_end(&mut lines, "```", code_block_begin_context).is_err());
}

#[test]
fn valid_md_code_block() {
    let mut lines = LineCursor::new("```\n```\n");
    assert_eq!(
        md_code_block(&mut lines, ParseContext::default()),
        Ok(("```", "```"))
    );
    assert_eq!(lines.count(), 0);

    let mut lines = LineCursor::new(" ```\n ```\n");
    assert_eq!(
        md_code_block(&mut lines, ParseContext::default()),
        Ok(("```", "```"))
    );

    let mut lines = LineCursor::new("```cpp\n```\n");
    assert_eq!(
        md_code_block(&mut lines, ParseContext::default()),
        Ok(("```cpp", "```"))
    );

    let mut lines = LineCursor::new("```\n```\n\n# Foo");
    assert_eq!(
        md_code_block(&mut lines, ParseContext::default()),
        Ok(("```", "```"))
    );
    assert_eq!(lines.remaining(), vec![(2, ""), (3, "# Foo")]);
}

#[test]
fn invalid_md_code_block() {
    let tag_context = ParseContext {
        line_number: 42,
        text: "<!-- [geoffrey] [foo.cpp] -->",
    };

    let mut lines = LineCursor::new("```\n````\n");
    assert!(md_code_block(&mut lines, tag_context).is_err());

    let mut lines = LineCursor::new("````\n```\n");
    assert!(md_code_block(&mut lines, tag_context).is_err());

    let mut lines = LineCursor::new("``\n``\n");
    assert!(md_code_block(&mut lines, tag_context).is_err());

    let mut lines = LineCursor::new("``` ```");
    assert!(md_code_block(&mut lines, tag_context).is_err());

    let mut lines = LineCursor::new("```\n");
    assert!(md_code_block(&mut lines, tag_context).is_err());

    let mut lines = LineCursor::new("```cpp rs\n```\n");
    assert!(md_code_block(&mut lines, tag_context).is_err());
}

#[test]
fn valid_geoffrey_code_block() {
    let tag_line = "<!-- [geoffrey] [hypnotoad.cpp] -->";
    let mut lines = LineCursor::new("```cpp\n```\n");
    assert_eq!(
        geoffrey_code_block(tag_line, 4, " [foo.cpp] ", &mut lines, ParseContext::default()),
        Ok(Section::GeoffreyCodeBlock {
            tag_line,
            indentation: 4,
            tag: GeoffreyTag {
                file_name: "foo.cpp",
                snippet: Snippet::FullFile,
                options: Vec::new()
            },
            begin: "```cpp",
            end: "```",
        })
    );
    assert_eq!(lines.count(), 0);

    let mut lines = LineCursor::new("```cpp\n```\n");
    assert_eq!(
        geoffrey_code_block(tag_line, 0, "[foo.cpp] [bar]", &mut lines, ParseContext::default()),
        Ok(Section::GeoffreyCodeBlock {
            tag_line,
            indentation: 0,
            tag: GeoffreyTag {
                file_name: "foo.cpp",
                snippet: Snippet::FullBlock { id: "bar" },
                options: Vec::new()
            },
            begin: "```cpp",
            end: "```",
        })
    );

    let mut lines = LineCursor::new("```cpp\nint maint() {}\n```\n");
    assert_eq!(
        geoffrey_code_block(tag_line, 0, "[foo.cpp]", &mut lines, ParseContext::default()),
        Ok(Section::GeoffreyCodeBlock {
            tag_line,
            indentation: 0,
            tag: GeoffreyTag {
                file_name: "foo.cpp",
                snippet: Snippet::FullFile,
                options: Vec::new()
            },
            begin: "```cpp",
            end: "```",
        })
    );

    let mut lines = LineCursor::new("````cpp\n```\n````\n");
    assert_eq!(
        geoffrey_code_block(tag_line, 0, "[foo.cpp]", &mut lines, ParseContext::default()),
        Ok(Section::GeoffreyCodeBlock {
            tag_line,
            indentation: 0,
            tag: GeoffreyTag {
                file_name: "foo.cpp",
                snippet: Snippet::FullFile,
                options: Vec::new()
            },
            begin: "````cpp",
            end: "````",
        })
    );

    let mut lines = LineCursor::new("```cpp\n<!-- [geoffrey] [bar.cpp] -->\n```\n");
    assert_eq!(
        geoffrey_code_block(tag_line, 0, "[foo.cpp]", &mut lines, ParseContext::default()),
        Ok(Section::GeoffreyCodeBlock {
            tag_line,
            indentation: 0,
            tag: GeoffreyTag {
                file_name: "foo.cpp",
                snippet: Snippet::FullFile,
                options: Vec::new()
            },
            begin: "```cpp",
            end: "```",
        })
    );

    let mut lines = LineCursor::new("```cpp\n```\n\n# Foo");
    assert_eq!(
        geoffrey_code_block(tag_line, 4, " [foo.cpp] ", &mut lines, ParseContext::default()),
        Ok(Section::GeoffreyCodeBlock {
            tag_line,
            indentation: 4,
            tag: GeoffreyTag {
                file_name: "foo.cpp",
                snippet: Snippet::FullFile,
                options: Vec::new()
            },
            begin: "```cpp",
            end: "```",
        })
    );
    assert_eq!(lines.remaining(), vec![(2, ""), (3, "# Foo")]);
}

#[test]
fn invalid_geoffrey_code_block() {
    let tag_context = ParseContext {
        line_number: 42,
        text: "<!-- [geoffrey] [foo.cpp] -->",
    };

    let mut lines = LineCursor::new("```\n```\n");
    assert!(geoffrey_code_block("", 0, " [foo.cpp]] ", &mut lines, tag_context).is_err());

    let mut lines = LineCursor::new("```\n```\n");
    assert!(geoffrey_code_block("", 0, " [[foo.cpp] ", &mut lines, tag_context).is_err());

    let mut lines = LineCursor::new("```\n```\n");
    assert!(geoffrey_code_block("", 0, " [foo.cpp] [", &mut lines, tag_context).is_err());

    let mut lines = LineCursor::new("```\n```\n");
    assert!(geoffrey_code_block("", 0, "[foo.cpp] [[foo] bar]", &mut lines, tag_context).is_err());

    let mut lines = LineCursor::new("````\n```\n");
    assert!(geoffrey_code_block("", 0, "[foo.cpp]", &mut lines, tag_context).is_err());
}

#[test]
fn valid_parse_section() {
    let tag_line = "<!-- [geoffrey] [foo.cpp] -->";
    let mut lines = LineCursor::new("```cpp\n```\n");
    assert_eq!(
        parse_section(0, tag_line, &mut lines),
        Ok(Section::GeoffreyCodeBlock {
            tag_line,
            indentation: 0,
            tag: GeoffreyTag {
                file_name: "foo.cpp",
                snippet: Snippet::FullFile,
                options: Vec::new()
            },
            begin: "```cpp",
            end: "```",
        })
    );

    let tag_line = "  <!-- [geoffrey] [foo.cpp] [bar] -->";
    let mut lines = LineCursor::new("```cpp\n```\n");
    assert_eq!(
        parse_section(0, tag_line, &mut lines),
        Ok(Section::GeoffreyCodeBlock {
            tag_line,
            indentation: 2,
            tag: GeoffreyTag {
                file_name: "foo.cpp",
                snippet: Snippet::FullBlock { id: "bar" },
                options: Vec::new()
            },
            begin: "```cpp",
            end: "```",
        })
    );

    let tag_line = "<!-- [geoffrey] [foo.cpp] [[bar] [baz][bazz]] -->";
    let mut lines = LineCursor::new("```cpp\n```\n");
    assert_eq!(
        parse_section(
            0,
            tag_line,
            &mut lines
        ),
        Ok(Section::GeoffreyCodeBlock {
            tag_line,
            indentation: 0,
            tag: GeoffreyTag {
                file_name: "foo.cpp",
                snippet: Snippet::ElidedBlock {
                    main_id: "bar",
                    sub_ids: vec!["baz", "bazz"]
                },
                options: Vec::new()
            },
            begin: "```cpp",
            end: "```",
        })
    );

    let tag_line = "<!-- [geoffrey] [foo.cpp] -->";
    let mut lines = LineCursor::new("```cpp\n```\n# Foo");
    assert_eq!(
        parse_section(0, tag_line, &mut lines),
        Ok(Section::GeoffreyCodeBlock {
            tag_line,
            indentation: 0,
            tag: GeoffreyTag {
                file_name: "foo.cpp",
                snippet: Snippet::FullFile,
                options: Vec::new()
            },
            begin: "```cpp",
            end: "```",
        })
    );
    assert_eq!(lines.remaining(), vec![(2, "# Foo")]);

    let mut lines = LineCursor::new("");
    assert_eq!(
        parse_section(0, " <!--[geoff]--> ", &mut lines),
        Ok(Section::TextLine(" <!--[geoff]--> "),)
    );
}

#[test]
fn invalid_parse_section() {
    let mut lines = LineCursor::new("");
    assert!(parse_section(0, "<!-- [geoffrey] [foo.cpp]] -->", &mut lines).is_err());

    let mut lines = LineCursor::new("");
    assert!(parse_section(0, "<!-- [geoffrey] [[foo.cpp] -->", &mut lines).is_err());

    let mut lines = LineCursor::new("");
    assert!(parse_section(0, "<!-- [geoffrey] [foo.cpp] [-->", &mut lines).is_err());

    let mut lines = LineCursor::new("````\n```\n");
    assert!(parse_section(0, "<!-- [geoffrey] [foo.cpp] -->", &mut lines).is_err());

    let mut lines = LineCursor::new("```\n````\n");
    assert!(parse_section(0, "<!-- [geoffrey] [foo.cpp] -->", &mut lines).is_err());

    let mut lines = LineCursor::new("\n```cpp\n```\n# Foo");
    assert!(parse_section(0, "<!-- [geoffrey] [foo.cpp] -->", &mut lines).is_err());

    let mut lines = LineCursor::new("```cpp```\n# Foo");
    assert!(parse_section(0, "<!-- [geoffrey] [foo.cpp] -->", &mut lines).is_err());
}

fn read_document() -> Document<'static> {
    Document {
        content: r"# Heading
  <!--[geoffrey][foo.cpp][bar]-->
  ```cpp
  int main() {
    return 0;
  }
  ```
Some text

More text
<!--[geoffrey][bar.cpp][foo]-->
```cpp
int answer() {
  return 42;
}
```
"
        .into(),
        has_geoffrey_code_blocks: false,
        sections: Vec::new(),
    }
}

#[test]
fn valid_parse() {
    let mut doc = read_document();

    doc.sections = parse(&doc.content).unwrap();

    let mut expected_sections = Vec::new();
    expected_sections.push(Section::TextLine("# Heading"));
    expected_sections.push(Section::GeoffreyCodeBlock {
        tag_line: "  <!--[geoffrey][foo.cpp][bar]-->",
        indentation: 2,
        tag: GeoffreyTag {
            file_name: "foo.cpp",
            snippet: Snippet::FullBlock { id: "bar" },
            options: Vec::new(),
        },
        begin: "```cpp",
        end: "```",
    });
    expected_sections.push(Section::TextLine("Some text"));
    expected_sections.push(Section::TextLine(""));
    expected_sections.push(Section::TextLine("More text"));
    expected_sections.push(Section::GeoffreyCodeBlock {
        tag_line: "<!--[geoffrey][bar.cpp][foo]-->",
        indentation: 0,
        tag: GeoffreyTag {
            file_name: "bar.cpp",
            snippet: Snippet::FullBlock { id: "foo" },
            options: Vec::new(),
        },
        begin: "```cpp",
        end: "```",
    });

    assert_eq!(doc.sections, expected_sections);
}
