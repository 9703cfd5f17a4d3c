//! The sections of a C++ source file.
//!
//! A source file is read line by line, as a documentation file is. No line
//! of a source file starts a section, so the parse of any text is an empty
//! list; the snippets of a source file are found by its tag lines, in
//! `content`.

use crate::lines::LineCursor;
use vstd::prelude::*;

verus! {

/// A source file with its sections.
#[derive(Debug, PartialEq, Eq)]
pub struct Document<'a> {
    pub content: String,
    pub has_snippets: bool,
    pub sections: Vec<Snippet<'a>>,
}

/// One section of a source file.
#[derive(Debug, PartialEq, Eq)]
pub enum Snippet<'a> {
    /// A line of ordinary text.
    TextLine(&'a str),
    /// A code block between two fences.
    GeoffreyCodeBlock { indentation: usize, begin: &'a str, end: &'a str },
}

/// Why a source file was not accepted.
#[derive(Debug, PartialEq, Eq)]
pub enum ContentParseError {
    NotACodeSnippetTAg,
}

/// Parses a source file into its sections: reads every line and finds
/// none.
pub fn parse(file_content: &str) -> (r: Result<Vec<Snippet<'_>>, ContentParseError>)
    ensures
        r matches Ok(sections) && sections@ == Seq::<Snippet>::empty(),
{
    let sections: Vec<Snippet<'_>> = Vec::new();
    let mut lines = LineCursor::new(file_content);
    loop
        invariant
            sections@ == Seq::<Snippet>::empty(),
        decreases lines.lines().len() - lines.position(),
    {
        match lines.next() {
            Some(_) => {},
            None => {
                return Ok(sections);
            },
        }
    }
}

} // verus!
