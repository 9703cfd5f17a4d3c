//! The errors of a synchronisation run.

use crate::md_grammar::MdParseErrorView;
use crate::md_parser::MdParseError;
use vstd::prelude::*;

verus! {

/// Why a run was given up. Every error is fatal: nothing is written once one
/// has occurred.
#[derive(Debug)]
pub enum GeoffreyError {
    /// The documentation path does not exist or cannot be read.
    DocPathDoesNotExist(String),
    /// No markdown file was found under the documentation path.
    NoMarkdownFilesInPath(String),
    /// The documentation path names a file that is no markdown file.
    NotAMarkdownFile(String),
    /// The top-level directory of the repository could not be determined.
    GitToplevelError,
    /// The pattern of the content tags was not accepted.
    RegexError,
    /// A referenced content file does not exist.
    ContentFileNotFound(String),
    /// The content file (first) holds no snippet with the tag (second).
    ContentSnippetNotFound(String, String),
    /// The content file (first) ends while the snippet with the tag (second)
    /// is still open.
    ContentSnippetEndTagNotFound(String, String),
    /// The content file holds a tag line with an empty tag.
    ContentSnippetEmptyTag(String),
    /// The content file (first) holds two snippets with the tag (second).
    ContentSnippetDoubleTag(String, String),
    /// In the markdown file (first), no code block follows the tag that asks
    /// for the snippet (second).
    CodeBlockMustFollowTag(String, String),
    /// In the markdown file (first), the code block behind the tag that asks
    /// for the snippet (second) never ends.
    CodeBlockEndMissing(String, String),
    /// The markdown file (first) does not parse, for another reason.
    MarkdownError(String, MdParseError),
    /// A file could not be read or written.
    IoError(String),
}

/// A [`GeoffreyError`] with its texts as sequences of characters.
pub enum GeoffreyErrorView {
    DocPathDoesNotExist(Seq<char>),
    NoMarkdownFilesInPath(Seq<char>),
    NotAMarkdownFile(Seq<char>),
    GitToplevelError,
    RegexError,
    ContentFileNotFound(Seq<char>),
    ContentSnippetNotFound(Seq<char>, Seq<char>),
    ContentSnippetEndTagNotFound(Seq<char>, Seq<char>),
    ContentSnippetEmptyTag(Seq<char>),
    ContentSnippetDoubleTag(Seq<char>, Seq<char>),
    CodeBlockMustFollowTag(Seq<char>, Seq<char>),
    CodeBlockEndMissing(Seq<char>, Seq<char>),
    MarkdownError(Seq<char>, MdParseErrorView),
    IoError(Seq<char>),
}

impl View for GeoffreyError {
    type V = GeoffreyErrorView;

    open spec fn view(&self) -> GeoffreyErrorView {
        match self {
            GeoffreyError::DocPathDoesNotExist(p) => GeoffreyErrorView::DocPathDoesNotExist(p@),
            GeoffreyError::NoMarkdownFilesInPath(p) => GeoffreyErrorView::NoMarkdownFilesInPath(p@),
            GeoffreyError::NotAMarkdownFile(p) => GeoffreyErrorView::NotAMarkdownFile(p@),
            GeoffreyError::GitToplevelError => GeoffreyErrorView::GitToplevelError,
            GeoffreyError::RegexError => GeoffreyErrorView::RegexError,
            GeoffreyError::ContentFileNotFound(p) => GeoffreyErrorView::ContentFileNotFound(p@),
            GeoffreyError::ContentSnippetNotFound(p, t) => GeoffreyErrorView::ContentSnippetNotFound(
                p@,
                t@,
            ),
            GeoffreyError::ContentSnippetEndTagNotFound(
                p,
                t,
            ) => GeoffreyErrorView::ContentSnippetEndTagNotFound(p@, t@),
            GeoffreyError::ContentSnippetEmptyTag(p) => GeoffreyErrorView::ContentSnippetEmptyTag(
                p@,
            ),
            GeoffreyError::ContentSnippetDoubleTag(
                p,
                t,
            ) => GeoffreyErrorView::ContentSnippetDoubleTag(p@, t@),
            GeoffreyError::CodeBlockMustFollowTag(p, t) => GeoffreyErrorView::CodeBlockMustFollowTag(
                p@,
                t@,
            ),
            GeoffreyError::CodeBlockEndMissing(p, t) => GeoffreyErrorView::CodeBlockEndMissing(
                p@,
                t@,
            ),
            GeoffreyError::MarkdownError(p, e) => GeoffreyErrorView::MarkdownError(p@, e@),
            GeoffreyError::IoError(m) => GeoffreyErrorView::IoError(m@),
        }
    }
}

} // verus!
