//! Keeps the code listings of markdown documentation in step with the source
//! files that they quote.
//!
//! A documentation file asks for a snippet of a content file with a tag, an
//! HTML comment in front of a fenced code block. A run parses the
//! documentation files ([`md_parser`]) and the content files
//! ([`content`]), and writes into every code block the text of the snippet
//! that the tag in front of it asks for ([`documents`]).
//!
//! The library works on texts alone: its caller reads the files and writes
//! them.

pub mod content;
pub mod content_laws;
pub mod cpp_snippet_parser;
pub mod documents;
pub mod elision;
pub mod error;
pub mod lines;
pub mod md_grammar;
pub mod md_laws;
pub mod md_parser;
pub mod render;
pub mod tag_line;
pub mod text;
