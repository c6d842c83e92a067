//! Decoder for the XCursor binary container format.
//!
//! An XCursor file is a header, a table of contents, and a sequence of
//! comment and image chunks. [`parser::File::parse`] turns a byte buffer
//! into a validated [`parser::File`] or a [`error::ParseError`]; every
//! multi-byte integer is read little-endian, every read is bounds-checked,
//! and the first failure aborts the whole parse.

pub mod error;
pub mod laws;
pub mod parser;
pub mod reader;
