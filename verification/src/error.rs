//! The error taxonomy of the decoder.
//!
//! A parse fails at most once, and the error says why: a bounds violation at
//! some primitive read, a bad magic, an unknown table-of-contents tag, or a
//! chunk whose version or dimensions break the format's invariants.

use vstd::prelude::*;

verus! {

/// Why a parse failed. Exactly one of these is returned per failed parse;
/// the first violation found during the single top-down pass wins.
#[derive(Debug, Clone, Copy, PartialEq, Eq, Structural)]
pub enum ParseError {
    /// A fixed-width read needed `size` bytes at absolute `offset`, but the
    /// buffer ends before that.
    ReadError { offset: u64, size: u64 },
    /// The magic field does not hold the expected constant; `found` is the
    /// value actually read.
    InvalidHeader { found: u32 },
    /// A comment chunk's version field is not the comment format version.
    InvalidCommentVersion,
    /// An image chunk's version field is not the image format version.
    InvalidImageVersion,
    /// An image's width reaches the maximum size bound.
    InvalidImageWidth,
    /// An image's height reaches the maximum size bound.
    InvalidImageHeight,
    /// An image's x hotspot is not strictly less than its width.
    InvalidImageXHot,
    /// An image's y hotspot is not strictly less than its height.
    InvalidImageYHot,
    /// A table-of-contents entry carries a type tag that is not a known
    /// chunk type.
    InvalidTOC,
}

/// The description owed to each error variant.
pub open spec fn spec_description(e: ParseError) -> Seq<char> {
    match e {
        ParseError::ReadError { .. } => "Read error"@,
        ParseError::InvalidHeader { .. } => "Invalid header"@,
        ParseError::InvalidCommentVersion => "Invalid comment version"@,
        ParseError::InvalidImageVersion => "Invalid image version"@,
        ParseError::InvalidImageWidth => "Invalid image width"@,
        ParseError::InvalidImageHeight => "Invalid image height"@,
        ParseError::InvalidImageXHot => "Invalid image X hot"@,
        ParseError::InvalidImageYHot => "Invalid image Y hot"@,
        ParseError::InvalidTOC => "Invalid table of contents"@,
    }
}

impl ParseError {
    /// A short human-readable description of the error.
    pub fn description(&self) -> (r: &'static str)
        ensures
            r@ == spec_description(*self),
    {
        match self {
            ParseError::ReadError { .. } => "Read error",
            ParseError::InvalidHeader { .. } => "Invalid header",
            ParseError::InvalidCommentVersion => "Invalid comment version",
            ParseError::InvalidImageVersion => "Invalid image version",
            ParseError::InvalidImageWidth => "Invalid image width",
            ParseError::InvalidImageHeight => "Invalid image height",
            ParseError::InvalidImageXHot => "Invalid image X hot",
            ParseError::InvalidImageYHot => "Invalid image Y hot",
            ParseError::InvalidTOC => "Invalid table of contents",
        }
    }
}

} // verus!
