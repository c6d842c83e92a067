//! The XCursor decoder: header, table of contents, chunk decoding, and the
//! top-level parse.
//!
//! The whole format is specified by [`spec_parse`], a function from the
//! buffer's bytes to the resulting document or error; [`File::parse`] is
//! proved to return exactly that. Offsets are absolute throughout: the
//! header sits at offset 0, table-of-contents entry `k` at `16 + 12*k`, and
//! each chunk at the position its entry names.

use crate::error::ParseError;
use crate::reader::{card32, readable, spec_read32};
use vstd::prelude::*;
use vstd::utf8::{decode_utf8, valid_utf8};

verus! {

/// 32-bit unsigned integer, the format's only multi-byte field width.
#[allow(non_camel_case_types)]
pub type CARD32 = u32;

/// 8-bit unsigned integer.
#[allow(non_camel_case_types)]
pub type CARD8 = u8;

/// The expected magic constant: the bytes `Xcur`, read little-endian.
pub const XCUR_MAGIC: u32 = 0x7275_6358;

/// Type tag of a comment chunk.
pub const COMMENT_TYPE: u32 = 0xFFFE_0001;

/// The version expected of every comment chunk.
pub const COMMENT_VERSION: u32 = 1;

/// Comment subtype: a copyright notice.
pub const COMMENT_COPYRIGHT: u32 = 1;

/// Comment subtype: a license text.
pub const COMMENT_LICENSE: u32 = 2;

/// Comment subtype: any other text.
pub const COMMENT_OTHER: u32 = 3;

/// Type tag of an image chunk.
pub const IMAGE_TYPE: u32 = 0xFFFD_0002;

/// The version expected of every image chunk.
pub const IMAGE_VERSION: u32 = 1;

/// Exclusive bound on an image's width and height.
pub const IMAGE_MAX_SIZE: u32 = 0x7FFF;

/// The file header: four 32-bit fields at offset 0.
#[derive(Debug, Clone, Copy, PartialEq, Eq, Structural)]
pub struct Header {
    /// Magic bytes.
    pub magic: CARD32,
    /// Bytes in header.
    pub header: CARD32,
    /// File version.
    pub version: CARD32,
    /// Number of table-of-contents entries.
    pub ntoc: CARD32,
}

/// One table-of-contents entry: three 32-bit fields.
#[derive(Debug, Clone, Copy, PartialEq, Eq, Structural)]
pub struct TableOfContents {
    /// Entry type.
    pub type_: CARD32,
    /// Type-specific label, size for images.
    pub subtype: CARD32,
    /// Absolute position of the chunk in the buffer.
    pub position: CARD32,
}

/// The prefix shared by every chunk: four 32-bit fields at the chunk's
/// position.
#[derive(Debug, Clone, Copy, PartialEq, Eq, Structural)]
pub struct ChunkHeader {
    /// Bytes used in the chunk.
    pub header: CARD32,
    /// The chunk type.
    pub type_: CARD32,
    /// The subtype.
    pub subtype: CARD32,
    /// The chunk version.
    pub version: CARD32,
}

/// A decoded comment chunk.
#[derive(Debug, Clone)]
pub struct Comment {
    /// The chunk header.
    pub chunkheader: ChunkHeader,
    /// The comment string length in bytes.
    pub length: CARD32,
    /// The comment text; empty when the payload is not valid UTF-8.
    pub string: String,
}

/// The mathematical value of a [`Comment`].
pub ghost struct CommentView {
    /// The chunk header.
    pub chunkheader: ChunkHeader,
    /// The comment string length in bytes.
    pub length: CARD32,
    /// The decoded characters.
    pub string: Seq<char>,
}

impl View for Comment {
    type V = CommentView;

    open spec fn view(&self) -> CommentView {
        CommentView { chunkheader: self.chunkheader, length: self.length, string: self.string@ }
    }
}

/// A decoded image chunk.
#[derive(Debug, Clone)]
pub struct Image {
    /// The chunk header.
    pub chunkheader: ChunkHeader,
    /// Image width in pixels.
    pub width: CARD32,
    /// Image height in pixels.
    pub height: CARD32,
    /// Hotspot x coordinate.
    pub xhot: CARD32,
    /// Hotspot y coordinate.
    pub yhot: CARD32,
    /// Animation delay in milliseconds.
    pub delay: CARD32,
    /// The packed 32-bit pixels, row-major.
    pub pixels: Vec<CARD32>,
}

/// The mathematical value of an [`Image`].
pub ghost struct ImageView {
    /// The chunk header.
    pub chunkheader: ChunkHeader,
    /// Image width in pixels.
    pub width: CARD32,
    /// Image height in pixels.
    pub height: CARD32,
    /// Hotspot x coordinate.
    pub xhot: CARD32,
    /// Hotspot y coordinate.
    pub yhot: CARD32,
    /// Animation delay in milliseconds.
    pub delay: CARD32,
    /// The packed 32-bit pixels, row-major.
    pub pixels: Seq<u32>,
}

impl View for Image {
    type V = ImageView;

    open spec fn view(&self) -> ImageView {
        ImageView {
            chunkheader: self.chunkheader,
            width: self.width,
            height: self.height,
            xhot: self.xhot,
            yhot: self.yhot,
            delay: self.delay,
            pixels: self.pixels@,
        }
    }
}

/// The parsed file: its comments and its images, each in table-of-contents
/// order.
#[derive(Debug, Clone)]
pub struct File {
    /// The comments in the file.
    pub comments: Vec<Comment>,
    /// The images in the file.
    pub images: Vec<Image>,
}

/// The mathematical value of a [`File`].
pub ghost struct FileView {
    /// The comments in the file.
    pub comments: Seq<CommentView>,
    /// The images in the file.
    pub images: Seq<ImageView>,
}

/// The views of a sequence of comments, in order.
pub open spec fn comments_view(cs: Seq<Comment>) -> Seq<CommentView> {
    Seq::new(cs.len(), |i: int| cs[i]@)
}

/// The views of a sequence of images, in order.
pub open spec fn images_view(is: Seq<Image>) -> Seq<ImageView> {
    Seq::new(is.len(), |i: int| is[i]@)
}

impl View for File {
    type V = FileView;

    open spec fn view(&self) -> FileView {
        FileView { comments: comments_view(self.comments@), images: images_view(self.images@) }
    }
}

/// The view of a parse outcome: the document's value on success, the error
/// itself on failure.
pub open spec fn view_result(r: Result<File, ParseError>) -> Result<FileView, ParseError> {
    match r {
        Ok(f) => Ok(f@),
        Err(e) => Err(e),
    }
}

/// What decoding the file header at offset 0 yields: the four fields in
/// order, or the first failed read.
pub open spec fn spec_header(s: Seq<u8>) -> Result<Header, ParseError> {
    match spec_read32(s, 0) {
        Err(e) => Err(e),
        Ok(magic) => match spec_read32(s, 4) {
            Err(e) => Err(e),
            Ok(header) => match spec_read32(s, 8) {
                Err(e) => Err(e),
                Ok(version) => match spec_read32(s, 12) {
                    Err(e) => Err(e),
                    Ok(ntoc) => Ok(Header { magic, header, version, ntoc }),
                },
            },
        },
    }
}

/// What decoding one table-of-contents entry at offset `off` yields.
pub open spec fn spec_toc_entry(s: Seq<u8>, off: int) -> Result<TableOfContents, ParseError> {
    match spec_read32(s, off) {
        Err(e) => Err(e),
        Ok(type_) => match spec_read32(s, off + 4) {
            Err(e) => Err(e),
            Ok(subtype) => match spec_read32(s, off + 8) {
                Err(e) => Err(e),
                Ok(position) => Ok(TableOfContents { type_, subtype, position }),
            },
        },
    }
}

/// What decoding the table-of-contents entries `k .. ntoc` yields: the
/// entries in order, or the first failed read. Entry `k` sits at absolute
/// offset `16 + 12*k`.
pub open spec fn spec_tocs_from(s: Seq<u8>, k: int, ntoc: int) -> Result<
    Seq<TableOfContents>,
    ParseError,
>
    decreases ntoc - k,
{
    if k >= ntoc {
        Ok(Seq::empty())
    } else {
        match spec_toc_entry(s, 16 + 12 * k) {
            Err(e) => Err(e),
            Ok(t) => match spec_tocs_from(s, k + 1, ntoc) {
                Err(e) => Err(e),
                Ok(rest) => Ok(seq![t] + rest),
            },
        }
    }
}

/// What decoding a chunk header at absolute position `p` yields.
pub open spec fn spec_chunk_header_at(s: Seq<u8>, p: int) -> Result<ChunkHeader, ParseError> {
    match spec_read32(s, p) {
        Err(e) => Err(e),
        Ok(header) => match spec_read32(s, p + 4) {
            Err(e) => Err(e),
            Ok(type_) => match spec_read32(s, p + 8) {
                Err(e) => Err(e),
                Ok(subtype) => match spec_read32(s, p + 12) {
                    Err(e) => Err(e),
                    Ok(version) => Ok(ChunkHeader { header, type_, subtype, version }),
                },
            },
        },
    }
}

/// The characters a comment payload decodes to: the UTF-8 decoding when the
/// bytes are valid UTF-8, the empty string otherwise.
pub open spec fn utf8_or_empty(bytes: Seq<u8>) -> Seq<char> {
    if valid_utf8(bytes) {
        decode_utf8(bytes)
    } else {
        Seq::empty()
    }
}

/// What decoding a comment chunk at absolute position `p` yields: the chunk
/// header, a length, and `length` payload bytes decoded leniently as UTF-8.
/// A payload that is not valid UTF-8 never fails the decode; only missing
/// bytes do.
pub open spec fn spec_comment_at(s: Seq<u8>, p: int) -> Result<CommentView, ParseError> {
    match spec_chunk_header_at(s, p) {
        Err(e) => Err(e),
        Ok(ch) => match spec_read32(s, p + 16) {
            Err(e) => Err(e),
            Ok(length) => if readable(s, p + 20, length as int) {
                Ok(
                    CommentView {
                        chunkheader: ch,
                        length,
                        string: utf8_or_empty(s.subrange(p + 20, p + 20 + length)),
                    },
                )
            } else {
                Err(ParseError::ReadError { offset: (p + 20) as u64, size: length as u64 })
            },
        },
    }
}

/// What reading `n` consecutive 32-bit pixels starting at `off` yields: the
/// pixel values in order, or the first failed read.
pub open spec fn spec_pixels(s: Seq<u8>, off: int, n: nat) -> Result<Seq<u32>, ParseError>
    decreases n,
{
    if n == 0 {
        Ok(Seq::empty())
    } else {
        match spec_read32(s, off) {
            Err(e) => Err(e),
            Ok(px) => match spec_pixels(s, off + 4, (n - 1) as nat) {
                Err(e) => Err(e),
                Ok(rest) => Ok(seq![px] + rest),
            },
        }
    }
}

/// What decoding an image chunk at absolute position `p` yields: the chunk
/// header, the five dimension fields, and `width * height` pixels read
/// consecutively from the fixed 24-byte chunk prologue onward.
pub open spec fn spec_image_at(s: Seq<u8>, p: int) -> Result<ImageView, ParseError> {
    match spec_chunk_header_at(s, p) {
        Err(e) => Err(e),
        Ok(ch) => match spec_read32(s, p + 16) {
            Err(e) => Err(e),
            Ok(width) => match spec_read32(s, p + 20) {
                Err(e) => Err(e),
                Ok(height) => match spec_read32(s, p + 24) {
                    Err(e) => Err(e),
                    Ok(xhot) => match spec_read32(s, p + 28) {
                        Err(e) => Err(e),
                        Ok(yhot) => match spec_read32(s, p + 32) {
                            Err(e) => Err(e),
                            Ok(delay) => match spec_pixels(
                                s,
                                p + 24,
                                (width as nat) * (height as nat),
                            ) {
                                Err(e) => Err(e),
                                Ok(pixels) => Ok(
                                    ImageView {
                                        chunkheader: ch,
                                        width,
                                        height,
                                        xhot,
                                        yhot,
                                        delay,
                                        pixels,
                                    },
                                ),
                            },
                        },
                    },
                },
            },
        },
    }
}

/// What dispatching and validating the chunks of `tocs` against buffer `s`
/// yields, in entry order: each comment is decoded at its position and its
/// version checked; each image is decoded and its version, dimensions and
/// hotspot checked in that order; an unknown tag fails at once, and the
/// first failure wins.
pub open spec fn spec_chunks(s: Seq<u8>, tocs: Seq<TableOfContents>) -> Result<
    FileView,
    ParseError,
>
    decreases tocs.len(),
{
    if tocs.len() == 0 {
        Ok(FileView { comments: Seq::empty(), images: Seq::empty() })
    } else {
        let t = tocs[0];
        if t.type_ == COMMENT_TYPE {
            match spec_comment_at(s, t.position as int) {
                Err(e) => Err(e),
                Ok(c) => if c.chunkheader.version != COMMENT_VERSION {
                    Err(ParseError::InvalidCommentVersion)
                } else {
                    match spec_chunks(s, tocs.drop_first()) {
                        Err(e) => Err(e),
                        Ok(rest) => Ok(
                            FileView { comments: seq![c] + rest.comments, images: rest.images },
                        ),
                    }
                },
            }
        } else if t.type_ == IMAGE_TYPE {
            match spec_image_at(s, t.position as int) {
                Err(e) => Err(e),
                Ok(img) => if img.chunkheader.version != IMAGE_VERSION {
                    Err(ParseError::InvalidImageVersion)
                } else if img.width >= IMAGE_MAX_SIZE {
                    Err(ParseError::InvalidImageWidth)
                } else if img.height >= IMAGE_MAX_SIZE {
                    Err(ParseError::InvalidImageHeight)
                } else if img.xhot >= img.width {
                    Err(ParseError::InvalidImageXHot)
                } else if img.yhot >= img.height {
                    Err(ParseError::InvalidImageYHot)
                } else {
                    match spec_chunks(s, tocs.drop_first()) {
                        Err(e) => Err(e),
                        Ok(rest) => Ok(
                            FileView { comments: rest.comments, images: seq![img] + rest.images },
                        ),
                    }
                },
            }
        } else {
            Err(ParseError::InvalidTOC)
        }
    }
}

impl Header {
    /// Decodes the file header at offset 0: magic, header size, version and
    /// table-of-contents entry count, in order.
    pub fn parse(buf: &[u8]) -> (r: Result<Header, ParseError>)
        ensures
            r == spec_header(buf@),
    {
        let magic = match card32(buf, 0) {
            Ok(v) => v,
            Err(e) => return Err(e),
        };
        let header = match card32(buf, 4) {
            Ok(v) => v,
            Err(e) => return Err(e),
        };
        let version = match card32(buf, 8) {
            Ok(v) => v,
            Err(e) => return Err(e),
        };
        let ntoc = match card32(buf, 12) {
            Ok(v) => v,
            Err(e) => return Err(e),
        };
        Ok(Header { magic, header, version, ntoc })
    }

    /// Checks the magic field against the expected constant. Only the magic
    /// is load-bearing: any header size or version is accepted.
    pub fn validate(&self) -> (r: Result<(), ParseError>)
        ensures
            self.magic == XCUR_MAGIC ==> r == Ok::<(), ParseError>(()),
            self.magic != XCUR_MAGIC ==> r == Err::<(), ParseError>(
                ParseError::InvalidHeader { found: self.magic },
            ),
    {
        if self.magic != XCUR_MAGIC {
            Err(ParseError::InvalidHeader { found: self.magic })
        } else {
            Ok(())
        }
    }
}

impl TableOfContents {
    /// Decodes one table-of-contents entry at absolute offset `off`.
    pub fn parse(buf: &[u8], off: u64) -> (r: Result<TableOfContents, ParseError>)
        requires
            off + 8 <= u64::MAX,
        ensures
            r == spec_toc_entry(buf@, off as int),
    {
        let type_ = match card32(buf, off) {
            Ok(v) => v,
            Err(e) => return Err(e),
        };
        let subtype = match card32(buf, off + 4) {
            Ok(v) => v,
            Err(e) => return Err(e),
        };
        let position = match card32(buf, off + 8) {
            Ok(v) => v,
            Err(e) => return Err(e),
        };
        Ok(TableOfContents { type_, subtype, position })
    }
}

impl ChunkHeader {
    /// Decodes the shared chunk prefix at absolute offset `off`.
    pub fn parse(buf: &[u8], off: u64) -> (r: Result<ChunkHeader, ParseError>)
        requires
            off + 12 <= u64::MAX,
        ensures
            r == spec_chunk_header_at(buf@, off as int),
    {
        let header = match card32(buf, off) {
            Ok(v) => v,
            Err(e) => return Err(e),
        };
        let type_ = match card32(buf, off + 4) {
            Ok(v) => v,
            Err(e) => return Err(e),
        };
        let subtype = match card32(buf, off + 8) {
            Ok(v) => v,
            Err(e) => return Err(e),
        };
        let version = match card32(buf, off + 12) {
            Ok(v) => v,
            Err(e) => return Err(e),
        };
        Ok(ChunkHeader { header, type_, subtype, version })
    }
}

/// Relies on core::str::from_utf8: it returns the borrowed string that a
/// byte slice encodes exactly when the slice is valid UTF-8, and an error
/// otherwise. The lenient comment decoding substitutes the empty string in
/// the error case.
#[verifier::external_body]
fn utf8_string_or_empty(bytes: &[u8]) -> (r: String)
    ensures
        r@ == utf8_or_empty(bytes@),
{
    match core::str::from_utf8(bytes) {
        Ok(s) => s.to_owned(),
        Err(_) => String::new(),
    }
}

impl Comment {
    /// Decodes a comment chunk at absolute position `pos`: the chunk
    /// header, the string length, and that many payload bytes, decoded as
    /// UTF-8 with the empty string substituted for malformed payloads.
    pub fn parse(buf: &[u8], pos: u32) -> (r: Result<Comment, ParseError>)
        ensures
            match r {
                Ok(c) => spec_comment_at(buf@, pos as int) == Ok::<CommentView, ParseError>(c@),
                Err(e) => spec_comment_at(buf@, pos as int) == Err::<CommentView, ParseError>(e),
            },
    {
        let p = pos as u64;
        let chunkheader = match ChunkHeader::parse(buf, p) {
            Ok(v) => v,
            Err(e) => return Err(e),
        };
        let length = match card32(buf, p + 16) {
            Ok(v) => v,
            Err(e) => return Err(e),
        };
        let len: usize = buf.len();
        if p + 20 <= len as u64 && len as u64 - (p + 20) >= length as u64 {
            let start: usize = (p + 20) as usize;
            let end: usize = start + length as usize;
            let payload = vstd::slice::slice_subrange(buf, start, end);
            let string = utf8_string_or_empty(payload);
            Ok(Comment { chunkheader, length, string })
        } else {
            Err(ParseError::ReadError { offset: p + 20, size: length as u64 })
        }
    }
}

/// `r` with `pre` prepended to its pixels when it succeeded, and `r` itself
/// when it failed.
pub open spec fn prepend_pixels(pre: Seq<u32>, r: Result<Seq<u32>, ParseError>) -> Result<
    Seq<u32>,
    ParseError,
> {
    match r {
        Ok(rest) => Ok(pre + rest),
        Err(e) => Err(e),
    }
}

impl Image {
    /// Decodes an image chunk at absolute position `pos`: the chunk header,
    /// the five dimension fields, and `width * height` pixels read
    /// consecutively from the fixed 24-byte chunk prologue onward, each
    /// read bounds-checked.
    #[verifier::loop_isolation(false)]
    pub fn parse(buf: &[u8], pos: u32) -> (r: Result<Image, ParseError>)
        ensures
            match r {
                Ok(img) => spec_image_at(buf@, pos as int) == Ok::<ImageView, ParseError>(img@),
                Err(e) => spec_image_at(buf@, pos as int) == Err::<ImageView, ParseError>(e),
            },
    {
        let p = pos as u64;
        let chunkheader = match ChunkHeader::parse(buf, p) {
            Ok(v) => v,
            Err(e) => return Err(e),
        };
        let width = match card32(buf, p + 16) {
            Ok(v) => v,
            Err(e) => return Err(e),
        };
        let height = match card32(buf, p + 20) {
            Ok(v) => v,
            Err(e) => return Err(e),
        };
        let xhot = match card32(buf, p + 24) {
            Ok(v) => v,
            Err(e) => return Err(e),
        };
        let yhot = match card32(buf, p + 28) {
            Ok(v) => v,
            Err(e) => return Err(e),
        };
        let delay = match card32(buf, p + 32) {
            Ok(v) => v,
            Err(e) => return Err(e),
        };
        proof {
            assert((width as int) * (height as int) <= 0xFFFF_FFFF * 0xFFFF_FFFF)
                by (nonlinear_arith)
                requires
                    width as int <= 0xFFFF_FFFF,
                    height as int <= 0xFFFF_FFFF,
                    0 <= width as int,
                    0 <= height as int,
            ;
        }
        let n: u64 = (width as u64) * (height as u64);
        let len: usize = buf.len();
        let mut pixels: Vec<u32> = Vec::new();
        let mut j: u64 = 0;
        let mut off: u64 = p + 24;
        while j < n
            invariant
                p == pos as int,
                off as int == p as int + 24 + 4 * (j as int),
                j <= n,
                n as int == (width as int) * (height as int),
                pixels@.len() == j as nat,
                spec_pixels(buf@, p as int + 24, n as nat) == prepend_pixels(
                    pixels@,
                    spec_pixels(buf@, off as int, (n - j) as nat),
                ),
            decreases n - j,
        {
            let ghost m: nat = (n - j) as nat;
            let px = match card32(buf, off) {
                Ok(v) => v,
                Err(e) => {
                    proof {
                        assert(spec_pixels(buf@, off as int, m) == Err::<Seq<u32>, ParseError>(e));
                    }
                    return Err(e);
                },
            };
            proof {
                let rest = spec_pixels(buf@, off as int + 4, (m - 1) as nat);
                if rest is Ok {
                    assert((pixels@ + (seq![px] + rest->Ok_0)) =~= (pixels@.push(px)
                        + rest->Ok_0));
                }
            }
            pixels.push(px);
            off = off + 4;
            j = j + 1;
        }
        proof {
            assert(spec_pixels(buf@, off as int, 0) == Ok::<Seq<u32>, ParseError>(Seq::empty()));
            assert((pixels@ + Seq::<u32>::empty()) =~= pixels@);
        }
        Ok(Image { chunkheader, width, height, xhot, yhot, delay, pixels })
    }
}

/// What parsing a whole buffer yields: the header is decoded and its magic
/// checked, the table of contents is walked, and every entry's chunk is
/// decoded and validated, fail-fast.
pub open spec fn spec_parse(s: Seq<u8>) -> Result<FileView, ParseError> {
    match spec_header(s) {
        Err(e) => Err(e),
        Ok(h) => if h.magic != XCUR_MAGIC {
            Err(ParseError::InvalidHeader { found: h.magic })
        } else {
            match spec_tocs_from(s, 0, h.ntoc as int) {
                Err(e) => Err(e),
                Ok(tocs) => spec_chunks(s, tocs),
            }
        },
    }
}

/// `r` with `pre` prepended to its entries when it succeeded, and `r`
/// itself when it failed.
pub open spec fn prepend_tocs(
    pre: Seq<TableOfContents>,
    r: Result<Seq<TableOfContents>, ParseError>,
) -> Result<Seq<TableOfContents>, ParseError> {
    match r {
        Ok(rest) => Ok(pre + rest),
        Err(e) => Err(e),
    }
}

/// `r` with the already accumulated comments and images prepended when it
/// succeeded, and `r` itself when it failed.
pub open spec fn prepend_file(
    cs: Seq<CommentView>,
    is: Seq<ImageView>,
    r: Result<FileView, ParseError>,
) -> Result<FileView, ParseError> {
    match r {
        Ok(fv) => Ok(FileView { comments: cs + fv.comments, images: is + fv.images }),
        Err(e) => Err(e),
    }
}

/// Walks the table of contents: reads `ntoc` twelve-byte entries
/// consecutively from offset 16, fail-fast.
#[verifier::loop_isolation(false)]
fn walk_tocs(buf: &[u8], ntoc: u32) -> (r: Result<Vec<TableOfContents>, ParseError>)
    ensures
        match r {
            Ok(tocs) => spec_tocs_from(buf@, 0, ntoc as int) == Ok::<
                Seq<TableOfContents>,
                ParseError,
            >(tocs@),
            Err(e) => spec_tocs_from(buf@, 0, ntoc as int) == Err::<
                Seq<TableOfContents>,
                ParseError,
            >(e),
        },
{
    let mut tocs: Vec<TableOfContents> = Vec::new();
    let mut k: u32 = 0;
    proof {
        let r0 = spec_tocs_from(buf@, 0, ntoc as int);
        if r0 is Ok {
            assert((tocs@ + r0->Ok_0) =~= r0->Ok_0);
        }
    }
    while k < ntoc
        invariant
            k <= ntoc,
            tocs@.len() == k as nat,
            spec_tocs_from(buf@, 0, ntoc as int) == prepend_tocs(
                tocs@,
                spec_tocs_from(buf@, k as int, ntoc as int),
            ),
        decreases ntoc - k,
    {
        let off: u64 = 16 + 12 * (k as u64);
        let t = match TableOfContents::parse(buf, off) {
            Ok(t) => t,
            Err(e) => {
                proof {
                    assert(spec_tocs_from(buf@, k as int, ntoc as int) == Err::<
                        Seq<TableOfContents>,
                        ParseError,
                    >(e));
                }
                return Err(e);
            },
        };
        proof {
            let rest = spec_tocs_from(buf@, k as int + 1, ntoc as int);
            if rest is Ok {
                assert((tocs@ + (seq![t] + rest->Ok_0)) =~= (tocs@.push(t) + rest->Ok_0));
            }
        }
        tocs.push(t);
        k = k + 1;
    }
    proof {
        assert((tocs@ + Seq::<TableOfContents>::empty()) =~= tocs@);
    }
    Ok(tocs)
}

/// Dispatches every table-of-contents entry, in order, to the decoder its
/// type tag names, validates the decoded chunk, and accumulates the
/// results; the first failure wins and an unknown tag fails at once.
#[verifier::loop_isolation(false)]
#[verifier::rlimit(60)]
fn decode_chunks(buf: &[u8], tocs: &Vec<TableOfContents>) -> (r: Result<File, ParseError>)
    ensures
        view_result(r) == spec_chunks(buf@, tocs@),
{
    let mut comments: Vec<Comment> = Vec::new();
    let mut images: Vec<Image> = Vec::new();
    let nt: usize = tocs.len();
    let mut idx: usize = 0;
    proof {
        assert(tocs@.skip(0) =~= tocs@);
        let r0 = spec_chunks(buf@, tocs@);
        if r0 is Ok {
            assert((comments_view(comments@) + r0->Ok_0.comments) =~= r0->Ok_0.comments);
            assert((images_view(images@) + r0->Ok_0.images) =~= r0->Ok_0.images);
        }
    }
    while idx < nt
        invariant
            idx <= nt,
            nt == tocs@.len(),
            spec_chunks(buf@, tocs@) == prepend_file(
                comments_view(comments@),
                images_view(images@),
                spec_chunks(buf@, tocs@.skip(idx as int)),
            ),
        decreases nt - idx,
    {
        let ghost suffix = tocs@.skip(idx as int);
        proof {
            assert(suffix[0] == tocs@[idx as int]);
            assert(suffix.drop_first() =~= tocs@.skip(idx as int + 1));
        }
        let t = tocs[idx];
        if t.type_ == COMMENT_TYPE {
            let c = match Comment::parse(buf, t.position) {
                Ok(c) => c,
                Err(e) => return Err(e),
            };
            if c.chunkheader.version != COMMENT_VERSION {
                return Err(ParseError::InvalidCommentVersion);
            }
            proof {
                let rest = spec_chunks(buf@, suffix.drop_first());
                if rest is Ok {
                    assert((comments_view(comments@) + (seq![c@] + rest->Ok_0.comments)) =~= (
                    comments_view(comments@.push(c)) + rest->Ok_0.comments));
                }
            }
            comments.push(c);
        } else if t.type_ == IMAGE_TYPE {
            let img = match Image::parse(buf, t.position) {
                Ok(v) => v,
                Err(e) => return Err(e),
            };
            if img.chunkheader.version != IMAGE_VERSION {
                return Err(ParseError::InvalidImageVersion);
            }
            if img.width >= IMAGE_MAX_SIZE {
                return Err(ParseError::InvalidImageWidth);
            }
            if img.height >= IMAGE_MAX_SIZE {
                return Err(ParseError::InvalidImageHeight);
            }
            if img.xhot >= img.width {
                return Err(ParseError::InvalidImageXHot);
            }
            if img.yhot >= img.height {
                return Err(ParseError::InvalidImageYHot);
            }
            proof {
                let rest = spec_chunks(buf@, suffix.drop_first());
                if rest is Ok {
                    assert((images_view(images@) + (seq![img@] + rest->Ok_0.images)) =~= (
                    images_view(images@.push(img)) + rest->Ok_0.images));
                }
            }
            images.push(img);
        } else {
            return Err(ParseError::InvalidTOC);
        }
        idx = idx + 1;
    }
    proof {
        assert(tocs@.skip(nt as int) =~= Seq::<TableOfContents>::empty());
        assert((comments_view(comments@) + Seq::<CommentView>::empty()) =~= comments_view(
            comments@,
        ));
        assert((images_view(images@) + Seq::<ImageView>::empty()) =~= images_view(images@));
    }
    Ok(File { comments, images })
}

impl File {
    /// Parses a whole XCursor buffer: decodes and validates the header,
    /// walks the table of contents, then decodes and validates every
    /// chunk in entry order. The first failure aborts the parse; on
    /// success the document holds the comments and the images in
    /// table-of-contents order.
    pub fn parse(buf: &[u8]) -> (r: Result<File, ParseError>)
        ensures
            view_result(r) == spec_parse(buf@),
    {
        let header = match Header::parse(buf) {
            Ok(h) => h,
            Err(e) => return Err(e),
        };
        if let Err(e) = header.validate() {
            return Err(e);
        }
        let tocs = match walk_tocs(buf, header.ntoc) {
            Ok(tocs) => tocs,
            Err(e) => return Err(e),
        };
        decode_chunks(buf, &tocs)
    }
}

} // verus!
