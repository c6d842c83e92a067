//! Properties of the decoder, stated and proved against the spec model.
//!
//! Each lemma here speaks about [`crate::parser::spec_parse`] and its
//! pieces, the same functions the executable decoders are proved against,
//! so every property carries over to [`crate::parser::File::parse`].

use crate::error::ParseError;
use crate::parser::{
    spec_chunks, spec_comment_at, spec_image_at, spec_parse, spec_pixels, spec_tocs_from,
    spec_toc_entry, view_result, CommentView, File, FileView, ImageView, TableOfContents,
    COMMENT_TYPE, COMMENT_VERSION, IMAGE_MAX_SIZE, IMAGE_TYPE, IMAGE_VERSION, XCUR_MAGIC,
};
use crate::reader::{le32_at, readable};
use vstd::prelude::*;
use vstd::utf8::valid_utf8;

verus! {

/// Parsing is deterministic: any two results drawn from the same buffer
/// have the same value, document or error alike.
pub proof fn lemma_parse_deterministic(
    s: Seq<u8>,
    r1: Result<File, ParseError>,
    r2: Result<File, ParseError>,
)
    requires
        view_result(r1) == spec_parse(s),
        view_result(r2) == spec_parse(s),
    ensures
        view_result(r1) == view_result(r2),
{
}

/// A magic field that does not decode to the expected constant always
/// yields `InvalidHeader`, carrying the value found, and never any other
/// error.
pub proof fn lemma_corrupt_magic(s: Seq<u8>)
    requires
        s.len() >= 16,
        le32_at(s, 0) != XCUR_MAGIC,
    ensures
        spec_parse(s) == Err::<FileView, ParseError>(
            ParseError::InvalidHeader { found: le32_at(s, 0) },
        ),
{
}

/// The expected magic pins each of the four magic bytes: a buffer whose
/// magic decodes to the constant holds exactly the bytes `Xcur`.
pub proof fn lemma_magic_pins_bytes(s: Seq<u8>)
    requires
        s.len() >= 4,
        le32_at(s, 0) == XCUR_MAGIC,
    ensures
        s[0] == 0x58,
        s[1] == 0x63,
        s[2] == 0x75,
        s[3] == 0x72,
{
    let total = s[0] + s[1] * 0x100 + s[2] * 0x1_0000 + s[3] * 0x100_0000;
    assert(0 <= total < 0x1_0000_0000);
    assert(total == 0x7275_6358);
}

/// Altering any one of the four magic bytes makes the parse fail with
/// `InvalidHeader`, never a different error.
pub proof fn lemma_corrupt_magic_byte(s: Seq<u8>)
    requires
        s.len() >= 16,
        s[0] != 0x58 || s[1] != 0x63 || s[2] != 0x75 || s[3] != 0x72,
    ensures
        spec_parse(s) == Err::<FileView, ParseError>(
            ParseError::InvalidHeader { found: le32_at(s, 0) },
        ),
{
    if le32_at(s, 0) == XCUR_MAGIC {
        lemma_magic_pins_bytes(s);
    }
    lemma_corrupt_magic(s);
}

/// An unrecognized type tag in the entry up for dispatch yields
/// `InvalidTOC` whatever the rest of the buffer holds: the chunk at its
/// position is never decoded.
pub proof fn lemma_unknown_tag_rejected(s: Seq<u8>, tocs: Seq<TableOfContents>)
    requires
        tocs.len() > 0,
        tocs[0].type_ != COMMENT_TYPE,
        tocs[0].type_ != IMAGE_TYPE,
    ensures
        spec_chunks(s, tocs) == Err::<FileView, ParseError>(ParseError::InvalidTOC),
{
}

/// A dispatch that succeeds saw only known type tags: every entry was a
/// comment or an image.
pub proof fn lemma_success_means_all_tags_known(s: Seq<u8>, tocs: Seq<TableOfContents>)
    requires
        spec_chunks(s, tocs) is Ok,
    ensures
        forall|i: int|
            0 <= i < tocs.len() ==> ((#[trigger] tocs[i]).type_ == COMMENT_TYPE || tocs[i].type_
                == IMAGE_TYPE),
    decreases tocs.len(),
{
    if tocs.len() > 0 {
        lemma_success_means_all_tags_known(s, tocs.drop_first());
        assert forall|i: int|
            0 <= i < tocs.len() implies ((#[trigger] tocs[i]).type_ == COMMENT_TYPE
            || tocs[i].type_ == IMAGE_TYPE) by {
            if i >= 1 {
                assert(tocs[i] == tocs.drop_first()[i - 1]);
            }
        }
    }
}

/// The checks on a decoded image chunk, first match first: the version,
/// then the width and height against the maximum size bound, then each
/// hotspot against its dimension, strictly. A hotspot equal to its
/// dimension is already out of bounds; an image that passes every check is
/// appended ahead of whatever the remaining entries yield.
pub proof fn lemma_image_validation(s: Seq<u8>, tocs: Seq<TableOfContents>, img: ImageView)
    requires
        tocs.len() > 0,
        tocs[0].type_ == IMAGE_TYPE,
        spec_image_at(s, tocs[0].position as int) == Ok::<ImageView, ParseError>(img),
    ensures
        img.chunkheader.version != IMAGE_VERSION ==> spec_chunks(s, tocs) == Err::<
            FileView,
            ParseError,
        >(ParseError::InvalidImageVersion),
        img.chunkheader.version == IMAGE_VERSION && img.width >= IMAGE_MAX_SIZE ==> spec_chunks(
            s,
            tocs,
        ) == Err::<FileView, ParseError>(ParseError::InvalidImageWidth),
        img.chunkheader.version == IMAGE_VERSION && img.width < IMAGE_MAX_SIZE && img.height
            >= IMAGE_MAX_SIZE ==> spec_chunks(s, tocs) == Err::<FileView, ParseError>(
            ParseError::InvalidImageHeight,
        ),
        img.chunkheader.version == IMAGE_VERSION && img.width < IMAGE_MAX_SIZE && img.height
            < IMAGE_MAX_SIZE && img.xhot >= img.width ==> spec_chunks(s, tocs) == Err::<
            FileView,
            ParseError,
        >(ParseError::InvalidImageXHot),
        img.chunkheader.version == IMAGE_VERSION && img.width < IMAGE_MAX_SIZE && img.height
            < IMAGE_MAX_SIZE && img.xhot < img.width && img.yhot >= img.height ==> spec_chunks(
            s,
            tocs,
        ) == Err::<FileView, ParseError>(ParseError::InvalidImageYHot),
        img.chunkheader.version == IMAGE_VERSION && img.width < IMAGE_MAX_SIZE && img.height
            < IMAGE_MAX_SIZE && img.xhot < img.width && img.yhot < img.height ==> spec_chunks(
            s,
            tocs,
        ) == (match spec_chunks(s, tocs.drop_first()) {
            Ok(rest) => Ok::<FileView, ParseError>(
                FileView { comments: rest.comments, images: seq![img] + rest.images },
            ),
            Err(e) => Err(e),
        }),
{
}

/// The check on a decoded comment chunk: a version other than the comment
/// format version is rejected, and a comment that passes is appended ahead
/// of whatever the remaining entries yield.
pub proof fn lemma_comment_validation(s: Seq<u8>, tocs: Seq<TableOfContents>, c: CommentView)
    requires
        tocs.len() > 0,
        tocs[0].type_ == COMMENT_TYPE,
        spec_comment_at(s, tocs[0].position as int) == Ok::<CommentView, ParseError>(c),
    ensures
        c.chunkheader.version != COMMENT_VERSION ==> spec_chunks(s, tocs) == Err::<
            FileView,
            ParseError,
        >(ParseError::InvalidCommentVersion),
        c.chunkheader.version == COMMENT_VERSION ==> spec_chunks(s, tocs) == (match spec_chunks(
            s,
            tocs.drop_first(),
        ) {
            Ok(rest) => Ok::<FileView, ParseError>(
                FileView { comments: seq![c] + rest.comments, images: rest.images },
            ),
            Err(e) => Err(e),
        }),
{
}

/// An image chunk that claims more pixels than the buffer holds fails,
/// and with a bounds error: there is no silent truncation.
pub proof fn lemma_truncated_image_pixels(s: Seq<u8>, p: int)
    requires
        0 <= p,
        readable(s, p, 36),
        (le32_at(s, p + 16) as nat) * (le32_at(s, p + 20) as nat) > 0,
        p + 24 + 4 * ((le32_at(s, p + 16) as nat) * (le32_at(s, p + 20) as nat)) > s.len(),
    ensures
        spec_image_at(s, p) is Err,
        spec_image_at(s, p)->Err_0 is ReadError,
{
    lemma_truncated_pixels(
        s,
        p + 24,
        (le32_at(s, p + 16) as nat) * (le32_at(s, p + 20) as nat),
    );
}

/// A comment chunk whose payload bytes are present never fails, whatever
/// those bytes hold; and when they are not valid UTF-8 the comment's text
/// is the empty string rather than an error.
pub proof fn lemma_comment_payload_lenient(s: Seq<u8>, p: int)
    requires
        0 <= p,
        readable(s, p, 20),
        readable(s, p + 20, le32_at(s, p + 16) as int),
    ensures
        spec_comment_at(s, p) is Ok,
        !valid_utf8(s.subrange(p + 20, p + 20 + le32_at(s, p + 16))) ==> spec_comment_at(
            s,
            p,
        )->Ok_0.string == Seq::<char>::empty(),
{
}

/// Every failure while reading a pixel block is a bounds failure: pixel
/// bytes themselves are never rejected.
pub proof fn lemma_pixels_err_is_read_error(s: Seq<u8>, off: int, n: nat)
    ensures
        spec_pixels(s, off, n) matches Err(e) ==> e is ReadError,
    decreases n,
{
    if n > 0 {
        lemma_pixels_err_is_read_error(s, off + 4, (n - 1) as nat);
    }
}

/// A pixel block that would run past the buffer's end fails, and with a
/// bounds error: there is no silent truncation.
pub proof fn lemma_truncated_pixels(s: Seq<u8>, off: int, n: nat)
    requires
        0 <= off,
        n > 0,
        off + 4 * n > s.len(),
    ensures
        spec_pixels(s, off, n) is Err,
        spec_pixels(s, off, n)->Err_0 is ReadError,
    decreases n,
{
    if readable(s, off, 4) {
        lemma_truncated_pixels(s, off + 4, (n - 1) as nat);
    }
}

/// A table of contents whose entries would run past the buffer's end
/// fails, and with a bounds error.
pub proof fn lemma_truncated_tocs(s: Seq<u8>, k: int, ntoc: int)
    requires
        0 <= k < ntoc,
        s.len() < 16 + 12 * ntoc,
    ensures
        spec_tocs_from(s, k, ntoc) is Err,
        spec_tocs_from(s, k, ntoc)->Err_0 is ReadError,
    decreases ntoc - k,
{
    if spec_toc_entry(s, 16 + 12 * k) is Ok {
        lemma_truncated_tocs(s, k + 1, ntoc);
    }
}

/// A buffer whose header claims more table-of-contents entries than the
/// buffer holds fails with a bounds error, never a partial document.
pub proof fn lemma_truncated_toc_parse(s: Seq<u8>)
    requires
        s.len() >= 16,
        le32_at(s, 0) == XCUR_MAGIC,
        le32_at(s, 12) > 0,
        s.len() < 16 + 12 * (le32_at(s, 12) as int),
    ensures
        spec_parse(s) is Err,
        spec_parse(s)->Err_0 is ReadError,
{
    lemma_truncated_tocs(s, 0, le32_at(s, 12) as int);
}

} // verus!
