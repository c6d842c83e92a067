use xcur::error::ParseError;
use xcur::parser::{
    ChunkHeader, Comment, File, Header, Image, TableOfContents, COMMENT_COPYRIGHT, COMMENT_LICENSE,
    COMMENT_OTHER, COMMENT_TYPE, IMAGE_TYPE, XCUR_MAGIC,
};

fn put32(buf: &mut Vec<u8>, x: u32) {
    buf.extend_from_slice(&x.to_le_bytes());
}

fn header_bytes(ntoc: u32) -> Vec<u8> {
    let mut buf = Vec::new();
    put32(&mut buf, XCUR_MAGIC);
    put32(&mut buf, 16);
    put32(&mut buf, 1);
    put32(&mut buf, ntoc);
    buf
}

fn toc_entry(buf: &mut Vec<u8>, type_: u32, subtype: u32, position: u32) {
    put32(buf, type_);
    put32(buf, subtype);
    put32(buf, position);
}

fn comment_chunk(buf: &mut Vec<u8>, subtype: u32, version: u32, payload: &[u8]) {
    put32(buf, 20);
    put32(buf, COMMENT_TYPE);
    put32(buf, subtype);
    put32(buf, version);
    put32(buf, payload.len() as u32);
    buf.extend_from_slice(payload);
}

#[allow(clippy::too_many_arguments)]
fn image_chunk(
    buf: &mut Vec<u8>,
    subtype: u32,
    version: u32,
    width: u32,
    height: u32,
    xhot: u32,
    yhot: u32,
    delay: u32,
) {
    put32(buf, 36);
    put32(buf, IMAGE_TYPE);
    put32(buf, subtype);
    put32(buf, version);
    put32(buf, width);
    put32(buf, height);
    put32(buf, xhot);
    put32(buf, yhot);
    put32(buf, delay);
    // Pixels are read from 24 bytes past the chunk start, so for small
    // images they overlap the hotspot and delay fields; pad with zero
    // bytes for whatever the pixel block still needs beyond the prologue.
    let pixel_bytes = (width as usize) * (height as usize) * 4;
    if pixel_bytes > 12 {
        buf.extend_from_slice(&vec![0u8; pixel_bytes - 12]);
    }
}

#[test]
fn card32_reads_little_endian() {
    let bytes = [0x78, 0x56, 0x34, 0x12, 0xFF];
    assert_eq!(xcur::reader::card32(&bytes, 0), Ok(0x1234_5678));
    assert_eq!(
        xcur::reader::card32(&bytes, 2),
        Err(ParseError::ReadError { offset: 2, size: 4 })
    );
    assert_eq!(
        xcur::reader::card32(&bytes, 9),
        Err(ParseError::ReadError { offset: 9, size: 4 })
    );
}

#[test]
fn header_fields_parse_in_order() {
    let mut buf = Vec::new();
    put32(&mut buf, XCUR_MAGIC);
    put32(&mut buf, 16);
    put32(&mut buf, 7);
    put32(&mut buf, 3);
    let h = Header::parse(&buf).unwrap();
    assert_eq!(h.magic, XCUR_MAGIC);
    assert_eq!(h.header, 16);
    assert_eq!(h.version, 7);
    assert_eq!(h.ntoc, 3);
    assert!(h.validate().is_ok());
}

#[test]
fn validate_rejects_wrong_magic() {
    let h = Header { magic: 0xDEAD_BEEF, header: 16, version: 1, ntoc: 0 };
    assert_eq!(h.validate(), Err(ParseError::InvalidHeader { found: 0xDEAD_BEEF }));
}

#[test]
fn toc_entry_parses_three_fields() {
    let mut buf = vec![0u8; 4];
    put32(&mut buf, IMAGE_TYPE);
    put32(&mut buf, 32);
    put32(&mut buf, 0x1000);
    let t = TableOfContents::parse(&buf, 4).unwrap();
    assert_eq!(t.type_, IMAGE_TYPE);
    assert_eq!(t.subtype, 32);
    assert_eq!(t.position, 0x1000);
}

#[test]
fn chunk_header_parses_four_fields() {
    let mut buf = Vec::new();
    put32(&mut buf, 20);
    put32(&mut buf, COMMENT_TYPE);
    put32(&mut buf, COMMENT_LICENSE);
    put32(&mut buf, 1);
    let ch = ChunkHeader::parse(&buf, 0).unwrap();
    assert_eq!(ch.header, 20);
    assert_eq!(ch.type_, COMMENT_TYPE);
    assert_eq!(ch.subtype, COMMENT_LICENSE);
    assert_eq!(ch.version, 1);
}

#[test]
fn empty_buffer_fails_at_first_read() {
    assert_eq!(
        File::parse(&[]).unwrap_err(),
        ParseError::ReadError { offset: 0, size: 4 }
    );
}

#[test]
fn truncated_header_reports_offset() {
    let buf = [0x58, 0x63, 0x75, 0x72, 0x10, 0x00, 0x00, 0x00];
    assert_eq!(
        File::parse(&buf).unwrap_err(),
        ParseError::ReadError { offset: 8, size: 4 }
    );
}

#[test]
fn empty_document_parses() {
    let buf = header_bytes(0);
    let f = File::parse(&buf).unwrap();
    assert!(f.comments.is_empty());
    assert!(f.images.is_empty());
}

#[test]
fn corrupting_any_magic_byte_fails_with_invalid_header() {
    for i in 0..4 {
        let mut buf = header_bytes(0);
        buf[i] ^= 0x01;
        let err = File::parse(&buf).unwrap_err();
        match err {
            ParseError::InvalidHeader { found } => {
                assert_eq!(found, u32::from_le_bytes([buf[0], buf[1], buf[2], buf[3]]));
            }
            other => panic!("expected InvalidHeader, got {:?}", other),
        }
    }
}

#[test]
fn unknown_toc_tag_fails_without_decoding() {
    let mut buf = header_bytes(1);
    // The position points far outside the buffer: if the parser tried to
    // decode the chunk this would be a read failure, not InvalidTOC.
    toc_entry(&mut buf, 0xABCD_0099, 0, 0xFFFF_0000);
    assert_eq!(File::parse(&buf).unwrap_err(), ParseError::InvalidTOC);
}

#[test]
fn toc_claiming_more_entries_than_present_fails_with_read_error() {
    let mut buf = header_bytes(2);
    toc_entry(&mut buf, COMMENT_TYPE, COMMENT_COPYRIGHT, 40);
    // The second entry is missing: its first field sits at offset 28.
    assert_eq!(
        File::parse(&buf).unwrap_err(),
        ParseError::ReadError { offset: 28, size: 4 }
    );
}

#[test]
fn comment_round_trip() {
    let mut buf = header_bytes(1);
    toc_entry(&mut buf, COMMENT_TYPE, COMMENT_COPYRIGHT, 28);
    comment_chunk(&mut buf, COMMENT_COPYRIGHT, 1, b"hello");
    let f = File::parse(&buf).unwrap();
    assert_eq!(f.comments.len(), 1);
    assert!(f.images.is_empty());
    let c = &f.comments[0];
    assert_eq!(c.length, 5);
    assert_eq!(c.string, "hello");
    assert_eq!(c.chunkheader.type_, COMMENT_TYPE);
    assert_eq!(c.chunkheader.subtype, COMMENT_COPYRIGHT);
    assert_eq!(c.chunkheader.version, 1);
}

#[test]
fn comment_multibyte_utf8_is_decoded() {
    let text = "h\u{e9}llo \u{1F600}";
    let mut buf = header_bytes(1);
    toc_entry(&mut buf, COMMENT_TYPE, COMMENT_OTHER, 28);
    comment_chunk(&mut buf, COMMENT_OTHER, 1, text.as_bytes());
    let f = File::parse(&buf).unwrap();
    assert_eq!(f.comments[0].string, text);
    assert_eq!(f.comments[0].length, text.len() as u32);
}

#[test]
fn invalid_utf8_comment_becomes_empty_string() {
    let mut buf = header_bytes(1);
    toc_entry(&mut buf, COMMENT_TYPE, COMMENT_LICENSE, 28);
    comment_chunk(&mut buf, COMMENT_LICENSE, 1, &[0xFF, 0xFE, 0x41]);
    let f = File::parse(&buf).unwrap();
    assert_eq!(f.comments.len(), 1);
    assert_eq!(f.comments[0].string, "");
    assert_eq!(f.comments[0].length, 3);
}

#[test]
fn comment_with_wrong_version_fails() {
    let mut buf = header_bytes(1);
    toc_entry(&mut buf, COMMENT_TYPE, COMMENT_COPYRIGHT, 28);
    comment_chunk(&mut buf, COMMENT_COPYRIGHT, 2, b"hi");
    assert_eq!(File::parse(&buf).unwrap_err(), ParseError::InvalidCommentVersion);
}

#[test]
fn comment_payload_longer_than_buffer_fails_with_read_error() {
    let mut buf = header_bytes(1);
    toc_entry(&mut buf, COMMENT_TYPE, COMMENT_COPYRIGHT, 28);
    put32(&mut buf, 20);
    put32(&mut buf, COMMENT_TYPE);
    put32(&mut buf, COMMENT_COPYRIGHT);
    put32(&mut buf, 1);
    put32(&mut buf, 100);
    buf.extend_from_slice(b"short");
    assert_eq!(
        File::parse(&buf).unwrap_err(),
        ParseError::ReadError { offset: 48, size: 100 }
    );
}

#[test]
fn one_by_one_image_parses() {
    let mut buf = header_bytes(1);
    toc_entry(&mut buf, IMAGE_TYPE, 32, 28);
    image_chunk(&mut buf, 32, 1, 1, 1, 0, 0, 50);
    let f = File::parse(&buf).unwrap();
    assert!(f.comments.is_empty());
    assert_eq!(f.images.len(), 1);
    let img = &f.images[0];
    assert_eq!(img.width, 1);
    assert_eq!(img.height, 1);
    assert_eq!(img.xhot, 0);
    assert_eq!(img.yhot, 0);
    assert_eq!(img.delay, 50);
    // The single pixel is read 24 bytes into the chunk, where the xhot
    // field sits.
    assert_eq!(img.pixels, vec![0]);
}

#[test]
fn image_with_wrong_version_fails() {
    let mut buf = header_bytes(1);
    toc_entry(&mut buf, IMAGE_TYPE, 32, 28);
    image_chunk(&mut buf, 32, 9, 1, 1, 0, 0, 0);
    assert_eq!(File::parse(&buf).unwrap_err(), ParseError::InvalidImageVersion);
}

#[test]
fn image_width_at_bound_fails_one_less_succeeds() {
    let mut buf = header_bytes(1);
    toc_entry(&mut buf, IMAGE_TYPE, 32, 28);
    image_chunk(&mut buf, 32, 1, 0x7FFF, 1, 0, 0, 0);
    assert_eq!(File::parse(&buf).unwrap_err(), ParseError::InvalidImageWidth);

    let mut buf = header_bytes(1);
    toc_entry(&mut buf, IMAGE_TYPE, 32, 28);
    image_chunk(&mut buf, 32, 1, 0x7FFE, 1, 0, 0, 0);
    let f = File::parse(&buf).unwrap();
    assert_eq!(f.images[0].width, 0x7FFE);
    assert_eq!(f.images[0].pixels.len(), 0x7FFE);
}

#[test]
fn image_height_at_bound_fails_one_less_succeeds() {
    let mut buf = header_bytes(1);
    toc_entry(&mut buf, IMAGE_TYPE, 32, 28);
    image_chunk(&mut buf, 32, 1, 1, 0x7FFF, 0, 0, 0);
    assert_eq!(File::parse(&buf).unwrap_err(), ParseError::InvalidImageHeight);

    let mut buf = header_bytes(1);
    toc_entry(&mut buf, IMAGE_TYPE, 32, 28);
    image_chunk(&mut buf, 32, 1, 1, 0x7FFE, 0, 0, 0);
    let f = File::parse(&buf).unwrap();
    assert_eq!(f.images[0].height, 0x7FFE);
}

#[test]
fn xhot_equal_to_width_fails_one_less_succeeds() {
    let mut buf = header_bytes(1);
    toc_entry(&mut buf, IMAGE_TYPE, 32, 28);
    image_chunk(&mut buf, 32, 1, 2, 1, 2, 0, 0);
    assert_eq!(File::parse(&buf).unwrap_err(), ParseError::InvalidImageXHot);

    let mut buf = header_bytes(1);
    toc_entry(&mut buf, IMAGE_TYPE, 32, 28);
    image_chunk(&mut buf, 32, 1, 2, 1, 1, 0, 0);
    let f = File::parse(&buf).unwrap();
    assert_eq!(f.images[0].xhot, 1);
}

#[test]
fn yhot_equal_to_height_fails() {
    let mut buf = header_bytes(1);
    toc_entry(&mut buf, IMAGE_TYPE, 32, 28);
    image_chunk(&mut buf, 32, 1, 1, 2, 0, 2, 0);
    assert_eq!(File::parse(&buf).unwrap_err(), ParseError::InvalidImageYHot);
}

#[test]
fn pixel_block_past_buffer_end_fails_with_read_error() {
    let mut buf = header_bytes(1);
    toc_entry(&mut buf, IMAGE_TYPE, 32, 28);
    // 4x4 pixels claimed, but the chunk ends right after its prologue:
    // the pixel block needs 64 bytes from offset 52 and the first missing
    // read is at 28 + 24 + 12 = 64.
    put32(&mut buf, 36);
    put32(&mut buf, IMAGE_TYPE);
    put32(&mut buf, 32);
    put32(&mut buf, 1);
    put32(&mut buf, 4);
    put32(&mut buf, 4);
    put32(&mut buf, 0);
    put32(&mut buf, 0);
    put32(&mut buf, 0);
    assert_eq!(
        File::parse(&buf).unwrap_err(),
        ParseError::ReadError { offset: 64, size: 4 }
    );
}

#[test]
fn chunk_position_past_buffer_end_fails_with_read_error() {
    let mut buf = header_bytes(1);
    toc_entry(&mut buf, COMMENT_TYPE, COMMENT_COPYRIGHT, 0x4000);
    assert_eq!(
        File::parse(&buf).unwrap_err(),
        ParseError::ReadError { offset: 0x4000, size: 4 }
    );
}

#[test]
fn document_order_follows_toc_not_file_layout() {
    // Two comment chunks; the table of contents lists the later chunk
    // first, and the document must keep that order.
    let mut buf = header_bytes(2);
    toc_entry(&mut buf, COMMENT_TYPE, COMMENT_COPYRIGHT, 65);
    toc_entry(&mut buf, COMMENT_TYPE, COMMENT_COPYRIGHT, 40);
    comment_chunk(&mut buf, COMMENT_COPYRIGHT, 1, b"first");
    comment_chunk(&mut buf, COMMENT_COPYRIGHT, 1, b"second");
    assert_eq!(buf.len(), 91);
    let f = File::parse(&buf).unwrap();
    assert_eq!(f.comments.len(), 2);
    assert_eq!(f.comments[0].string, "second");
    assert_eq!(f.comments[1].string, "first");
}

#[test]
fn parse_is_deterministic_across_calls() {
    let mut buf = header_bytes(1);
    toc_entry(&mut buf, COMMENT_TYPE, COMMENT_COPYRIGHT, 28);
    comment_chunk(&mut buf, COMMENT_COPYRIGHT, 1, b"same");
    let a = File::parse(&buf).unwrap();
    let b = File::parse(&buf).unwrap();
    assert_eq!(a.comments[0].string, b.comments[0].string);
    assert_eq!(a.comments[0].chunkheader, b.comments[0].chunkheader);
    let bad = [0u8; 3];
    assert_eq!(File::parse(&bad).unwrap_err(), File::parse(&bad).unwrap_err());
}

#[test]
fn end_to_end_comment_and_image() {
    // header{ntoc=2}, one copyright comment with a 5-byte ASCII string,
    // one 1x1 image with xhot=0, yhot=0, both with valid versions.
    let mut buf = header_bytes(2);
    toc_entry(&mut buf, COMMENT_TYPE, COMMENT_COPYRIGHT, 40);
    toc_entry(&mut buf, IMAGE_TYPE, 32, 65);
    comment_chunk(&mut buf, COMMENT_COPYRIGHT, 1, b"mine!");
    assert_eq!(buf.len(), 65);
    image_chunk(&mut buf, 32, 1, 1, 1, 0, 0, 120);
    let f = File::parse(&buf).unwrap();
    assert_eq!(f.comments.len(), 1);
    assert_eq!(f.images.len(), 1);
    let c = &f.comments[0];
    assert_eq!(c.chunkheader.header, 20);
    assert_eq!(c.chunkheader.type_, COMMENT_TYPE);
    assert_eq!(c.chunkheader.subtype, COMMENT_COPYRIGHT);
    assert_eq!(c.chunkheader.version, 1);
    assert_eq!(c.length, 5);
    assert_eq!(c.string, "mine!");
    let img = &f.images[0];
    assert_eq!(img.chunkheader.header, 36);
    assert_eq!(img.chunkheader.type_, IMAGE_TYPE);
    assert_eq!(img.chunkheader.subtype, 32);
    assert_eq!(img.chunkheader.version, 1);
    assert_eq!(img.width, 1);
    assert_eq!(img.height, 1);
    assert_eq!(img.xhot, 0);
    assert_eq!(img.yhot, 0);
    assert_eq!(img.delay, 120);
    assert_eq!(img.pixels, vec![0]);
}

#[test]
fn error_descriptions() {
    assert_eq!(
        ParseError::ReadError { offset: 3, size: 4 }.description(),
        "Read error"
    );
    assert_eq!(
        ParseError::InvalidHeader { found: 0 }.description(),
        "Invalid header"
    );
    assert_eq!(ParseError::InvalidCommentVersion.description(), "Invalid comment version");
    assert_eq!(ParseError::InvalidImageVersion.description(), "Invalid image version");
    assert_eq!(ParseError::InvalidImageWidth.description(), "Invalid image width");
    assert_eq!(ParseError::InvalidImageHeight.description(), "Invalid image height");
    assert_eq!(ParseError::InvalidImageXHot.description(), "Invalid image X hot");
    assert_eq!(ParseError::InvalidImageYHot.description(), "Invalid image Y hot");
    assert_eq!(ParseError::InvalidTOC.description(), "Invalid table of contents");
}

#[test]
fn comment_parse_reads_at_absolute_position() {
    let mut buf = vec![0xAA; 10];
    comment_chunk(&mut buf, COMMENT_LICENSE, 1, b"abc");
    let c = Comment::parse(&buf, 10).unwrap();
    assert_eq!(c.string, "abc");
    assert_eq!(c.chunkheader.subtype, COMMENT_LICENSE);
}

#[test]
fn image_parse_reads_at_absolute_position() {
    let mut buf = vec![0x55; 6];
    image_chunk(&mut buf, 32, 1, 2, 1, 1, 0, 9);
    let img = Image::parse(&buf, 6).unwrap();
    assert_eq!(img.width, 2);
    assert_eq!(img.height, 1);
    // Two pixels read from 24 bytes into the chunk: the xhot and yhot
    // fields.
    assert_eq!(img.pixels, vec![1, 0]);
}
