//! The primitive reader: fixed-width unsigned integers out of a byte buffer.
//!
//! Every multi-byte field of the format is a 32-bit unsigned integer stored
//! little-endian at an absolute offset. [`card32`] is the one primitive the
//! rest of the decoder is built on; [`le32_at`] is its mathematical meaning
//! and [`spec_read32`] its full contract, bounds failure included.

use crate::error::ParseError;
use vstd::prelude::*;

verus! {

/// Whether `n` bytes starting at `off` lie inside `s`.
pub open spec fn readable(s: Seq<u8>, off: int, n: int) -> bool {
    0 <= off && off + n <= s.len()
}

/// The little-endian 32-bit value of the four bytes of `s` at `off`.
pub open spec fn le32_at(s: Seq<u8>, off: int) -> u32
    recommends
        readable(s, off, 4),
{
    (s[off] + s[off + 1] * 0x100 + s[off + 2] * 0x1_0000 + s[off + 3] * 0x100_0000) as u32
}

/// What a bounds-checked 32-bit read at `off` yields: the little-endian
/// value when four bytes are available, and otherwise the read failure,
/// carrying the offset and the requested size.
pub open spec fn spec_read32(s: Seq<u8>, off: int) -> Result<u32, ParseError>
    recommends
        0 <= off,
{
    if readable(s, off, 4) {
        Ok(le32_at(s, off))
    } else {
        Err(ParseError::ReadError { offset: off as u64, size: 4 })
    }
}

/// Reads the 32-bit little-endian integer at absolute offset `off`, or
/// reports the failed read when fewer than four bytes remain there.
pub fn card32(buf: &[u8], off: u64) -> (r: Result<u32, ParseError>)
    ensures
        r == spec_read32(buf@, off as int),
{
    let len: usize = buf.len();
    if off <= len as u64 && len as u64 - off >= 4 {
        let i: usize = off as usize;
        let b0 = *vstd::slice::slice_index_get(buf, i) as u32;
        let b1 = *vstd::slice::slice_index_get(buf, i + 1) as u32;
        let b2 = *vstd::slice::slice_index_get(buf, i + 2) as u32;
        let b3 = *vstd::slice::slice_index_get(buf, i + 3) as u32;
        Ok(b0 + b1 * 0x100 + b2 * 0x1_0000 + b3 * 0x100_0000)
    } else {
        Err(ParseError::ReadError { offset: off, size: 4 })
    }
}

} // verus!
