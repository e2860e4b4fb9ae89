use crate::error::{eof, outcome, Error, IoError};
use vstd::arithmetic::div_mod::lemma_fundamental_div_mod;
use vstd::prelude::*;

verus! {

/// The little-endian value of the three bytes of `d` from `p` on.
pub open spec fn le24(d: Seq<u8>, p: int) -> int {
    d[p] as int + d[p + 1] as int * 256 + d[p + 2] as int * 65536
}

/// The little-endian value of the four bytes of `d` from `p` on.
pub open spec fn le32(d: Seq<u8>, p: int) -> int {
    le24(d, p) + d[p + 3] as int * 16777216
}

/// A section preamble: the payload's size, the section's type, and whether
/// the preamble took the short (4 bytes) or the long (8 bytes) form.
#[derive(Debug, Clone, Copy, PartialEq, Eq, Structural)]
pub struct RawSection {
    pub size: u32,
    pub section_type: u8,
    pub header_size: usize,
}

impl RawSection {
    /// Bytes taken by the section: preamble and payload.
    pub open spec fn total(self) -> int {
        self.header_size + self.size
    }
}

/// The preamble that starts at `p` in `d`, or `None` where `d` ends first.
/// A nonzero 24-bit size is the payload size; a zero one is followed by
/// the 32-bit size.
pub open spec fn section_at(d: Seq<u8>, p: int) -> Option<RawSection> {
    if p < 0 || p + 4 > d.len() {
        None
    } else if le24(d, p) != 0 {
        Some(RawSection { size: le24(d, p) as u32, section_type: d[p + 3], header_size: 4 })
    } else if p + 8 > d.len() {
        None
    } else {
        Some(RawSection { size: le32(d, p + 4) as u32, section_type: d[p + 3], header_size: 8 })
    }
}

/// The preamble bytes that announce a payload of `size` bytes of type `t`:
/// the short form where the size is nonzero and fits in 24 bits, the long
/// form otherwise.
pub open spec fn preamble_bytes(size: u32, t: u8) -> Seq<u8> {
    let b0 = (size % 256) as u8;
    let b1 = (size / 256 % 256) as u8;
    let b2 = (size / 256 / 256 % 256) as u8;
    let b3 = (size / 256 / 256 / 256) as u8;
    if 0 < size < 16777216 {
        seq![b0, b1, b2, t]
    } else {
        seq![0u8, 0u8, 0u8, t, b0, b1, b2, b3]
    }
}

fn read_u24_le(d: &[u8], p: usize) -> (r: u32)
    requires
        p + 3 <= d.len(),
    ensures
        r as int == le24(d@, p as int),
        r < 16777216,
{
    d[p] as u32 + (d[p + 1] as u32) * 256 + (d[p + 2] as u32) * 65536
}

pub(crate) fn read_u32_le(d: &[u8], p: usize) -> (r: u32)
    requires
        p + 4 <= d.len(),
    ensures
        r as int == le32(d@, p as int),
{
    let high = d[p + 3] as u32;
    let low = read_u24_le(d, p);
    low + high * 16777216
}

/// Reads the preamble that starts at `p`.
pub fn parse_section_header(d: &[u8], p: usize) -> (r: Result<RawSection, Error>)
    ensures
        outcome(r) == match section_at(d@, p as int) {
            Some(s) => Ok(s),
            None => Err(eof()),
        },
        r is Ok ==> p + r->Ok_0.header_size <= d.len(),
{
    if d.len() < 4 || p > d.len() - 4 {
        return Err(Error::Io(IoError::UnexpectedEof));
    }
    let short = read_u24_le(d, p);
    let section_type = d[p + 3];
    if short != 0 {
        Ok(RawSection { size: short, section_type, header_size: 4 })
    } else if d.len() < 8 || p > d.len() - 8 {
        Err(Error::Io(IoError::UnexpectedEof))
    } else {
        Ok(RawSection { size: read_u32_le(d, p + 4), section_type, header_size: 8 })
    }
}

/// Decoding a preamble gives back the size and type it was written with,
/// in the form that the size called for, whatever bytes follow it.
pub proof fn lemma_preamble_round_trip(size: u32, t: u8, rest: Seq<u8>)
    ensures
        section_at(preamble_bytes(size, t) + rest, 0) == Some(
            RawSection {
                size,
                section_type: t,
                header_size: if 0 < size < 16777216 { 4usize } else { 8usize },
            },
        ),
{
    let d = preamble_bytes(size, t) + rest;
    let q1 = size / 256;
    let q2 = q1 / 256;
    let b3 = q2 / 256;
    lemma_fundamental_div_mod(size as int, 256);
    lemma_fundamental_div_mod(q1 as int, 256);
    lemma_fundamental_div_mod(q2 as int, 256);
    let b0 = size % 256;
    let b1 = q1 % 256;
    let b2 = q2 % 256;
    assert(b0 + b1 * 256 + b2 * 65536 + b3 * 16777216 == size);
    assert(b3 < 256);
    if 0 < size < 16777216 {
        assert(d[0] == b0 as u8 && d[1] == b1 as u8 && d[2] == b2 as u8 && d[3] == t);
        assert(b3 == 0);
    } else {
        assert(d[0] == 0 && d[1] == 0 && d[2] == 0 && d[3] == t);
        assert(d[4] == b0 as u8 && d[5] == b1 as u8 && d[6] == b2 as u8 && d[7] == b3 as u8);
    }
}

} // verus!
