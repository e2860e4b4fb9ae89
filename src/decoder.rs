use crate::error::{eof, invalid, outcome, outcome_view, Error, ErrorKind, IoError};
use crate::instructions::{complex_instructions, ChunkInfo};
use crate::section::{parse_section_header, section_at, RawSection};
use crate::snappy::{snappy_decompress, snappy_decompressed};
use crate::texture::{
    header_for, header_of, is_single_code, wrap_single_texture, Header, RawTexture,
    SecondStageCompressor, Texture, MULTIPLE_IMAGES,
};
use vstd::prelude::*;
use vstd::slice::{slice_subrange, slice_to_vec};

verus! {

/// Decodes Hap frames one after another.
pub struct Decoder;

/// The chunks `cs` of a body, moved to start at `q` in the frame.
pub open spec fn moved_chunks(cs: Seq<ChunkInfo>, q: int) -> Seq<ChunkInfo> {
    Seq::new(
        cs.len(),
        |i: int| ChunkInfo { offset: (cs[i].offset + q) as usize, size: cs[i].size, compressor: cs[i].compressor },
    )
}

/// Every chunk of `cs` lies within a body of `len` bytes.
pub open spec fn chunks_fit(cs: Seq<ChunkInfo>, len: int) -> bool {
    forall|i: int| 0 <= i < cs.len() ==> #[trigger] cs[i].offset + cs[i].size <= len
}

/// The pieces (ranges of `d`, each stored or Snappy-compressed) that make up
/// the texture of section `s`, whose payload starts at `p`, and where the
/// texture ends. The high nibble of the section's type names the
/// compressor.
pub open spec fn texture_plan(d: Seq<u8>, s: RawSection, p: int) -> Result<
    (Seq<ChunkInfo>, int),
    ErrorKind,
> {
    let hi = s.section_type & 0xF0;
    if hi == 0xA0 || hi == 0xB0 {
        if p + s.size > d.len() {
            Err(eof())
        } else {
            Ok(
                (
                    seq![
                        ChunkInfo {
                            offset: p as usize,
                            size: s.size as usize,
                            compressor: if hi == 0xA0 {
                                SecondStageCompressor::Uncompressed
                            } else {
                                SecondStageCompressor::Snappy
                            },
                        },
                    ],
                    p + s.size,
                ),
            )
        }
    } else if hi == 0xC0 {
        match complex_instructions(d, p) {
            Err(e) => Err(e),
            Ok((consumed, cs)) => if consumed > s.size {
                Err(invalid())
            } else if p + s.size > d.len() {
                Err(eof())
            } else if !chunks_fit(cs, s.size - consumed) {
                Err(invalid())
            } else {
                Ok((moved_chunks(cs, p + consumed), p + s.size))
            },
        }
    } else {
        Err(ErrorKind::UnknownCompressor(hi))
    }
}

/// A single texture's pieces, tagged with the format code of section `s`.
pub open spec fn single_plan(d: Seq<u8>, s: RawSection, p: int) -> Result<
    (u8, Seq<ChunkInfo>, Seq<ChunkInfo>),
    ErrorKind,
> {
    match texture_plan(d, s, p) {
        Err(e) => Err(e),
        Ok((ps, _)) => if is_single_code(s.section_type & 0x0F) {
            Ok((s.section_type & 0x0F, ps, Seq::empty()))
        } else {
            Err(ErrorKind::UnknownTextureFormat(s.section_type & 0x0F))
        },
    }
}

/// The plan of the frame at the start of `d`: its format code and the
/// pieces of its first and (for a pair) second texture. An outer section of
/// type `0x0D` holds one texture section that fills it, or two that fill it
/// together, preambles included.
pub open spec fn frame_plan(d: Seq<u8>) -> Result<(u8, Seq<ChunkInfo>, Seq<ChunkInfo>), ErrorKind> {
    match section_at(d, 0) {
        None => Err(eof()),
        Some(o) => if o.section_type == MULTIPLE_IMAGES {
            match section_at(d, o.header_size as int) {
                None => Err(eof()),
                Some(s1) => if s1.total() == o.size {
                    single_plan(d, s1, o.header_size + s1.header_size)
                } else {
                    match texture_plan(d, s1, o.header_size + s1.header_size) {
                        Err(e) => Err(e),
                        Ok((ps1, end1)) => match section_at(d, end1) {
                            None => Err(eof()),
                            Some(s2) => if s1.total() + s2.total() != o.size {
                                Err(invalid())
                            } else {
                                match texture_plan(d, s2, end1 + s2.header_size) {
                                    Err(e) => Err(e),
                                    Ok((ps2, _)) => Ok((MULTIPLE_IMAGES, ps1, ps2)),
                                }
                            },
                        },
                    }
                },
            }
        } else {
            single_plan(d, o, o.header_size as int)
        },
    }
}

/// What one piece decodes to.
pub open spec fn piece_output(d: Seq<u8>, c: ChunkInfo) -> Result<Seq<u8>, ErrorKind> {
    if c.offset + c.size > d.len() {
        Err(invalid())
    } else {
        let raw = d.subrange(c.offset as int, c.offset + c.size);
        if c.compressor == SecondStageCompressor::Snappy {
            match snappy_decompressed(raw) {
                Some(v) => Ok(v),
                None => Err(ErrorKind::Snappy),
            }
        } else {
            Ok(raw)
        }
    }
}

/// What the pieces `ps` decode to, one after the other.
pub open spec fn pieces_output(d: Seq<u8>, ps: Seq<ChunkInfo>) -> Result<Seq<u8>, ErrorKind>
    decreases ps.len(),
{
    if ps.len() == 0 {
        Ok(Seq::empty())
    } else {
        match pieces_output(d, ps.drop_last()) {
            Err(e) => Err(e),
            Ok(acc) => match piece_output(d, ps.last()) {
                Err(e) => Err(e),
                Ok(v) => Ok(acc + v),
            },
        }
    }
}

/// The texture that the frame at the start of `d` decodes to.
pub open spec fn frame_output(d: Seq<u8>) -> Result<(u8, Seq<u8>, Seq<u8>), ErrorKind> {
    match frame_plan(d) {
        Err(e) => Err(e),
        Ok((f, ps1, ps2)) => match pieces_output(d, ps1) {
            Err(e) => Err(e),
            Ok(a) => match pieces_output(d, ps2) {
                Err(e) => Err(e),
                Ok(b) => Ok((f, a, b)),
            },
        },
    }
}

/// The pieces of a frame, and the format code of what they decode to.
pub struct FramePlan {
    pub format: u8,
    pub first: Vec<ChunkInfo>,
    pub second: Vec<ChunkInfo>,
}

impl View for FramePlan {
    type V = (u8, Seq<ChunkInfo>, Seq<ChunkInfo>);

    open spec fn view(&self) -> (u8, Seq<ChunkInfo>, Seq<ChunkInfo>) {
        (self.format, self.first@, self.second@)
    }
}

impl Decoder {
    /// A decoder that decodes on the calling thread.
    pub fn new() -> Self {
        Decoder
    }

    /// The pieces of the texture of section `s`, whose payload starts at
    /// `p`, and where the texture ends.
    fn plan_texture(&self, d: &[u8], s: RawSection, p: usize) -> (r: Result<(Vec<ChunkInfo>, usize), Error>)
        ensures
            match texture_plan(d@, s, p as int) {
                Ok((ps, end)) => r is Ok && r->Ok_0.0@ == ps && r->Ok_0.1 == end,
                Err(e) => r is Err && r->Err_0@ == e,
            },
    {
        let n = d.len();
        let hi = s.section_type & 0xF0;
        if hi == 0xA0 || hi == 0xB0 {
            if p > n || s.size as usize > n - p {
                return Err(Error::Io(IoError::UnexpectedEof));
            }
            let compressor = if hi == 0xA0 {
                SecondStageCompressor::Uncompressed
            } else {
                SecondStageCompressor::Snappy
            };
            let mut ps: Vec<ChunkInfo> = Vec::new();
            ps.push(ChunkInfo { offset: p, size: s.size as usize, compressor });
            Ok((ps, p + s.size as usize))
        } else if hi == 0xC0 {
            let (consumed, chunks) = match self.decode_complex_instruction(d, p) {
                Ok(c) => c,
                Err(e) => return Err(e),
            };
            if consumed > s.size as usize {
                return Err(Error::Io(IoError::InvalidData));
            }
            if p > n || s.size as usize > n - p {
                return Err(Error::Io(IoError::UnexpectedEof));
            }
            let body_len = s.size as usize - consumed;
            let q = p + consumed;
            let mut ps: Vec<ChunkInfo> = Vec::new();
            let mut i: usize = 0;
            while i < chunks.len()
                invariant
                    i <= chunks@.len(),
                    q == p + consumed,
                    q + body_len <= n,
                    n == d@.len(),
                    consumed <= s.size,
                    body_len == s.size - consumed,
                    p + s.size <= n,
                    s.section_type & 0xF0 == 0xC0,
                    complex_instructions(d@, p as int) == Ok::<_, ErrorKind>((consumed, chunks@)),
                    ps@ == moved_chunks(chunks@, q as int).take(i as int),
                    chunks_fit(chunks@.take(i as int), body_len as int),
                decreases chunks@.len() - i,
            {
                let c = chunks[i];
                if c.offset > body_len || c.size > body_len - c.offset {
                    assert(chunks@[i as int].offset + chunks@[i as int].size > body_len);
                    assert(!chunks_fit(chunks@, body_len as int));
                    return Err(Error::Io(IoError::InvalidData));
                }
                ps.push(ChunkInfo { offset: c.offset + q, size: c.size, compressor: c.compressor });
                proof {
                    assert(chunks@.take(i + 1) == chunks@.take(i as int).push(c));
                    assert(moved_chunks(chunks@, q as int).take(i + 1) == moved_chunks(
                        chunks@,
                        q as int,
                    ).take(i as int).push(ps@[i as int]));
                }
                i += 1;
            }
            assert(chunks@.take(i as int) == chunks@);
            assert(moved_chunks(chunks@, q as int).take(i as int) == moved_chunks(chunks@, q as int));
            Ok((ps, p + s.size as usize))
        } else {
            Err(Error::UnknownCompressor(hi))
        }
    }
}

/// Whether `code` is the format code of a single texture.
pub fn is_single_format(code: u8) -> (r: bool)
    ensures
        r == is_single_code(code),
{
    code == 0x01 || code == 0x02 || code == 0x03 || code == 0x0B || code == 0x0C || code == 0x0E
        || code == 0x0F
}

/// Tags decoded bytes with the format code of their frame: the pair for
/// `0x0D`, else the single texture that the low nibble names.
pub fn assemble_texture(format: u8, first: RawTexture, second: RawTexture) -> (r: Result<
    Texture,
    Error,
>)
    ensures
        format == MULTIPLE_IMAGES ==> r is Ok && r->Ok_0@ == (format, first@, second@),
        format != MULTIPLE_IMAGES && is_single_code(format & 0x0F) ==> r is Ok && r->Ok_0@ == (
        format & 0x0F,
        first@,
        Seq::<u8>::empty(),
        ),
        format != MULTIPLE_IMAGES && !is_single_code(format & 0x0F) ==> r is Err && r->Err_0@
            == ErrorKind::UnknownTextureFormat(format & 0x0F),
{
    if format == MULTIPLE_IMAGES {
        Ok(Texture::MultipleImages_ScaledYCoCg_DXT5_Alpha_RGTC1(first, second))
    } else {
        wrap_single_texture(format, first)
    }
}

/// What one piece of `d` decodes to.
pub fn decode_piece(d: &[u8], c: ChunkInfo) -> (r: Result<Vec<u8>, Error>)
    ensures
        outcome_view(r) == piece_output(d@, c),
{
    if c.offset > d.len() || c.size > d.len() - c.offset {
        return Err(Error::Io(IoError::InvalidData));
    }
    let raw = slice_subrange(d, c.offset, c.offset + c.size);
    if c.compressor == SecondStageCompressor::Snappy {
        match snappy_decompress(raw) {
            Ok(v) => Ok(v),
            Err(e) => Err(Error::Snappy(e)),
        }
    } else {
        Ok(slice_to_vec(raw))
    }
}

proof fn lemma_pieces_output_error(d: Seq<u8>, ps: Seq<ChunkInfo>, i: int)
    requires
        0 <= i < ps.len(),
        pieces_output(d, ps.take(i)) is Ok,
        piece_output(d, ps[i]) is Err,
    ensures
        pieces_output(d, ps) == Err::<Seq<u8>, _>(piece_output(d, ps[i])->Err_0),
    decreases ps.len(),
{
    if ps.len() == i + 1 {
        assert(ps.drop_last() == ps.take(i));
    } else {
        assert(ps.drop_last().take(i) == ps.take(i));
        lemma_pieces_output_error(d, ps.drop_last(), i);
    }
}

/// Decodes the pieces `ps` of `d` one after the other and joins what they
/// decode to, in their order.
pub fn decode_chunks(d: &[u8], ps: &Vec<ChunkInfo>) -> (r: Result<Vec<u8>, Error>)
    ensures
        outcome_view(r) == pieces_output(d@, ps@),
{
    let mut out: Vec<u8> = Vec::new();
    let mut i: usize = 0;
    while i < ps.len()
        invariant
            i <= ps@.len(),
            pieces_output(d@, ps@.take(i as int)) == Ok::<_, ErrorKind>(out@),
        decreases ps@.len() - i,
    {
        assert(ps@.take(i + 1).drop_last() == ps@.take(i as int));
        match decode_piece(d, ps[i]) {
            Ok(mut v) => out.append(&mut v),
            Err(e) => {
                proof {
                    lemma_pieces_output_error(d@, ps@, i as int);
                }
                return Err(e);
            },
        }
        i += 1;
    }
    assert(ps@.take(i as int) == ps@);
    Ok(out)
}

impl Decoder {
    /// Reads the frame at the start of `d` as far as the pieces of its
    /// textures, without decoding them.
    pub fn plan_frame(&self, d: &[u8]) -> (r: Result<FramePlan, Error>)
        ensures
            outcome_view(r) == frame_plan(d@),
    {
        let o = match parse_section_header(d, 0) {
            Ok(s) => s,
            Err(e) => return Err(e),
        };
        if o.section_type == MULTIPLE_IMAGES {
            let s1 = match parse_section_header(d, o.header_size) {
                Ok(s) => s,
                Err(e) => return Err(e),
            };
            let p1 = o.header_size + s1.header_size;
            if s1.header_size as u64 + s1.size as u64 == o.size as u64 {
                self.plan_single(d, s1, p1)
            } else {
                let (first, end1) = match self.plan_texture(d, s1, p1) {
                    Ok(t) => t,
                    Err(e) => return Err(e),
                };
                let s2 = match parse_section_header(d, end1) {
                    Ok(s) => s,
                    Err(e) => return Err(e),
                };
                if s1.header_size as u64 + s1.size as u64 + s2.header_size as u64 + s2.size as u64
                    != o.size as u64 {
                    return Err(Error::Io(IoError::InvalidData));
                }
                let (second, _) = match self.plan_texture(d, s2, end1 + s2.header_size) {
                    Ok(t) => t,
                    Err(e) => return Err(e),
                };
                Ok(FramePlan { format: MULTIPLE_IMAGES, first, second })
            }
        } else {
            self.plan_single(d, o, o.header_size)
        }
    }

    fn plan_single(&self, d: &[u8], s: RawSection, p: usize) -> (r: Result<FramePlan, Error>)
        ensures
            outcome_view(r) == single_plan(d@, s, p as int),
    {
        let (first, _) = match self.plan_texture(d, s, p) {
            Ok(t) => t,
            Err(e) => return Err(e),
        };
        let code = s.section_type & 0x0F;
        if is_single_format(code) {
            Ok(FramePlan { format: code, first, second: Vec::new() })
        } else {
            Err(Error::UnknownTextureFormat(code))
        }
    }

    /// Decodes the frame at the start of `d`. Bytes after the frame are
    /// left alone.
    pub fn decode_frame(&self, d: &[u8]) -> (r: Result<Texture, Error>)
        ensures
            outcome_view(r) == frame_output(d@),
    {
        let plan = match self.plan_frame(d) {
            Ok(p) => p,
            Err(e) => return Err(e),
        };
        let first = match decode_chunks(d, &plan.first) {
            Ok(v) => v,
            Err(e) => return Err(e),
        };
        let second = match decode_chunks(d, &plan.second) {
            Ok(v) => v,
            Err(e) => return Err(e),
        };
        proof {
            let f = plan.format;
            if f != MULTIPLE_IMAGES {
                assert(is_single_code(f));
                assert(f & 0x0F == f) by (bit_vector)
                    requires
                        f == 0x01u8 || f == 0x02u8 || f == 0x03u8 || f == 0x0Bu8 || f == 0x0Cu8
                            || f == 0x0Eu8 || f == 0x0Fu8,
                ;
                assert(plan.second@.len() == 0);
            }
        }
        assemble_texture(plan.format, first, second)
    }
}

/// Reads the preamble of the frame at the start of `d`, and what its type
/// says, without reading further.
pub fn parse_toplevel_section(d: &[u8]) -> (r: Result<Header, Error>)
    ensures
        outcome(r) == match section_at(d@, 0) {
            None => Err(eof()),
            Some(s) => header_of(s.size, s.section_type),
        },
{
    match parse_section_header(d, 0) {
        Ok(s) => header_for(s.size, s.section_type),
        Err(e) => Err(e),
    }
}

/// The number of bytes of the frame at the start of `d`: its outer
/// preamble and payload.
pub fn frame_length(d: &[u8]) -> (r: Result<u64, Error>)
    ensures
        outcome(r) == match section_at(d@, 0) {
            None => Err(eof()),
            Some(s) => Ok::<u64, ErrorKind>(s.total() as u64),
        },
{
    match parse_section_header(d, 0) {
        Ok(s) => Ok(s.header_size as u64 + s.size as u64),
        Err(e) => Err(e),
    }
}

/// A multi-image marker never names the texture itself: where its frame
/// decodes, the result is the single texture that the type of an inner
/// section filling the marker names, or else the pair.
pub proof fn lemma_marker_defers_to_inner(d: Seq<u8>)
    requires
        section_at(d, 0) is Some,
        section_at(d, 0)->Some_0.section_type == MULTIPLE_IMAGES,
        frame_output(d) is Ok,
    ensures
        ({
            let o = section_at(d, 0)->Some_0;
            let s1 = section_at(d, o.header_size as int)->Some_0;
            frame_output(d)->Ok_0.0 == if s1.total() == o.size {
                s1.section_type & 0x0F
            } else {
                MULTIPLE_IMAGES
            }
        }),
{
}

} // verus!
