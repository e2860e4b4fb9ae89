use crate::decoder::Decoder;
use crate::error::{eof, invalid, outcome, outcome_view, Error, ErrorKind, IoError};
use crate::section::{
    lemma_preamble_round_trip, le32, parse_section_header, preamble_bytes, read_u32_le, section_at,
};
use crate::texture::SecondStageCompressor;
use vstd::prelude::*;
use vstd::slice::slice_subrange;

verus! {

/// Type of the sub-section that lists one compressor byte per chunk.
pub const COMPRESSOR_TABLE: u8 = 0x02;

/// Type of the sub-section that lists one 32-bit size per chunk.
pub const SIZE_TABLE: u8 = 0x03;

/// Type of the sub-section that lists one 32-bit offset per chunk.
pub const OFFSET_TABLE: u8 = 0x04;

/// One independently compressed range of a chunked texture body.
#[derive(Debug, Clone, Copy, PartialEq, Eq, Structural)]
pub struct ChunkInfo {
    pub offset: usize,
    pub size: usize,
    pub compressor: SecondStageCompressor,
}

/// The tables read so far from a complex header.
pub struct ChunkTables {
    pub compressors: Seq<SecondStageCompressor>,
    pub sizes: Seq<u32>,
    pub offsets: Seq<u32>,
}

pub open spec fn no_tables() -> ChunkTables {
    ChunkTables { compressors: Seq::empty(), sizes: Seq::empty(), offsets: Seq::empty() }
}

/// The compressor that a byte of the compressor table names.
pub open spec fn compressor_of_byte(b: u8) -> Result<SecondStageCompressor, ErrorKind> {
    if b == 0x0A {
        Ok(SecondStageCompressor::Uncompressed)
    } else if b == 0x0B {
        Ok(SecondStageCompressor::Snappy)
    } else {
        Err(ErrorKind::UnknownCompressor(b))
    }
}

/// The compressors that the bytes `b` name, or the error of the first
/// byte that names none.
pub open spec fn compressor_table(b: Seq<u8>) -> Result<Seq<SecondStageCompressor>, ErrorKind>
    decreases b.len(),
{
    if b.len() == 0 {
        Ok(Seq::empty())
    } else {
        match compressor_table(b.drop_last()) {
            Err(e) => Err(e),
            Ok(s) => match compressor_of_byte(b.last()) {
                Err(e) => Err(e),
                Ok(c) => Ok(s.push(c)),
            },
        }
    }
}

/// The 32-bit little-endian words of `b`, which must be whole.
pub open spec fn word_table(b: Seq<u8>) -> Result<Seq<u32>, ErrorKind> {
    if b.len() % 4 != 0 {
        Err(eof())
    } else {
        Ok(Seq::new((b.len() / 4) as nat, |i: int| le32(b, 4 * i) as u32))
    }
}

/// The tables after a sub-section of type `tag` with payload `body`: the
/// entries of a compressor, size or offset table are appended to that table,
/// and any other type is passed over.
pub open spec fn apply_instruction(t: ChunkTables, tag: u8, body: Seq<u8>) -> Result<
    ChunkTables,
    ErrorKind,
> {
    if tag == COMPRESSOR_TABLE {
        match compressor_table(body) {
            Err(e) => Err(e),
            Ok(c) => Ok(ChunkTables { compressors: t.compressors + c, sizes: t.sizes, offsets: t.offsets }),
        }
    } else if tag == SIZE_TABLE {
        match word_table(body) {
            Err(e) => Err(e),
            Ok(w) => Ok(ChunkTables { compressors: t.compressors, sizes: t.sizes + w, offsets: t.offsets }),
        }
    } else if tag == OFFSET_TABLE {
        match word_table(body) {
            Err(e) => Err(e),
            Ok(w) => Ok(ChunkTables { compressors: t.compressors, sizes: t.sizes, offsets: t.offsets + w }),
        }
    } else {
        Ok(t)
    }
}

/// The tables after the sub-sections that fill `p`, from `t` on. A
/// sub-section that runs past the end of `p` makes the stream invalid.
pub open spec fn scan_instructions(p: Seq<u8>, t: ChunkTables) -> Result<ChunkTables, ErrorKind>
    decreases p.len(),
{
    if p.len() == 0 {
        Ok(t)
    } else {
        match section_at(p, 0) {
            None => Err(invalid()),
            Some(s) => if s.total() > p.len() {
                Err(invalid())
            } else {
                match apply_instruction(t, s.section_type, p.subrange(s.header_size as int, s.total())) {
                    Err(e) => Err(e),
                    Ok(t2) => scan_instructions(p.subrange(s.total(), p.len() as int), t2),
                }
            },
        }
    }
}

/// The chunk list that tables `t` describe. The tables must have one entry
/// per chunk each (the offset table may be left out); without offsets, the
/// chunks follow each other from offset zero.
pub open spec fn build_chunks(t: ChunkTables) -> Result<Seq<ChunkInfo>, ErrorKind> {
    let n = t.sizes.len();
    if t.compressors.len() != n || (t.offsets.len() != 0 && t.offsets.len() != n) {
        Err(invalid())
    } else if t.offsets.len() == 0 && prefix_sum(t.sizes, n as int) > usize::MAX {
        Err(invalid())
    } else {
        Ok(Seq::new(n, |i: int| chunk_entry(t, i)))
    }
}

/// The `i`-th chunk that tables `t` describe.
pub open spec fn chunk_entry(t: ChunkTables, i: int) -> ChunkInfo {
    ChunkInfo {
        offset: (if t.offsets.len() == 0 {
            prefix_sum(t.sizes, i)
        } else {
            t.offsets[i] as int
        }) as usize,
        size: t.sizes[i] as usize,
        compressor: t.compressors[i],
    }
}

/// The sum of the first `n` entries of `s`.
pub open spec fn prefix_sum(s: Seq<u32>, n: int) -> int
    decreases n,
{
    if n <= 0 {
        0
    } else {
        prefix_sum(s, n - 1) + s[n - 1]
    }
}

/// The complex header that starts at `p` in `d`: the bytes it takes, and the
/// chunks it describes.
pub open spec fn complex_instructions(d: Seq<u8>, p: int) -> Result<(usize, Seq<ChunkInfo>), ErrorKind> {
    match section_at(d, p) {
        None => Err(eof()),
        Some(c) => if p + c.total() > d.len() {
            Err(eof())
        } else {
            match scan_instructions(d.subrange(p + c.header_size, p + c.total()), no_tables()) {
                Err(e) => Err(e),
                Ok(t) => match build_chunks(t) {
                    Err(e) => Err(e),
                    Ok(cs) => Ok((c.total() as usize, cs)),
                },
            }
        },
    }
}

/// The compressor that a byte of a compressor table names.
pub fn decode_second_stage_compressor(compressor: u8) -> (r: Result<SecondStageCompressor, Error>)
    ensures
        outcome(r) == compressor_of_byte(compressor),
{
    if compressor == 0x0A {
        Ok(SecondStageCompressor::Uncompressed)
    } else if compressor == 0x0B {
        Ok(SecondStageCompressor::Snappy)
    } else {
        Err(Error::UnknownCompressor(compressor))
    }
}

fn read_compressor_table(b: &[u8]) -> (r: Result<Vec<SecondStageCompressor>, Error>)
    ensures
        outcome_view(r) == compressor_table(b@),
{
    let mut v: Vec<SecondStageCompressor> = Vec::new();
    let mut i: usize = 0;
    while i < b.len()
        invariant
            i <= b@.len(),
            compressor_table(b@.take(i as int)) == Ok::<_, ErrorKind>(v@),
        decreases b@.len() - i,
    {
        assert(b@.take(i + 1).drop_last() == b@.take(i as int));
        match decode_second_stage_compressor(b[i]) {
            Ok(c) => v.push(c),
            Err(e) => {
                proof {
                    lemma_compressor_table_error(b@, i as int);
                }
                return Err(e);
            },
        }
        i += 1;
    }
    assert(b@.take(i as int) == b@);
    Ok(v)
}

/// An unknown byte in a table makes the whole table fail with the first
/// such byte's error, whatever follows it.
proof fn lemma_compressor_table_error(b: Seq<u8>, i: int)
    requires
        0 <= i < b.len(),
        compressor_table(b.take(i)) is Ok,
        compressor_of_byte(b[i]) is Err,
    ensures
        compressor_table(b) == Err::<Seq<SecondStageCompressor>, _>(compressor_of_byte(b[i])->Err_0),
    decreases b.len(),
{
    if b.len() == i + 1 {
        assert(b.drop_last() == b.take(i));
    } else {
        assert(b.drop_last().take(i) == b.take(i));
        lemma_compressor_table_error(b.drop_last(), i);
    }
}

fn read_word_table(b: &[u8]) -> (r: Result<Vec<u32>, Error>)
    ensures
        outcome_view(r) == word_table(b@),
{
    if b.len() % 4 != 0 {
        return Err(Error::Io(IoError::UnexpectedEof));
    }
    let n = b.len() / 4;
    let mut v: Vec<u32> = Vec::new();
    let mut i: usize = 0;
    while i < n
        invariant
            n == b@.len() / 4,
            b@.len() % 4 == 0,
            n * 4 == b.len(),
            i <= n,
            v@.len() == i,
            forall|k: int| 0 <= k < i ==> v@[k] as int == le32(b@, 4 * k),
        decreases n - i,
    {
        v.push(read_u32_le(b, 4 * i));
        i += 1;
    }
    assert(v@ == word_table(b@)->Ok_0);
    Ok(v)
}

proof fn lemma_prefix_sum_grows(s: Seq<u32>, i: int, j: int)
    requires
        0 <= i <= j <= s.len(),
    ensures
        prefix_sum(s, i) <= prefix_sum(s, j),
    decreases j - i,
{
    if i < j {
        lemma_prefix_sum_grows(s, i, j - 1);
    }
}

/// A preamble read at `q` is the one that starts the rest of `d` from `q`.
pub proof fn lemma_section_at_rest(d: Seq<u8>, q: int)
    requires
        0 <= q <= d.len(),
    ensures
        section_at(d, q) == section_at(d.subrange(q, d.len() as int), 0),
{
    let r = d.subrange(q, d.len() as int);
    if q + 4 <= d.len() {
        assert(r[0] == d[q] && r[1] == d[q + 1] && r[2] == d[q + 2] && r[3] == d[q + 3]);
        if q + 8 <= d.len() {
            assert(r[4] == d[q + 4] && r[5] == d[q + 5] && r[6] == d[q + 6] && r[7] == d[q + 7]);
        }
    }
}

fn build_chunk_list(
    compressors: Vec<SecondStageCompressor>,
    sizes: Vec<u32>,
    offsets: Vec<u32>,
) -> (r: Result<Vec<ChunkInfo>, Error>)
    ensures
        outcome_view(r) == build_chunks(
            ChunkTables { compressors: compressors@, sizes: sizes@, offsets: offsets@ },
        ),
{
    let ghost t = ChunkTables { compressors: compressors@, sizes: sizes@, offsets: offsets@ };
    let n = sizes.len();
    if compressors.len() != n || (offsets.len() != 0 && offsets.len() != n) {
        return Err(Error::Io(IoError::InvalidData));
    }
    let mut chunks: Vec<ChunkInfo> = Vec::new();
    let mut subtotal: usize = 0;
    let mut i: usize = 0;
    while i < n
        invariant
            n == sizes@.len(),
            compressors@.len() == n,
            offsets@.len() == 0 || offsets@.len() == n,
            t == (ChunkTables { compressors: compressors@, sizes: sizes@, offsets: offsets@ }),
            i <= n,
            chunks@.len() == i,
            forall|k: int| 0 <= k < i ==> chunks@[k] == chunk_entry(t, k),
            offsets@.len() == 0 ==> subtotal == prefix_sum(sizes@, i as int),
        decreases n - i,
    {
        let size = sizes[i];
        let offset: usize;
        if offsets.len() == 0 {
            offset = subtotal;
            if subtotal > usize::MAX - size as usize {
                proof {
                    lemma_prefix_sum_grows(sizes@, i + 1, n as int);
                }
                return Err(Error::Io(IoError::InvalidData));
            }
            subtotal = subtotal + size as usize;
        } else {
            offset = offsets[i] as usize;
        }
        chunks.push(ChunkInfo { offset, size: size as usize, compressor: compressors[i] });
        i += 1;
    }
    assert(chunks@ == Seq::new(n as nat, |k: int| chunk_entry(t, k)));
    Ok(chunks)
}

/// Applies one sub-section of type `tag` with payload `body` to the tables.
fn apply_table_section(
    tag: u8,
    body: &[u8],
    compressors: &mut Vec<SecondStageCompressor>,
    sizes: &mut Vec<u32>,
    offsets: &mut Vec<u32>,
) -> (r: Result<(), Error>)
    ensures
        match apply_instruction(
            ChunkTables { compressors: old(compressors)@, sizes: old(sizes)@, offsets: old(offsets)@ },
            tag,
            body@,
        ) {
            Ok(t) => r is Ok && t == (ChunkTables {
                compressors: final(compressors)@,
                sizes: final(sizes)@,
                offsets: final(offsets)@,
            }),
            Err(e) => r is Err && r->Err_0@ == e,
        },
{
    if tag == COMPRESSOR_TABLE {
        match read_compressor_table(body) {
            Ok(mut c) => {
                compressors.append(&mut c);
                Ok(())
            },
            Err(e) => Err(e),
        }
    } else if tag == SIZE_TABLE {
        match read_word_table(body) {
            Ok(mut w) => {
                sizes.append(&mut w);
                Ok(())
            },
            Err(e) => Err(e),
        }
    } else if tag == OFFSET_TABLE {
        match read_word_table(body) {
            Ok(mut w) => {
                offsets.append(&mut w);
                Ok(())
            },
            Err(e) => Err(e),
        }
    } else {
        Ok(())
    }
}

/// Reads the sub-sections that fill `payload` into tables, and builds the
/// chunk list from them.
fn read_instruction_payload(payload: &[u8]) -> (r: Result<Vec<ChunkInfo>, Error>)
    ensures
        outcome_view(r) == match scan_instructions(payload@, no_tables()) {
            Ok(t) => build_chunks(t),
            Err(e) => Err(e),
        },
{
    let n = payload.len();
    let mut compressors: Vec<SecondStageCompressor> = Vec::new();
    let mut sizes: Vec<u32> = Vec::new();
    let mut offsets: Vec<u32> = Vec::new();
    let mut q: usize = 0;
    assert(payload@.subrange(0, n as int) == payload@);
    assert(compressors@ == Seq::<SecondStageCompressor>::empty());
    assert(sizes@ == Seq::<u32>::empty());
    assert(offsets@ == Seq::<u32>::empty());
    while q < n
        invariant
            n == payload@.len(),
            q <= n,
            scan_instructions(payload@, no_tables()) == scan_instructions(
                payload@.subrange(q as int, n as int),
                ChunkTables { compressors: compressors@, sizes: sizes@, offsets: offsets@ },
            ),
        decreases n - q,
    {
        let ghost rest = payload@.subrange(q as int, n as int);
        proof {
            lemma_section_at_rest(payload@, q as int);
        }
        let s = match parse_section_header(payload, q) {
            Ok(s) => s,
            Err(_) => return Err(Error::Io(IoError::InvalidData)),
        };
        let body_start = q + s.header_size;
        if s.size as usize > n - body_start {
            return Err(Error::Io(IoError::InvalidData));
        }
        let body_end = body_start + s.size as usize;
        let body = slice_subrange(payload, body_start, body_end);
        assert(rest.subrange(s.header_size as int, s.total()) == body@);
        assert(rest.subrange(s.total(), rest.len() as int) == payload@.subrange(
            body_end as int,
            n as int,
        ));
        match apply_table_section(s.section_type, body, &mut compressors, &mut sizes, &mut offsets) {
            Ok(()) => {},
            Err(e) => return Err(e),
        }
        q = body_end;
    }
    assert(payload@.subrange(q as int, n as int).len() == 0);
    build_chunk_list(compressors, sizes, offsets)
}

impl Decoder {
    /// Reads the complex header at `p`: the bytes it takes, and its chunks.
    pub(crate) fn decode_complex_instruction(&self, d: &[u8], p: usize) -> (r: Result<
        (usize, Vec<ChunkInfo>),
        Error,
    >)
        ensures
            match complex_instructions(d@, p as int) {
                Ok((n, cs)) => r is Ok && r->Ok_0.0 == n && r->Ok_0.1@ == cs,
                Err(e) => r is Err && r->Err_0@ == e,
            },
    {
        let n = d.len();
        let header = match parse_section_header(d, p) {
            Ok(h) => h,
            Err(e) => return Err(e),
        };
        let start = p + header.header_size;
        if header.size as usize > n - start {
            return Err(Error::Io(IoError::UnexpectedEof));
        }
        let payload = slice_subrange(d, start, start + header.size as usize);
        match read_instruction_payload(payload) {
            Ok(chunks) => Ok((header.header_size + header.size as usize, chunks)),
            Err(e) => Err(e),
        }
    }
}

/// The bytes of a sub-section of type `tag` around `body`.
pub open spec fn section_bytes(tag: u8, body: Seq<u8>) -> Seq<u8> {
    preamble_bytes(body.len() as u32, tag) + body
}

/// `a` is a run of whole sub-sections.
pub open spec fn whole_sections(a: Seq<u8>) -> bool
    decreases a.len(),
{
    if a.len() == 0 {
        true
    } else {
        match section_at(a, 0) {
            None => false,
            Some(s) => s.total() <= a.len() && whole_sections(a.subrange(s.total(), a.len() as int)),
        }
    }
}

proof fn lemma_section_at_extend(a: Seq<u8>, x: Seq<u8>)
    requires
        section_at(a, 0) is Some,
    ensures
        section_at(a + x, 0) == section_at(a, 0),
{
    let ax = a + x;
    assert(ax[0] == a[0] && ax[1] == a[1] && ax[2] == a[2] && ax[3] == a[3]);
    if a.len() >= 8 {
        assert(ax[4] == a[4] && ax[5] == a[5] && ax[6] == a[6] && ax[7] == a[7]);
    }
}

proof fn lemma_skip_unknown_front(tag: u8, body: Seq<u8>, b: Seq<u8>, t: ChunkTables)
    requires
        tag != COMPRESSOR_TABLE && tag != SIZE_TABLE && tag != OFFSET_TABLE,
        body.len() <= u32::MAX,
    ensures
        scan_instructions(section_bytes(tag, body) + b, t) == scan_instructions(b, t),
{
    let pre = preamble_bytes(body.len() as u32, tag);
    let x = section_bytes(tag, body) + b;
    assert(x == pre + (body + b));
    lemma_preamble_round_trip(body.len() as u32, tag, body + b);
    let s = section_at(x, 0)->Some_0;
    assert(s.total() == pre.len() + body.len());
    assert(x.subrange(s.total(), x.len() as int) == b);
}

/// Sub-sections of a type other than the three tables are passed over: one
/// put between whole sub-sections of a complex header leaves the tables read
/// from it as they were.
pub proof fn lemma_unknown_section_ignored(
    a: Seq<u8>,
    tag: u8,
    body: Seq<u8>,
    b: Seq<u8>,
    t: ChunkTables,
)
    requires
        whole_sections(a),
        tag != COMPRESSOR_TABLE && tag != SIZE_TABLE && tag != OFFSET_TABLE,
        body.len() <= u32::MAX,
    ensures
        scan_instructions(a + section_bytes(tag, body) + b, t) == scan_instructions(a + b, t),
    decreases a.len(),
{
    let u = section_bytes(tag, body);
    if a.len() == 0 {
        assert(a + u + b == u + b);
        assert(a + b == b);
        lemma_skip_unknown_front(tag, body, b, t);
    } else {
        let s = section_at(a, 0)->Some_0;
        let a2 = a.subrange(s.total(), a.len() as int);
        lemma_section_at_extend(a, u + b);
        lemma_section_at_extend(a, b);
        assert(a + u + b == a + (u + b));
        let x = a + u + b;
        let y = a + b;
        assert(x.subrange(s.header_size as int, s.total()) == a.subrange(s.header_size as int, s.total()));
        assert(y.subrange(s.header_size as int, s.total()) == a.subrange(s.header_size as int, s.total()));
        assert(x.subrange(s.total(), x.len() as int) == a2 + u + b);
        assert(y.subrange(s.total(), y.len() as int) == a2 + b);
        match apply_instruction(t, s.section_type, a.subrange(s.header_size as int, s.total())) {
            Err(e) => {},
            Ok(t2) => {
                lemma_unknown_section_ignored(a2, tag, body, b, t2);
            },
        }
    }
}

/// An offset table that lists the running sums of the chunk sizes changes
/// nothing: the chunks are those that the sizes alone give.
pub proof fn lemma_offset_table_redundant(
    compressors: Seq<SecondStageCompressor>,
    sizes: Seq<u32>,
    offsets: Seq<u32>,
)
    requires
        offsets.len() == sizes.len(),
        forall|i: int| 0 <= i < sizes.len() ==> offsets[i] as int == prefix_sum(sizes, i),
        prefix_sum(sizes, sizes.len() as int) <= usize::MAX,
    ensures
        build_chunks(ChunkTables { compressors, sizes, offsets }) == build_chunks(
            ChunkTables { compressors, sizes, offsets: Seq::empty() },
        ),
{
    let with = ChunkTables { compressors, sizes, offsets };
    let without = ChunkTables { compressors, sizes, offsets: Seq::empty() };
    if sizes.len() == 0 {
        assert(offsets == Seq::<u32>::empty());
    } else if compressors.len() == sizes.len() {
        assert(Seq::new(sizes.len(), |i: int| chunk_entry(with, i)) == Seq::new(
            sizes.len(),
            |i: int| chunk_entry(without, i),
        ));
    }
}

} // verus!
