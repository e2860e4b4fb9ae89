use crate::decoder::{piece_output, pieces_output};
use crate::error::{invalid, Error, ErrorKind, IoError};
use crate::instructions::ChunkInfo;
use crate::texture::SecondStageCompressor;
use vstd::prelude::*;
use vstd::slice::{slice_subrange, slice_to_vec};

verus! {

/// One slot per piece of a texture, for decoded bytes that may come back in
/// any order: stored pieces are filled at once, Snappy pieces as their
/// results arrive.
pub struct ChunkSlots {
    slots: Vec<Option<Vec<u8>>>,
}

pub open spec fn slot_view(o: Option<Vec<u8>>) -> Option<Seq<u8>> {
    match o {
        Some(v) => Some(v@),
        None => None,
    }
}

impl View for ChunkSlots {
    type V = Seq<Option<Seq<u8>>>;

    closed spec fn view(&self) -> Seq<Option<Seq<u8>>> {
        self.slots@.map_values(|o: Option<Vec<u8>>| slot_view(o))
    }
}

/// Every piece of `ps` lies within `d`.
pub open spec fn pieces_within(d: Seq<u8>, ps: Seq<ChunkInfo>) -> bool {
    forall|i: int| 0 <= i < ps.len() ==> #[trigger] ps[i].offset + ps[i].size <= d.len()
}

/// The slots before any result has come back: a stored piece's bytes, or
/// nothing for a Snappy piece.
pub open spec fn initial_slots(d: Seq<u8>, ps: Seq<ChunkInfo>) -> Seq<Option<Seq<u8>>> {
    Seq::new(
        ps.len(),
        |i: int|
            if ps[i].compressor == SecondStageCompressor::Snappy {
                None
            } else {
                Some(d.subrange(ps[i].offset as int, ps[i].offset + ps[i].size))
            },
    )
}

/// The bytes of all slots joined in slot order, where every slot is filled.
pub open spec fn concat_slots(s: Seq<Option<Seq<u8>>>) -> Option<Seq<u8>>
    decreases s.len(),
{
    if s.len() == 0 {
        Some(Seq::empty())
    } else {
        match (concat_slots(s.drop_last()), s.last()) {
            (Some(acc), Some(v)) => Some(acc + v),
            _ => None,
        }
    }
}

/// The slots after the results `fills` (slot, bytes) have been put in them,
/// in that order.
pub open spec fn apply_fills(s: Seq<Option<Seq<u8>>>, fills: Seq<(int, Seq<u8>)>) -> Seq<
    Option<Seq<u8>>,
>
    decreases fills.len(),
{
    if fills.len() == 0 {
        s
    } else {
        let f = fills.last();
        let s2 = apply_fills(s, fills.drop_last());
        if 0 <= f.0 < s2.len() {
            s2.update(f.0, Some(f.1))
        } else {
            s2
        }
    }
}

/// The positions of the empty slots of `s`, in increasing order.
pub open spec fn pending_slots(s: Seq<Option<Seq<u8>>>) -> Seq<usize>
    decreases s.len(),
{
    if s.len() == 0 {
        Seq::empty()
    } else if s.last() is None {
        pending_slots(s.drop_last()).push((s.len() - 1) as usize)
    } else {
        pending_slots(s.drop_last())
    }
}

impl ChunkSlots {
    /// Slots for the pieces `ps` of `d`, with the stored pieces filled.
    pub fn new(d: &[u8], ps: &Vec<ChunkInfo>) -> (r: Result<ChunkSlots, Error>)
        ensures
            pieces_within(d@, ps@) ==> r is Ok && r->Ok_0@ == initial_slots(d@, ps@),
            !pieces_within(d@, ps@) ==> r is Err && r->Err_0@ == invalid(),
    {
        let n = d.len();
        let mut slots: Vec<Option<Vec<u8>>> = Vec::new();
        let mut i: usize = 0;
        while i < ps.len()
            invariant
                n == d@.len(),
                i <= ps@.len(),
                slots@.len() == i,
                pieces_within(d@, ps@.take(i as int)),
                forall|k: int|
                    0 <= k < i ==> #[trigger] slot_view(slots@[k]) == initial_slots(d@, ps@)[k],
            decreases ps@.len() - i,
        {
            let c = ps[i];
            if c.offset > n || c.size > n - c.offset {
                assert(ps@[i as int].offset + ps@[i as int].size > d@.len());
                return Err(Error::Io(IoError::InvalidData));
            }
            if c.compressor == SecondStageCompressor::Snappy {
                slots.push(None);
            } else {
                slots.push(Some(slice_to_vec(slice_subrange(d, c.offset, c.offset + c.size))));
            }
            assert(ps@.take(i + 1) == ps@.take(i as int).push(c));
            i += 1;
        }
        assert(ps@.take(i as int) == ps@);
        let r = ChunkSlots { slots };
        assert(r@ == initial_slots(d@, ps@));
        Ok(r)
    }

    pub fn len(&self) -> (r: usize)
        ensures
            r == self@.len(),
    {
        self.slots.len()
    }

    /// The slots still waiting for a result, in increasing order.
    pub fn pending(&self) -> (r: Vec<usize>)
        ensures
            r@ == pending_slots(self@),
    {
        let mut r: Vec<usize> = Vec::new();
        let mut i: usize = 0;
        while i < self.slots.len()
            invariant
                i <= self@.len(),
                self@.len() == self.slots@.len(),
                r@ == pending_slots(self@.take(i as int)),
            decreases self@.len() - i,
        {
            assert(self@[i as int] == slot_view(self.slots@[i as int]));
            assert(self@.take(i + 1).drop_last() == self@.take(i as int));
            if self.slots[i].is_none() {
                r.push(i);
            }
            i += 1;
        }
        assert(self@.take(i as int) == self@);
        r
    }

    /// Puts the decoded bytes of piece `i` in its slot.
    pub fn fill(&mut self, i: usize, bytes: Vec<u8>)
        requires
            i < old(self)@.len(),
        ensures
            final(self)@ == old(self)@.update(i as int, Some(bytes@)),
    {
        self.slots.set(i, Some(bytes));
        assert(self@ == old(self)@.update(i as int, Some(bytes@)));
    }

    /// The bytes of all slots joined in slot order, or `None` while a slot
    /// is empty.
    pub fn finish(self) -> (r: Option<Vec<u8>>)
        ensures
            slot_view(r) == concat_slots(self@),
    {
        let ghost s = self@;
        let mut out: Vec<u8> = Vec::new();
        let mut i: usize = 0;
        let slots = self.slots;
        while i < slots.len()
            invariant
                i <= slots@.len(),
                s == slots@.map_values(|o: Option<Vec<u8>>| slot_view(o)),
                s == self@,
                concat_slots(s.take(i as int)) == Some(out@),
            decreases slots@.len() - i,
        {
            assert(s.take(i + 1).drop_last() == s.take(i as int));
            match &slots[i] {
                Some(v) => out.extend_from_slice(v.as_slice()),
                None => {
                    proof {
                        assert(s[i as int] == slot_view(slots@[i as int]));
                        lemma_concat_slots_gap(s, i as int);
                    }
                    return None;
                },
            }
            assert(out@ == concat_slots(s.take(i as int))->Some_0 + s[i as int]->Some_0);
            i += 1;
        }
        assert(s.take(i as int) == s);
        Some(out)
    }
}

proof fn lemma_concat_slots_gap(s: Seq<Option<Seq<u8>>>, i: int)
    requires
        0 <= i < s.len(),
        s[i] is None,
    ensures
        concat_slots(s) is None,
    decreases s.len(),
{
    if i < s.len() - 1 {
        lemma_concat_slots_gap(s.drop_last(), i);
    }
}

/// The first position of `tag` in `tags`.
pub fn slot_of(tags: &[u128], tag: u128) -> (r: Option<usize>)
    ensures
        match r {
            Some(k) => k < tags@.len() && tags@[k as int] == tag && forall|j: int| 0 <= j < k ==> tags@[j] != tag,
            None => forall|j: int| 0 <= j < tags@.len() ==> tags@[j] != tag,
        },
{
    let mut k: usize = 0;
    while k < tags.len()
        invariant
            k <= tags@.len(),
            forall|j: int| 0 <= j < k ==> tags@[j] != tag,
        decreases tags@.len() - k,
    {
        if tags[k] == tag {
            return Some(k);
        }
        k += 1;
    }
    None
}

proof fn lemma_pieces_each_ok(d: Seq<u8>, ps: Seq<ChunkInfo>)
    requires
        pieces_output(d, ps) is Ok,
    ensures
        forall|i: int| 0 <= i < ps.len() ==> (#[trigger] piece_output(d, ps[i])) is Ok,
    decreases ps.len(),
{
    if ps.len() > 0 {
        lemma_pieces_each_ok(d, ps.drop_last());
        assert forall|i: int| 0 <= i < ps.len() implies (#[trigger] piece_output(d, ps[i])) is Ok by {
            if i < ps.len() - 1 {
                assert(ps[i] == ps.drop_last()[i]);
            }
        }
    }
}

proof fn lemma_fills_correct(d: Seq<u8>, ps: Seq<ChunkInfo>, fills: Seq<(int, Seq<u8>)>)
    requires
        forall|i: int| 0 <= i < ps.len() ==> (#[trigger] piece_output(d, ps[i])) is Ok,
        forall|j: int|
            0 <= j < fills.len() ==> 0 <= (#[trigger] fills[j]).0 < ps.len() && piece_output(
                d,
                ps[fills[j].0],
            ) == Ok::<_, ErrorKind>(fills[j].1),
    ensures
        apply_fills(initial_slots(d, ps), fills).len() == ps.len(),
        forall|i: int|
            0 <= i < ps.len() ==> {
                let r = #[trigger] apply_fills(initial_slots(d, ps), fills)[i];
                r == initial_slots(d, ps)[i] || r == Some(piece_output(d, ps[i])->Ok_0)
            },
        forall|j: int|
            0 <= j < fills.len() ==> apply_fills(initial_slots(d, ps), fills)[(#[trigger] fills[j]).0]
                == Some(piece_output(d, ps[fills[j].0])->Ok_0),
    decreases fills.len(),
{
    if fills.len() > 0 {
        let f = fills.last();
        let prev = fills.drop_last();
        lemma_fills_correct(d, ps, prev);
        assert forall|j: int| 0 <= j < fills.len() implies apply_fills(
            initial_slots(d, ps),
            fills,
        )[(#[trigger] fills[j]).0] == Some(piece_output(d, ps[fills[j].0])->Ok_0) by {
            if j < fills.len() - 1 {
                assert(prev[j] == fills[j]);
            }
        }
    }
}

proof fn lemma_full_slots_concat(d: Seq<u8>, ps: Seq<ChunkInfo>, r: Seq<Option<Seq<u8>>>)
    requires
        pieces_output(d, ps) is Ok,
        r.len() == ps.len(),
        forall|i: int| 0 <= i < ps.len() ==> r[i] == Some(#[trigger] piece_output(d, ps[i])->Ok_0),
    ensures
        concat_slots(r) == Some(pieces_output(d, ps)->Ok_0),
    decreases ps.len(),
{
    if ps.len() > 0 {
        assert forall|i: int| 0 <= i < ps.len() - 1 implies r.drop_last()[i] == Some(
            #[trigger] piece_output(d, ps.drop_last()[i])->Ok_0,
        ) by {
            assert(ps.drop_last()[i] == ps[i]);
        }
        lemma_full_slots_concat(d, ps.drop_last(), r.drop_last());
    }
}

/// The pool gives what the serial decoder gives: where the pieces decode,
/// the slots of a texture joined after the results of its Snappy pieces
/// have come back, in whatever order, once or more each, are the bytes that
/// decoding the pieces one after the other yields.
pub proof fn lemma_pool_matches_serial(d: Seq<u8>, ps: Seq<ChunkInfo>, fills: Seq<(int, Seq<u8>)>)
    requires
        pieces_output(d, ps) is Ok,
        forall|j: int|
            0 <= j < fills.len() ==> 0 <= (#[trigger] fills[j]).0 < ps.len() && piece_output(
                d,
                ps[fills[j].0],
            ) == Ok::<_, ErrorKind>(fills[j].1),
        forall|i: int|
            0 <= i < ps.len() && ps[i].compressor == SecondStageCompressor::Snappy ==> exists|j: int|
                0 <= j < fills.len() && (#[trigger] fills[j]).0 == i,
    ensures
        concat_slots(apply_fills(initial_slots(d, ps), fills)) == Some(pieces_output(d, ps)->Ok_0),
{
    lemma_pieces_each_ok(d, ps);
    lemma_fills_correct(d, ps, fills);
    let r = apply_fills(initial_slots(d, ps), fills);
    assert forall|i: int| 0 <= i < ps.len() implies r[i] == Some(
        #[trigger] piece_output(d, ps[i])->Ok_0,
    ) by {
        if ps[i].compressor == SecondStageCompressor::Snappy {
            let j = choose|j: int| 0 <= j < fills.len() && (#[trigger] fills[j]).0 == i;
            assert(fills[j].0 == i);
        }
    }
    lemma_full_slots_concat(d, ps, r);
}

} // verus!
