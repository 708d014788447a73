//! A list of byte chunks that can be read front to back any number of times.
//!
//! The list keeps the chunks that were read from a body in the order in which
//! they arrived. Its view is the sequence of chunks; `bytes()` is their
//! concatenation, which is what a reader of the list sees.
use crate::chunk::{
    bytes_advance, bytes_chunk, bytes_clone, bytes_copy_to_bytes, bytes_mut_freeze,
    bytes_mut_put_slice, bytes_mut_seq, bytes_mut_with_capacity, bytes_remaining, bytes_seq,
};
use bytes::Bytes;
use std::collections::VecDeque;
use vstd::prelude::*;
use vstd::seq_lib::lemma_flatten_concat;

verus! {

/// The contents of each handle of a sequence of `Bytes`.
pub open spec fn chunk_seqs(bufs: Seq<Bytes>) -> Seq<Seq<u8>> {
    bufs.map_values(|b: Bytes| bytes_seq(b))
}

/// What is left of a list of chunks after `amt` bytes were read from its
/// front: chunks that were read to their end are gone, and the chunk in which
/// the reading stopped has lost its first bytes.
pub open spec fn spec_advance(chunks: Seq<Seq<u8>>, amt: nat) -> Seq<Seq<u8>>
    decreases chunks.len(),
{
    if amt == 0 || chunks.len() == 0 {
        chunks
    } else if chunks[0].len() > amt {
        chunks.update(0, chunks[0].skip(amt as int))
    } else {
        spec_advance(chunks.drop_first(), (amt - chunks[0].len()) as nat)
    }
}

/// What is left of a list of chunks after its first `len` bytes were taken
/// out as one chunk. Differs from `spec_advance` in one case only: a first
/// chunk that is taken whole is removed even when it is empty.
pub open spec fn spec_split(chunks: Seq<Seq<u8>>, len: nat) -> Seq<Seq<u8>> {
    if chunks.len() > 0 && len == chunks[0].len() {
        chunks.drop_first()
    } else {
        spec_advance(chunks, len)
    }
}

/// The chunks of a list that hold at least one byte, in order.
pub open spec fn spec_nonempty(chunks: Seq<Seq<u8>>) -> Seq<Seq<u8>> {
    chunks.filter(|c: Seq<u8>| c.len() > 0)
}

/// Reading `amt` bytes from the front of the chunks removes exactly the first
/// `amt` bytes of their concatenation.
pub proof fn lemma_advance_skips(chunks: Seq<Seq<u8>>, amt: nat)
    requires
        amt <= chunks.flatten().len(),
    ensures
        spec_advance(chunks, amt).flatten() == chunks.flatten().skip(amt as int),
    decreases chunks.len(),
{
    if amt > 0 && chunks.len() > 0 {
        let first = chunks[0];
        let rest = chunks.drop_first();
        if first.len() > amt {
            let cut = chunks.update(0, first.skip(amt as int));
            assert(cut.drop_first() =~= rest);
        } else {
            lemma_advance_skips(rest, (amt - first.len()) as nat);
        }
    }
}

/// Taking the first `len` bytes out of the chunks leaves the concatenation
/// without its first `len` bytes.
pub proof fn lemma_split_skips(chunks: Seq<Seq<u8>>, len: nat)
    requires
        len <= chunks.flatten().len(),
    ensures
        spec_split(chunks, len).flatten() == chunks.flatten().skip(len as int),
{
    if chunks.len() == 0 || len != chunks[0].len() {
        lemma_advance_skips(chunks, len);
    }
}

/// The concatenation of the first `i` chunks is a prefix of the whole.
proof fn lemma_prefix_flatten(chunks: Seq<Seq<u8>>, i: int)
    requires
        0 <= i <= chunks.len(),
    ensures
        chunks.take(i).flatten().len() <= chunks.flatten().len(),
        i < chunks.len() ==> chunks.take(i + 1).flatten() == chunks.take(i).flatten() + chunks[i],
{
    lemma_flatten_concat(chunks.take(i), chunks.skip(i));
    assert(chunks.take(i) + chunks.skip(i) =~= chunks);
    if i < chunks.len() {
        assert(chunks.take(i + 1) =~= chunks.take(i).push(chunks[i]));
        chunks.take(i).lemma_flatten_push(chunks[i]);
    }
}

/// A list of byte chunks, oldest first.
#[derive(Debug)]
pub struct BufList {
    bufs: VecDeque<Bytes>,
}

impl View for BufList {
    type V = Seq<Seq<u8>>;

    closed spec fn view(&self) -> Seq<Seq<u8>> {
        chunk_seqs(self.bufs@)
    }
}

impl BufList {
    /// The total number of bytes always fits in a `usize`.
    #[verifier::type_invariant]
    spec fn fits(self) -> bool {
        chunk_seqs(self.bufs@).flatten().len() <= usize::MAX
    }

    /// All the bytes of the list, in reading order.
    pub open spec fn bytes(&self) -> Seq<u8> {
        self@.flatten()
    }

    /// An empty list.
    pub fn new() -> (list: Self)
        ensures
            list@ == Seq::<Seq<u8>>::empty(),
    {
        let bufs: VecDeque<Bytes> = VecDeque::new();
        BufList { bufs }
    }

    /// Appends `data` as the newest chunk and hands back a handle on the same
    /// bytes.
    pub fn push_chunk(&mut self, data: Bytes) -> (chunk: Bytes)
        requires
            old(self).bytes().len() + bytes_seq(data).len() <= usize::MAX,
        ensures
            final(self)@ == old(self)@.push(bytes_seq(data)),
            bytes_seq(chunk) == bytes_seq(data),
    {
        let ghost given = bytes_seq(data);
        let mut data = data;
        let len = bytes_remaining(&data);
        let bytes = bytes_copy_to_bytes(&mut data, len);
        assert(bytes_seq(bytes) =~= given);
        let kept = bytes_clone(&bytes);
        let mut bufs: VecDeque<Bytes> = VecDeque::new();
        std::mem::swap(&mut bufs, &mut self.bufs);
        proof {
            assert(chunk_seqs(bufs@.push(kept)) =~= chunk_seqs(bufs@).push(bytes_seq(kept)));
            chunk_seqs(bufs@).lemma_flatten_push(bytes_seq(kept));
        }
        bufs.push_back(kept);
        self.bufs = bufs;
        bytes
    }

    /// The number of bytes in the list.
    pub fn remaining(&self) -> (n: usize)
        ensures
            n == self.bytes().len(),
    {
        proof {
            use_type_invariant(self);
        }
        let ghost chunks = self@;
        let count = self.bufs.len();
        let mut total: usize = 0;
        let mut i: usize = 0;
        while i < count
            invariant
                count == self.bufs@.len(),
                chunks == chunk_seqs(self.bufs@),
                chunks.flatten().len() <= usize::MAX,
                i <= count,
                total == chunks.take(i as int).flatten().len(),
            decreases count - i,
        {
            proof {
                lemma_prefix_flatten(chunks, i as int);
                lemma_prefix_flatten(chunks, i + 1);
            }
            let n = bytes_remaining(&self.bufs[i]);
            total = total + n;
            i = i + 1;
        }
        assert(chunks.take(count as int) =~= chunks);
        total
    }

    /// Whether any byte is left.
    pub fn has_remaining(&self) -> (some: bool)
        ensures
            some == (self.bytes().len() > 0),
    {
        self.remaining() > 0
    }

    /// The first chunk, or the empty slice for an empty list.
    pub fn chunk(&self) -> (s: &[u8])
        ensures
            s@ == (if self@.len() > 0 {
                self@[0]
            } else {
                Seq::<u8>::empty()
            }),
    {
        if self.bufs.len() > 0 {
            bytes_chunk(&self.bufs[0])
        } else {
            let empty: &[u8] = &[];
            empty
        }
    }

    /// Up to `slots` slices for a vectored write: the first chunks that hold
    /// any bytes, in order.
    pub fn chunks_vectored(&self, slots: usize) -> (filled: Vec<&[u8]>)
        ensures
            filled@.len() == if slots <= spec_nonempty(self@).len() {
                slots as int
            } else {
                spec_nonempty(self@).len() as int
            },
            forall|k: int| 0 <= k < filled@.len() ==> (#[trigger] filled@[k])@ == spec_nonempty(self@)[k],
    {
        let mut filled: Vec<&[u8]> = Vec::new();
        if slots == 0 {
            return filled;
        }
        let ghost chunks = self@;
        let ghost keep = |c: Seq<u8>| c.len() > 0;
        let count = self.bufs.len();
        let mut i: usize = 0;
        while i < count
            invariant
                count == self.bufs@.len(),
                chunks == chunk_seqs(self.bufs@),
                keep == (|c: Seq<u8>| c.len() > 0),
                i <= count,
                slots > 0,
                filled@.len() < slots,
                filled@.len() == chunks.take(i as int).filter(keep).len(),
                forall|k: int|
                    0 <= k < filled@.len() ==> (#[trigger] filled@[k])@ == chunks.take(
                        i as int,
                    ).filter(keep)[k],
            decreases count - i,
        {
            proof {
                assert(chunks.take(i + 1) =~= chunks.take(i as int).push(chunks[i as int]));
                chunks.take(i as int).lemma_filter_push(chunks[i as int], keep);
            }
            let buf = &self.bufs[i];
            if bytes_remaining(buf) > 0 {
                filled.push(bytes_chunk(buf));
                if filled.len() == slots {
                    proof {
                        lemma_filter_prefix(chunks, keep, i + 1);
                    }
                    return filled;
                }
            }
            i = i + 1;
        }
        assert(chunks.take(count as int) =~= chunks);
        filled
    }

    /// Reads `amt` bytes off the front of the list.
    pub fn advance(&mut self, amt: usize)
        requires
            amt <= old(self).bytes().len(),
        ensures
            final(self)@ == spec_advance(old(self)@, amt as nat),
            final(self).bytes() == old(self).bytes().skip(amt as int),
    {
        proof {
            use_type_invariant(&*self);
            lemma_advance_skips(self@, amt as nat);
        }
        let mut bufs: VecDeque<Bytes> = VecDeque::new();
        std::mem::swap(&mut bufs, &mut self.bufs);
        let ghost start = chunk_seqs(bufs@);
        let mut left = amt;
        while left > 0
            invariant
                left <= chunk_seqs(bufs@).flatten().len(),
                chunk_seqs(bufs@).flatten().len() <= usize::MAX,
                spec_advance(chunk_seqs(bufs@), left as nat) == spec_advance(start, amt as nat),
            decreases left, chunk_seqs(bufs@).len(),
        {
            let ghost before = chunk_seqs(bufs@);
            assert(before.len() > 0);
            let mut front = bufs.pop_front().unwrap();
            proof {
                assert(chunk_seqs(bufs@) =~= before.drop_first());
            }
            let rem = bytes_remaining(&front);
            if rem > left {
                bytes_advance(&mut front, left);
                proof {
                    assert(chunk_seqs(seq![front] + bufs@) =~= before.update(
                        0,
                        before[0].skip(left as int),
                    ));
                    assert(before.update(0, before[0].skip(left as int)).drop_first()
                        =~= before.drop_first());
                }
                bufs.push_front(front);
                left = 0;
            } else {
                left = left - rem;
            }
        }
        self.bufs = bufs;
    }

    /// Takes the first `len` bytes out of the list as one chunk. Where they
    /// lie in the first chunk no byte is copied.
    pub fn copy_to_bytes(&mut self, len: usize) -> (out: Bytes)
        requires
            len <= old(self).bytes().len(),
            len <= isize::MAX,
        ensures
            bytes_seq(out) == old(self).bytes().take(len as int),
            final(self)@ == spec_split(old(self)@, len as nat),
            final(self).bytes() == old(self).bytes().skip(len as int),
    {
        proof {
            use_type_invariant(&*self);
            lemma_split_skips(self@, len as nat);
        }
        let ghost start = self@;
        let mut bufs: VecDeque<Bytes> = VecDeque::new();
        std::mem::swap(&mut bufs, &mut self.bufs);
        if bufs.len() > 0 && len <= bytes_remaining(&bufs[0]) {
            let mut first = bufs.pop_front().unwrap();
            proof {
                assert(chunk_seqs(bufs@) =~= start.drop_first());
            }
            let out = bytes_copy_to_bytes(&mut first, len);
            if bytes_remaining(&first) > 0 {
                proof {
                    assert(chunk_seqs(seq![first] + bufs@) =~= start.update(
                        0,
                        start[0].skip(len as int),
                    ));
                    assert(start.update(0, start[0].skip(len as int)).drop_first()
                        =~= start.drop_first());
                    assert(start[0].skip(0) =~= start[0]);
                }
                bufs.push_front(first);
            }
            self.bufs = bufs;
            out
        } else {
            let mut out = bytes_mut_with_capacity(len);
            let mut left = len;
            while left > 0
                invariant
                    left <= len <= isize::MAX,
                    left <= chunk_seqs(bufs@).flatten().len(),
                    chunk_seqs(bufs@).flatten().len() <= usize::MAX,
                    bytes_mut_seq(out).len() == len - left,
                    bytes_mut_seq(out) + chunk_seqs(bufs@).flatten().take(left as int)
                        == start.flatten().take(len as int),
                    spec_advance(chunk_seqs(bufs@), left as nat) == spec_advance(
                        start,
                        len as nat,
                    ),
                decreases left, chunk_seqs(bufs@).len(),
            {
                let ghost before = chunk_seqs(bufs@);
                assert(before.len() > 0);
                let mut front = bufs.pop_front().unwrap();
                proof {
                    assert(chunk_seqs(bufs@) =~= before.drop_first());
                }
                let rem = bytes_remaining(&front);
                if rem > left {
                    let head = vstd::slice::slice_subrange(bytes_chunk(&front), 0, left);
                    bytes_mut_put_slice(&mut out, head);
                    bytes_advance(&mut front, left);
                    proof {
                        assert(chunk_seqs(seq![front] + bufs@) =~= before.update(
                            0,
                            before[0].skip(left as int),
                        ));
                        assert(before.update(0, before[0].skip(left as int)).drop_first()
                            =~= before.drop_first());
                    }
                    bufs.push_front(front);
                    left = 0;
                } else {
                    bytes_mut_put_slice(&mut out, bytes_chunk(&front));
                    left = left - rem;
                }
            }
            proof {
                lemma_advance_skips(start, len as nat);
            }
            self.bufs = bufs;
            bytes_mut_freeze(out)
        }
    }
}

impl Clone for BufList {
    /// A second list over the same chunks. No byte is copied.
    fn clone(&self) -> (copy: Self)
        ensures
            copy@ == self@,
    {
        proof {
            use_type_invariant(self);
        }
        let count = self.bufs.len();
        let mut bufs: VecDeque<Bytes> = VecDeque::new();
        let mut i: usize = 0;
        while i < count
            invariant
                count == self.bufs@.len(),
                i <= count,
                chunk_seqs(bufs@) == chunk_seqs(self.bufs@).take(i as int),
            decreases count - i,
        {
            let kept = bytes_clone(&self.bufs[i]);
            proof {
                assert(chunk_seqs(bufs@.push(kept)) =~= chunk_seqs(bufs@).push(bytes_seq(kept)));
            }
            bufs.push_back(kept);
            i = i + 1;
        }
        proof {
            assert(chunk_seqs(self.bufs@).take(count as int) =~= chunk_seqs(self.bufs@));
        }
        BufList { bufs }
    }
}

impl Default for BufList {
    /// An empty list.
    fn default() -> (list: Self)
        ensures
            list@ == Seq::<Seq<u8>>::empty(),
    {
        BufList::new()
    }
}

/// The chunks kept by a filter from the first `i` chunks are the first ones
/// that it keeps from the whole list.
proof fn lemma_filter_prefix(chunks: Seq<Seq<u8>>, keep: spec_fn(Seq<u8>) -> bool, i: int)
    requires
        0 <= i <= chunks.len(),
    ensures
        chunks.take(i).filter(keep).len() <= chunks.filter(keep).len(),
        forall|k: int|
            0 <= k < chunks.take(i).filter(keep).len() ==> chunks.take(i).filter(keep)[k]
                == chunks.filter(keep)[k],
    decreases chunks.len() - i,
{
    if i < chunks.len() {
        assert(chunks.take(i + 1) =~= chunks.take(i).push(chunks[i]));
        chunks.take(i).lemma_filter_push(chunks[i], keep);
        lemma_filter_prefix(chunks, keep, i + 1);
    } else {
        assert(chunks.take(i) =~= chunks);
    }
}

} // verus!
