//! The stream copier: drains a chunked byte source into a destination
//! incrementally and reports the total bytes written. The incremental
//! `CopyProgress` tracks a running copy chunk by chunk; `copy_chunks` is
//! the whole copy over an in-memory destination.
use vstd::prelude::*;

verus! {

/// The bytes a chunked source carries, in order.
pub open spec fn concat_chunks(chunks: Seq<Seq<u8>>) -> Seq<u8> {
    chunks.flatten()
}

/// A running copy: how many bytes have been written so far, and (as ghost
/// state) which ones.
pub struct CopyProgress {
    written: u64,
    bytes: Ghost<Seq<u8>>,
}

impl CopyProgress {
    /// The bytes recorded so far.
    pub closed spec fn bytes_written(&self) -> Seq<u8> {
        self.bytes@
    }

    /// The count kept in step with the recorded bytes.
    pub closed spec fn count(&self) -> u64 {
        self.written
    }

    /// The running count always equals the length of what was recorded.
    pub closed spec fn wf(&self) -> bool {
        self.written == self.bytes@.len()
    }

    /// A fresh copy: nothing written yet.
    pub fn new() -> (r: CopyProgress)
        ensures
            r.wf(),
            r.bytes_written() == Seq::<u8>::empty(),
    {
        CopyProgress { written: 0, bytes: Ghost(Seq::empty()) }
    }

    /// Records one chunk as written to the destination. Fails only when the
    /// total would no longer fit in the counter, leaving the record
    /// unchanged.
    pub fn record_chunk(&mut self, chunk: &[u8]) -> (ok: bool)
        requires
            old(self).wf(),
        ensures
            final(self).wf(),
            ok ==> final(self).bytes_written() == old(self).bytes_written() + chunk@,
            !ok ==> *final(self) == *old(self) && old(self).bytes_written().len() + chunk@.len()
                > u64::MAX,
    {
        let len = chunk.len();
        match self.written.checked_add(len as u64) {
            Some(total) => {
                self.written = total;
                proof {
                    self.bytes@ = self.bytes@ + chunk@;
                }
                true
            },
            None => false,
        }
    }

    /// The total bytes written so far.
    pub fn total(&self) -> (n: u64)
        ensures
            n == self.count(),
            self.wf() ==> n == self.bytes_written().len(),
    {
        self.written
    }
}

/// Copies a chunked source into a fresh destination, draining it chunk by
/// chunk; the destination ends up holding exactly the source's bytes, and
/// the reported count is exactly the destination's size, independent of any
/// size hint and of where the chunk boundaries fall.
pub fn copy_chunks(chunks: &Vec<Vec<u8>>, dest: &mut Vec<u8>) -> (n: u64)
    requires
        old(dest)@.len() == 0,
        concat_chunks(chunks.deep_view()).len() <= u64::MAX,
    ensures
        final(dest)@ == concat_chunks(chunks.deep_view()),
        n == final(dest)@.len(),
{
    proof {
        assert(chunks.deep_view().take(0) =~= Seq::<Seq<u8>>::empty());
        assert(Seq::<Seq<u8>>::empty().flatten() =~= Seq::<u8>::empty());
        assert(old(dest)@ =~= Seq::<u8>::empty());
    }
    let mut k: usize = 0;
    while k < chunks.len()
        invariant
            k <= chunks@.len(),
            dest@ == chunks.deep_view().take(k as int).flatten(),
            concat_chunks(chunks.deep_view()).len() <= u64::MAX,
        decreases chunks@.len() - k,
    {
        dest.extend_from_slice(chunks[k].as_slice());
        proof {
            let pre = chunks.deep_view().take(k as int);
            pre.lemma_flatten_push(chunks.deep_view()[k as int]);
            assert(pre.push(chunks.deep_view()[k as int]) =~= chunks.deep_view().take(k + 1));
        }
        k += 1;
    }
    proof {
        assert(chunks.deep_view().take(chunks@.len() as int) =~= chunks.deep_view());
    }
    dest.len() as u64
}

/// Chunk boundaries do not matter: two chunkings that carry the same bytes
/// copy to the same destination content, and so to the same count.
pub proof fn lemma_copy_independent_of_chunking(c1: Seq<Seq<u8>>, c2: Seq<Seq<u8>>)
    requires
        c1.flatten() == c2.flatten(),
    ensures
        concat_chunks(c1) == concat_chunks(c2),
        concat_chunks(c1).len() == concat_chunks(c2).len(),
{
}

} // verus!
