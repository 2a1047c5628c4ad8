//! The segment flush controller: gathers transformed blocks from chunk
//! workers and cuts them into segments, by transaction count or at the end
//! of the run.
use vstd::prelude::*;
use crate::model::{Block, Segment};

verus! {

/// What one call of the controller reads and changes: the pending blocks,
/// the transactions since the last flush, the blocks processed so far and
/// the id of the next segment.
pub struct FlushState {
    pub pending: Seq<Block>,
    pub txs: nat,
    pub processed: nat,
    pub next_segment: nat,
}

/// A segment is cut when the transactions since the last flush reach the
/// threshold, or when the last expected block has come in.
pub open spec fn flush_due(threshold: nat, total: nat, txs: nat, processed: nat) -> bool {
    txs >= threshold || processed == total
}

/// One call: `blocks` with `txs` transactions come in; the new state, and
/// the segment cut, if one is.
pub open spec fn flush_step(
    s: FlushState,
    threshold: nat,
    total: nat,
    blocks: Seq<Block>,
    txs: nat,
) -> (FlushState, Option<(nat, Seq<Block>)>) {
    let pending = s.pending + blocks;
    let t = s.txs + txs;
    let p = s.processed + blocks.len();
    if flush_due(threshold, total, t, p) {
        (
            FlushState { pending: Seq::empty(), txs: 0, processed: p, next_segment: s.next_segment + 1 },
            Some((s.next_segment, pending)),
        )
    } else {
        (FlushState { pending, txs: t, processed: p, next_segment: s.next_segment }, None)
    }
}

pub open spec fn segment_view(r: Option<Segment>) -> Option<(nat, Seq<Block>)> {
    match r {
        Some(seg) => Some((seg.id as nat, seg.blocks@)),
        None => None,
    }
}

/// A run of calls, each a chunk's blocks with its transaction count: the
/// final state and the segments cut, in order.
pub open spec fn run_chunks(
    s: FlushState,
    threshold: nat,
    total: nat,
    chunks: Seq<(Seq<Block>, nat)>,
) -> (FlushState, Seq<(nat, Seq<Block>)>)
    decreases chunks.len(),
{
    if chunks.len() == 0 {
        (s, Seq::empty())
    } else {
        let (s1, segs) = run_chunks(s, threshold, total, chunks.drop_last());
        let (s2, out) = flush_step(s1, threshold, total, chunks.last().0, chunks.last().1);
        match out {
            Some(seg) => (s2, segs.push(seg)),
            None => (s2, segs),
        }
    }
}

/// The blocks of a run of chunks, in order.
pub open spec fn chunk_blocks(chunks: Seq<(Seq<Block>, nat)>) -> Seq<Block>
    decreases chunks.len(),
{
    if chunks.len() == 0 {
        Seq::empty()
    } else {
        chunk_blocks(chunks.drop_last()) + chunks.last().0
    }
}

/// The blocks of a run of segments, in order.
pub open spec fn segment_blocks(segs: Seq<(nat, Seq<Block>)>) -> Seq<Block>
    decreases segs.len(),
{
    if segs.len() == 0 {
        Seq::empty()
    } else {
        segment_blocks(segs.drop_last()) + segs.last().1
    }
}

/// Once the blocks processed reach the expected total, the call cuts a
/// segment and leaves nothing pending, however few transactions came in.
pub proof fn lemma_final_flush(
    s: FlushState,
    threshold: nat,
    total: nat,
    blocks: Seq<Block>,
    txs: nat,
)
    requires
        s.processed + blocks.len() == total,
    ensures
        flush_step(s, threshold, total, blocks, txs).1 == Some((s.next_segment, s.pending + blocks)),
        flush_step(s, threshold, total, blocks, txs).0.pending.len() == 0,
{
}

/// For any chunks, handed in in any order: the segments cut, followed by
/// what is still pending, are exactly the blocks that were pending before
/// and the chunks' blocks in the order handed in; so every block is in
/// exactly one segment or still pending, and each chunk's blocks stay
/// together in their order. Segment ids run on from the next id without a
/// gap, and once the last call brings the processed blocks to the expected
/// total nothing is left pending.
pub proof fn lemma_partition(
    s: FlushState,
    threshold: nat,
    total: nat,
    chunks: Seq<(Seq<Block>, nat)>,
)
    ensures
        segment_blocks(run_chunks(s, threshold, total, chunks).1) + run_chunks(
            s,
            threshold,
            total,
            chunks,
        ).0.pending == s.pending + chunk_blocks(chunks),
        run_chunks(s, threshold, total, chunks).0.processed == s.processed + chunk_blocks(
            chunks,
        ).len(),
        run_chunks(s, threshold, total, chunks).0.next_segment == s.next_segment + run_chunks(
            s,
            threshold,
            total,
            chunks,
        ).1.len(),
        forall|k: int|
            0 <= k < run_chunks(s, threshold, total, chunks).1.len() ==> (#[trigger] run_chunks(
                s,
                threshold,
                total,
                chunks,
            ).1[k]).0 == s.next_segment + k,
        chunks.len() > 0 && run_chunks(s, threshold, total, chunks).0.processed == total
            ==> run_chunks(s, threshold, total, chunks).0.pending.len() == 0,
    decreases chunks.len(),
{
    if chunks.len() > 0 {
        let p = chunks.drop_last();
        lemma_partition(s, threshold, total, p);
        let (s1, segs) = run_chunks(s, threshold, total, p);
        let (s2, out) = flush_step(s1, threshold, total, chunks.last().0, chunks.last().1);
        let (e, all) = run_chunks(s, threshold, total, chunks);
        let x = segment_blocks(segs);
        let y = s1.pending;
        let z = chunks.last().0;
        assert(chunks.drop_last() == p);
        assert(chunk_blocks(chunks) == chunk_blocks(p) + z);
        assert(s.pending + (chunk_blocks(p) + z) =~= (s.pending + chunk_blocks(p)) + z);
        assert(x + (y + z) =~= (x + y) + z);
        match out {
            Some(seg) => {
                assert(all == segs.push(seg));
                assert(all.drop_last() =~= segs);
                assert(seg.1 == y + z);
                assert(segment_blocks(all) == x + (y + z));
                assert(segment_blocks(all) + e.pending =~= segment_blocks(all));
            },
            None => {
                assert(e.pending == y + z);
            },
        }
    }
}

/// The run-wide flush controller: the pending blocks and counters, and the
/// run's settings.
pub struct Context {
    total_blocks: u64,
    flush_threshold: u64,
    chunk_size: u64,
    pending: Vec<Block>,
    txs_since_flush: u64,
    blocks_processed: u64,
    next_segment: usize,
}

impl Context {
    pub closed spec fn state(&self) -> FlushState {
        FlushState {
            pending: self.pending@,
            txs: self.txs_since_flush as nat,
            processed: self.blocks_processed as nat,
            next_segment: self.next_segment as nat,
        }
    }

    pub closed spec fn total(&self) -> nat {
        self.total_blocks as nat
    }

    pub closed spec fn threshold(&self) -> nat {
        self.flush_threshold as nat
    }

    pub closed spec fn chunk(&self) -> nat {
        self.chunk_size as nat
    }

    /// A controller for a run of `total_blocks` blocks that cuts a segment
    /// every `segment_transactions_flush_threshold` transactions, with work
    /// handed out in chunks of `chunk_size` blocks.
    pub fn new(total_blocks: u64, segment_transactions_flush_threshold: u64, chunk_size: u64) -> (c:
        Context)
        ensures
            c.total() == total_blocks,
            c.threshold() == segment_transactions_flush_threshold,
            c.chunk() == chunk_size,
            c.state() == (FlushState {
                pending: Seq::empty(),
                txs: 0,
                processed: 0,
                next_segment: 0,
            }),
    {
        let c = Context {
            total_blocks,
            flush_threshold: segment_transactions_flush_threshold,
            chunk_size,
            pending: Vec::new(),
            txs_since_flush: 0,
            blocks_processed: 0,
            next_segment: 0,
        };
        assert(c.state().pending =~= Seq::<Block>::empty());
        c
    }

    pub fn get_total_blocks(&self) -> (n: u64)
        ensures
            n == self.total(),
    {
        self.total_blocks
    }

    pub fn get_nr_blocks_processed(&self) -> (n: u64)
        ensures
            n == self.state().processed,
    {
        self.blocks_processed
    }

    pub fn get_chunk_size(&self) -> (n: u64)
        ensures
            n == self.chunk(),
    {
        self.chunk_size
    }

    pub fn get_transactions_since_flush(&self) -> (n: u64)
        ensures
            n == self.state().txs,
    {
        self.txs_since_flush
    }

    pub fn get_next_segment_id(&self) -> (n: usize)
        ensures
            n == self.state().next_segment,
    {
        self.next_segment
    }

    /// Takes in a chunk's blocks and transaction count. Cuts a segment of
    /// all pending blocks, under the next id, when the transactions since the
    /// last flush reach the threshold or the blocks processed reach the
    /// expected total; else keeps them pending.
    pub fn add_blocks_and_flush(&mut self, processed_blocks: Vec<Block>, processed_transactions: u64)
        -> (r: Option<Segment>)
        requires
            old(self).state().txs + processed_transactions <= u64::MAX,
            old(self).state().processed + processed_blocks@.len() <= u64::MAX,
            old(self).state().next_segment < usize::MAX,
        ensures
            final(self).total() == old(self).total(),
            final(self).threshold() == old(self).threshold(),
            final(self).chunk() == old(self).chunk(),
            (final(self).state(), segment_view(r)) == flush_step(
                old(self).state(),
                old(self).threshold(),
                old(self).total(),
                processed_blocks@,
                processed_transactions as nat,
            ),
            old(self).state().processed + processed_blocks@.len() == old(self).total() ==> r is Some,
    {
        let mut blocks = processed_blocks;
        let n = blocks.len();
        self.pending.append(&mut blocks);
        self.blocks_processed = self.blocks_processed + n as u64;
        self.txs_since_flush = self.txs_since_flush + processed_transactions;
        if self.txs_since_flush >= self.flush_threshold || self.blocks_processed == self.total_blocks {
            let mut flushed: Vec<Block> = Vec::new();
            flushed.append(&mut self.pending);
            self.txs_since_flush = 0;
            let id = self.next_segment;
            self.next_segment = self.next_segment + 1;
            Some(Segment { id, blocks: flushed })
        } else {
            None
        }
    }
}

/// The chunks of the heights `0 .. total`: consecutive ranges `[start, end)`
/// of `chunk_size` heights each but the last, which may be shorter.
pub open spec fn is_chunking(r: Seq<(u64, u64)>, total: nat, chunk_size: nat) -> bool {
    &&& (r.len() == 0 <==> total == 0)
    &&& r.len() > 0 ==> r[0].0 == 0 && r.last().1 == total
    &&& forall|i: int| 0 <= i < r.len() - 1 ==> #[trigger] r[i].1 == r[i + 1].0
    &&& forall|i: int| 0 <= i < r.len() - 1 ==> #[trigger] r[i].1 - r[i].0 == chunk_size
    &&& forall|i: int| 0 <= i < r.len() ==> 0 < #[trigger] r[i].1 - r[i].0 <= chunk_size
}

/// Splits the heights `0 .. total` into chunks of `chunk_size`.
pub fn chunk_ranges(total: u64, chunk_size: u64) -> (r: Vec<(u64, u64)>)
    requires
        chunk_size > 0,
    ensures
        is_chunking(r@, total as nat, chunk_size as nat),
{
    let mut r: Vec<(u64, u64)> = Vec::new();
    let mut start: u64 = 0;
    while start < total
        invariant
            chunk_size > 0,
            start <= total,
            r@.len() == 0 <==> start == 0,
            r@.len() > 0 ==> r@[0].0 == 0 && r@.last().1 == start,
            forall|i: int| 0 <= i < r@.len() - 1 ==> #[trigger] r@[i].1 == r@[i + 1].0,
            forall|i: int| 0 <= i < r@.len() - 1 ==> #[trigger] r@[i].1 - r@[i].0 == chunk_size,
            forall|i: int| 0 <= i < r@.len() ==> 0 < #[trigger] r@[i].1 - r@[i].0 <= chunk_size,
            start < total ==> forall|i: int| 0 <= i < r@.len() ==> #[trigger] r@[i].1 - r@[i].0
                == chunk_size,
        decreases total - start,
    {
        let end = if total - start > chunk_size {
            start + chunk_size
        } else {
            total
        };
        let ghost old_r = r@;
        r.push((start, end));
        assert forall|i: int| 0 <= i < r@.len() - 1 implies #[trigger] r@[i].1 == r@[i + 1].0 by {
            if i < old_r.len() - 1 {
                assert(r@[i] == old_r[i] && r@[i + 1] == old_r[i + 1]);
            }
        }
        assert forall|i: int| 0 <= i < r@.len() - 1 implies #[trigger] r@[i].1 - r@[i].0
            == chunk_size by {
            assert(r@[i] == old_r[i]);
        }
        start = end;
    }
    r
}

} // verus!
