//! SSE frame scanning.
//!
//! An SSE body is a byte stream in which a line feed ends each line. The
//! stream arrives as arbitrarily chunked reads, so a line may be split
//! across chunks: the scanner buffers the pending partial line and yields
//! a line only once its terminator has arrived. The specification folds
//! over the bytes one at a time, so everything proved about the scanner
//! depends only on the concatenation of the chunks, never on where the
//! chunk boundaries fell.

use vstd::prelude::*;
use crate::ascii::seq_views;

verus! {

/// One step of the line scan: a line feed completes the pending line, any
/// other byte extends it.
pub open spec fn scan_step(st: (Seq<Seq<u8>>, Seq<u8>), b: u8) -> (Seq<Seq<u8>>, Seq<u8>) {
    if b == 10 {
        (st.0.push(st.1), Seq::empty())
    } else {
        (st.0, st.1.push(b))
    }
}

/// Folds `scan_step` over `bytes`, starting from `st`.
pub open spec fn scan_from(st: (Seq<Seq<u8>>, Seq<u8>), bytes: Seq<u8>) -> (Seq<Seq<u8>>, Seq<u8>)
    decreases bytes.len(),
{
    if bytes.len() == 0 {
        st
    } else {
        scan_step(scan_from(st, bytes.drop_last()), bytes.last())
    }
}

/// The lines a byte stream has completed, and the pending tail after the
/// last line feed.
pub open spec fn scan(bytes: Seq<u8>) -> (Seq<Seq<u8>>, Seq<u8>) {
    scan_from((Seq::empty(), Seq::empty()), bytes)
}

/// The lines of `bytes` that a line feed has completed.
pub open spec fn complete_lines(bytes: Seq<u8>) -> Seq<Seq<u8>> {
    scan(bytes).0
}

/// The bytes after the last line feed of `bytes`: a partial line that no
/// terminator has completed yet.
pub open spec fn pending_tail(bytes: Seq<u8>) -> Seq<u8> {
    scan(bytes).1
}

/// A byte stream completes no more lines than it has bytes.
pub proof fn lemma_scan_from_count(st: (Seq<Seq<u8>>, Seq<u8>), b: Seq<u8>)
    ensures
        scan_from(st, b).0.len() <= st.0.len() + b.len(),
    decreases b.len(),
{
    if b.len() > 0 {
        lemma_scan_from_count(st, b.drop_last());
    }
}

/// Buffers an incrementally arriving byte stream and hands out each line
/// as soon as its terminator arrives, however the stream was chunked.
pub struct LineScanner {
    /// The pending partial line.
    pub buf: Vec<u8>,
    /// Every byte fed so far.
    pub hist: Ghost<Seq<u8>>,
}

impl LineScanner {
    /// The scanner's buffer holds exactly the pending tail of the bytes
    /// fed so far.
    pub open spec fn wf(self) -> bool {
        self.buf@ == pending_tail(self.hist@)
    }

    /// A scanner that has seen no bytes.
    pub fn new() -> (s: Self)
        ensures
            s.wf(),
            s.hist@ == Seq::<u8>::empty(),
    {
        LineScanner { buf: Vec::new(), hist: Ghost(Seq::empty()) }
    }

    /// Feeds one chunk; returns the lines the chunk completed, in order.
    pub fn push_chunk(&mut self, chunk: &Vec<u8>) -> (lines: Vec<Vec<u8>>)
        requires
            old(self).wf(),
        ensures
            final(self).wf(),
            final(self).hist@ == old(self).hist@ + chunk@,
            complete_lines(old(self).hist@) + seq_views(lines@) == complete_lines(
                final(self).hist@,
            ),
    {
        let ghost h0 = self.hist@;
        let mut lines: Vec<Vec<u8>> = Vec::new();
        let mut i: usize = 0;
        while i < chunk.len()
            invariant
                i <= chunk@.len(),
                self.hist@ == h0,
                self.buf@ == pending_tail(h0 + chunk@.subrange(0, i as int)),
                complete_lines(h0) + seq_views(lines@) == complete_lines(
                    h0 + chunk@.subrange(0, i as int),
                ),
            decreases chunk@.len() - i,
        {
            let ghost cur = h0 + chunk@.subrange(0, i as int);
            let b = chunk[i];
            proof {
                assert(h0 + chunk@.subrange(0, i + 1) =~= cur.push(b));
                assert(cur.push(b).drop_last() =~= cur);
                // one unfolding of the scan at cur.push(b)
                assert(scan(cur.push(b)) == scan_step(scan(cur), b));
            }
            if b == 10 {
                let mut line: Vec<u8> = Vec::new();
                core::mem::swap(&mut line, &mut self.buf);
                let ghost before = seq_views(lines@);
                lines.push(line);
                proof {
                    assert(seq_views(lines@) =~= before.push(line@));
                    assert(complete_lines(h0) + seq_views(lines@) =~= complete_lines(
                        cur.push(b),
                    ));
                }
            } else {
                self.buf.push(b);
            }
            i = i + 1;
        }
        proof {
            assert(chunk@.subrange(0, chunk@.len() as int) =~= chunk@);
        }
        self.hist = Ghost(h0 + chunk@);
        lines
    }
}

} // verus!
