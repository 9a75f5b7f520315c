//! A batching buffer standing between an incoming stream of byte chunks
//! and the file they are stored in: the upload handler pushes each chunk
//! as it arrives, writes out whatever the buffer hands back, and writes
//! the remainder when the stream ends.

use vstd::prelude::*;

verus! {

/// The batching buffer. Its contract is that the bytes handed out for
/// writing, followed by what the buffer still holds, are always exactly
/// the bytes pushed in, in order: a stored upload is byte-for-byte the
/// request body, however the chunks arrived and however the writes were
/// batched.
pub struct ChunkSink {
    buf: Vec<u8>,
    threshold: usize,
    given_out: Ghost<Seq<u8>>,
    taken_in: Ghost<Seq<u8>>,
}

impl ChunkSink {
    /// All bytes handed out for writing so far, in order.
    pub closed spec fn emitted(&self) -> Seq<u8> {
        self.given_out@
    }

    /// All bytes pushed in so far, in order.
    pub closed spec fn pushed(&self) -> Seq<u8> {
        self.taken_in@
    }

    /// The bytes the buffer still holds.
    pub closed spec fn buffered(&self) -> Seq<u8> {
        self.buf@
    }

    /// The buffer length at which a push hands the batch out.
    pub closed spec fn threshold(&self) -> int {
        self.threshold as int
    }

    /// The sink's invariant: nothing is lost, duplicated or reordered
    /// between what comes in and what goes out.
    pub closed spec fn wf(&self) -> bool {
        self.given_out@ + self.buf@ == self.taken_in@ && self.threshold >= 1
    }

    /// A fresh sink that batches writes of at least `threshold` bytes.
    pub fn new(threshold: usize) -> (s: ChunkSink)
        requires
            threshold >= 1,
        ensures
            s.wf(),
            s.threshold() == threshold,
            s.emitted() == Seq::<u8>::empty(),
            s.pushed() == Seq::<u8>::empty(),
            s.buffered() == Seq::<u8>::empty(),
    {
        let s = ChunkSink {
            buf: Vec::new(),
            threshold,
            given_out: Ghost(Seq::empty()),
            taken_in: Ghost(Seq::empty()),
        };
        proof {
            assert(s.given_out@ + s.buf@ =~= s.taken_in@);
        }
        s
    }

    /// Takes in one chunk. When the buffer reaches the threshold, the
    /// whole batch comes back and must be written out now; otherwise the
    /// chunk only joins the buffer.
    pub fn push(&mut self, chunk: &Vec<u8>) -> (w: Option<Vec<u8>>)
        requires
            old(self).wf(),
        ensures
            final(self).wf(),
            final(self).threshold() == old(self).threshold(),
            final(self).pushed() == old(self).pushed() + chunk@,
            match w {
                Some(v) => final(self).emitted() == old(self).emitted() + v@
                    && final(self).buffered() == Seq::<u8>::empty()
                    && v@ == old(self).buffered() + chunk@
                    && v@.len() >= old(self).threshold(),
                None => final(self).emitted() == old(self).emitted() && final(self).buffered()
                    == old(self).buffered() + chunk@
                    && final(self).buffered().len() < final(self).threshold(),
            },
    {
        let mut k: usize = 0;
        let n = chunk.len();
        proof {
            assert(self.buf@ + chunk@.subrange(0, 0) =~= self.buf@);
        }
        let ghost buf_before = self.buf@;
        while k < n
            invariant
                n == chunk@.len(),
                k <= n,
                self.buf@ == buf_before + chunk@.subrange(0, k as int),
                self.given_out@ == old(self).given_out@,
                self.taken_in@ == old(self).taken_in@,
                self.threshold == old(self).threshold,
            decreases n - k,
        {
            self.buf.push(chunk[k]);
            proof {
                assert(buf_before + chunk@.subrange(0, k + 1) =~= (buf_before + chunk@.subrange(
                    0,
                    k as int,
                )).push(chunk@[k as int]));
            }
            k = k + 1;
        }
        proof {
            assert(chunk@.subrange(0, n as int) =~= chunk@);
        }
        self.taken_in = Ghost(self.taken_in@ + chunk@);
        if self.buf.len() >= self.threshold {
            let mut batch: Vec<u8> = Vec::new();
            core::mem::swap(&mut batch, &mut self.buf);
            self.given_out = Ghost(self.given_out@ + batch@);
            proof {
                assert(self.given_out@ + self.buf@ =~= self.taken_in@);
            }
            Some(batch)
        } else {
            proof {
                assert(self.given_out@ + self.buf@ =~= self.taken_in@);
            }
            None
        }
    }

    /// Ends the stream: hands back whatever the buffer still holds, to
    /// be written after the last chunk. Everything handed out over the
    /// sink's life, this remainder included, is exactly what was pushed.
    pub fn finish(self) -> (v: Vec<u8>)
        requires
            self.wf(),
        ensures
            self.emitted() + v@ == self.pushed(),
    {
        self.buf
    }
}

/// Law: at every point of an upload, the bytes already handed out for
/// writing are a prefix of the bytes pushed so far — so a copy that
/// fails midway leaves behind a prefix of the bytes received until then.
pub proof fn lemma_emitted_is_prefix_of_pushed(s: ChunkSink)
    requires
        s.wf(),
    ensures
        s.emitted().len() <= s.pushed().len(),
        s.emitted() == s.pushed().subrange(0, s.emitted().len() as int),
{
    assert(s.emitted() =~= (s.emitted() + s.buffered()).subrange(0, s.emitted().len() as int));
}

/// Law: a file stored through a sink holds exactly the uploaded bytes,
/// so a later download of it renders exactly those bytes, whatever the
/// chunking and batching did in between.
pub proof fn lemma_sink_preserves_upload(s: ChunkSink, remainder: Seq<u8>)
    requires
        s.wf(),
        s.emitted() + remainder == s.pushed(),
    ensures
        crate::render::download_body_rep(s.emitted() + remainder) == crate::render::download_body_rep(
            s.pushed(),
        ),
{
}

} // verus!
