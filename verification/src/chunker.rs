//! Re-buffers an arbitrarily chunked byte stream into fixed-size parts: every
//! part split off is exactly the configured part size, and whatever remains
//! when the stream ends becomes one final, possibly smaller, part.

use vstd::prelude::*;

verus! {

/// Accumulates incoming byte chunks and splits off parts of exactly
/// `chunk_size` bytes; the chunk boundaries of the source stream never
/// influence the part boundaries.
pub struct Chunker {
    chunk_size: usize,
    buffer: Vec<u8>,
    fed: Ghost<Seq<u8>>,
    emitted: Ghost<Seq<Seq<u8>>>,
}

impl Chunker {
    /// The configured part size in bytes.
    pub closed spec fn part_size(self) -> int {
        self.chunk_size as int
    }

    /// Every byte accepted so far, in arrival order.
    pub closed spec fn stream(self) -> Seq<u8> {
        self.fed@
    }

    /// The payloads of the parts split off so far, in emission order.
    pub closed spec fn parts(self) -> Seq<Seq<u8>> {
        self.emitted@
    }

    /// The bytes accepted but not yet part of any emitted part.
    pub closed spec fn buffered(self) -> Seq<u8> {
        self.buffer@
    }

    /// Invariant while the stream is still being fed: the buffer holds
    /// strictly less than one part, every emitted part is exactly
    /// `chunk_size` bytes, and parts plus buffer reassemble the stream.
    pub closed spec fn wf(self) -> bool {
        &&& self.chunk_size > 0
        &&& self.buffer@.len() < self.chunk_size
        &&& self.emitted@.flatten() + self.buffer@ == self.fed@
        &&& forall|i: int|
            0 <= i < self.emitted@.len() ==> (#[trigger] self.emitted@[i]).len()
                == self.chunk_size
    }

    /// State after the stream has ended and the remainder was flushed: the
    /// parts alone reassemble the stream, all are exactly `chunk_size` bytes
    /// except possibly the last, and no part is empty.
    pub closed spec fn done(self) -> bool {
        &&& self.chunk_size > 0
        &&& self.buffer@.len() == 0
        &&& self.emitted@.flatten() == self.fed@
        &&& forall|i: int|
            0 <= i < self.emitted@.len() - 1 ==> (#[trigger] self.emitted@[i]).len()
                == self.chunk_size
        &&& self.emitted@.len() > 0 ==> 0 < self.emitted@.last().len() <= self.chunk_size
    }

    pub fn new(chunk_size: usize) -> (r: Chunker)
        requires
            chunk_size > 0,
        ensures
            r.wf(),
            r.part_size() == chunk_size,
            r.stream() == Seq::<u8>::empty(),
            r.parts() == Seq::<Seq<u8>>::empty(),
            r.buffered() == Seq::<u8>::empty(),
    {
        let r = Chunker {
            chunk_size,
            buffer: Vec::new(),
            fed: Ghost(Seq::empty()),
            emitted: Ghost(Seq::empty()),
        };
        proof {
            assert(r.emitted@.flatten() + r.buffer@ =~= r.fed@);
        }
        r
    }

    /// Accepts one incoming chunk and returns the parts, each of exactly
    /// `chunk_size` bytes, that became complete through it, in order.
    pub fn push(&mut self, data: &[u8]) -> (parts: Vec<Vec<u8>>)
        requires
            old(self).wf(),
        ensures
            final(self).wf(),
            final(self).part_size() == old(self).part_size(),
            final(self).stream() == old(self).stream() + data@,
            final(self).parts() == old(self).parts() + parts.deep_view(),
            forall|i: int|
                0 <= i < parts@.len() ==> (#[trigger] parts@[i])@.len() == old(self).part_size(),
    {
        let mut k: usize = 0;
        let n = data.len();
        while k < n
            invariant
                k <= n,
                n == data@.len(),
                self.chunk_size == old(self).chunk_size,
                self.emitted == old(self).emitted,
                self.fed@ == old(self).fed@ + data@.take(k as int),
                self.emitted@.flatten() + self.buffer@ == self.fed@,
            decreases n - k,
        {
            self.buffer.push(data[k]);
            self.fed = Ghost(self.fed@ + seq![data@[k as int]]);
            proof {
                assert(data@.take(k as int) + seq![data@[k as int]] =~= data@.take(k as int + 1));
                assert(self.fed@ =~= old(self).fed@ + data@.take(k as int + 1));
                assert(self.emitted@.flatten() + self.buffer@ =~= self.fed@);
            }
            k = k + 1;
        }
        proof {
            assert(data@.take(n as int) =~= data@);
        }
        let mut parts: Vec<Vec<u8>> = Vec::new();
        while self.buffer.len() >= self.chunk_size
            invariant
                self.chunk_size == old(self).chunk_size,
                self.chunk_size > 0,
                self.fed@ == old(self).fed@ + data@,
                self.emitted@ == old(self).emitted@ + parts.deep_view(),
                self.emitted@.flatten() + self.buffer@ == self.fed@,
                forall|i: int|
                    0 <= i < self.emitted@.len() ==> (#[trigger] self.emitted@[i]).len()
                        == self.chunk_size,
                forall|i: int|
                    0 <= i < parts@.len() ==> (#[trigger] parts@[i])@.len() == self.chunk_size,
            decreases self.buffer.len(),
        {
            let ghost pre_buffer = self.buffer@;
            let ghost pre_emitted = self.emitted@;
            let mut tail = self.buffer.split_off(self.chunk_size);
            core::mem::swap(&mut self.buffer, &mut tail);
            self.emitted = Ghost(self.emitted@.push(tail@));
            proof {
                pre_emitted.lemma_flatten_push(tail@);
                assert(tail@ + self.buffer@ =~= pre_buffer);
                assert(self.emitted@.flatten() + self.buffer@ =~= self.fed@);
                assert(pre_emitted == old(self).emitted@ + parts.deep_view());
            }
            let ghost pre_parts = parts.deep_view();
            parts.push(tail);
            proof {
                assert(parts.deep_view() =~~= pre_parts.push(tail@));
                assert(self.emitted@ =~~= old(self).emitted@ + parts.deep_view());
            }
        }
        parts
    }

    /// Flushes the remaining buffered bytes as the final part. Returns
    /// `None`, and emits nothing, exactly when the buffer is empty — a
    /// stream whose length is a multiple of the part size never produces a
    /// trailing empty part.
    pub fn finish(&mut self) -> (last: Option<Vec<u8>>)
        requires
            old(self).wf(),
        ensures
            final(self).done(),
            final(self).part_size() == old(self).part_size(),
            final(self).stream() == old(self).stream(),
            match last {
                Some(p) => {
                    &&& old(self).buffered().len() > 0
                    &&& p@ == old(self).buffered()
                    &&& final(self).parts() == old(self).parts().push(p@)
                },
                None => {
                    &&& old(self).buffered().len() == 0
                    &&& final(self).parts() == old(self).parts()
                },
            },
    {
        if self.buffer.len() == 0 {
            proof {
                assert(self.emitted@.flatten() + self.buffer@ =~= self.emitted@.flatten());
                if self.emitted@.len() > 0 {
                    assert(self.emitted@[self.emitted@.len() - 1].len() == self.chunk_size);
                }
            }
            None
        } else {
            let ghost pre_emitted = self.emitted@;
            let mut part: Vec<u8> = Vec::new();
            core::mem::swap(&mut self.buffer, &mut part);
            self.emitted = Ghost(self.emitted@.push(part@));
            proof {
                pre_emitted.lemma_flatten_push(part@);
                assert(self.emitted@.flatten() =~= self.fed@);
                assert(self.emitted@.last() == part@);
            }
            Some(part)
        }
    }
}

/// Law: while a chunker is being fed, the parts emitted so far followed by
/// the buffered remainder reassemble the stream exactly, every emitted part
/// is exactly the configured size, and the buffer holds strictly less than
/// one part.
pub proof fn lemma_chunker_invariant(c: Chunker)
    requires
        c.wf(),
    ensures
        c.part_size() > 0,
        c.parts().flatten() + c.buffered() == c.stream(),
        c.buffered().len() < c.part_size(),
        forall|i: int| 0 <= i < c.parts().len() ==> (#[trigger] c.parts()[i]).len()
            == c.part_size(),
{
}

/// Law: once a stream has been fully fed and flushed, every part is exactly
/// the configured size except possibly the last, the last is never empty and
/// never oversized, and concatenating the parts in emission order reproduces
/// the stream byte for byte.
pub proof fn lemma_chunker_round_trip(c: Chunker)
    requires
        c.done(),
    ensures
        c.parts().flatten() == c.stream(),
        forall|i: int| 0 <= i < c.parts().len() - 1 ==> (#[trigger] c.parts()[i]).len()
            == c.part_size(),
        c.parts().len() > 0 ==> 0 < c.parts().last().len() <= c.part_size(),
        c.parts().len() > 0 <==> c.stream().len() > 0,
        c.part_size() > 0,
{
    if c.parts().len() > 0 {
        lemma_flatten_len_ge_last(c.parts());
    } else {
        assert(c.parts().flatten() == Seq::<u8>::empty());
    }
}

proof fn lemma_flatten_len_ge_last(s: Seq<Seq<u8>>)
    requires
        s.len() > 0,
    ensures
        s.flatten().len() >= s.last().len(),
    decreases s.len(),
{
    if s.len() == 1 {
        assert(s.flatten() == s.first() + s.drop_first().flatten());
        assert(s.drop_first().len() == 0);
        assert(s.drop_first().flatten() == Seq::<u8>::empty());
        assert(s.flatten().len() == s.first().len());
    } else {
        lemma_flatten_len_ge_last(s.drop_first());
        assert(s.flatten() == s.first() + s.drop_first().flatten());
        assert(s.drop_first().last() == s.last());
    }
}

/// Law: a stream of exactly one part size yields exactly one part, the whole
/// stream, and in particular no empty second part.
pub proof fn lemma_exact_size_stream_single_part(c: Chunker)
    requires
        c.done(),
        c.stream().len() == c.part_size(),
    ensures
        c.parts().len() == 1,
        c.parts()[0] == c.stream(),
{
    if c.parts().len() == 0 {
        assert(c.parts().flatten() == Seq::<u8>::empty());
    } else if c.parts().len() >= 2 {
        assert(c.parts().flatten() == c.parts().first() + c.parts().drop_first().flatten());
        assert(c.parts()[0].len() == c.part_size());
        lemma_flatten_len_ge_last(c.parts().drop_first());
        assert(c.parts().drop_first().last() == c.parts().last());
        assert(c.parts().flatten().len() > c.part_size());
    } else {
        assert(c.parts().flatten() == c.parts().first() + c.parts().drop_first().flatten());
        assert(c.parts().drop_first().len() == 0);
        assert(c.parts().drop_first().flatten() == Seq::<u8>::empty());
        assert(c.parts()[0] =~= c.stream());
    }
}

} // verus!
