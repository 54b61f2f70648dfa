//! The per-item multipart upload session: it re-chunks the downloaded byte
//! stream into parts, hands each part out under a strictly increasing part
//! number starting at 1, records the identifier the store returned for it,
//! and releases the ordered part list for the completion call.

use vstd::prelude::*;

use crate::chunker::Chunker;
use crate::errors::UploadError;

verus! {

/// The most parts one multipart upload may carry; the object-store
/// protocols this library drives cap part numbers at this count.
pub const MAX_PART_COUNT: usize = 10000;

/// Part size in bytes used when the configuration does not set one.
pub const DEFAULT_CHUNK_SIZE: usize = 5242880;

/// What to do with a source stream that carried no bytes at all: store the
/// object with one direct put, or upload a single empty part. The choice is
/// deliberate configuration, never a silent default.
#[derive(Clone, Copy, Debug)]
pub enum EmptyStreamMode {
    DirectPut,
    SingleEmptyPart,
}

/// Immutable configuration of one streaming upload, fixed before any byte
/// flows.
pub struct UploadConfig {
    pub bucket: String,
    pub key: String,
    pub chunk_size: usize,
    pub empty_stream_mode: EmptyStreamMode,
}

impl UploadConfig {
    /// Builds the configuration, supplying the default part size where none
    /// is given. Fails exactly when the key is missing or a part size of
    /// zero was requested.
    pub fn new(
        bucket: String,
        key: Option<String>,
        chunk_size: Option<usize>,
        empty_stream_mode: EmptyStreamMode,
    ) -> (r: Result<UploadConfig, UploadError>)
        ensures
            match r {
                Ok(c) => {
                    &&& key matches Some(k) && c.key == k
                    &&& c.bucket == bucket
                    &&& match chunk_size {
                        Some(s) => s > 0 && c.chunk_size == s,
                        None => c.chunk_size == DEFAULT_CHUNK_SIZE,
                    }
                    &&& c.chunk_size > 0
                    &&& c.empty_stream_mode == empty_stream_mode
                },
                Err(e) => {
                    ||| (key is None && (e matches UploadError::MissingParameter { name }
                        && name@ == "key"@))
                    ||| (key is Some && chunk_size == Some(0usize)
                        && e is InvalidChunkSize)
                },
            },
    {
        let key = match key {
            Some(k) => k,
            None => {
                return Err(UploadError::MissingParameter { name: String::from_str("key") });
            },
        };
        let chunk_size = match chunk_size {
            Some(s) => {
                if s == 0 {
                    return Err(UploadError::InvalidChunkSize);
                }
                s
            },
            None => DEFAULT_CHUNK_SIZE,
        };
        Ok(UploadConfig { bucket, key, chunk_size, empty_stream_mode })
    }
}

/// One part ready to be sent: its 1-based number and its payload.
pub struct PartRequest {
    pub part_number: usize,
    pub data: Vec<u8>,
}

/// One part the store has acknowledged: its number and the identifier
/// (ETag) the store returned, to be echoed at completion.
pub struct CompletedPart {
    pub part_number: usize,
    pub etag: String,
}

/// Where a session stands in the multipart protocol.
#[derive(Clone, Copy, Debug)]
pub enum SessionPhase {
    /// Bytes are still arriving.
    Streaming,
    /// The stream ended; remaining parts are being issued and recorded.
    Finished,
    /// The completion call is in flight.
    Completing,
    /// The object is durably committed.
    Completed,
    /// The upload was given up; a best-effort protocol abort should follow.
    Aborted,
}

/// The state of one item's upload: exclusive to the task driving that item.
pub struct UploadSession {
    key: String,
    upload_id: String,
    chunker: Chunker,
    empty_stream_mode: EmptyStreamMode,
    empty_part_added: bool,
    pending: Vec<Vec<u8>>,
    outstanding: bool,
    completed: Vec<CompletedPart>,
    phase: SessionPhase,
}

impl UploadSession {
    /// The object key this session uploads to.
    pub closed spec fn key_spec(self) -> Seq<char> {
        self.key@
    }

    /// The opaque upload identifier the store handed out at initiation.
    pub closed spec fn upload_id_spec(self) -> Seq<char> {
        self.upload_id@
    }

    /// The configured part size in bytes.
    pub closed spec fn part_size(self) -> int {
        self.chunker.part_size()
    }

    /// Every byte of the source stream accepted so far.
    pub closed spec fn stream(self) -> Seq<u8> {
        self.chunker.stream()
    }

    /// The payloads of all parts this upload will carry, in part-number
    /// order: the split-off parts, or one empty part for an empty stream
    /// under `SingleEmptyPart`.
    pub closed spec fn planned_parts(self) -> Seq<Seq<u8>> {
        if self.empty_part_added {
            seq![Seq::<u8>::empty()]
        } else {
            self.chunker.parts()
        }
    }

    /// Whether an empty stream was padded with one empty part.
    pub closed spec fn empty_padded(self) -> bool {
        self.empty_part_added
    }

    /// How many parts have been handed out so far.
    pub closed spec fn issued(self) -> int {
        self.completed@.len() + if self.outstanding {
            1int
        } else {
            0int
        }
    }

    /// Whether a part has been handed out whose identifier is not yet
    /// recorded.
    pub closed spec fn has_outstanding(self) -> bool {
        self.outstanding
    }

    /// The parts acknowledged so far, in recording order.
    pub closed spec fn recorded(self) -> Seq<CompletedPart> {
        self.completed@
    }

    pub closed spec fn phase(self) -> SessionPhase {
        self.phase
    }

    /// The session invariant. Parts are issued in part-number order with no
    /// gaps and no reuse; what is not yet issued is exactly the tail of the
    /// planned parts; and the chunker's own invariant ties the parts to the
    /// stream.
    pub closed spec fn wf(self) -> bool {
        match self.phase {
            SessionPhase::Aborted => true,
            _ => {
                &&& match self.phase {
                    SessionPhase::Streaming => self.chunker.wf() && !self.empty_part_added,
                    _ => self.chunker.done(),
                }
                &&& self.empty_part_added ==> self.chunker.parts().len() == 0
                &&& self.issued() + self.pending@.len() == self.planned_parts().len()
                &&& self.pending.deep_view() == self.planned_parts().skip(self.issued())
                &&& self.issued() <= MAX_PART_COUNT
                &&& forall|i: int|
                    0 <= i < self.completed@.len()
                        ==> (#[trigger] self.completed@[i]).part_number == i + 1
            },
        }
    }

    /// Opens a session for one object, after the store has handed out the
    /// upload identifier.
    pub fn new(config: &UploadConfig, upload_id: String) -> (r: UploadSession)
        requires
            config.chunk_size > 0,
        ensures
            r.wf(),
            r.phase() is Streaming,
            r.key_spec() == config.key@,
            r.upload_id_spec() == upload_id@,
            r.part_size() == config.chunk_size,
            r.stream() == Seq::<u8>::empty(),
            r.planned_parts() == Seq::<Seq<u8>>::empty(),
            r.recorded() == Seq::<CompletedPart>::empty(),
            r.issued() == 0,
            !r.has_outstanding(),
    {
        let r = UploadSession {
            key: config.key.clone(),
            upload_id,
            chunker: Chunker::new(config.chunk_size),
            empty_stream_mode: config.empty_stream_mode,
            empty_part_added: false,
            pending: Vec::new(),
            outstanding: false,
            completed: Vec::new(),
            phase: SessionPhase::Streaming,
        };
        proof {
            assert(r.pending.deep_view() =~~= r.planned_parts().skip(0));
        }
        r
    }

    /// Accepts one chunk of the source stream, whose boundaries have no
    /// bearing on part boundaries: parts that became complete queue up for
    /// issue.
    pub fn feed(&mut self, data: &[u8])
        requires
            old(self).wf(),
            old(self).phase() is Streaming,
        ensures
            final(self).wf(),
            final(self).phase() is Streaming,
            final(self).stream() == old(self).stream() + data@,
            old(self).planned_parts().is_prefix_of(final(self).planned_parts()),
            final(self).recorded() == old(self).recorded(),
            final(self).issued() == old(self).issued(),
            final(self).has_outstanding() == old(self).has_outstanding(),
            final(self).part_size() == old(self).part_size(),
            final(self).key_spec() == old(self).key_spec(),
            final(self).upload_id_spec() == old(self).upload_id_spec(),
            final(self).empty_padded() == old(self).empty_padded(),
    {
        let mut parts = self.chunker.push(data);
        let ghost mid = *self;
        proof {
            assert(self.planned_parts().skip(self.issued()) =~= self.pending.deep_view()
                + parts.deep_view());
        }
        while parts.len() > 0
            invariant
                self.chunker == mid.chunker,
                self.completed == mid.completed,
                self.outstanding == mid.outstanding,
                self.key == mid.key,
                self.upload_id == mid.upload_id,
                self.empty_part_added == mid.empty_part_added,
                self.empty_stream_mode == mid.empty_stream_mode,
                self.phase == mid.phase,
                self.pending.deep_view() + parts.deep_view() == self.planned_parts().skip(
                    self.issued(),
                ),
            decreases parts@.len(),
        {
            let ghost pre_pending = self.pending.deep_view();
            let ghost pre_parts = parts.deep_view();
            let p = parts.remove(0);
            self.pending.push(p);
            proof {
                assert(parts.deep_view() =~~= pre_parts.drop_first());
                assert(self.pending.deep_view() =~~= pre_pending.push(pre_parts[0]));
                assert(self.pending.deep_view() + parts.deep_view() =~= pre_pending + pre_parts);
            }
        }
        proof {
            assert(parts.deep_view() =~~= Seq::<Seq<u8>>::empty());
            assert(self.pending.deep_view() =~= self.pending.deep_view() + parts.deep_view());
        }
    }

    /// Marks the source stream as exhausted. Any buffered remainder becomes
    /// the final, possibly undersized, part; an entirely empty stream under
    /// `SingleEmptyPart` is padded with one empty part, and under
    /// `DirectPut` plans no parts at all.
    pub fn end_stream(&mut self)
        requires
            old(self).wf(),
            old(self).phase() is Streaming,
        ensures
            final(self).wf(),
            final(self).phase() is Finished,
            final(self).stream() == old(self).stream(),
            final(self).planned_parts().flatten() == final(self).stream(),
            old(self).planned_parts().is_prefix_of(final(self).planned_parts()),
            final(self).recorded() == old(self).recorded(),
            final(self).issued() == old(self).issued(),
            final(self).has_outstanding() == old(self).has_outstanding(),
            final(self).part_size() == old(self).part_size(),
            final(self).key_spec() == old(self).key_spec(),
            final(self).upload_id_spec() == old(self).upload_id_spec(),
            final(self).empty_padded() == (old(self).stream().len() == 0
                && old(self).empty_stream_mode_spec() is SingleEmptyPart),
            final(self).planned_parts().len() == 0 <==> (old(self).stream().len() == 0
                && old(self).empty_stream_mode_spec() is DirectPut),
            forall|i: int|
                0 <= i < final(self).planned_parts().len() - 1
                    ==> (#[trigger] final(self).planned_parts()[i]).len()
                    == final(self).part_size(),
            final(self).planned_parts().len() > 0 && !final(self).empty_padded()
                ==> 0 < final(self).planned_parts().last().len() <= final(self).part_size(),
    {
        proof {
            crate::chunker::lemma_chunker_invariant(old(self).chunker);
        }
        let last = self.chunker.finish();
        proof {
            crate::chunker::lemma_chunker_round_trip(self.chunker);
        }
        match last {
            Some(p) => {
                let ghost pre_pending = self.pending.deep_view();
                let ghost payload = p@;
                self.pending.push(p);
                self.phase = SessionPhase::Finished;
                proof {
                    assert(self.pending.deep_view() =~~= pre_pending.push(payload));
                    assert(self.pending.deep_view() =~= self.planned_parts().skip(
                        self.issued(),
                    ));
                }
            },
            None => {
                self.phase = SessionPhase::Finished;
                let no_parts = self.completed.len() == 0 && !self.outstanding
                    && self.pending.len() == 0;
                proof {
                    assert(no_parts <==> self.chunker.parts().len() == 0);
                }
                if no_parts {
                    match self.empty_stream_mode {
                        EmptyStreamMode::SingleEmptyPart => {
                            self.empty_part_added = true;
                            self.pending.push(Vec::new());
                            proof {
                                assert(self.planned_parts() =~= seq![Seq::<u8>::empty()]);
                                assert(self.planned_parts().drop_first().len() == 0);
                                assert(self.planned_parts().drop_first().flatten()
                                    == Seq::<u8>::empty());
                                assert(self.planned_parts().flatten() =~= Seq::<u8>::empty());
                                assert(self.pending.deep_view() =~~= self.planned_parts().skip(0));
                            }
                        },
                        EmptyStreamMode::DirectPut => {
                        },
                    }
                }
            },
        }
    }

    /// The configured handling of an entirely empty source stream.
    pub closed spec fn empty_stream_mode_spec(self) -> EmptyStreamMode {
        self.empty_stream_mode
    }

    /// Whether this upload planned no parts at all, so the object must be
    /// stored with one direct put instead of a multipart completion.
    pub fn needs_direct_put(&self) -> (r: bool)
        requires
            self.wf(),
            self.phase() is Finished,
        ensures
            r == (self.planned_parts().len() == 0),
    {
        self.completed.len() == 0 && !self.outstanding && self.pending.len() == 0
    }

    /// Hands out the next part to upload, under the next part number: part
    /// numbers start at 1 and increment by exactly 1, with no gaps and no
    /// reuse. Returns `Ok(None)` when every planned part so far has been
    /// issued, and fails only when the protocol's part cap is exhausted.
    pub fn next_part(&mut self) -> (r: Result<Option<PartRequest>, UploadError>)
        requires
            old(self).wf(),
            !old(self).has_outstanding(),
            old(self).phase() is Streaming || old(self).phase() is Finished,
        ensures
            final(self).wf(),
            final(self).phase() == old(self).phase(),
            final(self).stream() == old(self).stream(),
            final(self).planned_parts() == old(self).planned_parts(),
            final(self).recorded() == old(self).recorded(),
            final(self).part_size() == old(self).part_size(),
            final(self).key_spec() == old(self).key_spec(),
            final(self).upload_id_spec() == old(self).upload_id_spec(),
            final(self).empty_padded() == old(self).empty_padded(),
            match r {
                Ok(Some(req)) => {
                    &&& old(self).issued() < old(self).planned_parts().len()
                    &&& old(self).issued() < MAX_PART_COUNT
                    &&& req.part_number == old(self).issued() + 1
                    &&& req.data@ == old(self).planned_parts()[old(self).issued()]
                    &&& final(self).issued() == old(self).issued() + 1
                    &&& final(self).has_outstanding()
                },
                Ok(None) => {
                    &&& old(self).issued() == old(self).planned_parts().len()
                    &&& final(self).issued() == old(self).issued()
                    &&& !final(self).has_outstanding()
                },
                Err(e) => {
                    &&& e is TooManyParts
                    &&& old(self).issued() == MAX_PART_COUNT
                    &&& old(self).issued() < old(self).planned_parts().len()
                    &&& final(self).issued() == old(self).issued()
                    &&& !final(self).has_outstanding()
                },
            },
    {
        if self.pending.len() == 0 {
            return Ok(None);
        }
        if self.completed.len() >= MAX_PART_COUNT {
            return Err(UploadError::TooManyParts);
        }
        let ghost pre_pending = self.pending.deep_view();
        let data = self.pending.remove(0);
        let part_number = self.completed.len() + 1;
        self.outstanding = true;
        proof {
            assert(self.pending.deep_view() =~~= pre_pending.drop_first());
            assert(self.pending.deep_view() =~= self.planned_parts().skip(self.issued()));
            assert(data@ =~= data.deep_view());
            assert(data.deep_view() == pre_pending[0]);
            assert(pre_pending[0] == old(self).planned_parts().skip(old(self).issued())[0]);
            assert(old(self).planned_parts().skip(old(self).issued())[0] == old(
                self,
            ).planned_parts()[old(self).issued()]);
        }
        Ok(Some(PartRequest { part_number, data }))
    }

    /// Records the identifier the store returned for the part handed out
    /// last, under that part's number.
    pub fn record_etag(&mut self, etag: String)
        requires
            old(self).wf(),
            old(self).has_outstanding(),
            old(self).phase() is Streaming || old(self).phase() is Finished,
        ensures
            final(self).wf(),
            final(self).phase() == old(self).phase(),
            final(self).stream() == old(self).stream(),
            final(self).planned_parts() == old(self).planned_parts(),
            final(self).issued() == old(self).issued(),
            !final(self).has_outstanding(),
            final(self).recorded().len() == old(self).recorded().len() + 1,
            final(self).recorded().last().part_number == old(self).recorded().len() + 1,
            final(self).recorded().last().etag@ == etag@,
            final(self).recorded().drop_last() == old(self).recorded(),
            final(self).part_size() == old(self).part_size(),
            final(self).key_spec() == old(self).key_spec(),
            final(self).upload_id_spec() == old(self).upload_id_spec(),
            final(self).empty_padded() == old(self).empty_padded(),
    {
        let part_number = self.completed.len() + 1;
        self.completed.push(CompletedPart { part_number, etag });
        self.outstanding = false;
        proof {
            assert(final(self).recorded().drop_last() =~= old(self).recorded());
            assert(self.pending.deep_view() =~= self.planned_parts().skip(self.issued()));
        }
    }

    /// The full ordered part list for the completion call: one entry per
    /// planned part, in part-number order 1, 2, …, with the identifier the
    /// store acknowledged for each. Callable only once every part has been
    /// issued and recorded.
    pub fn completion_parts(&self) -> (r: &Vec<CompletedPart>)
        requires
            self.wf(),
            self.phase() is Finished,
            !self.has_outstanding(),
            self.issued() == self.planned_parts().len(),
        ensures
            r@ == self.recorded(),
            r@.len() == self.planned_parts().len(),
            forall|i: int| 0 <= i < r@.len() ==> (#[trigger] r@[i]).part_number == i + 1,
            self.planned_parts().flatten() == self.stream(),
    {
        proof {
            crate::chunker::lemma_chunker_round_trip(self.chunker);
            if self.empty_part_added {
                assert(self.planned_parts().drop_first().len() == 0);
                assert(self.planned_parts().drop_first().flatten() == Seq::<u8>::empty());
                assert(self.planned_parts().flatten() =~= Seq::<u8>::empty());
                assert(self.chunker.parts().len() == 0);
                assert(self.planned_parts().flatten() =~= self.chunker.stream());
            }
        }
        &self.completed
    }

    /// Moves the session into the completion call.
    pub fn start_completing(&mut self)
        requires
            old(self).wf(),
            old(self).phase() is Finished,
            !old(self).has_outstanding(),
            old(self).issued() == old(self).planned_parts().len(),
            old(self).planned_parts().len() > 0,
        ensures
            final(self).wf(),
            final(self).phase() is Completing,
            final(self).stream() == old(self).stream(),
            final(self).planned_parts() == old(self).planned_parts(),
            final(self).recorded() == old(self).recorded(),
            final(self).key_spec() == old(self).key_spec(),
            final(self).upload_id_spec() == old(self).upload_id_spec(),
    {
        self.phase = SessionPhase::Completing;
    }

    /// Marks the completion call as acknowledged: the object is committed.
    pub fn mark_completed(&mut self)
        requires
            old(self).wf(),
            old(self).phase() is Completing,
        ensures
            final(self).wf(),
            final(self).phase() is Completed,
            final(self).stream() == old(self).stream(),
            final(self).planned_parts() == old(self).planned_parts(),
            final(self).recorded() == old(self).recorded(),
            final(self).key_spec() == old(self).key_spec(),
    {
        self.phase = SessionPhase::Completed;
    }

    /// Gives the upload up, from any state; the caller should follow with a
    /// best-effort protocol abort to release server-side resources.
    pub fn abort(&mut self)
        ensures
            final(self).wf(),
            final(self).phase() is Aborted,
    {
        self.phase = SessionPhase::Aborted;
    }

    /// Law: part numbers start at 1 and increment by exactly 1 per
    /// recorded part — no gaps and no reuse — so the recorded list is
    /// already in the order the completion call requires.
    pub proof fn lemma_part_numbers_sequential(self)
        requires
            self.wf(),
            !(self.phase() is Aborted),
        ensures
            forall|i: int|
                0 <= i < self.recorded().len() ==> (#[trigger] self.recorded()[i]).part_number
                    == i + 1,
    {
    }

    pub fn key(&self) -> (r: &String)
        ensures
            r@ == self.key_spec(),
    {
        &self.key
    }

    pub fn upload_id(&self) -> (r: &String)
        ensures
            r@ == self.upload_id_spec(),
    {
        &self.upload_id
    }

    /// How many parts the store has acknowledged so far.
    pub fn parts_recorded(&self) -> (r: usize)
        ensures
            r == self.recorded().len(),
    {
        self.completed.len()
    }
}

/// A download whose declared length is below the part size is stored with
/// one direct put instead of a multipart upload.
pub fn should_put_directly(content_length: Option<u64>, chunk_size: usize) -> (r: bool)
    ensures
        r == (content_length matches Some(n) && n < chunk_size as u64),
{
    match content_length {
        Some(n) => n < chunk_size as u64,
        None => false,
    }
}

} // verus!
