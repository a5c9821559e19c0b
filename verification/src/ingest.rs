//! Taking in an upload: the transport's preamble is dropped, the rest is
//! handed on to be written and is counted.
//!
//! An upload arrives in chunks of any size. The first [`PREAMBLE_LEN`] bytes
//! of the body as a whole are the transport's marker and are never kept,
//! wherever the chunk boundaries fall. [`Ingest`] follows one upload chunk by
//! chunk for a caller that does the reading and the writing itself;
//! [`ingest_stream`] does the same over a stream that is already in memory.

use vstd::prelude::*;
use crate::clock::local_timestamp;
use crate::metadata::PostMetadata;

verus! {

/// Length in bytes of the marker that the transport puts before every body.
pub const PREAMBLE_LEN: usize = 8;

/// What is kept of an upload whose whole body is `body`: all but its first
/// [`PREAMBLE_LEN`] bytes, and nothing if it is no longer than that.
pub open spec fn persisted(body: Seq<u8>) -> Seq<u8> {
    if body.len() <= PREAMBLE_LEN {
        Seq::empty()
    } else {
        body.skip(PREAMBLE_LEN as int)
    }
}

/// Of a chunk of `len` bytes that arrives while `pending` bytes of preamble
/// are still owed, the number of leading bytes that belong to the preamble.
pub open spec fn preamble_share(pending: nat, len: nat) -> nat {
    if pending < len {
        pending
    } else {
        len
    }
}

/// The part of `chunk` that is kept when it arrives while `pending` bytes of
/// preamble are still owed.
pub open spec fn kept_of(pending: nat, chunk: Seq<u8>) -> Seq<u8> {
    chunk.skip(preamble_share(pending, chunk.len()) as int)
}

/// Bytes of preamble still owed once a body has grown to `seen` bytes.
pub open spec fn pending_after(seen: nat) -> nat {
    if seen < PREAMBLE_LEN {
        (PREAMBLE_LEN - seen) as nat
    } else {
        0
    }
}

/// What a run of chunks leaves to be written, chunk by chunk, starting with
/// `pending` bytes of preamble owed.
pub open spec fn kept_of_all(pending: nat, chunks: Seq<Seq<u8>>) -> Seq<u8>
    decreases chunks.len(),
{
    if chunks.len() == 0 {
        Seq::empty()
    } else {
        kept_of(pending, chunks[0]) + kept_of_all(
            (pending - preamble_share(pending, chunks[0].len())) as nat,
            chunks.skip(1),
        )
    }
}

/// The chunks laid end to end.
pub open spec fn joined(chunks: Seq<Seq<u8>>) -> Seq<u8>
    decreases chunks.len(),
{
    if chunks.len() == 0 {
        Seq::empty()
    } else {
        chunks[0] + joined(chunks.skip(1))
    }
}

/// Growing a body by `more` grows what is kept of it by the part of `more`
/// that lies behind the preamble.
pub proof fn lemma_persisted_grows(body: Seq<u8>, more: Seq<u8>)
    ensures
        persisted(body + more) == persisted(body) + kept_of(pending_after(body.len()), more),
        pending_after((body + more).len()) == pending_after(body.len()) - preamble_share(
            pending_after(body.len()),
            more.len(),
        ),
{
}

/// However an upload is cut into chunks, what is kept of it is the body less
/// its preamble: the chunk boundaries leave no trace, also where one of them
/// falls inside the preamble.
pub proof fn lemma_chunking_leaves_no_trace(chunks: Seq<Seq<u8>>)
    ensures
        kept_of_all(PREAMBLE_LEN as nat, chunks) == persisted(joined(chunks)),
{
    lemma_kept_of_all_from(Seq::empty(), chunks);
}

proof fn lemma_kept_of_all_from(seen: Seq<u8>, chunks: Seq<Seq<u8>>)
    ensures
        persisted(seen + joined(chunks)) == persisted(seen) + kept_of_all(
            pending_after(seen.len()),
            chunks,
        ),
    decreases chunks.len(),
{
    if chunks.len() > 0 {
        let first = chunks[0];
        let rest = chunks.skip(1);
        lemma_persisted_grows(seen, first);
        lemma_kept_of_all_from(seen + first, rest);
        assert(persisted(seen) + kept_of_all(pending_after(seen.len()), chunks) =~= (persisted(
            seen,
        ) + kept_of(pending_after(seen.len()), first)) + kept_of_all(
            pending_after((seen + first).len()),
            rest,
        ));
    }
}

/// An upload whose body is an eight-byte preamble followed by `payload` is
/// kept as `payload`, byte for byte.
pub proof fn lemma_preamble_is_stripped(preamble: Seq<u8>, payload: Seq<u8>)
    requires
        preamble.len() == PREAMBLE_LEN,
    ensures
        persisted(preamble + payload) == payload,
        persisted(preamble + payload).len() == payload.len(),
{
}

/// An upload in progress: who sends it, when it began, how much of the
/// preamble is still owed and how many bytes have been handed on.
pub struct Ingest {
    origin: String,
    started_at: String,
    pending: usize,
    written: u64,
}

impl Ingest {
    /// The address of the uploading client.
    pub closed spec fn origin(&self) -> Seq<char> {
        self.origin@
    }

    /// The time at which the upload began, as text.
    pub closed spec fn started_at(&self) -> Seq<char> {
        self.started_at@
    }

    /// Bytes of preamble that the next chunks still have to give up.
    pub closed spec fn pending(&self) -> nat {
        self.pending as nat
    }

    /// Bytes handed on so far.
    pub closed spec fn written(&self) -> nat {
        self.written as nat
    }

    /// Opens an upload from `origin` that began at `started_at`.
    pub fn begin_at(origin: String, started_at: String) -> (ingest: Ingest)
        ensures
            ingest.origin() == origin@,
            ingest.started_at() == started_at@,
            ingest.pending() == PREAMBLE_LEN,
            ingest.written() == 0,
    {
        Ingest { origin, started_at, pending: PREAMBLE_LEN, written: 0 }
    }

    /// Opens an upload from `origin` that begins now, by the local clock.
    pub fn begin(origin: String) -> (ingest: Ingest)
        ensures
            ingest.origin() == origin@,
            ingest.pending() == PREAMBLE_LEN,
            ingest.written() == 0,
    {
        let started_at = local_timestamp();
        Ingest::begin_at(origin, started_at)
    }

    /// Bytes handed on so far.
    pub fn bytes_written(&self) -> (count: u64)
        ensures
            count == self.written(),
    {
        self.written
    }

    /// The part of the next chunk of the body that is to be written: the
    /// chunk less what it owes to the preamble. The upload itself stays where
    /// it is until [`Ingest::advance`] is told that the chunk has been dealt
    /// with.
    pub fn payload<'a>(&self, chunk: &'a [u8]) -> (kept: &'a [u8])
        ensures
            kept@ == kept_of(self.pending(), chunk@),
    {
        let share: usize = if self.pending < chunk.len() {
            self.pending
        } else {
            chunk.len()
        };
        vstd::slice::slice_subrange(chunk, share, chunk.len())
    }

    /// Moves on past `chunk`, once its payload has been written: the preamble
    /// owes less by what the chunk gave up, and the count of bytes written
    /// grows by the rest of it. The count has to stay within `u64`.
    pub fn advance(&mut self, chunk: &[u8])
        requires
            old(self).written() + kept_of(old(self).pending(), chunk@).len() <= u64::MAX,
        ensures
            final(self).pending() == old(self).pending() - preamble_share(
                old(self).pending(),
                chunk@.len(),
            ),
            final(self).written() == old(self).written() + kept_of(
                old(self).pending(),
                chunk@,
            ).len(),
            final(self).origin() == old(self).origin(),
            final(self).started_at() == old(self).started_at(),
    {
        let share: usize = if self.pending < chunk.len() {
            self.pending
        } else {
            chunk.len()
        };
        self.pending = self.pending - share;
        self.written = self.written + ((chunk.len() - share) as u64);
    }

    /// Closes the upload after its last chunk and gives what is to be
    /// recorded of it: the bytes handed on, the time it began, the sender.
    pub fn finish(self) -> (meta: PostMetadata)
        ensures
            meta.size == self.written(),
            meta.created_at@ == self.started_at(),
            meta.origin@ == self.origin(),
    {
        PostMetadata { size: self.written, created_at: self.started_at, origin: self.origin }
    }
}

/// Why an upload was not taken in.
#[derive(Debug, PartialEq, Eq)]
pub enum IoError {
    /// A post of that name exists already. Nothing was written.
    AlreadyExists,
    /// Reading the upload failed, with the platform's description of the
    /// failure. What had been read before is kept, without a record.
    Failed(String),
}

impl IoError {
    /// The failure in words: the platform's own for a failed read.
    pub fn description(&self) -> (text: String)
        ensures
            match self {
                IoError::AlreadyExists => text@ == "a post of that name exists already"@,
                IoError::Failed(reason) => text@ == reason@,
            },
    {
        match self {
            IoError::AlreadyExists => String::from_str("a post of that name exists already"),
            IoError::Failed(reason) => reason.clone(),
        }
    }
}

/// What one read from an upload's stream brought.
#[derive(Debug, PartialEq, Eq)]
pub enum ReadEvent {
    /// Bytes of the body. A read of no bytes is the end of the stream.
    Data(Vec<u8>),
    /// The read failed, with the platform's description of the failure.
    Failed(String),
}

/// A [`ReadEvent`] as plain values.
pub enum ReadView {
    Data(Seq<u8>),
    Failed(Seq<char>),
}

impl View for ReadEvent {
    type V = ReadView;

    open spec fn view(&self) -> ReadView {
        match self {
            ReadEvent::Data(bytes) => ReadView::Data(bytes@),
            ReadEvent::Failed(description) => ReadView::Failed(description@),
        }
    }
}

/// A run of reads as plain values.
pub open spec fn reads(input: Seq<ReadEvent>) -> Seq<ReadView> {
    Seq::new(input.len(), |i: int| input[i]@)
}

/// The body that a run of reads delivers: the bytes of its reads up to the
/// first empty or failed one, or up to the last if there is neither.
pub open spec fn stream_body(events: Seq<ReadView>) -> Seq<u8>
    decreases events.len(),
{
    if events.len() == 0 {
        Seq::empty()
    } else {
        match events[0] {
            ReadView::Data(bytes) => if bytes.len() == 0 {
                Seq::empty()
            } else {
                bytes + stream_body(events.skip(1))
            },
            ReadView::Failed(_) => Seq::empty(),
        }
    }
}

/// The failure that ends a run of reads, if a failed read comes before any
/// empty one.
pub open spec fn stream_failure(events: Seq<ReadView>) -> Option<Seq<char>>
    decreases events.len(),
{
    if events.len() == 0 {
        None
    } else {
        match events[0] {
            ReadView::Data(bytes) => if bytes.len() == 0 {
                None
            } else {
                stream_failure(events.skip(1))
            },
            ReadView::Failed(description) => Some(description),
        }
    }
}

/// What taking in a stream gives: the bytes to keep and, where the stream
/// ended in order, the record to write.
#[derive(Debug, PartialEq, Eq)]
pub struct Intake {
    /// The bytes that were kept, in full or up to the failure.
    pub kept: Vec<u8>,
    /// The record of a stream that ended in order, or the failure.
    pub outcome: Result<PostMetadata, IoError>,
}

/// Takes in the stream `input` of an upload from `origin` that began at
/// `started_at`. The body is read up to the end of the stream or the first
/// failure; what lies behind its preamble is kept. A stream that ends in order
/// gives the record of the post; a failed one gives the failure and no record.
pub fn ingest_stream(input: &Vec<ReadEvent>, origin: String, started_at: String) -> (intake: Intake)
    ensures
        intake.kept@ == persisted(stream_body(reads(input@))),
        match stream_failure(reads(input@)) {
            None => {
                &&& intake.outcome matches Ok(meta)
                &&& meta.size == intake.kept@.len()
                &&& meta.created_at@ == started_at@
                &&& meta.origin@ == origin@
            },
            Some(description) => {
                &&& intake.outcome matches Err(IoError::Failed(text))
                &&& text@ == description
            },
        },
{
    let ghost events = reads(input@);
    let ghost mut seen: Seq<u8> = Seq::empty();
    let mut state = Ingest::begin_at(origin, started_at);
    let mut kept: Vec<u8> = Vec::new();
    let mut at: usize = 0;
    assert(events.skip(0) =~= events);
    while at < input.len()
        invariant
            events == reads(input@),
            0 <= at <= input.len(),
            stream_body(events) == seen + stream_body(events.skip(at as int)),
            stream_failure(events) == stream_failure(events.skip(at as int)),
            kept@ == persisted(seen),
            state.pending() == pending_after(seen.len()),
            state.written() == kept@.len(),
            state.origin() == origin@,
            state.started_at() == started_at@,
        ensures
            stream_body(events) == seen,
            stream_failure(events) is None,
            kept@ == persisted(seen),
            state.written() == kept@.len(),
            state.origin() == origin@,
            state.started_at() == started_at@,
        decreases input.len() - at,
    {
        assert(events.skip(at as int).skip(1) =~= events.skip(at + 1));
        match &input[at] {
            ReadEvent::Data(bytes) => {
                if bytes.len() == 0 {
                    break;
                }
                proof {
                    lemma_persisted_grows(seen, bytes@);
                }
                let part = state.payload(bytes.as_slice());
                kept.extend_from_slice(part);
                assert(kept@.len() <= usize::MAX) by {
                    assert(kept.len() == kept@.len());
                }
                state.advance(bytes.as_slice());
                proof {
                    seen = seen + bytes@;
                }
            },
            ReadEvent::Failed(description) => {
                return Intake { kept, outcome: Err(IoError::Failed(description.clone())) };
            },
        }
        at = at + 1;
    }
    Intake { kept, outcome: Ok(state.finish()) }
}

} // verus!
