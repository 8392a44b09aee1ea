//! Decisions of the stream adapter, which carries split-keyboard messages
//! over a byte stream through an inner frame codec. Reading, decoding and
//! writing happen around these functions; what to do with each result is
//! decided here.

use vstd::prelude::*;

verus! {

/// Errors that the stream adapter reports to its caller.
#[derive(Debug, Clone, Copy, PartialEq, Eq, Structural)]
pub enum SplitDriverError {
    /// The byte transport failed.
    SerialError,
    /// No whole message is available yet.
    EmptyMessage,
    /// A decoded payload is not a valid message.
    DeserializeError,
    /// A message could not be serialized or framed, or is too large.
    SerializeError,
}

/// Errors that the inner frame codec reports while decoding.
#[derive(Debug, Clone, Copy, PartialEq, Eq, Structural)]
pub enum CodecError {
    /// The incoming message is larger than the decoder's buffer.
    BufferTooSmall,
    /// The frame's checksum does not match.
    InvalidCrc,
    /// The frame's boundaries are malformed.
    InvalidFrame,
    /// The frame's priority field is invalid.
    InvalidPriority,
    /// The frame's payload is invalid.
    InvalidData,
}

impl CodecError {
    /// Whether reading on can get past the error: every decode error but a
    /// buffer too small for the message.
    pub open spec fn spec_is_recoverable(self) -> bool {
        !(self is BufferTooSmall)
    }

    /// Whether reading on can get past the error.
    pub fn is_recoverable(&self) -> (r: bool)
        ensures
            r == self.spec_is_recoverable(),
    {
        match self {
            CodecError::BufferTooSmall => false,
            _ => true,
        }
    }
}

/// What the read loop does after one read and one call into the decoder.
#[derive(Debug)]
pub enum ReadStep {
    /// A whole message payload is ready to be deserialized and returned.
    Deliver(Vec<u8>),
    /// Nothing to report yet: read again.
    ReadMore,
    /// Stop reading and report the error.
    Fail(SplitDriverError),
}

/// A decoder result over byte sequences: a payload, no payload yet, or an
/// error.
pub open spec fn outcome_view(outcome: Result<Option<Vec<u8>>, CodecError>) -> Result<
    Option<Seq<u8>>,
    CodecError,
> {
    match outcome {
        Ok(Some(m)) => Ok(Some(m@)),
        Ok(None) => Ok(None),
        Err(e) => Err(e),
    }
}

/// A read step over byte sequences: `Ok(Some(m))` delivers `m`, `Ok(None)`
/// reads again, `Err(e)` fails with `e`.
pub open spec fn step_view(step: ReadStep) -> Result<Option<Seq<u8>>, SplitDriverError> {
    match step {
        ReadStep::Deliver(m) => Ok(Some(m@)),
        ReadStep::ReadMore => Ok(None),
        ReadStep::Fail(e) => Err(e),
    }
}

/// The decision after a read of `bytes_read` bytes whose decoding gave
/// `outcome`. A payload is delivered. After a read that brought bytes, an
/// unfinished frame or a recoverable error means reading on, and a buffer
/// too small is a serialization error. An empty read only probes for a
/// message already buffered: without one, no message is available yet.
pub open spec fn decide(bytes_read: nat, outcome: Result<Option<Seq<u8>>, CodecError>) -> Result<
    Option<Seq<u8>>,
    SplitDriverError,
> {
    match outcome {
        Ok(Some(m)) => Ok(Some(m)),
        Ok(None) => if bytes_read == 0 {
            Err(SplitDriverError::EmptyMessage)
        } else {
            Ok(None)
        },
        Err(e) => if bytes_read == 0 {
            Err(SplitDriverError::EmptyMessage)
        } else if e.spec_is_recoverable() {
            Ok(None)
        } else {
            Err(SplitDriverError::SerializeError)
        },
    }
}

/// Decide what the read loop does after reading `bytes_read` bytes and
/// feeding them to the decoder, which gave `outcome`. With no bytes read,
/// the decoder is to have been probed with an empty slice.
pub fn next_read_step(bytes_read: usize, outcome: Result<Option<Vec<u8>>, CodecError>) -> (r:
    ReadStep)
    ensures
        step_view(r) == decide(bytes_read as nat, outcome_view(outcome)),
{
    match outcome {
        Ok(Some(m)) => ReadStep::Deliver(m),
        Ok(None) => if bytes_read == 0 {
            ReadStep::Fail(SplitDriverError::EmptyMessage)
        } else {
            ReadStep::ReadMore
        },
        Err(e) => if bytes_read == 0 {
            ReadStep::Fail(SplitDriverError::EmptyMessage)
        } else if e.is_recoverable() {
            ReadStep::ReadMore
        } else {
            ReadStep::Fail(SplitDriverError::SerializeError)
        },
    }
}

/// What a read loop reports after a run of reads, each with the number of
/// bytes read and the decoder's result: the first decision that is not to
/// read again, or `Ok(None)` while every read asks for more.
pub open spec fn run_reads(events: Seq<(nat, Result<Option<Seq<u8>>, CodecError>)>) -> Result<
    Option<Seq<u8>>,
    SplitDriverError,
>
    decreases events.len(),
{
    if events.len() == 0 {
        Ok(None)
    } else {
        let d = decide(events[0].0, events[0].1);
        if d == Ok::<Option<Seq<u8>>, SplitDriverError>(None) {
            run_reads(events.drop_first())
        } else {
            d
        }
    }
}

/// Whether a read brought bytes that the decoder rejected as corrupt or
/// took as part of an unfinished frame.
pub open spec fn is_passable(event: (nat, Result<Option<Seq<u8>>, CodecError>)) -> bool {
    &&& event.0 > 0
    &&& match event.1 {
        Ok(None) => true,
        Ok(Some(_)) => false,
        Err(e) => e.spec_is_recoverable(),
    }
}

/// Reads that bring corrupted or unfinished frames, followed by a read that
/// completes a valid frame, make the read loop report exactly that frame's
/// payload: corruption neither ends nor stalls the stream.
pub proof fn lemma_read_loop_recovers(
    corrupted: Seq<(nat, Result<Option<Seq<u8>>, CodecError>)>,
    bytes_read: nat,
    payload: Seq<u8>,
)
    requires
        forall|i: int| 0 <= i < corrupted.len() ==> is_passable(#[trigger] corrupted[i]),
    ensures
        run_reads(corrupted.push((bytes_read, Ok(Some(payload))))) == Ok::<
            Option<Seq<u8>>,
            SplitDriverError,
        >(Some(payload)),
    decreases corrupted.len(),
{
    let events = corrupted.push((bytes_read, Ok(Some(payload))));
    if corrupted.len() > 0 {
        assert(is_passable(corrupted[0]));
        assert(events[0] == corrupted[0]);
        assert(events.drop_first() =~= corrupted.drop_first().push((bytes_read, Ok(Some(payload)))));
        lemma_read_loop_recovers(corrupted.drop_first(), bytes_read, payload);
    } else {
        assert(events[0] == (bytes_read, Ok::<Option<Seq<u8>>, CodecError>(Some(payload))));
    }
}

/// Progress of writing one encoded frame to a transport that may accept
/// fewer bytes than offered.
pub struct WriteProgress {
    total: usize,
    remaining: usize,
}

impl WriteProgress {
    /// Bytes in the frame.
    pub closed spec fn spec_total(&self) -> nat {
        self.total as nat
    }

    /// Bytes not yet accepted by the transport.
    pub closed spec fn spec_remaining(&self) -> nat {
        self.remaining as nat
    }

    /// Never more left than the frame holds.
    pub open spec fn wf(&self) -> bool {
        self.spec_remaining() <= self.spec_total()
    }

    /// Start writing a frame of `total` bytes.
    pub fn new(total: usize) -> (r: Self)
        ensures
            r.wf(),
            r.spec_total() == total,
            r.spec_remaining() == total,
    {
        WriteProgress { total, remaining: total }
    }

    /// Where in the frame the next write starts.
    pub fn offset(&self) -> (r: usize)
        requires
            self.wf(),
        ensures
            r == self.spec_total() - self.spec_remaining(),
    {
        self.total - self.remaining
    }

    /// Whether the transport has accepted the whole frame.
    pub fn is_done(&self) -> (r: bool)
        ensures
            r == (self.spec_remaining() == 0),
    {
        self.remaining == 0
    }

    /// Record that the transport accepted `accepted` more bytes, which a
    /// transport never makes more than it was offered.
    pub fn record(&mut self, accepted: usize)
        requires
            old(self).wf(),
            accepted <= old(self).spec_remaining(),
        ensures
            final(self).wf(),
            final(self).spec_total() == old(self).spec_total(),
            final(self).spec_remaining() == old(self).spec_remaining() - accepted,
    {
        self.remaining = self.remaining - accepted;
    }

    /// Bytes written once the frame is done.
    pub fn written(&self) -> (r: usize)
        ensures
            r == self.spec_total(),
    {
        self.total
    }
}

} // verus!
