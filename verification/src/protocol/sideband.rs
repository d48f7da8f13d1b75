//! One raw visitor byte stream whose boundaries travel over a separate control stream.
//!
//! Data is read from and written to the transport as it is. At the end of a direction the writer
//! sends its byte count over the sideband. The reader returns the end of the stream only after
//! exactly that many bytes. Both peers acknowledge this before the transport may be used again.

use vstd::prelude::*;

use crate::big_endian::{
    be_bytes, be_value, from_be, law_be_bytes_of_value, law_be_round_trip, lemma_limits, to_be,
};
use crate::error::TransportError;
use crate::protocol::reusable::smaller;

verus! {

/// The length of a byte count on the sideband.
pub const SIDEBAND_COUNT_LENGTH: usize = 8;

/// The byte that acknowledges that both directions were consumed.
pub const SIDEBAND_ACK: u8 = 0xa5;

/// The reading direction: the count bytes seen so far, the boundary once they are complete, the
/// data bytes received, and whether the direction has ended.
#[verifier::ext_equal]
pub ghost struct BoundedReadView {
    pub count: Seq<u8>,
    pub limit: Option<nat>,
    pub received: nat,
    pub finished: bool,
}

/// The writing direction: the data bytes sent, the count bytes once they are fixed and how many of
/// them are out, and whether the direction has ended.
#[verifier::ext_equal]
pub ghost struct BoundedWriteView {
    pub sent: nat,
    pub count: Option<Seq<u8>>,
    pub offset: nat,
    pub finished: bool,
}

/// What a reader does next.
#[derive(Clone, Copy, Debug, PartialEq, Eq, Structural)]
pub enum SidebandReadStep {
    /// The read is complete.
    Return,
    /// Read at most this many count bytes from the sideband.
    Count(usize),
    /// Read at most this many data bytes from the transport.
    Payload(usize),
}

/// What a writer that ends its direction does next.
#[derive(Clone, Copy, Debug, PartialEq, Eq, Structural)]
pub enum SidebandShutdownStep {
    /// The direction has ended.
    Return,
    /// Write the rest of the count to the sideband.
    Count,
    /// Flush the sideband.
    Flush,
}

impl BoundedReadView {
    pub open spec fn start() -> BoundedReadView {
        BoundedReadView { count: seq![], limit: None, received: 0, finished: false }
    }

    pub open spec fn wf(self) -> bool {
        &&& self.count.len() <= SIDEBAND_COUNT_LENGTH
        &&& self.received <= u64::MAX
        &&& self.limit matches Some(limit) ==> {
            &&& self.received <= limit
            &&& self.count.len() == SIDEBAND_COUNT_LENGTH
            &&& limit == be_value(self.count)
        }
        &&& self.finished ==> self.limit == Some(self.received)
    }

    /// The boundary that a complete count sets; `None` where the count is too small for what was
    /// received already.
    pub open spec fn bounded(self) -> Option<BoundedReadView> {
        if self.limit is None && self.count.len() == SIDEBAND_COUNT_LENGTH {
            if be_value(self.count) < self.received {
                None
            } else {
                Some(BoundedReadView { limit: Some(be_value(self.count)), ..self })
            }
        } else {
            Some(self)
        }
    }

    /// How many bytes a read with `room` free bytes may ask for.
    pub open spec fn capacity(self, room: nat) -> nat {
        match self.limit {
            Some(limit) => smaller(room, (limit - self.received) as nat),
            None => room,
        }
    }
}

impl BoundedWriteView {
    pub open spec fn start() -> BoundedWriteView {
        BoundedWriteView { sent: 0, count: None, offset: 0, finished: false }
    }

    pub open spec fn wf(self) -> bool {
        &&& self.sent <= u64::MAX
        &&& self.offset <= SIDEBAND_COUNT_LENGTH
        &&& self.count is None ==> self.offset == 0
        &&& self.count matches Some(count) ==> count == be_bytes(self.sent, 8)
        &&& self.finished ==> self.count is Some && self.offset == SIDEBAND_COUNT_LENGTH
    }

    /// The state once the count is fixed.
    pub open spec fn counted(self) -> BoundedWriteView {
        if self.count is None {
            BoundedWriteView { count: Some(be_bytes(self.sent, 8)), ..self }
        } else {
            self
        }
    }

    /// The step that a writer takes to end its direction.
    pub open spec fn closing_step(self) -> SidebandShutdownStep {
        if self.offset < SIDEBAND_COUNT_LENGTH {
            SidebandShutdownStep::Count
        } else {
            SidebandShutdownStep::Flush
        }
    }
}

/// One visitor stream over the transport `inner`, with its boundaries on `sideband`.
pub struct SidebandTransportStream<S, C> {
    inner: S,
    sideband: C,
    bytes_read: u64,
    read_count: Vec<u8>,
    read_limit: Option<u64>,
    read_finished: bool,
    bytes_written: u64,
    write_count: Vec<u8>,
    write_count_offset: usize,
    write_count_started: bool,
    write_finished: bool,
}

impl<S, C> SidebandTransportStream<S, C> {
    /// The transport underneath.
    pub closed spec fn transport(self) -> S {
        self.inner
    }

    /// The stream that carries the counts.
    pub closed spec fn control(self) -> C {
        self.sideband
    }

    /// The reading direction.
    pub closed spec fn reader(self) -> BoundedReadView {
        BoundedReadView {
            count: self.read_count@,
            limit: match self.read_limit {
                Some(limit) => Some(limit as nat),
                None => None,
            },
            received: self.bytes_read as nat,
            finished: self.read_finished,
        }
    }

    /// The writing direction.
    pub closed spec fn writer(self) -> BoundedWriteView {
        BoundedWriteView {
            sent: self.bytes_written as nat,
            count: if self.write_count_started {
                Some(self.write_count@)
            } else {
                None
            },
            offset: self.write_count_offset as nat,
            finished: self.write_finished,
        }
    }

    pub open spec fn wf(self) -> bool {
        self.reader().wf() && self.writer().wf()
    }

    pub open spec fn same_streams(self, other: Self) -> bool {
        self.transport() == other.transport() && self.control() == other.control()
    }

    pub fn new(inner: S, sideband: C) -> (result: Self)
        ensures
            result.transport() == inner,
            result.control() == sideband,
            result.reader() == BoundedReadView::start(),
            result.writer() == BoundedWriteView::start(),
            result.wf(),
    {
        let result = SidebandTransportStream {
            inner,
            sideband,
            bytes_read: 0,
            read_count: Vec::new(),
            read_limit: None,
            read_finished: false,
            bytes_written: 0,
            write_count: Vec::new(),
            write_count_offset: 0,
            write_count_started: false,
            write_finished: false,
        };
        assert(result.reader() =~= BoundedReadView::start());
        result
    }

    /// The transport underneath, for the I/O that the stream asks for.
    pub fn inner_mut(&mut self) -> (result: &mut S)
        ensures
            *result == old(self).transport(),
            final(self).transport() == *final(result),
            final(self).control() == old(self).control(),
            final(self).reader() == old(self).reader(),
            final(self).writer() == old(self).writer(),
    {
        &mut self.inner
    }

    /// The stream that carries the counts, for the I/O that the stream asks for.
    pub fn sideband_mut(&mut self) -> (result: &mut C)
        ensures
            *result == old(self).control(),
            final(self).control() == *final(result),
            final(self).transport() == old(self).transport(),
            final(self).reader() == old(self).reader(),
            final(self).writer() == old(self).writer(),
    {
        &mut self.sideband
    }

    /// Whether both directions have ended.
    pub fn is_finished(&self) -> (result: bool)
        ensures
            result == (self.reader().finished && self.writer().finished),
    {
        self.read_finished && self.write_finished
    }

    /// The byte to send once both directions have ended. The peer answers with its own.
    pub fn finish(&self) -> (result: Result<u8, TransportError>)
        ensures
            result == if self.reader().finished && self.writer().finished {
                Ok::<u8, TransportError>(SIDEBAND_ACK)
            } else {
                Err(TransportError::PayloadUnfinished)
            },
    {
        if self.is_finished() {
            Ok(SIDEBAND_ACK)
        } else {
            Err(TransportError::PayloadUnfinished)
        }
    }

    /// What a read into a buffer with `room` free bytes does next. `count_pending` says that the
    /// sideband has nothing to read at the moment.
    pub fn next_read(&mut self, room: usize, count_pending: bool) -> (result: Result<
        SidebandReadStep,
        TransportError,
    >)
        requires
            old(self).wf(),
        ensures
            final(self).wf(),
            final(self).same_streams(*old(self)),
            final(self).writer() == old(self).writer(),
            ({
                let r = old(self).reader();
                let unchanged = final(self).reader() == r;
                if room == 0 || r.finished {
                    result == Ok::<SidebandReadStep, TransportError>(SidebandReadStep::Return)
                        && unchanged
                } else if r.limit is None && r.count.len() < SIDEBAND_COUNT_LENGTH
                    && !count_pending {
                    result == Ok::<SidebandReadStep, TransportError>(
                        SidebandReadStep::Count((SIDEBAND_COUNT_LENGTH - r.count.len()) as usize),
                    ) && unchanged
                } else {
                    match r.bounded() {
                        None => result == Err::<SidebandReadStep, TransportError>(
                            TransportError::CountTooSmall,
                        ) && unchanged,
                        Some(b) => if b.limit == Some(b.received) {
                            &&& result == Ok::<SidebandReadStep, TransportError>(
                                SidebandReadStep::Return,
                            )
                            &&& final(self).reader() == (BoundedReadView { finished: true, ..b })
                        } else {
                            &&& result == Ok::<SidebandReadStep, TransportError>(
                                SidebandReadStep::Payload(b.capacity(room as nat) as usize),
                            )
                            &&& final(self).reader() == b
                        },
                    }
                }
            }),
    {
        if room == 0 || self.read_finished {
            return Ok(SidebandReadStep::Return);
        }
        if self.read_limit.is_none() {
            if self.read_count.len() < SIDEBAND_COUNT_LENGTH {
                if !count_pending {
                    return Ok(
                        SidebandReadStep::Count(SIDEBAND_COUNT_LENGTH - self.read_count.len()),
                    );
                }
            } else {
                let limit = from_be(&self.read_count);
                if limit < self.bytes_read {
                    return Err(TransportError::CountTooSmall);
                }
                self.read_limit = Some(limit);
            }
        }
        let mut capacity: usize = room;
        if let Some(limit) = self.read_limit {
            if limit == self.bytes_read {
                self.read_finished = true;
                return Ok(SidebandReadStep::Return);
            }
            proof {
                lemma_limits();
                law_be_bytes_of_value(self.read_count@);
            }
            let left: u64 = limit - self.bytes_read;
            if left < room as u64 {
                capacity = left as usize;
            }
        }
        Ok(SidebandReadStep::Payload(capacity))
    }

    /// Takes the count bytes that were read. None at all means that the sideband closed.
    pub fn count_read(&mut self, bytes: &[u8]) -> (result: Result<(), TransportError>)
        requires
            old(self).wf(),
            old(self).reader().limit is None,
            old(self).reader().count.len() + bytes@.len() <= SIDEBAND_COUNT_LENGTH,
        ensures
            final(self).wf(),
            final(self).same_streams(*old(self)),
            final(self).writer() == old(self).writer(),
            final(self).reader() == (BoundedReadView {
                count: old(self).reader().count + bytes@,
                ..old(self).reader()
            }),
            result == if bytes@.len() == 0 {
                Err::<(), TransportError>(TransportError::SidebandClosed)
            } else {
                Ok(())
            },
    {
        let ghost before = self.read_count@;
        if bytes.len() == 0 {
            assert(before + bytes@ =~= before);
            return Err(TransportError::SidebandClosed);
        }
        self.read_count.extend_from_slice(bytes);
        assert(self.read_count@ =~= before + bytes@);
        Ok(())
    }

    /// Takes note of `read` data bytes that were read. None at all means that the transport closed.
    pub fn payload_read(&mut self, read: usize) -> (result: Result<(), TransportError>)
        requires
            old(self).wf(),
            !old(self).reader().finished,
            old(self).reader().limit matches Some(limit) ==> old(self).reader().received + read
                <= limit,
        ensures
            final(self).wf(),
            final(self).same_streams(*old(self)),
            final(self).writer() == old(self).writer(),
            ({
                let total = old(self).reader().received + read;
                &&& result == if read == 0 {
                    Err::<(), TransportError>(TransportError::ClosedBeforeBoundary)
                } else if total > u64::MAX {
                    Err(TransportError::CountOverflow)
                } else {
                    Ok(())
                }
                &&& final(self).reader() == if total > u64::MAX {
                    old(self).reader()
                } else {
                    BoundedReadView { received: total as nat, ..old(self).reader() }
                }
            }),
    {
        if read == 0 {
            return Err(TransportError::ClosedBeforeBoundary);
        }
        match self.bytes_read.checked_add(read as u64) {
            Some(total) => {
                self.bytes_read = total;
                Ok(())
            },
            None => Err(TransportError::CountOverflow),
        }
    }

    /// Whether data may still be written: not once the direction is ending.
    pub fn begin_write(&self) -> (result: Result<(), TransportError>)
        ensures
            result == if self.writer().count is Some {
                Err::<(), TransportError>(TransportError::SidebandFinished)
            } else {
                Ok(())
            },
    {
        if self.write_count_started {
            Err(TransportError::SidebandFinished)
        } else {
            Ok(())
        }
    }

    /// Takes note of `written` data bytes and returns their number.
    pub fn payload_written(&mut self, written: usize) -> (result: Result<usize, TransportError>)
        requires
            old(self).wf(),
            old(self).writer().count is None,
        ensures
            final(self).wf(),
            final(self).same_streams(*old(self)),
            final(self).reader() == old(self).reader(),
            ({
                let total = old(self).writer().sent + written;
                if total > u64::MAX {
                    &&& result == Err::<usize, TransportError>(TransportError::CountOverflow)
                    &&& final(self).writer() == old(self).writer()
                } else {
                    &&& result == Ok::<usize, TransportError>(written)
                    &&& final(self).writer() == (BoundedWriteView {
                        sent: total as nat,
                        ..old(self).writer()
                    })
                }
            }),
    {
        match self.bytes_written.checked_add(written as u64) {
            Some(total) => {
                self.bytes_written = total;
                Ok(written)
            },
            None => Err(TransportError::CountOverflow),
        }
    }

    /// What the end of the writing direction takes first. It fixes the count.
    pub fn begin_shutdown(&mut self) -> (result: SidebandShutdownStep)
        requires
            old(self).wf(),
        ensures
            final(self).wf(),
            final(self).same_streams(*old(self)),
            final(self).reader() == old(self).reader(),
            final(self).writer() == old(self).writer().counted(),
            result == if old(self).writer().finished {
                SidebandShutdownStep::Return
            } else {
                old(self).writer().closing_step()
            },
    {
        if self.write_finished {
            return SidebandShutdownStep::Return;
        }
        if !self.write_count_started {
            self.write_count = to_be(self.bytes_written, SIDEBAND_COUNT_LENGTH);
            self.write_count_started = true;
        }
        self.next_shutdown()
    }

    /// What the end of the writing direction takes next.
    pub fn next_shutdown(&self) -> (result: SidebandShutdownStep)
        ensures
            result == self.writer().closing_step(),
    {
        if self.write_count_offset < SIDEBAND_COUNT_LENGTH {
            SidebandShutdownStep::Count
        } else {
            SidebandShutdownStep::Flush
        }
    }

    /// The count bytes that are still to be written.
    pub fn count_to_write(&self) -> (result: Vec<u8>)
        requires
            self.wf(),
            self.writer().count is Some,
        ensures
            result@ == be_bytes(self.writer().sent, 8).skip(self.writer().offset as int),
    {
        proof {
            law_be_round_trip(self.writer().sent, 8);
        }
        let mut result: Vec<u8> = Vec::new();
        let mut i: usize = self.write_count_offset;
        while i < self.write_count.len()
            invariant
                self.write_count_offset <= i <= self.write_count@.len(),
                result@ == self.write_count@.subrange(self.write_count_offset as int, i as int),
            decreases self.write_count@.len() - i,
        {
            result.push(self.write_count[i]);
            i += 1;
        }
        assert(result@ =~= self.write_count@.skip(self.write_count_offset as int));
        result
    }

    /// Takes note of `written` count bytes.
    pub fn count_written(&mut self, written: usize) -> (result: Result<(), TransportError>)
        requires
            old(self).wf(),
            old(self).writer().count is Some,
            old(self).writer().offset + written <= SIDEBAND_COUNT_LENGTH,
        ensures
            final(self).wf(),
            final(self).same_streams(*old(self)),
            final(self).reader() == old(self).reader(),
            final(self).writer() == (BoundedWriteView {
                offset: (old(self).writer().offset + written) as nat,
                ..old(self).writer()
            }),
            result == if written == 0 {
                Err::<(), TransportError>(TransportError::CountNotWritten)
            } else {
                Ok(())
            },
    {
        if written == 0 {
            return Err(TransportError::CountNotWritten);
        }
        self.write_count_offset = self.write_count_offset + written;
        Ok(())
    }

    /// Takes note that the count was flushed: the writing direction has ended.
    pub fn flushed(&mut self)
        requires
            old(self).wf(),
            old(self).writer().count is Some,
            old(self).writer().closing_step() == SidebandShutdownStep::Flush,
        ensures
            final(self).wf(),
            final(self).same_streams(*old(self)),
            final(self).reader() == old(self).reader(),
            final(self).writer() == (BoundedWriteView { finished: true, ..old(self).writer() }),
    {
        self.write_finished = true;
    }
}

/// Checks the byte that the peer answered an acknowledgement with.
pub fn check_acknowledgement(acknowledgement: u8) -> (result: Result<(), TransportError>)
    ensures
        result == if acknowledgement == SIDEBAND_ACK {
            Ok::<(), TransportError>(())
        } else {
            Err(TransportError::InvalidAcknowledgement)
        },
{
    if acknowledgement != SIDEBAND_ACK {
        return Err(TransportError::InvalidAcknowledgement);
    }
    Ok(())
}

/// The count that a writer sends sets the reader's boundary to exactly the bytes that the writer
/// sent; a reader that has received more than that fails.
pub proof fn law_count_sets_the_boundary(writer: BoundedWriteView, reader: BoundedReadView)
    requires
        writer.wf(),
        reader.wf(),
        reader.limit is None,
        writer.count == Some(reader.count),
    ensures
        reader.bounded() is Some <==> reader.received <= writer.sent,
        reader.bounded() matches Some(after) ==> after.limit == Some(writer.sent),
{
    lemma_limits();
    law_be_round_trip(writer.sent, 8);
}

/// A reader whose direction has ended, on the count that the writer sent, has received exactly as
/// many bytes as the writer sent.
pub proof fn law_end_only_at_the_boundary(writer: BoundedWriteView, reader: BoundedReadView)
    requires
        writer.wf(),
        reader.wf(),
        reader.finished,
        writer.count == Some(reader.count),
    ensures
        reader.received == writer.sent,
{
    lemma_limits();
    law_be_round_trip(writer.sent, 8);
}

/// A read never asks for bytes beyond the boundary.
pub proof fn law_reads_stay_inside_the_boundary(reader: BoundedReadView, room: nat)
    requires
        reader.wf(),
    ensures
        reader.limit matches Some(limit) ==> reader.received + reader.capacity(room) <= limit,
        reader.capacity(room) <= room,
{
}

/// What a reader does, as the transport and the sideband see it.
pub ghost enum ReadMove {
    /// Take these count bytes from the sideband.
    Count(Seq<u8>),
    /// Take these data bytes from the transport.
    Payload(Seq<u8>),
    /// Set the boundary once the count is complete, and end at the boundary.
    Bound,
}

/// A reader after some moves.
#[verifier::ext_equal]
pub ghost struct Taken {
    pub reader: BoundedReadView,
    /// All data bytes that it took.
    pub data: Seq<u8>,
}

/// What a sequence of moves amounts to, or `None` where one of them is not allowed.
pub open spec fn taken(moves: Seq<ReadMove>) -> Option<Taken>
    decreases moves.len(),
{
    if moves.len() == 0 {
        Some(Taken { reader: BoundedReadView::start(), data: seq![] })
    } else {
        match taken(moves.drop_last()) {
            None => None,
            Some(before) => {
                let r = before.reader;
                match moves.last() {
                    ReadMove::Count(bytes) => if r.limit is None && r.count.len() + bytes.len()
                        <= SIDEBAND_COUNT_LENGTH {
                        Some(
                            Taken {
                                reader: BoundedReadView { count: r.count + bytes, ..r },
                                ..before
                            },
                        )
                    } else {
                        None
                    },
                    ReadMove::Payload(bytes) => if !r.finished && r.received + bytes.len()
                        <= u64::MAX && (r.limit matches Some(limit) ==> r.received + bytes.len()
                        <= limit) {
                        Some(
                            Taken {
                                reader: BoundedReadView {
                                    received: r.received + bytes.len(),
                                    ..r
                                },
                                data: before.data + bytes,
                            },
                        )
                    } else {
                        None
                    },
                    ReadMove::Bound => match r.bounded() {
                        None => None,
                        Some(b) => Some(
                            Taken {
                                reader: BoundedReadView {
                                    finished: b.limit == Some(b.received),
                                    ..b
                                },
                                ..before
                            },
                        ),
                    },
                }
            },
        }
    }
}

proof fn lemma_taken(moves: Seq<ReadMove>)
    ensures
        taken(moves) matches Some(state) ==> {
            &&& state.reader.wf()
            &&& state.data.len() == state.reader.received
        },
    decreases moves.len(),
{
    if moves.len() > 0 {
        lemma_taken(moves.drop_last());
    }
}

/// However the reads are cut, and whenever the count arrives: a reader that ends on the count of
/// what was sent has taken exactly that from the transport, and what follows there is left for
/// the next stream.
pub proof fn law_reader_takes_exactly_what_was_sent(
    moves: Seq<ReadMove>,
    sent: Seq<u8>,
    rest: Seq<u8>,
)
    requires
        sent.len() <= u64::MAX,
    ensures
        taken(moves) matches Some(state) ==> state.reader.finished && state.reader.count
            == be_bytes(sent.len(), 8) && state.data.is_prefix_of(sent + rest) ==> state.data
            == sent,
{
    lemma_taken(moves);
    lemma_limits();
    law_be_round_trip(sent.len(), 8);
    if let Some(state) = taken(moves) {
        if state.reader.finished && state.reader.count == be_bytes(sent.len(), 8)
            && state.data.is_prefix_of(sent + rest) {
            assert(state.data.len() == sent.len());
            assert(state.data =~= sent);
        }
    }
}

/// Before the count is complete, a read asks the sideband for what is missing of eight bytes, and
/// where nothing is there it asks the transport for as much data as there is room for. A read
/// without room, or after the end, is complete.
pub proof fn law_reads_before_the_count<S, C>(
    stream: &mut SidebandTransportStream<S, C>,
    room: usize,
    pending: bool,
    result: Result<SidebandReadStep, TransportError>,
)
    requires
        old(stream).wf(),
        old(stream).reader().count.len() < 8,
        call_ensures(SidebandTransportStream::<S, C>::next_read, (stream, room, pending), result),
    ensures
        result matches Ok(step) && {
            &&& room == 0 ==> step is Return
            &&& room > 0 && pending ==> step == SidebandReadStep::Payload(room)
            &&& room > 0 && !pending ==> (step matches SidebandReadStep::Count(n) && n
                + old(stream).reader().count.len() == 8)
        },
        final(stream).reader() == old(stream).reader(),
        final(stream).writer() == old(stream).writer(),
{
}

/// Once eight count bytes are there, they say, the highest first, how many data bytes there are. A
/// stream that has received more fails. One that has received as many has ended; any other asks for
/// as much as there is room for and is missing, whether or not the sideband has more to say.
pub proof fn law_reads_after_the_count<S, C>(
    stream: &mut SidebandTransportStream<S, C>,
    room: usize,
    pending: bool,
    result: Result<SidebandReadStep, TransportError>,
    total: u64,
)
    requires
        old(stream).wf(),
        old(stream).reader().count == be_bytes(total as nat, 8),
        room > 0,
        call_ensures(SidebandTransportStream::<S, C>::next_read, (stream, room, pending), result),
    ensures
        ({
            let received = old(stream).reader().received;
            &&& received > total ==> result == Err::<SidebandReadStep, TransportError>(
                TransportError::CountTooSmall,
            )
            &&& received == total ==> result == Ok::<SidebandReadStep, TransportError>(
                SidebandReadStep::Return,
            ) && final(stream).reader().finished
            &&& received < total ==> !final(stream).reader().finished && (result matches Ok(
                SidebandReadStep::Payload(n),
            ) && {
                &&& 0 < n <= room
                &&& received + n <= total
                &&& n == room || received + n == total
            })
        }),
        final(stream).reader().received == old(stream).reader().received,
        final(stream).reader().count == old(stream).reader().count,
        final(stream).writer() == old(stream).writer(),
{
    lemma_limits();
    law_be_round_trip(total as nat, 8);
}

/// Count bytes are kept in the order they come in, and data bytes are counted. Where none come,
/// the sideband or the transport has closed.
pub proof fn law_received_bytes_are_counted<S, C>(
    stream: &mut SidebandTransportStream<S, C>,
    bytes: &[u8],
    count: Result<(), TransportError>,
    other: &mut SidebandTransportStream<S, C>,
    read: usize,
    data: Result<(), TransportError>,
)
    requires
        old(stream).wf(),
        old(stream).reader().limit is None,
        old(stream).reader().count.len() + bytes@.len() <= 8,
        call_ensures(SidebandTransportStream::<S, C>::count_read, (stream, bytes), count),
        old(other).wf(),
        !old(other).reader().finished,
        old(other).reader().limit matches Some(limit) ==> old(other).reader().received + read
            <= limit,
        call_ensures(SidebandTransportStream::<S, C>::payload_read, (other, read), data),
    ensures
        count is Ok <==> bytes@.len() > 0,
        count matches Err(error) ==> error == TransportError::SidebandClosed,
        final(stream).reader().count == old(stream).reader().count + bytes@,
        final(stream).reader().received == old(stream).reader().received,
        read == 0 ==> data == Err::<(), TransportError>(TransportError::ClosedBeforeBoundary),
        read > 0 && old(other).reader().received + read > 0xffff_ffff_ffff_ffff ==> data == Err::<
            (),
            TransportError,
        >(TransportError::CountOverflow),
        read > 0 && old(other).reader().received + read <= 0xffff_ffff_ffff_ffff ==> data is Ok
            && final(other).reader().received == old(other).reader().received + read,
        data is Err ==> final(other).reader() == old(other).reader(),
        final(other).reader().count == old(other).reader().count,
{
}

/// Data that was written is counted until the direction ends. The end fixes the count of all that
/// was written, in eight bytes, and no data goes out after it.
pub proof fn law_end_sends_the_count<S, C>(
    stream: &mut SidebandTransportStream<S, C>,
    written: usize,
    result: Result<usize, TransportError>,
    ending: &mut SidebandTransportStream<S, C>,
    step: SidebandShutdownStep,
    ended: &SidebandTransportStream<S, C>,
    count: Vec<u8>,
    before: Result<(), TransportError>,
    after: Result<(), TransportError>,
)
    requires
        old(stream).wf(),
        old(stream).writer().count is None,
        call_ensures(SidebandTransportStream::<S, C>::payload_written, (stream, written), result),
        *old(ending) == *final(stream),
        call_ensures(SidebandTransportStream::<S, C>::begin_write, (&*old(ending),), before),
        call_ensures(SidebandTransportStream::<S, C>::begin_shutdown, (ending,), step),
        *ended == *final(ending),
        call_ensures(SidebandTransportStream::<S, C>::count_to_write, (ended,), count),
        call_ensures(SidebandTransportStream::<S, C>::begin_write, (ended,), after),
    ensures
        before is Ok,
        after == Err::<(), TransportError>(TransportError::SidebandFinished),
        step is Count,
        count@.len() == 8,
        be_value(count@) == final(ending).writer().sent,
        old(stream).writer().sent + written <= 0xffff_ffff_ffff_ffff ==> result == Ok::<
            usize,
            TransportError,
        >(written) && be_value(count@) == old(stream).writer().sent + written,
        old(stream).writer().sent + written > 0xffff_ffff_ffff_ffff ==> result == Err::<
            usize,
            TransportError,
        >(TransportError::CountOverflow) && be_value(count@) == old(stream).writer().sent,
{
    lemma_limits();
    let sent = final(ending).writer().sent;
    law_be_round_trip(sent, 8);
    assert(be_bytes(sent, 8).skip(0) =~= be_bytes(sent, 8));
}

/// Count bytes that were written are not written again. Once all eight are out the sideband is
/// flushed, and then the direction has ended.
pub proof fn law_count_goes_out_once<S, C>(
    stream: &mut SidebandTransportStream<S, C>,
    written: usize,
    result: Result<(), TransportError>,
    before: &SidebandTransportStream<S, C>,
    count: Vec<u8>,
    after: &SidebandTransportStream<S, C>,
    left: Vec<u8>,
    step: SidebandShutdownStep,
    last: &mut SidebandTransportStream<S, C>,
    again: &mut SidebandTransportStream<S, C>,
    end: SidebandShutdownStep,
)
    requires
        old(stream).wf(),
        old(stream).writer().count is Some,
        *before == *old(stream),
        call_ensures(SidebandTransportStream::<S, C>::count_to_write, (before,), count),
        written <= count@.len(),
        call_ensures(SidebandTransportStream::<S, C>::count_written, (stream, written), result),
        *after == *final(stream),
        call_ensures(SidebandTransportStream::<S, C>::count_to_write, (after,), left),
        call_ensures(SidebandTransportStream::<S, C>::next_shutdown, (after,), step),
        *old(last) == *final(stream),
        call_ensures(SidebandTransportStream::<S, C>::flushed, (last,), ()),
        *old(again) == *final(last),
        call_ensures(SidebandTransportStream::<S, C>::begin_shutdown, (again,), end),
    ensures
        written == 0 ==> result == Err::<(), TransportError>(TransportError::CountNotWritten),
        written > 0 ==> result is Ok,
        left@ == count@.skip(written as int),
        left@.len() > 0 ==> step is Count,
        left@.len() == 0 ==> step is Flush && final(last).writer().finished && end is Return,
        final(last).reader() == old(stream).reader(),
{
    let sent = old(stream).writer().sent;
    law_be_round_trip(sent, 8);
    assert(left@ =~= count@.skip(written as int));
}

/// A stream is finished once both directions have ended. It is then acknowledged with the byte
/// that the peer's own acknowledgement is to be, and any other byte is refused.
pub proof fn law_both_ends_are_acknowledged<S, C>(
    stream: &SidebandTransportStream<S, C>,
    finished: bool,
    sent: Result<u8, TransportError>,
    received: u8,
    checked: Result<(), TransportError>,
    inner: S,
    sideband: C,
    fresh: SidebandTransportStream<S, C>,
)
    requires
        call_ensures(SidebandTransportStream::<S, C>::is_finished, (stream,), finished),
        call_ensures(SidebandTransportStream::<S, C>::finish, (stream,), sent),
        call_ensures(check_acknowledgement, (received,), checked),
        call_ensures(SidebandTransportStream::<S, C>::new, (inner, sideband), fresh),
    ensures
        finished == (stream.reader().finished && stream.writer().finished),
        finished ==> sent == Ok::<u8, TransportError>(0xa5),
        !finished ==> sent == Err::<u8, TransportError>(TransportError::PayloadUnfinished),
        checked is Ok <==> received == 0xa5,
        checked matches Err(error) ==> error == TransportError::InvalidAcknowledgement,
        fresh.transport() == inner && fresh.control() == sideband,
        !fresh.reader().finished && !fresh.writer().finished,
        fresh.reader().count.len() == 0 && fresh.reader().received == 0,
        fresh.writer().sent == 0 && fresh.writer().count is None,
{
}

} // verus!
