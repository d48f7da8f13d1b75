//! One framed visitor byte stream over a reusable data transport.
//!
//! Each direction consists of 4-byte big-endian lengths followed by data. A zero length ends that
//! direction without shutting down the underlying transport, so that another visitor stream can
//! use it afterwards.
//!
//! The stream decides what to read or write next; the owner of the transport does the I/O and
//! reports how many bytes moved.

use vstd::prelude::*;

use crate::big_endian::{
    be_bytes, be_value, from_be, law_be_bytes_of_value, law_be_round_trip, law_four_bytes, lemma_limits,
    to_be,
};
use crate::error::TransportError;

verus! {

/// The length of a frame header.
pub const TCP_DATA_FRAME_HEADER_LENGTH: usize = 4;

/// The largest number of data bytes in one frame.
pub const TCP_DATA_MAX_FRAME_LENGTH: usize = 65536;

/// The reading direction: the header bytes seen so far, the data bytes left in the current frame,
/// and whether the direction has ended.
#[verifier::ext_equal]
pub ghost struct ReadView {
    pub header: Seq<u8>,
    pub remaining: nat,
    pub finished: bool,
}

/// The writing direction: the current frame header and how much of it is out, the data bytes that
/// the current frame still owes, whether the terminating header was started, and whether the
/// direction has ended.
#[verifier::ext_equal]
pub ghost struct WriteView {
    pub header: Seq<u8>,
    pub offset: nat,
    pub remaining: nat,
    pub ending: bool,
    pub finished: bool,
}

/// What a reader does next.
#[derive(Clone, Copy, Debug, PartialEq, Eq, Structural)]
pub enum ReadStep {
    /// The read is complete.
    Return,
    /// Read at most this many data bytes into the caller's buffer.
    Payload(usize),
    /// Read at most this many header bytes.
    Header(usize),
}

/// What a writer does next.
#[derive(Clone, Copy, Debug, PartialEq, Eq, Structural)]
pub enum WriteStep {
    /// The write is complete: this many bytes were taken.
    Return(usize),
    /// Write the whole header and, with it, this many bytes of the caller's buffer.
    Frame(usize),
    /// Write the rest of the header.
    Header,
    /// Write at most this many bytes of the caller's buffer.
    Payload(usize),
    /// The write fails.
    Fail(TransportError),
}

/// What a writer that ends its direction does next.
#[derive(Clone, Copy, Debug, PartialEq, Eq, Structural)]
pub enum ShutdownStep {
    /// The direction has ended.
    Return,
    /// Write the rest of the terminating header.
    Header,
    /// Flush the transport.
    Flush,
    /// The direction cannot end.
    Fail(TransportError),
}

pub open spec fn smaller(a: nat, b: nat) -> nat {
    if a <= b {
        a
    } else {
        b
    }
}

impl ReadView {
    /// Nothing read yet.
    pub open spec fn start() -> ReadView {
        ReadView { header: seq![], remaining: 0, finished: false }
    }

    pub open spec fn wf(self) -> bool {
        &&& self.header.len() < TCP_DATA_FRAME_HEADER_LENGTH
        &&& self.remaining <= TCP_DATA_MAX_FRAME_LENGTH
        &&& self.remaining > 0 ==> self.header.len() == 0
        &&& self.finished ==> self.remaining == 0 && self.header.len() == 0
    }

    /// The state after a complete frame header, or `None` for a frame that is too large.
    pub open spec fn framed(self, header: Seq<u8>) -> Option<ReadView> {
        let length = be_value(header);
        if length == 0 {
            Some(ReadView { header: seq![], remaining: 0, finished: true })
        } else if length > TCP_DATA_MAX_FRAME_LENGTH {
            None
        } else {
            Some(ReadView { header: seq![], remaining: length, finished: false })
        }
    }

    /// The state after more header bytes, or `None` for a frame that is too large.
    pub open spec fn with_header(self, bytes: Seq<u8>) -> Option<ReadView> {
        let header = self.header + bytes;
        if header.len() < TCP_DATA_FRAME_HEADER_LENGTH {
            Some(ReadView { header, ..self })
        } else {
            self.framed(header)
        }
    }

    /// The state after `n` data bytes.
    pub open spec fn with_payload(self, n: nat) -> ReadView {
        ReadView { remaining: (self.remaining - n) as nat, ..self }
    }
}

/// What a reader in state `reader` makes of the bytes `wire`: the state after them and the data
/// among them. `None` where a frame is too large, or where bytes follow the end of the direction:
/// a reader takes none of those.
pub open spec fn decode(reader: ReadView, wire: Seq<u8>) -> Option<(ReadView, Seq<u8>)>
    decreases wire.len(),
{
    if wire.len() == 0 {
        Some((reader, seq![]))
    } else if reader.finished {
        None
    } else if reader.remaining > 0 {
        match decode(reader.with_payload(1), wire.drop_first()) {
            Some((after, data)) => Some((after, seq![wire[0]] + data)),
            None => None,
        }
    } else {
        match reader.with_header(seq![wire[0]]) {
            Some(next) => decode(next, wire.drop_first()),
            None => None,
        }
    }
}

impl WriteView {
    /// Nothing written yet.
    pub open spec fn start() -> WriteView {
        WriteView {
            header: be_bytes(0, 4),
            offset: TCP_DATA_FRAME_HEADER_LENGTH as nat,
            remaining: 0,
            ending: false,
            finished: false,
        }
    }

    pub open spec fn wf(self) -> bool {
        &&& self.header.len() == TCP_DATA_FRAME_HEADER_LENGTH
        &&& self.offset <= TCP_DATA_FRAME_HEADER_LENGTH
        &&& self.remaining <= TCP_DATA_MAX_FRAME_LENGTH
        &&& self.offset < TCP_DATA_FRAME_HEADER_LENGTH ==> be_value(self.header) == self.remaining
        &&& self.offset < TCP_DATA_FRAME_HEADER_LENGTH && self.remaining == 0 ==> self.ending
        &&& self.ending ==> self.remaining == 0
        &&& self.finished ==> self.ending && self.offset == TCP_DATA_FRAME_HEADER_LENGTH
    }

    /// The state after the start of a frame of `length` data bytes; a length of zero starts the
    /// terminating header.
    pub open spec fn started(self, length: nat) -> WriteView {
        WriteView {
            header: be_bytes(length, 4),
            offset: 0,
            remaining: length,
            ending: length == 0,
            ..self
        }
    }

    /// The state after `h` more header bytes and `p` more data bytes.
    pub open spec fn sent(self, h: nat, p: nat) -> WriteView {
        WriteView {
            offset: self.offset + h,
            remaining: (self.remaining - p) as nat,
            ..self
        }
    }

    /// Whether `h` header bytes and `p` data bytes can be the next to leave.
    pub open spec fn may_send(self, h: nat, p: nat) -> bool {
        &&& self.offset + h <= TCP_DATA_FRAME_HEADER_LENGTH
        &&& p <= self.remaining
        &&& p > 0 ==> self.offset + h == TCP_DATA_FRAME_HEADER_LENGTH
    }

    /// The header bytes that leave when `h` more of them are written.
    pub open spec fn next_header(self, h: nat) -> Seq<u8> {
        self.header.subrange(self.offset as int, self.offset as int + h)
    }

    /// The step that a writer with `length` bytes at hand takes inside a frame.
    pub open spec fn step(self, length: nat) -> WriteStep {
        if self.offset < TCP_DATA_FRAME_HEADER_LENGTH {
            WriteStep::Header
        } else {
            WriteStep::Payload(smaller(length, self.remaining) as usize)
        }
    }

    /// Whether a frame, or the terminating header, can be started: nothing is left of the last
    /// frame, and the direction is not ending.
    pub open spec fn may_start(self) -> bool {
        !self.ending && self.remaining == 0
    }

    /// The step that a writer takes to end its direction.
    pub open spec fn closing_step(self) -> ShutdownStep {
        if self.offset < TCP_DATA_FRAME_HEADER_LENGTH {
            ShutdownStep::Header
        } else {
            ShutdownStep::Flush
        }
    }
}

/// One visitor stream over the transport `inner`.
pub struct ReusableTransportStream<S> {
    inner: S,
    read_header: Vec<u8>,
    read_remaining: usize,
    read_finished: bool,
    write_header: Vec<u8>,
    write_header_offset: usize,
    write_remaining: usize,
    write_ending: bool,
    write_finished: bool,
}

impl<S> ReusableTransportStream<S> {
    /// The transport underneath.
    pub closed spec fn transport(self) -> S {
        self.inner
    }

    /// The reading direction.
    pub closed spec fn reader(self) -> ReadView {
        ReadView {
            header: self.read_header@,
            remaining: self.read_remaining as nat,
            finished: self.read_finished,
        }
    }

    /// The writing direction.
    pub closed spec fn writer(self) -> WriteView {
        WriteView {
            header: self.write_header@,
            offset: self.write_header_offset as nat,
            remaining: self.write_remaining as nat,
            ending: self.write_ending,
            finished: self.write_finished,
        }
    }

    pub open spec fn wf(self) -> bool {
        self.reader().wf() && self.writer().wf()
    }

    pub fn new(inner: S) -> (result: Self)
        ensures
            result.transport() == inner,
            result.reader() == ReadView::start(),
            result.writer() == WriteView::start(),
            result.wf(),
    {
        proof {
            lemma_limits();
            law_be_round_trip(0, 4);
        }
        let result = ReusableTransportStream {
            inner,
            read_header: Vec::new(),
            read_remaining: 0,
            read_finished: false,
            write_header: to_be(0, TCP_DATA_FRAME_HEADER_LENGTH),
            write_header_offset: TCP_DATA_FRAME_HEADER_LENGTH,
            write_remaining: 0,
            write_ending: false,
            write_finished: false,
        };
        assert(result.reader() =~= ReadView::start());
        result
    }

    /// The transport underneath, for the I/O that the stream asks for.
    pub fn inner_mut(&mut self) -> (result: &mut S)
        ensures
            *result == old(self).transport(),
            final(self).transport() == *final(result),
            final(self).reader() == old(self).reader(),
            final(self).writer() == old(self).writer(),
    {
        &mut self.inner
    }

    /// Whether both directions have ended, so that another stream can use the transport.
    pub fn is_finished(&self) -> (result: bool)
        ensures
            result == (self.reader().finished && self.writer().finished && self.writer().remaining
                == 0),
    {
        self.read_finished && self.write_finished && self.write_remaining == 0
    }

    /// What a read into a buffer with `room` free bytes does next.
    pub fn next_read(&self, room: usize) -> (result: ReadStep)
        requires
            self.wf(),
        ensures
            result == if room == 0 || self.reader().finished {
                ReadStep::Return
            } else if self.reader().remaining > 0 {
                ReadStep::Payload(smaller(room as nat, self.reader().remaining) as usize)
            } else {
                ReadStep::Header(
                    (TCP_DATA_FRAME_HEADER_LENGTH - self.reader().header.len()) as usize,
                )
            },
    {
        if room == 0 || self.read_finished {
            ReadStep::Return
        } else if self.read_remaining > 0 {
            let capacity = if room <= self.read_remaining {
                room
            } else {
                self.read_remaining
            };
            ReadStep::Payload(capacity)
        } else {
            ReadStep::Header(TCP_DATA_FRAME_HEADER_LENGTH - self.read_header.len())
        }
    }

    /// Takes note of `read` data bytes that were read. None at all means that the transport closed.
    pub fn payload_read(&mut self, read: usize) -> (result: Result<(), TransportError>)
        requires
            old(self).wf(),
            read <= old(self).reader().remaining,
        ensures
            final(self).wf(),
            final(self).transport() == old(self).transport(),
            final(self).writer() == old(self).writer(),
            final(self).reader() == old(self).reader().with_payload(read as nat),
            result == if read == 0 {
                Err::<(), TransportError>(TransportError::ClosedDuringFrame)
            } else {
                Ok(())
            },
    {
        if read == 0 {
            return Err(TransportError::ClosedDuringFrame);
        }
        self.read_remaining = self.read_remaining - read;
        Ok(())
    }

    /// Takes the header bytes that were read. None at all means that the transport closed.
    pub fn header_read(&mut self, bytes: &[u8]) -> (result: Result<(), TransportError>)
        requires
            old(self).wf(),
            !old(self).reader().finished,
            old(self).reader().remaining == 0,
            old(self).reader().header.len() + bytes@.len() <= TCP_DATA_FRAME_HEADER_LENGTH,
        ensures
            final(self).wf(),
            final(self).transport() == old(self).transport(),
            final(self).writer() == old(self).writer(),
            match old(self).reader().with_header(bytes@) {
                Some(next) => {
                    &&& final(self).reader() == next
                    &&& result == if bytes@.len() == 0 {
                        Err::<(), TransportError>(TransportError::ClosedBeforeHeader)
                    } else {
                        Ok(())
                    }
                },
                None => {
                    &&& final(self).reader() == ReadView::start()
                    &&& result == Err::<(), TransportError>(TransportError::FrameTooLarge)
                },
            },
    {
        let ghost before = self.reader();
        if bytes.len() == 0 {
            assert(before.header + bytes@ =~= before.header);
            assert(before.with_header(bytes@) == Some(before));
            return Err(TransportError::ClosedBeforeHeader);
        }
        self.read_header.extend_from_slice(bytes);
        assert(self.read_header@ =~= before.header + bytes@);
        if self.read_header.len() < TCP_DATA_FRAME_HEADER_LENGTH {
            return Ok(());
        }
        let length = from_be(&self.read_header);
        proof {
            lemma_limits();
            law_be_bytes_of_value(self.read_header@);
        }
        self.read_header = Vec::new();
        assert(self.read_header@ =~= Seq::<u8>::empty());
        if length == 0 {
            self.read_finished = true;
            return Ok(());
        }
        if length > TCP_DATA_MAX_FRAME_LENGTH as u64 {
            return Err(TransportError::FrameTooLarge);
        }
        self.read_remaining = length as usize;
        Ok(())
    }

    /// What a write of `length` bytes does first. Outside a frame it starts one. Once the direction
    /// has ended, every write fails; while it is ending, only a write of nothing succeeds.
    pub fn begin_write(&mut self, length: usize) -> (result: WriteStep)
        requires
            old(self).wf(),
        ensures
            final(self).wf(),
            final(self).transport() == old(self).transport(),
            final(self).reader() == old(self).reader(),
            ({
                let w = old(self).writer();
                let n = smaller(length as nat, TCP_DATA_MAX_FRAME_LENGTH as nat);
                if w.finished {
                    &&& result == WriteStep::Fail(TransportError::StreamFinished)
                    &&& final(self).writer() == w
                } else if length == 0 {
                    &&& result == WriteStep::Return(0)
                    &&& final(self).writer() == w
                } else if w.ending {
                    &&& result == WriteStep::Fail(TransportError::StreamFinished)
                    &&& final(self).writer() == w
                } else if w.remaining == 0 {
                    &&& result == WriteStep::Frame(n as usize)
                    &&& final(self).writer() == w.started(n)
                } else {
                    &&& result == w.step(length as nat)
                    &&& final(self).writer() == w
                }
            }),
    {
        if self.write_finished {
            return WriteStep::Fail(TransportError::StreamFinished);
        }
        if length == 0 {
            return WriteStep::Return(0);
        }
        if self.write_ending {
            return WriteStep::Fail(TransportError::StreamFinished);
        }
        if self.write_remaining == 0 {
            let frame = if length <= TCP_DATA_MAX_FRAME_LENGTH {
                length
            } else {
                TCP_DATA_MAX_FRAME_LENGTH
            };
            proof {
                lemma_limits();
                law_be_round_trip(frame as nat, 4);
            }
            self.write_header = to_be(frame as u64, TCP_DATA_FRAME_HEADER_LENGTH);
            self.write_header_offset = 0;
            self.write_remaining = frame;
            assert(self.writer() =~= old(self).writer().started(frame as nat));
            return WriteStep::Frame(frame);
        }
        self.next_write(length)
    }

    /// What a write of `length` bytes does next inside a frame.
    pub fn next_write(&self, length: usize) -> (result: WriteStep)
        requires
            self.wf(),
            !self.writer().ending,
        ensures
            result == self.writer().step(length as nat),
    {
        if self.write_header_offset < TCP_DATA_FRAME_HEADER_LENGTH {
            WriteStep::Header
        } else if length <= self.write_remaining {
            WriteStep::Payload(length)
        } else {
            WriteStep::Payload(self.write_remaining)
        }
    }

    /// The header bytes that are still to be written.
    pub fn header_to_write(&self) -> (result: Vec<u8>)
        requires
            self.wf(),
        ensures
            result@ == self.writer().header.skip(self.writer().offset as int),
    {
        let mut result: Vec<u8> = Vec::new();
        let mut i: usize = self.write_header_offset;
        while i < self.write_header.len()
            invariant
                self.write_header_offset <= i <= self.write_header@.len(),
                result@ == self.write_header@.subrange(self.write_header_offset as int, i as int),
            decreases self.write_header@.len() - i,
        {
            result.push(self.write_header[i]);
            i += 1;
        }
        assert(result@ =~= self.write_header@.skip(self.write_header_offset as int));
        result
    }

    /// Takes note of `written` bytes of a header and the data after it, written together. Returns
    /// how many data bytes were among them, or `None` where there were none.
    pub fn frame_written(&mut self, written: usize) -> (result: Result<
        Option<usize>,
        TransportError,
    >)
        requires
            old(self).wf(),
            old(self).writer().offset == 0,
            old(self).writer().remaining > 0,
        ensures
            final(self).wf(),
            final(self).transport() == old(self).transport(),
            final(self).reader() == old(self).reader(),
            ({
                let h = smaller(written as nat, TCP_DATA_FRAME_HEADER_LENGTH as nat);
                let p = smaller((written - h) as nat, old(self).writer().remaining);
                &&& old(self).writer().may_send(h, p)
                &&& final(self).writer() == old(self).writer().sent(h, p)
                &&& result == if written == 0 {
                    Err::<Option<usize>, TransportError>(TransportError::FrameNotWritten)
                } else if p > 0 {
                    Ok(Some(p as usize))
                } else {
                    Ok(None)
                }
            }),
    {
        if written == 0 {
            return Err(TransportError::FrameNotWritten);
        }
        if written <= TCP_DATA_FRAME_HEADER_LENGTH {
            self.write_header_offset = written;
            return Ok(None);
        }
        let beyond = written - TCP_DATA_FRAME_HEADER_LENGTH;
        let payload = if beyond <= self.write_remaining {
            beyond
        } else {
            self.write_remaining
        };
        self.write_header_offset = TCP_DATA_FRAME_HEADER_LENGTH;
        self.write_remaining = self.write_remaining - payload;
        Ok(Some(payload))
    }

    /// Takes note of `written` header bytes.
    pub fn header_written(&mut self, written: usize) -> (result: Result<(), TransportError>)
        requires
            old(self).wf(),
            !old(self).writer().ending,
            old(self).writer().may_send(written as nat, 0),
        ensures
            final(self).wf(),
            final(self).transport() == old(self).transport(),
            final(self).reader() == old(self).reader(),
            final(self).writer() == old(self).writer().sent(written as nat, 0),
            result == if written == 0 {
                Err::<(), TransportError>(TransportError::HeaderNotWritten)
            } else {
                Ok(())
            },
    {
        if written == 0 {
            return Err(TransportError::HeaderNotWritten);
        }
        self.write_header_offset = self.write_header_offset + written;
        Ok(())
    }

    /// Takes note of `written` data bytes and returns their number.
    pub fn payload_written(&mut self, written: usize) -> (result: Result<usize, TransportError>)
        requires
            old(self).wf(),
            old(self).writer().may_send(0, written as nat),
        ensures
            final(self).wf(),
            final(self).transport() == old(self).transport(),
            final(self).reader() == old(self).reader(),
            final(self).writer() == old(self).writer().sent(0, written as nat),
            result == if written == 0 {
                Err::<usize, TransportError>(TransportError::FrameNotWritten)
            } else {
                Ok(written)
            },
    {
        if written == 0 {
            return Err(TransportError::FrameNotWritten);
        }
        self.write_remaining = self.write_remaining - written;
        Ok(written)
    }

    /// What the end of the writing direction takes first. A direction that is between frames
    /// starts its terminating header; one that is ending already goes on with what is left.
    pub fn begin_shutdown(&mut self) -> (result: ShutdownStep)
        requires
            old(self).wf(),
        ensures
            final(self).wf(),
            final(self).transport() == old(self).transport(),
            final(self).reader() == old(self).reader(),
            ({
                let w = old(self).writer();
                if w.finished {
                    &&& result == ShutdownStep::Return
                    &&& final(self).writer() == w
                } else if w.remaining != 0 {
                    &&& result == ShutdownStep::Fail(TransportError::IncompleteFrame)
                    &&& final(self).writer() == w
                } else if w.ending {
                    &&& result == w.closing_step()
                    &&& final(self).writer() == w
                } else {
                    &&& result == ShutdownStep::Header
                    &&& final(self).writer() == w.started(0)
                }
            }),
    {
        if self.write_finished {
            return ShutdownStep::Return;
        }
        if self.write_remaining != 0 {
            return ShutdownStep::Fail(TransportError::IncompleteFrame);
        }
        if self.write_ending {
            return self.next_shutdown();
        }
        proof {
            lemma_limits();
            law_be_round_trip(0, 4);
        }
        self.write_header = to_be(0, TCP_DATA_FRAME_HEADER_LENGTH);
        self.write_header_offset = 0;
        self.write_ending = true;
        assert(self.writer() =~= old(self).writer().started(0));
        ShutdownStep::Header
    }

    /// What the end of the writing direction takes next.
    pub fn next_shutdown(&self) -> (result: ShutdownStep)
        requires
            self.wf(),
        ensures
            result == self.writer().closing_step(),
    {
        if self.write_header_offset < TCP_DATA_FRAME_HEADER_LENGTH {
            ShutdownStep::Header
        } else {
            ShutdownStep::Flush
        }
    }

    /// Takes note of `written` bytes of the terminating header.
    pub fn terminator_written(&mut self, written: usize) -> (result: Result<(), TransportError>)
        requires
            old(self).wf(),
            old(self).writer().ending,
            !old(self).writer().finished,
            old(self).writer().may_send(written as nat, 0),
        ensures
            final(self).wf(),
            final(self).transport() == old(self).transport(),
            final(self).reader() == old(self).reader(),
            final(self).writer() == old(self).writer().sent(written as nat, 0),
            result == if written == 0 {
                Err::<(), TransportError>(TransportError::TerminatorNotWritten)
            } else {
                Ok(())
            },
    {
        if written == 0 {
            return Err(TransportError::TerminatorNotWritten);
        }
        self.write_header_offset = self.write_header_offset + written;
        Ok(())
    }

    /// Takes note that the terminating header was flushed: the writing direction has ended.
    pub fn flushed(&mut self)
        requires
            old(self).wf(),
            old(self).writer().ending,
            old(self).writer().closing_step() == ShutdownStep::Flush,
        ensures
            final(self).wf(),
            final(self).transport() == old(self).transport(),
            final(self).reader() == old(self).reader(),
            final(self).writer() == (WriteView { finished: true, ..old(self).writer() }),
    {
        self.write_finished = true;
    }
}

/// Reading bytes in two parts is reading them at once, wherever they are parted.
pub proof fn law_decode_in_parts(reader: ReadView, a: Seq<u8>, b: Seq<u8>)
    ensures
        decode(reader, a + b) == match decode(reader, a) {
            Some((middle, first)) => match decode(middle, b) {
                Some((after, second)) => Some((after, first + second)),
                None => None,
            },
            None => None,
        },
    decreases a.len(),
{
    if a.len() == 0 {
        assert(a + b =~= b);
        match decode(reader, b) {
            Some((after, second)) => {
                assert(Seq::<u8>::empty() + second =~= second);
            },
            None => {},
        }
    } else {
        assert((a + b).drop_first() =~= a.drop_first() + b);
        if reader.finished {
        } else if reader.remaining > 0 {
            let next = reader.with_payload(1);
            law_decode_in_parts(next, a.drop_first(), b);
            match decode(next, a.drop_first()) {
                Some((middle, first)) => match decode(middle, b) {
                    Some((after, second)) => {
                        assert(seq![a[0]] + (first + second) =~= (seq![a[0]] + first) + second);
                    },
                    None => {},
                },
                None => {},
            }
        } else {
            match reader.with_header(seq![a[0]]) {
                Some(next) => law_decode_in_parts(next, a.drop_first(), b),
                None => {},
            }
        }
    }
}

/// Inside a frame, bytes come through as they are.
pub proof fn law_payload_comes_through(reader: ReadView, data: Seq<u8>)
    requires
        !reader.finished,
        data.len() <= reader.remaining,
    ensures
        decode(reader, data) == Some((reader.with_payload(data.len()), data)),
    decreases data.len(),
{
    if data.len() == 0 {
        assert(data =~= Seq::<u8>::empty());
        assert(reader.with_payload(0) == reader);
    } else {
        law_payload_comes_through(reader.with_payload(1), data.drop_first());
        assert(seq![data[0]] + data.drop_first() =~= data);
        assert(reader.with_payload(1).with_payload((data.len() - 1) as nat) == reader.with_payload(
            data.len(),
        ));
    }
}

/// Between frames, the bytes of a header carry no data.
pub proof fn law_header_carries_no_data(reader: ReadView, bytes: Seq<u8>)
    requires
        reader.wf(),
        !reader.finished,
        reader.remaining == 0,
        reader.header.len() + bytes.len() <= TCP_DATA_FRAME_HEADER_LENGTH,
    ensures
        decode(reader, bytes) == match reader.with_header(bytes) {
            Some(after) => Some((after, Seq::<u8>::empty())),
            None => None,
        },
    decreases bytes.len(),
{
    if bytes.len() == 0 {
        assert(reader.header + bytes =~= reader.header);
    } else {
        let first = seq![bytes[0]];
        assert(reader.header + bytes =~= (reader.header + first) + bytes.drop_first());
        if bytes.len() == 1 {
            assert(bytes =~= first);
            assert(bytes.drop_first() =~= Seq::<u8>::empty());
            match reader.with_header(first) {
                Some(next) => {
                    assert(decode(next, bytes.drop_first()) == Some(
                        (next, Seq::<u8>::empty()),
                    ));
                },
                None => {},
            }
        } else {
            let next = ReadView { header: reader.header + first, ..reader };
            assert(reader.with_header(first) == Some(next));
            law_header_carries_no_data(next, bytes.drop_first());
        }
    }
}

/// A frame: the length of the data, then the data.
pub open spec fn frame(data: Seq<u8>) -> Seq<u8> {
    be_bytes(data.len(), 4) + data
}

/// The bytes of one direction: its frames, then a zero length.
pub open spec fn encoded(frames: Seq<Seq<u8>>) -> Seq<u8>
    decreases frames.len(),
{
    if frames.len() == 0 {
        be_bytes(0, 4)
    } else {
        frame(frames[0]) + encoded(frames.drop_first())
    }
}

/// The data of all frames.
pub open spec fn carried(frames: Seq<Seq<u8>>) -> Seq<u8>
    decreases frames.len(),
{
    if frames.len() == 0 {
        seq![]
    } else {
        frames[0] + carried(frames.drop_first())
    }
}

/// A reader gets from the bytes of one direction exactly the data that its frames carry, and the
/// last of those bytes ends the direction: what follows on the transport is left for the next
/// stream.
pub proof fn law_frames_round_trip(frames: Seq<Seq<u8>>)
    requires
        forall|i: int|
            0 <= i < frames.len() ==> 0 < (#[trigger] frames[i]).len() <= TCP_DATA_MAX_FRAME_LENGTH,
    ensures
        decode(ReadView::start(), encoded(frames)) == Some(
            (ReadView { header: seq![], remaining: 0, finished: true }, carried(frames)),
        ),
    decreases frames.len(),
{
    let start = ReadView::start();
    lemma_limits();
    if frames.len() == 0 {
        law_be_round_trip(0, 4);
        law_header_carries_no_data(start, be_bytes(0, 4));
        assert(start.header + be_bytes(0, 4) =~= be_bytes(0, 4));
    } else {
        let data = frames[0];
        let header = be_bytes(data.len(), 4);
        let inside = ReadView { header: seq![], remaining: data.len(), finished: false };
        law_be_round_trip(data.len(), 4);
        law_header_carries_no_data(start, header);
        assert(start.header + header =~= header);
        law_payload_comes_through(inside, data);
        assert(inside.with_payload(data.len()) == start);
        law_decode_in_parts(start, header, data);
        assert(Seq::<u8>::empty() + data =~= data);
        assert forall|i: int| 0 <= i < frames.drop_first().len() implies 0 < (
        #[trigger] frames.drop_first()[i]).len() <= TCP_DATA_MAX_FRAME_LENGTH by {
            assert(frames.drop_first()[i] == frames[i + 1]);
        }
        law_frames_round_trip(frames.drop_first());
        law_decode_in_parts(start, frame(data), encoded(frames.drop_first()));
    }
}

/// What a writer does, as the transport sees it.
pub ghost enum WriteMove {
    /// Start a frame of this many data bytes, or with zero the end of the direction.
    Start(nat),
    /// Write this many header bytes, and after them these data bytes.
    Send(nat, Seq<u8>),
    /// Flush the transport after the terminating header: the direction has ended.
    Finish,
}

/// A writer after some moves.
#[verifier::ext_equal]
pub ghost struct Written {
    pub writer: WriteView,
    /// All bytes that went out.
    pub wire: Seq<u8>,
    /// The data bytes among them.
    pub data: Seq<u8>,
}

/// What a sequence of moves amounts to, or `None` where one of them is not allowed. A move is
/// allowed where a stream makes it: frames start between frames and before the end, the end starts
/// once, bytes leave in order, and the direction has ended once the terminating header is out and
/// flushed.
pub open spec fn written(moves: Seq<WriteMove>) -> Option<Written>
    decreases moves.len(),
{
    if moves.len() == 0 {
        Some(Written { writer: WriteView::start(), wire: seq![], data: seq![] })
    } else {
        match written(moves.drop_last()) {
            None => None,
            Some(before) => match moves.last() {
                WriteMove::Start(length) => if before.writer.may_start() && length
                    <= TCP_DATA_MAX_FRAME_LENGTH {
                    Some(Written { writer: before.writer.started(length), ..before })
                } else {
                    None
                },
                WriteMove::Send(h, data) => if before.writer.may_send(h, data.len()) {
                    Some(
                        Written {
                            writer: before.writer.sent(h, data.len()),
                            wire: before.wire + before.writer.next_header(h) + data,
                            data: before.data + data,
                        },
                    )
                } else {
                    None
                },
                WriteMove::Finish => if before.writer.ending && before.writer.closing_step()
                    == ShutdownStep::Flush {
                    Some(
                        Written { writer: WriteView { finished: true, ..before.writer }, ..before },
                    )
                } else {
                    None
                },
            },
        }
    }
}

/// The state of a reader that has taken every byte that a writer sent.
pub open spec fn caught_up(w: WriteView) -> ReadView {
    if w.offset < TCP_DATA_FRAME_HEADER_LENGTH {
        ReadView { header: w.header.take(w.offset as int), remaining: 0, finished: false }
    } else {
        ReadView { header: seq![], remaining: w.remaining, finished: w.ending }
    }
}

/// Whatever a writer has sent so far, and in whatever pieces, a reader that takes those bytes gets
/// exactly the data among them; and it sees the end of the direction exactly when the whole
/// terminating header is out. A direction that has ended has left nothing else on the transport, so
/// that the next stream begins with its own first byte.
pub proof fn law_reader_follows_writer(moves: Seq<WriteMove>)
    ensures
        written(moves) matches Some(state) ==> {
            &&& decode(ReadView::start(), state.wire) == Some(
                (caught_up(state.writer), state.data),
            )
            &&& state.writer.wf()
            &&& state.writer.finished ==> decode(ReadView::start(), state.wire) == Some(
                (ReadView { header: seq![], remaining: 0, finished: true }, state.data),
            )
        },
    decreases moves.len(),
{
    lemma_limits();
    law_be_round_trip(0, 4);
    if moves.len() > 0 {
        law_reader_follows_writer(moves.drop_last());
        match written(moves.drop_last()) {
            Some(before) => match moves.last() {
                WriteMove::Start(length) => {
                    law_be_round_trip(length, 4);
                    if let Some(state) = written(moves) {
                        assert(state.writer.header.take(0) =~= Seq::<u8>::empty());
                        assert(caught_up(before.writer) =~= caught_up(state.writer));
                    }
                },
                WriteMove::Send(h, data) => {
                    if let Some(state) = written(moves) {
                        lemma_send_decodes(before.writer, h, data);
                        let sent = before.writer.next_header(h) + data;
                        law_decode_in_parts(ReadView::start(), before.wire, sent);
                        assert(before.wire + before.writer.next_header(h) + data =~= before.wire
                            + sent);
                    }
                },
                WriteMove::Finish => {},
            },
            None => {},
        }
    }
}

/// However often the end of a direction is begun, one terminating header goes out: once it is
/// started none is started again, and once it is out only the flush is left.
pub proof fn law_direction_ends_once(writer: WriteView)
    requires
        writer.wf(),
        writer.ending,
    ensures
        !writer.may_start(),
        writer.closing_step() == ShutdownStep::Flush <==> writer.offset
            == TCP_DATA_FRAME_HEADER_LENGTH,
        forall|h: nat, p: nat| #[trigger]
            writer.may_send(h, p) ==> p == 0 && h <= TCP_DATA_FRAME_HEADER_LENGTH - writer.offset
                && writer.sent(h, p).ending,
{
}

proof fn lemma_send_decodes(w: WriteView, h: nat, data: Seq<u8>)
    requires
        w.wf(),
        w.may_send(h, data.len()),
    ensures
        decode(caught_up(w), w.next_header(h) + data) == Some(
            (caught_up(w.sent(h, data.len())), data),
        ),
{
    let reader = caught_up(w);
    let bytes = w.next_header(h);
    if w.offset < TCP_DATA_FRAME_HEADER_LENGTH {
        assert(w.header.take(w.offset as int) + bytes =~= w.header.take(w.offset as int + h));
        law_header_carries_no_data(reader, bytes);
        law_decode_in_parts(reader, bytes, data);
        if w.offset + h == TCP_DATA_FRAME_HEADER_LENGTH {
            assert(w.header.take(4) =~= w.header);
            let inside = ReadView {
                header: seq![],
                remaining: w.remaining,
                finished: w.remaining == 0,
            };
            if data.len() > 0 {
                law_payload_comes_through(inside, data);
            } else {
                assert(data =~= Seq::<u8>::empty());
            }
            assert(Seq::<u8>::empty() + data =~= data);
        } else {
            assert(data =~= Seq::<u8>::empty());
            assert(Seq::<u8>::empty() + data =~= data);
        }
    } else {
        assert(bytes =~= Seq::<u8>::empty());
        assert(bytes + data =~= data);
        if data.len() > 0 {
            law_payload_comes_through(reader, data);
        } else {
            assert(data =~= Seq::<u8>::empty());
        }
    }
}

/// A read without room, or after the end, is complete. Inside a frame it asks for data, for as
/// much as there is room for and the frame has left; between frames it asks for what is missing of
/// four header bytes.
pub proof fn law_reads_stay_in_their_frame<S>(
    stream: &ReusableTransportStream<S>,
    room: usize,
    step: ReadStep,
)
    requires
        stream.wf(),
        call_ensures(ReusableTransportStream::<S>::next_read, (stream, room), step),
    ensures
        step is Return <==> room == 0 || stream.reader().finished,
        step is Payload ==> stream.reader().remaining > 0,
        step is Header ==> stream.reader().remaining == 0,
        step matches ReadStep::Payload(n) ==> {
            &&& 0 < n <= room
            &&& n <= stream.reader().remaining
            &&& n == room || n == stream.reader().remaining
        },
        step matches ReadStep::Header(n) ==> n > 0 && n + stream.reader().header.len() == 4,
{
}

/// Four header bytes are the length of the frame that follows, the highest byte first. A length of
/// zero ends the direction, and one over 65536 is refused. Fewer bytes are kept until the rest
/// comes, and none at all are the end of the transport.
pub proof fn law_header_is_the_length<S>(
    stream: &mut ReusableTransportStream<S>,
    bytes: &[u8],
    result: Result<(), TransportError>,
)
    requires
        old(stream).wf(),
        !old(stream).reader().finished,
        old(stream).reader().remaining == 0,
        old(stream).reader().header.len() + bytes@.len() <= 4,
        call_ensures(ReusableTransportStream::<S>::header_read, (stream, bytes), result),
    ensures
        ({
            let header = old(stream).reader().header + bytes@;
            let length = 0x100_0000 * header[0] + 0x1_0000 * header[1] + 0x100 * header[2]
                + header[3];
            let after = final(stream).reader();
            &&& bytes@.len() == 0 ==> result == Err::<(), TransportError>(
                TransportError::ClosedBeforeHeader,
            ) && after == old(stream).reader()
            &&& bytes@.len() > 0 && header.len() < 4 ==> result is Ok && after.header == header
                && after.remaining == 0 && !after.finished
            &&& header.len() == 4 && length == 0 ==> result is Ok && after.finished
            &&& header.len() == 4 && length > 65536 ==> result == Err::<(), TransportError>(
                TransportError::FrameTooLarge,
            ) && after.header.len() == 0 && after.remaining == 0 && !after.finished
            &&& header.len() == 4 && 0 < length <= 65536 ==> result is Ok && after.remaining
                == length && after.header.len() == 0 && !after.finished
            &&& final(stream).writer() == old(stream).writer()
            &&& final(stream).transport() == old(stream).transport()
        }),
{
    let before = old(stream).reader().header;
    if bytes@.len() == 0 {
        assert(before + bytes@ =~= before);
        assert(before.len() < 4);
    }
    if before.len() + bytes@.len() == 4 {
        law_four_bytes(before + bytes@, 0);
    }
}

/// Data that was read is taken off the frame, and nothing else changes. None at all is the end of
/// the transport.
pub proof fn law_data_is_taken_off_the_frame<S>(
    stream: &mut ReusableTransportStream<S>,
    read: usize,
    result: Result<(), TransportError>,
)
    requires
        old(stream).wf(),
        read <= old(stream).reader().remaining,
        call_ensures(ReusableTransportStream::<S>::payload_read, (stream, read), result),
    ensures
        result is Ok <==> read > 0,
        result matches Err(error) ==> error == TransportError::ClosedDuringFrame,
        final(stream).reader().remaining + read == old(stream).reader().remaining,
        final(stream).reader().header == old(stream).reader().header,
        final(stream).reader().finished == old(stream).reader().finished,
        final(stream).writer() == old(stream).writer(),
        final(stream).transport() == old(stream).transport(),
{
}

/// Between frames a write starts one, for all its bytes or for 65536 of them. Its header is the
/// number of those bytes, the highest byte first.
pub proof fn law_writes_start_frames<S>(
    stream: &mut ReusableTransportStream<S>,
    length: usize,
    step: WriteStep,
    started: &ReusableTransportStream<S>,
    header: Vec<u8>,
)
    requires
        old(stream).wf(),
        !old(stream).writer().ending,
        old(stream).writer().remaining == 0,
        length > 0,
        call_ensures(ReusableTransportStream::<S>::begin_write, (stream, length), step),
        *started == *final(stream),
        call_ensures(ReusableTransportStream::<S>::header_to_write, (started,), header),
    ensures
        step matches WriteStep::Frame(n) && {
            &&& n <= length
            &&& n <= 65536
            &&& n == length || n == 65536
            &&& final(stream).writer().remaining == n
            &&& !final(stream).writer().ending
            &&& header@ == seq![
                0u8,
                (n as nat / 0x1_0000) as u8,
                (n as nat / 0x100 % 0x100) as u8,
                (n as nat % 0x100) as u8,
            ]
        },
        final(stream).reader() == old(stream).reader(),
        final(stream).transport() == old(stream).transport(),
{
    let n = if length <= 65536 {
        length as nat
    } else {
        65536
    };
    law_four_bytes(be_bytes(0, 4).take(0) + seq![0u8, 0, 0, 0], n);
    assert(n / 0x100_0000 == 0);
    assert(n / 0x1_0000 % 0x100 == n / 0x1_0000);
    assert(header@ =~= be_bytes(n, 4));
}

/// After the end no write succeeds, and while the direction is ending only one of nothing does.
/// Inside a frame a write goes on with what is missing of the header and then with data, as much as
/// it has and the frame has left. None of these changes the stream.
pub proof fn law_writes_go_on_in_their_frame<S>(
    stream: &mut ReusableTransportStream<S>,
    length: usize,
    step: WriteStep,
)
    requires
        old(stream).wf(),
        old(stream).writer().ending || old(stream).writer().remaining > 0 || length == 0,
        call_ensures(ReusableTransportStream::<S>::begin_write, (stream, length), step),
    ensures
        ({
            let w = old(stream).writer();
            &&& w.finished || (w.ending && length > 0) <==> step == WriteStep::Fail(
                TransportError::StreamFinished,
            )
            &&& !w.finished && length == 0 ==> step == WriteStep::Return(0)
            &&& !w.ending && length > 0 && w.offset < 4 ==> step is Header
            &&& !w.ending && length > 0 && w.offset == 4 ==> (step matches WriteStep::Payload(n) && {
                &&& 0 < n <= length
                &&& n <= w.remaining
                &&& n == length || n == w.remaining
            })
        }),
        final(stream).writer() == old(stream).writer(),
        final(stream).reader() == old(stream).reader(),
        final(stream).transport() == old(stream).transport(),
{
}

/// Of bytes that were written with a header, the first four are the header's and the others are
/// data. What is missing of the header stays to be written.
pub proof fn law_header_goes_out_first<S>(
    stream: &mut ReusableTransportStream<S>,
    written: usize,
    result: Result<Option<usize>, TransportError>,
    before: &ReusableTransportStream<S>,
    header: Vec<u8>,
    after: &ReusableTransportStream<S>,
    left: Vec<u8>,
)
    requires
        old(stream).wf(),
        old(stream).writer().offset == 0,
        written <= 4 + old(stream).writer().remaining,
        old(stream).writer().remaining > 0,
        *before == *old(stream),
        call_ensures(ReusableTransportStream::<S>::header_to_write, (before,), header),
        call_ensures(ReusableTransportStream::<S>::frame_written, (stream, written), result),
        *after == *final(stream),
        call_ensures(ReusableTransportStream::<S>::header_to_write, (after,), left),
    ensures
        header@.len() == 4,
        written == 0 ==> result == Err::<Option<usize>, TransportError>(
            TransportError::FrameNotWritten,
        ),
        0 < written <= 4 ==> result == Ok::<Option<usize>, TransportError>(None),
        written > 4 ==> result == Ok::<Option<usize>, TransportError>(
            Some((written - 4) as usize),
        ),
        written <= 4 ==> left@ == header@.skip(written as int) && final(stream).writer().remaining
            == old(stream).writer().remaining,
        written > 4 ==> left@.len() == 0 && final(stream).writer().remaining + written
            == old(stream).writer().remaining + 4,
        final(stream).reader() == old(stream).reader(),
        final(stream).transport() == old(stream).transport(),
{
    if written <= 4 {
        assert(header@ =~= old(stream).writer().header);
        assert(left@ =~= header@.skip(written as int));
    }
}

/// What is written of a header, of data or of the end is taken off what is left of it. A write of
/// nothing is a fault.
pub proof fn law_written_bytes_are_counted<S>(
    stream: &mut ReusableTransportStream<S>,
    other: &mut ReusableTransportStream<S>,
    third: &mut ReusableTransportStream<S>,
    written: usize,
    header: Result<(), TransportError>,
    data: Result<usize, TransportError>,
    end: Result<(), TransportError>,
)
    requires
        old(stream).wf(),
        !old(stream).writer().ending,
        old(stream).writer().offset + written <= 4,
        call_ensures(ReusableTransportStream::<S>::header_written, (stream, written), header),
        old(other).wf(),
        old(other).writer().offset == 4,
        written <= old(other).writer().remaining,
        call_ensures(ReusableTransportStream::<S>::payload_written, (other, written), data),
        old(third).wf(),
        old(third).writer().ending,
        !old(third).writer().finished,
        old(third).writer().offset + written <= 4,
        call_ensures(ReusableTransportStream::<S>::terminator_written, (third, written), end),
    ensures
        header is Ok <==> written > 0,
        header matches Err(error) ==> error == TransportError::HeaderNotWritten,
        final(stream).writer().offset == old(stream).writer().offset + written,
        final(stream).writer().remaining == old(stream).writer().remaining,
        data == if written > 0 {
            Ok::<usize, TransportError>(written)
        } else {
            Err(TransportError::FrameNotWritten)
        },
        final(other).writer().remaining + written == old(other).writer().remaining,
        final(other).writer().offset == 4,
        end is Ok <==> written > 0,
        end matches Err(error) ==> error == TransportError::TerminatorNotWritten,
        final(third).writer().offset == old(third).writer().offset + written,
        final(third).writer().ending && !final(third).writer().finished,
{
}

/// A direction that is between frames ends with four zero bytes and a flush. One inside a frame
/// cannot end, and one that has ended is left alone.
pub proof fn law_directions_end_with_zeros<S>(
    stream: &mut ReusableTransportStream<S>,
    step: ShutdownStep,
    after: &ReusableTransportStream<S>,
    header: Vec<u8>,
)
    requires
        old(stream).wf(),
        call_ensures(ReusableTransportStream::<S>::begin_shutdown, (stream,), step),
        *after == *final(stream),
        call_ensures(ReusableTransportStream::<S>::header_to_write, (after,), header),
    ensures
        ({
            let w = old(stream).writer();
            &&& step is Return <==> w.finished
            &&& step is Fail <==> w.remaining > 0
            &&& step matches ShutdownStep::Fail(error) ==> error == TransportError::IncompleteFrame
            &&& !w.ending && w.remaining == 0 ==> step is Header && header@ == seq![0u8, 0, 0, 0]
                && final(stream).writer().ending && !final(stream).writer().finished
            &&& w.ending || w.remaining > 0 ==> final(stream).writer() == w
            &&& w.ending && !w.finished ==> if w.offset < 4 {
                step is Header
            } else {
                step is Flush
            }
        }),
        final(stream).reader() == old(stream).reader(),
        final(stream).transport() == old(stream).transport(),
{
    law_four_bytes(seq![0u8, 0, 0, 0], 0);
    if !old(stream).writer().ending && old(stream).writer().remaining == 0 {
        assert(header@ =~= seq![0u8, 0, 0, 0]);
    }
}

/// A transport can be used again once both directions of its stream have ended: a fresh stream has
/// ended none, and begins with a header.
pub proof fn law_streams_end_in_both_directions<S>(
    inner: S,
    fresh: ReusableTransportStream<S>,
    before: bool,
    room: usize,
    step: ReadStep,
    stream: &mut ReusableTransportStream<S>,
    ended: &ReusableTransportStream<S>,
    after: bool,
)
    requires
        call_ensures(ReusableTransportStream::<S>::new, (inner,), fresh),
        call_ensures(ReusableTransportStream::<S>::is_finished, (&fresh,), before),
        call_ensures(ReusableTransportStream::<S>::next_read, (&fresh, room), step),
        old(stream).wf(),
        old(stream).writer().ending,
        old(stream).writer().offset == 4,
        call_ensures(ReusableTransportStream::<S>::flushed, (stream,), ()),
        *ended == *final(stream),
        call_ensures(ReusableTransportStream::<S>::is_finished, (ended,), after),
    ensures
        fresh.transport() == inner,
        !before,
        room > 0 ==> step == ReadStep::Header(4),
        after == old(stream).reader().finished,
        final(stream).writer().finished,
        final(stream).transport() == old(stream).transport(),
{
}

/// Inside a frame, a write goes on with the header as long as some of it is missing, and then with
/// as much data as it has and the frame has left.
pub proof fn law_frames_are_filled<S>(
    stream: &ReusableTransportStream<S>,
    length: usize,
    step: WriteStep,
    end: ShutdownStep,
)
    requires
        stream.wf(),
        !stream.writer().ending,
        call_ensures(ReusableTransportStream::<S>::next_write, (stream, length), step),
        call_ensures(ReusableTransportStream::<S>::next_shutdown, (stream,), end),
    ensures
        stream.writer().offset < 4 ==> step is Header && end is Header,
        stream.writer().offset == 4 ==> end is Flush && (step matches WriteStep::Payload(n) && {
            &&& n <= length
            &&& n <= stream.writer().remaining
            &&& n == length || n == stream.writer().remaining
        }),
{
}

} // verus!
