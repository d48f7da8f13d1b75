//! The load generator: what it sends on its streams, and what it expects.

use vstd::prelude::*;

use crate::bench::protocol::{header, header_of, Workload, CHUNK, HEADER_LEN};

verus! {

/// A stream of the load generator.
#[derive(Clone, Copy, Debug, PartialEq, Eq, Structural)]
pub struct ClientStream {
    pub id: u64,
    pub header_sent: bool,
    pub send_remaining: u64,
    pub recv_remaining: u64,
    /// Whether the last byte was sent, and marked as such.
    pub send_fin: bool,
}

/// Why a stream failed.
#[derive(Clone, Copy, Debug, PartialEq, Eq, Structural)]
pub enum LoadError {
    /// Only so many bytes of the header were taken.
    PartialHeader(usize),
    /// More bytes came than were asked for, on this stream.
    TooManyBytes(u64),
}

/// A piece of the payload to send.
#[derive(Clone, Copy, Debug, PartialEq, Eq, Structural)]
pub struct Piece {
    pub len: usize,
    /// Whether it is the last.
    pub fin: bool,
}

/// The next piece of a number of bytes.
pub open spec fn next_piece(remaining: u64) -> Piece {
    if remaining <= CHUNK {
        Piece { len: remaining as usize, fin: true }
    } else {
        Piece { len: CHUNK, fin: false }
    }
}

/// The next piece of a number of bytes.
pub fn cut_piece(remaining: u64) -> (result: Piece)
    requires
        remaining > 0,
    ensures
        result == next_piece(remaining),
        0 < result.len <= CHUNK,
        result.len <= remaining,
{
    if remaining <= CHUNK as u64 {
        Piece { len: remaining as usize, fin: true }
    } else {
        Piece { len: CHUNK, fin: false }
    }
}

impl ClientStream {
    /// A stream on which nothing was sent or received.
    pub open spec fn fresh(id: u64, workload: Workload, bytes: u64) -> Self {
        ClientStream {
            id,
            header_sent: false,
            send_remaining: workload.to_server(bytes),
            recv_remaining: workload.to_client(bytes),
            send_fin: workload.to_server(bytes) == 0,
        }
    }

    /// The header was offered for sending, and so many bytes of it were taken.
    pub fn header_offered(&mut self, taken: usize) -> (result: Result<(), LoadError>)
        ensures
            if taken == HEADER_LEN {
                &&& result is Ok
                &&& *final(self) == (ClientStream { header_sent: true, ..*old(self) })
            } else {
                &&& result == Err::<(), LoadError>(LoadError::PartialHeader(taken))
                &&& *final(self) == *old(self)
            },
    {
        if taken == HEADER_LEN {
            self.header_sent = true;
            Ok(())
        } else {
            Err(LoadError::PartialHeader(taken))
        }
    }

    /// The piece to send next, if there is one.
    pub fn next_send(&self) -> (result: Option<Piece>)
        ensures
            result == if self.header_sent && self.send_remaining > 0 {
                Some(next_piece(self.send_remaining))
            } else {
                None
            },
    {
        if self.header_sent && self.send_remaining > 0 {
            Some(cut_piece(self.send_remaining))
        } else {
            None
        }
    }

    /// The stream after so many bytes of its next piece were taken.
    pub open spec fn after_send(self, taken: usize) -> Self {
        let piece = next_piece(self.send_remaining);
        ClientStream {
            send_remaining: (self.send_remaining - taken) as u64,
            send_fin: self.send_fin || (piece.fin && taken == piece.len),
            ..self
        }
    }

    /// The next piece was offered for sending, and so many bytes of it were taken. Returns whether
    /// to go on at once.
    pub fn piece_offered(&mut self, taken: usize) -> (result: bool)
        requires
            old(self).send_remaining > 0,
            taken <= next_piece(old(self).send_remaining).len,
        ensures
            *final(self) == old(self).after_send(taken),
            result == (taken == next_piece(old(self).send_remaining).len),
    {
        let piece = cut_piece(self.send_remaining);
        self.send_remaining = self.send_remaining - taken as u64;
        if piece.fin && taken == piece.len {
            self.send_fin = true;
        }
        taken == piece.len
    }

    /// So many bytes came.
    pub fn received(&mut self, count: u64) -> (result: Result<(), LoadError>)
        ensures
            if count > old(self).recv_remaining {
                &&& result == Err::<(), LoadError>(LoadError::TooManyBytes(old(self).id))
                &&& *final(self) == *old(self)
            } else {
                &&& result is Ok
                &&& *final(self) == (ClientStream {
                    recv_remaining: (old(self).recv_remaining - count) as u64,
                    ..*old(self)
                })
            },
    {
        if count > self.recv_remaining {
            return Err(LoadError::TooManyBytes(self.id));
        }
        self.recv_remaining = self.recv_remaining - count;
        Ok(())
    }

    /// Everything was sent and everything came.
    pub open spec fn is_done(self) -> bool {
        self.recv_remaining == 0 && self.send_fin
    }
}

/// Opens streams, whose numbers go up by four from the given one on. Returns the number for the
/// next one.
pub fn open_streams(next_id: u64, count: usize, workload: Workload, bytes: u64) -> (result: (
    Vec<ClientStream>,
    u64,
))
    requires
        next_id + 4 * count <= u64::MAX,
    ensures
        result.0@ == Seq::new(
            count as nat,
            |i: int| ClientStream::fresh((next_id + 4 * i) as u64, workload, bytes),
        ),
        result.1 == next_id + 4 * count,
{
    let send_remaining = workload.bytes_to_server(bytes);
    let recv_remaining = workload.bytes_to_client(bytes);
    let mut streams: Vec<ClientStream> = Vec::new();
    let mut id: u64 = next_id;
    let mut i: usize = 0;
    while i < count
        invariant
            i <= count,
            next_id + 4 * count <= u64::MAX,
            id == next_id + 4 * i,
            send_remaining == workload.to_server(bytes),
            recv_remaining == workload.to_client(bytes),
            streams@ == Seq::new(
                i as nat,
                |k: int| ClientStream::fresh((next_id + 4 * k) as u64, workload, bytes),
            ),
        decreases count - i,
    {
        streams.push(
            ClientStream {
                id,
                header_sent: false,
                send_remaining,
                recv_remaining,
                send_fin: send_remaining == 0,
            },
        );
        id = id + 4;
        i += 1;
        assert(streams@ =~= Seq::new(
            i as nat,
            |k: int| ClientStream::fresh((next_id + 4 * k) as u64, workload, bytes),
        ));
    }
    (streams, id)
}

/// Whether one of these streams has a number.
pub open spec fn has_number(streams: Seq<ClientStream>, id: u64) -> bool {
    exists|i: int| 0 <= i < streams.len() && (#[trigger] streams[i]).id == id
}

/// Finds a stream by its number.
pub fn find_stream(streams: &[ClientStream], id: u64) -> (result: Option<usize>)
    ensures
        match result {
            Some(at) => {
                &&& at < streams@.len()
                &&& streams@[at as int].id == id
                &&& forall|i: int| 0 <= i < at ==> (#[trigger] streams@[i]).id != id
            },
            None => forall|i: int| 0 <= i < streams@.len() ==> (#[trigger] streams@[i]).id != id,
        },
        match result {
            Some(at) => !has_number(streams@.take(at as int), id),
            None => !has_number(streams@, id),
        },
{
    let mut i: usize = 0;
    while i < streams.len()
        invariant
            i <= streams@.len(),
            forall|k: int| 0 <= k < i ==> (#[trigger] streams@[k]).id != id,
        decreases streams@.len() - i,
    {
        if streams[i].id == id {
            return Some(i);
        }
        i += 1;
    }
    None
}

/// Whether all streams are done.
pub fn all_done(streams: &[ClientStream]) -> (result: bool)
    ensures
        result == forall|i: int| 0 <= i < streams@.len() ==> (#[trigger] streams@[i]).is_done(),
{
    let mut i: usize = 0;
    while i < streams.len()
        invariant
            i <= streams@.len(),
            forall|k: int| 0 <= k < i ==> (#[trigger] streams@[k]).is_done(),
        decreases streams@.len() - i,
    {
        if !(streams[i].recv_remaining == 0 && streams[i].send_fin) {
            return false;
        }
        i += 1;
    }
    true
}

/// In how many directions a workload moves bytes.
pub open spec fn directions(workload: Workload) -> int {
    match workload {
        Workload::Bidi => 2,
        _ => 1,
    }
}

/// How many bytes of payload all streams carry together, counting both directions where both
/// are used.
pub fn application_bytes(workload: Workload, streams: usize, bytes: u64) -> (result: u64)
    requires
        bytes * streams * directions(workload) <= u64::MAX,
    ensures
        result == bytes * streams * directions(workload),
{
    assert(0 <= bytes * streams) by (nonlinear_arith);
    assert(bytes * streams <= bytes * streams * directions(workload)) by (nonlinear_arith)
        requires
            0 <= bytes * streams,
            directions(workload) >= 1,
    ;
    let one_way = bytes * streams as u64;
    match workload {
        Workload::Bidi => 2 * one_way,
        _ => one_way,
    }
}

/// A stream between two sends: what was sent and what remains are what was to be sent, and the end
/// was sent only with the last byte.
pub open spec fn on_course(stream: ClientStream, workload: Workload, bytes: u64, sent: nat) -> bool {
    &&& stream.send_remaining + sent == workload.to_server(bytes)
    &&& stream.send_fin <==> stream.send_remaining == 0
}

/// A stream starts on course.
pub proof fn law_fresh_stream_is_on_course(id: u64, workload: Workload, bytes: u64)
    ensures
        on_course(ClientStream::fresh(id, workload, bytes), workload, bytes, 0),
{
}

/// Every send keeps a stream on course. So the bytes that are sent add up to what was to be sent
/// when the end is sent, however the connection cuts the pieces.
pub proof fn law_send_stays_on_course(
    stream: ClientStream,
    workload: Workload,
    bytes: u64,
    sent: nat,
    taken: usize,
)
    requires
        on_course(stream, workload, bytes, sent),
        stream.send_remaining > 0,
        taken <= next_piece(stream.send_remaining).len,
    ensures
        on_course(stream.after_send(taken), workload, bytes, sent + taken as nat),
{
}

/// What the load generator sends next on a stream.
#[derive(Debug)]
pub enum WriteAction {
    /// The header.
    Header([u8; 9]),
    /// A piece of the payload.
    Piece(Piece),
}

/// A load generator on one connection, round after round.
pub struct LoadGenerator {
    workload: Workload,
    bytes: u64,
    next_id: u64,
    streams: Vec<ClientStream>,
}

/// A load generator on one connection.
pub ghost struct Load {
    pub workload: Workload,
    /// How many bytes each stream is to carry.
    pub bytes: u64,
    /// The number of the next stream.
    pub next_id: u64,
    /// The streams of the round.
    pub streams: Seq<ClientStream>,
}

impl View for LoadGenerator {
    type V = Load;

    closed spec fn view(&self) -> Load {
        Load {
            workload: self.workload,
            bytes: self.bytes,
            next_id: self.next_id,
            streams: self.streams@,
        }
    }
}

impl Load {
    /// No two streams have one number, the end was sent exactly where nothing remains to be sent,
    /// and no stream has more before it than was asked for.
    pub open spec fn wf(self) -> bool {
        &&& forall|i: int, j: int|
            0 <= i < j < self.streams.len() ==> (#[trigger] self.streams[i]).id != (
            #[trigger] self.streams[j]).id
        &&& forall|i: int|
            0 <= i < self.streams.len() ==> {
                let stream = #[trigger] self.streams[i];
                &&& stream.send_fin <==> stream.send_remaining == 0
                &&& stream.send_remaining <= self.workload.to_server(self.bytes)
                &&& stream.recv_remaining <= self.workload.to_client(self.bytes)
            }
    }

    /// The load with another stream in the place of one.
    pub open spec fn with_stream(self, at: int, stream: ClientStream) -> Self {
        Load { streams: self.streams.update(at, stream), ..self }
    }

    /// The round is over.
    pub open spec fn is_done(self) -> bool {
        forall|i: int| 0 <= i < self.streams.len() ==> (#[trigger] self.streams[i]).is_done()
    }
}

impl LoadGenerator {
    pub fn new(workload: Workload, bytes: u64) -> (result: Self)
        ensures
            result@ == (Load { workload, bytes, next_id: 0, streams: Seq::empty() }),
            result@.wf(),
    {
        let result = LoadGenerator { workload, bytes, next_id: 0, streams: Vec::new() };
        assert(result@.streams =~= Seq::empty());
        result
    }

    /// Begins a round with fresh streams in the place of those of the last.
    pub fn begin_round(&mut self, count: usize)
        requires
            old(self)@.next_id + 4 * count <= u64::MAX,
        ensures
            final(self)@.wf(),
            final(self)@ == (Load {
                next_id: (old(self)@.next_id + 4 * count) as u64,
                streams: Seq::new(
                    count as nat,
                    |i: int|
                        ClientStream::fresh(
                            (old(self)@.next_id + 4 * i) as u64,
                            old(self)@.workload,
                            old(self)@.bytes,
                        ),
                ),
                ..old(self)@
            }),
    {
        let (streams, next_id) = open_streams(self.next_id, count, self.workload, self.bytes);
        self.streams = streams;
        self.next_id = next_id;
    }

    /// How many streams the round has.
    pub fn len(&self) -> (result: usize)
        ensures
            result == self@.streams.len(),
    {
        self.streams.len()
    }

    /// The number of a stream.
    pub fn id(&self, at: usize) -> (result: u64)
        requires
            at < self@.streams.len(),
        ensures
            result == self@.streams[at as int].id,
    {
        self.streams[at].id
    }

    /// What to send next on a stream, if there is anything: the header comes first.
    pub fn write_action(&self, at: usize) -> (result: Option<WriteAction>)
        requires
            at < self@.streams.len(),
        ensures
            ({
                let stream = self@.streams[at as int];
                if !stream.header_sent {
                    &&& result matches Some(WriteAction::Header(bytes))
                    &&& bytes@ == header_of(self@.workload, self@.bytes)
                } else if stream.send_remaining > 0 {
                    result == Some(WriteAction::Piece(next_piece(stream.send_remaining)))
                } else {
                    result is None
                }
            }),
    {
        if !self.streams[at].header_sent {
            return Some(WriteAction::Header(header(self.workload, self.bytes)));
        }
        match self.streams[at].next_send() {
            Some(piece) => Some(WriteAction::Piece(piece)),
            None => None,
        }
    }

    /// The header of a stream was offered for sending: so many bytes of it were taken, or, without
    /// a number, none can be for now. Returns whether to go on with the stream at once.
    pub fn header_offered(&mut self, at: usize, taken: Option<usize>) -> (result: Result<
        bool,
        LoadError,
    >)
        requires
            old(self)@.wf(),
            at < old(self)@.streams.len(),
        ensures
            final(self)@.wf(),
            match taken {
                None => result == Ok::<bool, LoadError>(false) && final(self)@ == old(self)@,
                Some(taken) => if taken == HEADER_LEN {
                    &&& result == Ok::<bool, LoadError>(true)
                    &&& final(self)@ == old(self)@.with_stream(
                        at as int,
                        (ClientStream { header_sent: true, ..old(self)@.streams[at as int] }),
                    )
                } else {
                    &&& result == Err::<bool, LoadError>(LoadError::PartialHeader(taken))
                    &&& final(self)@ == old(self)@
                },
            },
    {
        match taken {
            None => Ok(false),
            Some(taken) => {
                let mut stream = self.streams[at];
                match stream.header_offered(taken) {
                    Err(error) => Err(error),
                    Ok(()) => {
                        self.streams[at] = stream;
                        Ok(true)
                    },
                }
            },
        }
    }

    /// The next piece of a stream was offered for sending: so many bytes of it were taken, or,
    /// without a number, none can be for now. Returns whether to go on with the stream at once.
    pub fn piece_offered(&mut self, at: usize, taken: Option<usize>) -> (result: bool)
        requires
            old(self)@.wf(),
            at < old(self)@.streams.len(),
            old(self)@.streams[at as int].send_remaining > 0,
            taken matches Some(taken) ==> taken <= next_piece(
                old(self)@.streams[at as int].send_remaining,
            ).len,
        ensures
            final(self)@.wf(),
            match taken {
                None => !result && final(self)@ == old(self)@,
                Some(taken) => {
                    let stream = old(self)@.streams[at as int];
                    &&& result == (taken == next_piece(stream.send_remaining).len)
                    &&& final(self)@ == old(self)@.with_stream(at as int, stream.after_send(taken))
                },
            },
    {
        match taken {
            None => false,
            Some(taken) => {
                let mut stream = self.streams[at];
                let more = stream.piece_offered(taken);
                self.streams[at] = stream;
                more
            },
        }
    }

    /// So many bytes came on the stream with a number. A stream of an earlier round is left alone.
    pub fn received(&mut self, id: u64, count: u64) -> (result: Result<(), LoadError>)
        requires
            old(self)@.wf(),
        ensures
            final(self)@.wf(),
            forall|i: int|
                0 <= i < old(self)@.streams.len() && (#[trigger] old(self)@.streams[i]).id == id
                    ==> {
                    let stream = old(self)@.streams[i];
                    if count > stream.recv_remaining {
                        &&& result == Err::<(), LoadError>(LoadError::TooManyBytes(id))
                        &&& final(self)@ == old(self)@
                    } else {
                        &&& result is Ok
                        &&& final(self)@ == old(self)@.with_stream(
                            i,
                            (ClientStream {
                                recv_remaining: (stream.recv_remaining - count) as u64,
                                ..stream
                            }),
                        )
                    }
                },
            (forall|i: int|
                0 <= i < old(self)@.streams.len() ==> (#[trigger] old(self)@.streams[i]).id != id)
                ==> result is Ok && final(self)@ == old(self)@,
    {
        let ghost before = self@;
        match find_stream(&self.streams, id) {
            None => Ok(()),
            Some(at) => {
                proof {
                    assert forall|i: int|
                        0 <= i < before.streams.len() && (#[trigger] before.streams[i]).id
                            == id implies i == at by {
                        if i < at {
                            assert(before.streams[i].id != before.streams[at as int].id);
                        } else if at < i {
                            assert(before.streams[at as int].id != before.streams[i].id);
                        }
                    }
                }
                let mut stream = self.streams[at];
                match stream.received(count) {
                    Err(error) => Err(error),
                    Ok(()) => {
                        self.streams[at] = stream;
                        Ok(())
                    },
                }
            },
        }
    }

    /// Whether the round is over.
    pub fn is_done(&self) -> (result: bool)
        ensures
            result == self@.is_done(),
    {
        let done = all_done(&self.streams);
        proof {
            assert(self@.streams == self.streams@);
            if done {
                assert(self@.is_done());
            } else {
                let i = choose|i: int|
                    0 <= i < self.streams@.len() && !(#[trigger] self.streams@[i]).is_done();
                assert(!self@.streams[i].is_done());
            }
        }
        done
    }
}

/// What happens to the payload of a stream.
pub ghost enum Transfer {
    /// So many bytes of its next piece were taken.
    Sent(usize),
    /// So many bytes came.
    Received(u64),
}

/// A stream after some transfers, or `None` where one of them is not allowed.
pub open spec fn after_transfers(stream: ClientStream, transfers: Seq<Transfer>) -> Option<
    ClientStream,
>
    decreases transfers.len(),
{
    if transfers.len() == 0 {
        Some(stream)
    } else {
        match after_transfers(stream, transfers.drop_last()) {
            None => None,
            Some(before) => match transfers.last() {
                Transfer::Sent(taken) => if before.send_remaining > 0 && taken <= next_piece(
                    before.send_remaining,
                ).len {
                    Some(before.after_send(taken))
                } else {
                    None
                },
                Transfer::Received(count) => if count <= before.recv_remaining {
                    Some(
                        ClientStream {
                            recv_remaining: (before.recv_remaining - count) as u64,
                            ..before
                        },
                    )
                } else {
                    None
                },
            },
        }
    }
}

/// How many bytes the transfers sent.
pub open spec fn bytes_sent(transfers: Seq<Transfer>) -> nat
    decreases transfers.len(),
{
    if transfers.len() == 0 {
        0
    } else {
        bytes_sent(transfers.drop_last()) + match transfers.last() {
            Transfer::Sent(taken) => taken as nat,
            Transfer::Received(_) => 0,
        }
    }
}

/// How many bytes the transfers brought.
pub open spec fn bytes_received(transfers: Seq<Transfer>) -> nat
    decreases transfers.len(),
{
    if transfers.len() == 0 {
        0
    } else {
        bytes_received(transfers.drop_last()) + match transfers.last() {
            Transfer::Sent(_) => 0,
            Transfer::Received(count) => count as nat,
        }
    }
}

/// Whatever the transfers on a stream are, what has moved and what remains add up to what was
/// asked for. So when a stream is done, it has carried exactly what was asked for, both ways.
pub proof fn law_done_stream_has_carried_everything(
    id: u64,
    workload: Workload,
    bytes: u64,
    transfers: Seq<Transfer>,
)
    ensures
        after_transfers(ClientStream::fresh(id, workload, bytes), transfers) matches Some(stream)
            ==> {
            &&& on_course(stream, workload, bytes, bytes_sent(transfers))
            &&& stream.recv_remaining + bytes_received(transfers) == workload.to_client(bytes)
            &&& stream.is_done() ==> bytes_sent(transfers) == workload.to_server(bytes)
                && bytes_received(transfers) == workload.to_client(bytes)
        },
    decreases transfers.len(),
{
    if transfers.len() > 0 {
        law_done_stream_has_carried_everything(id, workload, bytes, transfers.drop_last());
    }
}

/// A piece is all that remains, and then it is the last, or else 65536 bytes of it.
pub proof fn law_pieces_are_cut_whole(remaining: u64, piece: Piece)
    requires
        remaining > 0,
        call_ensures(cut_piece, (remaining,), piece),
    ensures
        0 < piece.len <= remaining,
        piece.fin <==> piece.len == remaining,
        piece.fin <==> remaining <= 65536,
        !piece.fin ==> piece.len == 65536,
{
}

/// Streams are numbered every fourth from the given number on, and are open for exactly the bytes
/// of their workload.
pub proof fn law_streams_are_numbered_by_four(
    next_id: u64,
    count: usize,
    workload: Workload,
    bytes: u64,
    opened: (Vec<ClientStream>, u64),
    up: u64,
    down: u64,
    at: int,
)
    requires
        next_id + 4 * count <= 0xffff_ffff_ffff_ffff,
        call_ensures(open_streams, (next_id, count, workload, bytes), opened),
        call_ensures(Workload::bytes_to_server, (workload, bytes), up),
        call_ensures(Workload::bytes_to_client, (workload, bytes), down),
        0 <= at < count,
    ensures
        opened.0@.len() == count,
        opened.1 == next_id + 4 * count,
        ({
            let stream = opened.0@[at];
            &&& stream.id == next_id + 4 * at
            &&& !stream.header_sent
            &&& stream.send_remaining == up
            &&& stream.recv_remaining == down
            &&& stream.send_fin <==> up == 0
        }),
{
}

/// A header goes out whole or not at all. Bytes that come are taken off what is to come, and more
/// than that are a fault. Bytes that are sent are taken off what is to be sent, and the end goes
/// out with the last of them.
pub proof fn law_streams_count_their_bytes(
    first: &mut ClientStream,
    taken: usize,
    header: Result<(), LoadError>,
    second: &mut ClientStream,
    count: u64,
    received: Result<(), LoadError>,
    third: &mut ClientStream,
    sent: usize,
    more: bool,
)
    requires
        call_ensures(ClientStream::header_offered, (first, taken), header),
        call_ensures(ClientStream::received, (second, count), received),
        old(third).send_remaining > 0,
        !old(third).send_fin,
        sent <= old(third).send_remaining,
        sent <= 65536,
        call_ensures(ClientStream::piece_offered, (third, sent), more),
    ensures
        header is Ok <==> taken == 9,
        header matches Err(error) ==> error == LoadError::PartialHeader(taken),
        final(first).header_sent <==> old(first).header_sent || taken == 9,
        final(first).send_remaining == old(first).send_remaining,
        received is Ok <==> count <= old(second).recv_remaining,
        received matches Err(error) ==> error == LoadError::TooManyBytes(old(second).id),
        received is Ok ==> final(second).recv_remaining + count == old(second).recv_remaining,
        received is Err ==> *final(second) == *old(second),
        final(second).send_remaining == old(second).send_remaining,
        final(third).send_remaining + sent == old(third).send_remaining,
        final(third).send_fin <==> final(third).send_remaining == 0,
        final(third).recv_remaining == old(third).recv_remaining,
        more <==> sent == old(third).send_remaining || sent == 65536,
{
}

/// A stream sends its header before anything else, then its bytes, and then nothing.
pub proof fn law_header_is_sent_first(
    load: &LoadGenerator,
    at: usize,
    action: Option<WriteAction>,
    written: [u8; 9],
)
    requires
        at < load@.streams.len(),
        call_ensures(LoadGenerator::write_action, (load, at), action),
        call_ensures(header, (load@.workload, load@.bytes), written),
    ensures
        ({
            let stream = load@.streams[at as int];
            &&& !stream.header_sent ==> (action matches Some(WriteAction::Header(bytes)) && bytes@
                == written@)
            &&& stream.header_sent && stream.send_remaining == 0 ==> action is None
            &&& stream.header_sent && stream.send_remaining > 0 ==> (action matches Some(
                WriteAction::Piece(piece),
            ) && {
                &&& 0 < piece.len <= stream.send_remaining
                &&& piece.fin <==> piece.len == stream.send_remaining
                &&& piece.len == stream.send_remaining || piece.len == 65536
            })
        }),
{
}

/// A round has as many fresh streams as it is begun with, and their numbers go on where the last
/// round's ended.
pub proof fn law_rounds_go_on_with_the_numbers(
    workload: Workload,
    bytes: u64,
    fresh: LoadGenerator,
    first: &mut LoadGenerator,
    one: usize,
    second: &mut LoadGenerator,
    two: usize,
    at: usize,
    id: u64,
    len: usize,
)
    requires
        4 * one + 4 * two <= 0xffff_ffff_ffff_ffff,
        call_ensures(LoadGenerator::new, (workload, bytes), fresh),
        *old(first) == fresh,
        call_ensures(LoadGenerator::begin_round, (first, one), ()),
        *old(second) == *final(first),
        call_ensures(LoadGenerator::begin_round, (second, two), ()),
        at < two,
        call_ensures(LoadGenerator::len, (&*final(second),), len),
        call_ensures(LoadGenerator::id, (&*final(second), at), id),
    ensures
        fresh@.streams.len() == 0,
        final(first)@.streams.len() == one,
        len == two,
        id == 4 * one + 4 * at,
        final(second)@.workload == workload && final(second)@.bytes == bytes,
        !final(second)@.streams[at as int].header_sent,
{
}

/// Bytes that come on a stream of the round are its own: no other stream is touched. On a number of
/// no stream they are left alone.
pub proof fn law_bytes_come_on_their_stream(
    load: &mut LoadGenerator,
    at: int,
    count: u64,
    result: Result<(), LoadError>,
    other: &mut LoadGenerator,
    id: u64,
    ignored: Result<(), LoadError>,
)
    requires
        old(load)@.wf(),
        0 <= at < old(load)@.streams.len(),
        call_ensures(
            LoadGenerator::received,
            (load, old(load)@.streams[at].id, count),
            result,
        ),
        old(other)@.wf(),
        forall|i: int|
            0 <= i < old(other)@.streams.len() ==> (#[trigger] old(other)@.streams[i]).id != id,
        call_ensures(LoadGenerator::received, (other, id, count), ignored),
    ensures
        ({
            let stream = old(load)@.streams[at];
            &&& result is Ok <==> count <= stream.recv_remaining
            &&& result matches Err(error) ==> error == LoadError::TooManyBytes(stream.id)
            &&& result is Ok ==> final(load)@.streams[at].recv_remaining + count
                == stream.recv_remaining
            &&& result is Err ==> final(load)@ == old(load)@
            &&& final(load)@.streams.len() == old(load)@.streams.len()
        }),
        forall|i: int|
            0 <= i < old(load)@.streams.len() && i != at ==> #[trigger] final(load)@.streams[i]
                == old(load)@.streams[i],
        ignored is Ok && final(other)@ == old(other)@,
{
    let stream = old(load)@.streams[at];
    assert(0 <= at < old(load)@.streams.len() && stream.id == old(load)@.streams[at].id);
}

/// A round is over when every one of its streams has received all and sent the end, and not before.
pub proof fn law_round_is_over_with_the_last_stream(load: &LoadGenerator, done: bool, at: int)
    requires
        0 <= at < load@.streams.len(),
        call_ensures(LoadGenerator::is_done, (load,), done),
    ensures
        done ==> load@.streams[at].recv_remaining == 0 && load@.streams[at].send_fin,
        (forall|i: int|
            0 <= i < load@.streams.len() ==> (#[trigger] load@.streams[i]).recv_remaining == 0
                && load@.streams[i].send_fin) ==> done,
{
    if done {
        assert(load@.streams[at].is_done());
    }
}

/// A stream that was found has the number, and the first that has it is found.
pub proof fn law_streams_are_found_by_number(
    streams: &[ClientStream],
    at: int,
    found: Option<usize>,
)
    requires
        0 <= at < streams@.len(),
        call_ensures(find_stream, (streams, streams@[at].id), found),
    ensures
        found matches Some(first) && first <= at && streams@[first as int].id == streams@[at].id,
{
    assert(has_number(streams@, streams@[at].id));
    if let Some(first) = found {
        if at < first {
            assert(streams@.take(first as int)[at] == streams@[at]);
            assert(has_number(streams@.take(first as int), streams@[at].id));
        }
    }
}

/// The payload of all streams together is that of one times their number, and twice that where the
/// bytes go both ways.
pub proof fn law_both_directions_count(
    workload: Workload,
    streams: usize,
    bytes: u64,
    total: u64,
)
    requires
        2 * (bytes * streams) <= 0xffff_ffff_ffff_ffff,
        call_ensures(application_bytes, (workload, streams, bytes), total),
    ensures
        workload is Bidi ==> total == 2 * (bytes * streams),
        !(workload is Bidi) ==> total == bytes * streams,
{
    assert(bytes * streams * 2 == 2 * (bytes * streams));
    assert(bytes * streams * 1 == bytes * streams);
}

} // verus!
