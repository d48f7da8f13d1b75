//! The servers under test: what they do with a stream.

use std::collections::HashMap;

use vstd::prelude::*;
use vstd::slice::slice_subrange;
use vstd::std_specs::iter::IteratorSpec;
use vstd::string::*;

use crate::bench::load::{cut_piece, next_piece, Piece};
use crate::bench::protocol::{header, header_in, header_of, law_header_round_trip, parse_header, Workload,
    CHUNK, HEADER_LEN};
use crate::text::{digits_of, number};

verus! {

/// Why a stream failed.
#[derive(Clone, Copy, Debug, PartialEq, Eq, Structural)]
pub enum ServeError {
    BadHeader,
    TooManyBytes,
    EndedInHeader,
    EndedInBody,
}

impl ServeError {
    /// The words that the error is reported with.
    pub open spec fn text(self) -> Seq<char> {
        match self {
            ServeError::BadHeader => "bad benchmark header"@,
            ServeError::TooManyBytes => "client sent more bytes than requested"@,
            ServeError::EndedInHeader => "stream ended before benchmark header"@,
            ServeError::EndedInBody => "stream ended before requested upload completed"@,
        }
    }

    /// The words that the error is reported with.
    pub fn message(self) -> (result: &'static str)
        ensures
            result@ == self.text(),
    {
        match self {
            ServeError::BadHeader => "bad benchmark header",
            ServeError::TooManyBytes => "client sent more bytes than requested",
            ServeError::EndedInHeader => "stream ended before benchmark header",
            ServeError::EndedInBody => "stream ended before requested upload completed",
        }
    }

    /// The words that the error is reported with by a server that names the stream.
    pub open spec fn stream_text(self, id: u64) -> Seq<char> {
        match self {
            ServeError::TooManyBytes => "client sent too many bytes on stream "@ + digits_of(
                id as nat,
            ),
            _ => self.text(),
        }
    }

    /// The words that the error is reported with by a server that names the stream.
    pub fn stream_message(self, id: u64) -> (result: String)
        ensures
            result@ == self.stream_text(id),
    {
        match self {
            ServeError::TooManyBytes => "client sent too many bytes on stream ".to_owned().concat(
                &number(id),
            ),
            _ => self.message().to_owned(),
        }
    }
}

/// A stream of a server that is driven by what can be read and written.
pub struct ServerStream {
    header: Vec<u8>,
    workload: Option<Workload>,
    recv_remaining: u64,
    send_remaining: u64,
    response_done: bool,
}

/// A stream as a server sees it.
pub ghost struct Served {
    /// As much of the header as has come.
    pub header: Seq<u8>,
    /// What the client wants, once the header has come.
    pub workload: Option<Workload>,
    pub recv_remaining: u64,
    pub send_remaining: u64,
    pub response_done: bool,
}

impl View for ServerStream {
    type V = Served;

    closed spec fn view(&self) -> Served {
        Served {
            header: self.header@,
            workload: self.workload,
            recv_remaining: self.recv_remaining,
            send_remaining: self.send_remaining,
            response_done: self.response_done,
        }
    }
}

impl Served {
    /// A stream on which nothing has come.
    pub open spec fn fresh() -> Self {
        Served {
            header: Seq::empty(),
            workload: None,
            recv_remaining: 0,
            send_remaining: 0,
            response_done: false,
        }
    }

    /// The header is incomplete as long as the workload is not known, and nothing is to be sent or
    /// received until then.
    pub open spec fn wf(self) -> bool {
        match self.workload {
            None => self.header.len() < HEADER_LEN && self.recv_remaining == 0
                && self.send_remaining == 0,
            Some(_) => self.header.len() == HEADER_LEN,
        }
    }

    /// How many of so many bytes belong to the header.
    pub open spec fn header_share(self, count: nat) -> nat {
        if self.workload is Some {
            0
        } else if count < HEADER_LEN - self.header.len() {
            count
        } else {
            (HEADER_LEN - self.header.len()) as nat
        }
    }

    /// The stream with more bytes in its header, which say what the client wants as soon as they
    /// are all there.
    pub open spec fn after_header(self, bytes: Seq<u8>) -> Option<Self> {
        let header = self.header + bytes;
        if self.workload is Some {
            Some(self)
        } else if header.len() < HEADER_LEN {
            Some(Served { header, ..self })
        } else {
            match header_in(header) {
                None => None,
                Some((workload, count)) => Some(
                    Served {
                        header,
                        workload: Some(workload),
                        recv_remaining: workload.to_server(count),
                        send_remaining: workload.to_client(count),
                        ..self
                    },
                ),
            }
        }
    }

    /// The stream after bytes came, or why it failed.
    pub open spec fn after_receive(self, bytes: Seq<u8>) -> Result<Self, ServeError> {
        let share = self.header_share(bytes.len());
        let body = bytes.len() - share;
        match self.after_header(bytes.take(share as int)) {
            None => Err(ServeError::BadHeader),
            Some(next) => if body > next.recv_remaining {
                Err(ServeError::TooManyBytes)
            } else {
                Ok(Served { recv_remaining: (next.recv_remaining - body) as u64, ..next })
            },
        }
    }

    /// Whether an answer is to be sent: not before the header has come, nor before an upload has
    /// come whole, nor after everything was sent.
    pub open spec fn answers(self) -> bool {
        &&& self.workload is Some
        &&& !(self.workload == Some(Workload::Upload) && self.recv_remaining > 0)
        &&& !self.response_done
        &&& self.send_remaining > 0
    }

    /// The stream after so many bytes of its next piece were taken.
    pub open spec fn after_send(self, taken: usize) -> Self {
        let piece = next_piece(self.send_remaining);
        Served {
            send_remaining: (self.send_remaining - taken) as u64,
            response_done: self.response_done || (piece.fin && taken == piece.len),
            ..self
        }
    }
}

impl ServerStream {
    pub fn new() -> (result: Self)
        ensures
            result@ == Served::fresh(),
            result@.wf(),
    {
        let result = ServerStream {
            header: Vec::new(),
            workload: None,
            recv_remaining: 0,
            send_remaining: 0,
            response_done: false,
        };
        assert(result@.header =~= Seq::empty());
        result
    }

    /// Takes bytes that came. Nothing is said of a stream that failed.
    pub fn received(&mut self, bytes: &[u8]) -> (result: Result<(), ServeError>)
        requires
            old(self)@.wf(),
        ensures
            match old(self)@.after_receive(bytes@) {
                Ok(next) => result is Ok && final(self)@ == next && final(self)@.wf(),
                Err(error) => result == Err::<(), ServeError>(error),
            },
    {
        let ghost before = self@;
        let mut offset: usize = 0;
        if self.workload.is_none() {
            let missing = HEADER_LEN - self.header.len();
            let take = if bytes.len() < missing {
                bytes.len()
            } else {
                missing
            };
            self.header.extend_from_slice(slice_subrange(bytes, 0, take));
            assert(self.header@ =~= before.header + bytes@.take(take as int));
            offset = take;
            if self.header.len() == HEADER_LEN {
                match parse_header(&self.header) {
                    None => return Err(ServeError::BadHeader),
                    Some((workload, count)) => {
                        self.workload = Some(workload);
                        self.recv_remaining = workload.bytes_to_server(count);
                        self.send_remaining = workload.bytes_to_client(count);
                    },
                }
            }
        }
        let body = (bytes.len() - offset) as u64;
        if body > self.recv_remaining {
            return Err(ServeError::TooManyBytes);
        }
        self.recv_remaining = self.recv_remaining - body;
        Ok(())
    }

    /// The piece to send next, if there is one.
    pub fn next_send(&self) -> (result: Option<Piece>)
        ensures
            result == if self@.answers() {
                Some(next_piece(self@.send_remaining))
            } else {
                None
            },
    {
        let waiting = match self.workload {
            None => true,
            Some(Workload::Upload) => self.recv_remaining > 0,
            Some(_) => false,
        };
        if waiting || self.response_done || self.send_remaining == 0 {
            return None;
        }
        Some(cut_piece(self.send_remaining))
    }

    /// The next piece was offered for sending, and so many bytes of it were taken. Returns whether
    /// to go on at once.
    pub fn piece_offered(&mut self, taken: usize) -> (result: bool)
        requires
            old(self)@.wf(),
            old(self)@.send_remaining > 0,
            taken <= next_piece(old(self)@.send_remaining).len,
        ensures
            final(self)@.wf(),
            final(self)@ == old(self)@.after_send(taken),
            result == (taken == next_piece(old(self)@.send_remaining).len),
    {
        let piece = cut_piece(self.send_remaining);
        self.send_remaining = self.send_remaining - taken as u64;
        if piece.fin && taken == piece.len {
            self.response_done = true;
        }
        taken == piece.len
    }
}

/// It makes no difference how the bytes of a stream are cut: taking two runs of bytes one after
/// the other comes to the same as taking them at once.
pub proof fn law_receive_in_parts(stream: Served, a: Seq<u8>, b: Seq<u8>)
    requires
        stream.wf(),
        a.len() + b.len() <= u64::MAX,
    ensures
        stream.after_receive(a + b) == match stream.after_receive(a) {
            Ok(next) => next.after_receive(b),
            Err(error) => Err(error),
        },
{
    let all = a + b;
    let share = stream.header_share(all.len());
    let first = stream.header_share(a.len());
    if stream.workload is None {
        if stream.header.len() + a.len() < HEADER_LEN {
            assert(a.take(first as int) =~= a);
            let next = stream.after_header(a).unwrap();
            let second = next.header_share(b.len());
            assert(all.take(share as int) =~= a + b.take(second as int));
            assert(stream.header + all.take(share as int) =~= next.header + b.take(second as int));
        } else {
            assert(all.take(share as int) =~= a.take(first as int));
        }
    } else {
        assert(all.take(0) =~= a.take(0));
    }
}

/// A client that sends the header and exactly what the header announces is answered with what it
/// asked for.
pub proof fn law_announced_bytes_are_answered(workload: Workload, bytes: u64, body: Seq<u8>)
    requires
        body.len() == workload.to_server(bytes),
    ensures
        Served::fresh().after_receive(header_of(workload, bytes) + body) matches Ok(next) && {
            &&& next.recv_remaining == 0
            &&& next.send_remaining == workload.to_client(bytes)
            &&& next.workload == Some(workload)
        },
{
    let all = header_of(workload, bytes) + body;
    let head = header_of(workload, bytes);
    law_header_round_trip(workload, bytes, seq![]);
    assert(head + seq![] =~= head);
    crate::big_endian::law_be_round_trip(bytes as nat, 8);
    assert(all.take(HEADER_LEN as int) =~= head);
    assert(Served::fresh().header + head =~= head);
}

/// What is left to do on a stream of a server that works on one stream at a time.
#[derive(Clone, Copy, Debug, PartialEq, Eq, Structural)]
pub struct StreamPlan {
    pub workload: Workload,
    /// How many bytes are to come.
    pub receive: u64,
    /// How many bytes are to be sent.
    pub send: u64,
}

/// The header of a stream, gathered from the chunks in which it comes.
pub struct HeaderGatherer {
    header: Vec<u8>,
    body: u64,
}

impl HeaderGatherer {
    /// As much of the header as has come.
    pub closed spec fn gathered(self) -> Seq<u8> {
        self.header@
    }

    /// How many bytes have come after the header.
    pub closed spec fn surplus(self) -> u64 {
        self.body
    }

    pub open spec fn wf(self) -> bool {
        &&& self.gathered().len() <= HEADER_LEN
        &&& self.gathered().len() < HEADER_LEN ==> self.surplus() == 0
    }

    pub fn new() -> (result: Self)
        ensures
            result.wf(),
            result.gathered() == Seq::<u8>::empty(),
            result.surplus() == 0,
    {
        HeaderGatherer { header: Vec::new(), body: 0 }
    }

    /// Whether the header is complete.
    pub fn is_complete(&self) -> (result: bool)
        ensures
            result == (self.gathered().len() >= HEADER_LEN),
    {
        self.header.len() >= HEADER_LEN
    }

    /// Takes the next chunk, or the news that there is none.
    pub fn receive(&mut self, chunk: Option<&[u8]>) -> (result: Result<(), ServeError>)
        requires
            old(self).wf(),
            old(self).gathered().len() < HEADER_LEN,
        ensures
            final(self).wf(),
            match chunk {
                None => {
                    &&& result == Err::<(), ServeError>(ServeError::EndedInHeader)
                    &&& *final(self) == *old(self)
                },
                Some(chunk) => {
                    let all = old(self).gathered() + chunk@;
                    &&& result is Ok
                    &&& if all.len() < HEADER_LEN {
                        final(self).gathered() == all && final(self).surplus() == 0
                    } else {
                        &&& final(self).gathered() == all.take(HEADER_LEN as int)
                        &&& final(self).surplus() == all.len() - HEADER_LEN
                    }
                },
            },
    {
        match chunk {
            None => Err(ServeError::EndedInHeader),
            Some(chunk) => {
                let ghost all = self.header@ + chunk@;
                let needed = HEADER_LEN - self.header.len();
                let take = if chunk.len() < needed {
                    chunk.len()
                } else {
                    needed
                };
                self.header.extend_from_slice(slice_subrange(chunk, 0, take));
                self.body = (chunk.len() - take) as u64;
                proof {
                    if all.len() < HEADER_LEN {
                        assert(self.header@ =~= all);
                    } else {
                        assert(self.header@ =~= all.take(HEADER_LEN as int));
                    }
                }
                Ok(())
            },
        }
    }

    /// What is left to do, by the header and by what has come after it.
    pub fn plan(&self) -> (result: Result<StreamPlan, ServeError>)
        ensures
            result == match header_in(self.gathered()) {
                None => Err::<StreamPlan, ServeError>(ServeError::BadHeader),
                Some((workload, bytes)) => if self.surplus() > bytes {
                    Err(ServeError::TooManyBytes)
                } else {
                    Ok(
                        StreamPlan {
                            workload,
                            receive: if workload == Workload::Download {
                                0
                            } else {
                                (bytes - self.surplus()) as u64
                            },
                            send: workload.to_client(bytes),
                        },
                    )
                },
            },
    {
        match parse_header(&self.header) {
            None => Err(ServeError::BadHeader),
            Some((workload, bytes)) => {
                if self.body > bytes {
                    return Err(ServeError::TooManyBytes);
                }
                let receive = match workload {
                    Workload::Download => 0,
                    _ => bytes - self.body,
                };
                Ok(StreamPlan { workload, receive, send: workload.bytes_to_client(bytes) })
            },
        }
    }
}

/// How many bytes are to come after a chunk of this length, or after the news that there is none.
pub fn receive_exact(remaining: u64, chunk: Option<usize>) -> (result: Result<u64, ServeError>)
    ensures
        result == match chunk {
            None => Err::<u64, ServeError>(ServeError::EndedInBody),
            Some(length) => if length > remaining {
                Err(ServeError::TooManyBytes)
            } else {
                Ok((remaining - length) as u64)
            },
        },
{
    match chunk {
        None => Err(ServeError::EndedInBody),
        Some(length) => {
            let length = length as u64;
            if length > remaining {
                Err(ServeError::TooManyBytes)
            } else {
                Ok(remaining - length)
            }
        },
    }
}

/// The length of the next chunk to send, and how many bytes remain after it; nothing once all
/// were sent.
pub fn send_exact(remaining: u64) -> (result: Option<(usize, u64)>)
    ensures
        match result {
            None => remaining == 0,
            Some((length, rest)) => {
                &&& remaining > 0
                &&& length == next_piece(remaining).len
                &&& rest == remaining - length
                &&& 0 < length <= CHUNK
            },
        },
{
    if remaining == 0 {
        return None;
    }
    let piece = cut_piece(remaining);
    Some((piece.len, remaining - piece.len as u64))
}

/// How many bytes are sent in all, chunk by chunk.
pub open spec fn total_sent(remaining: u64) -> nat
    decreases remaining,
{
    if remaining == 0 {
        0
    } else {
        let length = next_piece(remaining).len;
        length as nat + total_sent((remaining - length) as u64)
    }
}

/// The chunks that are sent add up to what was to be sent.
pub proof fn law_chunks_add_up(remaining: u64)
    ensures
        total_sent(remaining) == remaining,
    decreases remaining,
{
    if remaining > 0 {
        law_chunks_add_up((remaining - next_piece(remaining).len) as u64);
    }
}

/// The streams of a server on one connection, by their numbers.
pub struct ServerStreams {
    streams: HashMap<u64, ServerStream>,
}

impl View for ServerStreams {
    type V = Map<u64, Served>;

    closed spec fn view(&self) -> Map<u64, Served> {
        self.streams@.map_values(|stream: ServerStream| stream@)
    }
}

/// The stream with a number, as far as it has come.
pub open spec fn stream_in(streams: Map<u64, Served>, id: u64) -> Served {
    if streams.contains_key(id) {
        streams[id]
    } else {
        Served::fresh()
    }
}

impl ServerStreams {
    /// Every stream is sound.
    pub open spec fn wf(self) -> bool {
        forall|id: u64| #[trigger] self@.contains_key(id) ==> self@[id].wf()
    }

    pub fn new() -> (result: Self)
        ensures
            result.wf(),
            result@ == Map::<u64, Served>::empty(),
    {
        broadcast use vstd::std_specs::hash::group_hash_axioms;

        let result = ServerStreams { streams: HashMap::new() };
        assert(result@ =~= Map::empty());
        result
    }

    /// The numbers of the streams, in any order.
    pub fn ids(&self) -> (result: Vec<u64>)
        ensures
            result@.no_duplicates(),
            result@.to_set() == self@.dom(),
    {
        broadcast use vstd::std_specs::hash::group_hash_axioms;

        let mut ids: Vec<u64> = Vec::new();
        let keys = self.streams.keys();
        let ghost all = keys.remaining().unref();
        for id in iter: keys
            invariant
                iter.seq().unref() == all,
                ids@ == all.take(iter.index() as int),
        {
            ids.push(*id);
        }
        assert(ids@ =~= all);
        assert(self@.dom() =~= self.streams@.dom());
        ids
    }

    /// Takes bytes that came on the stream with a number. A number that has not come up yet is a
    /// new stream. Nothing is said of the streams after one failed.
    pub fn received(&mut self, id: u64, bytes: &[u8]) -> (result: Result<(), ServeError>)
        requires
            old(self).wf(),
        ensures
            match stream_in(old(self)@, id).after_receive(bytes@) {
                Ok(next) => {
                    &&& result is Ok
                    &&& final(self).wf()
                    &&& final(self)@ == old(self)@.insert(id, next)
                },
                Err(error) => result == Err::<(), ServeError>(error),
            },
    {
        broadcast use vstd::std_specs::hash::group_hash_axioms;

        let ghost before = self@;
        let mut stream = match self.streams.remove(&id) {
            Some(stream) => {
                assert(before.contains_key(id));
                stream
            },
            None => ServerStream::new(),
        };
        if let Err(error) = stream.received(bytes) {
            return Err(error);
        }
        self.streams.insert(id, stream);
        assert(self@ =~= before.insert(id, stream@));
        Ok(())
    }

    /// The piece to send next on the stream with a number, if there is one.
    pub fn next_send(&self, id: u64) -> (result: Option<Piece>)
        ensures
            result == if self@.contains_key(id) && self@[id].answers() {
                Some(next_piece(self@[id].send_remaining))
            } else {
                None
            },
    {
        broadcast use vstd::std_specs::hash::group_hash_axioms;

        match self.streams.get(&id) {
            Some(stream) => stream.next_send(),
            None => None,
        }
    }

    /// The next piece of a stream was offered for sending: so many bytes of it were taken, or,
    /// without a number, none can be for now. Returns whether to go on with the stream at once.
    pub fn piece_offered(&mut self, id: u64, taken: Option<usize>) -> (result: bool)
        requires
            old(self).wf(),
            old(self)@.contains_key(id),
            old(self)@[id].send_remaining > 0,
            taken matches Some(taken) ==> taken <= next_piece(old(self)@[id].send_remaining).len,
        ensures
            final(self).wf(),
            match taken {
                None => !result && final(self)@ == old(self)@,
                Some(taken) => {
                    let stream = old(self)@[id];
                    &&& result == (taken == next_piece(stream.send_remaining).len)
                    &&& final(self)@ == old(self)@.insert(id, stream.after_send(taken))
                },
            },
    {
        broadcast use vstd::std_specs::hash::group_hash_axioms;

        let taken = match taken {
            None => return false,
            Some(taken) => taken,
        };
        let ghost before = self@;
        match self.streams.remove(&id) {
            None => false,
            Some(mut stream) => {
                let more = stream.piece_offered(taken);
                self.streams.insert(id, stream);
                assert(self@ =~= before.insert(id, before[id].after_send(taken)));
                more
            },
        }
    }
}

/// What a server for one connection does with a datagram.
#[derive(Clone, Copy, Debug, PartialEq, Eq, Structural)]
pub enum DatagramUse {
    /// Open the connection with the sender, and hand it the datagram.
    Open,
    /// Hand the datagram to the connection.
    Deliver,
    /// Leave it.
    Ignore,
}

/// Says what a server for one connection does with a datagram: only the first sender that begins
/// properly is served.
pub fn datagram_use(connected: bool, begins: bool, from_peer: bool) -> (result: DatagramUse)
    ensures
        result == if connected {
            if from_peer {
                DatagramUse::Deliver
            } else {
                DatagramUse::Ignore
            }
        } else if begins {
            DatagramUse::Open
        } else {
            DatagramUse::Ignore
        },
{
    if connected {
        if from_peer {
            DatagramUse::Deliver
        } else {
            DatagramUse::Ignore
        }
    } else if begins {
        DatagramUse::Open
    } else {
        DatagramUse::Ignore
    }
}

/// A stream takes nine bytes as its header, however they are cut, and what follows is counted
/// against what the header announces.
pub proof fn law_streams_are_served_as_announced(
    workload: Workload,
    bytes: u64,
    written: [u8; 9],
    body: Seq<u8>,
    fresh: ServerStream,
    stream: &mut ServerStream,
    chunk: &[u8],
    result: Result<(), ServeError>,
    up: u64,
    down: u64,
)
    requires
        call_ensures(header, (workload, bytes), written),
        call_ensures(Workload::bytes_to_server, (workload, bytes), up),
        call_ensures(Workload::bytes_to_client, (workload, bytes), down),
        call_ensures(ServerStream::new, (), fresh),
        *old(stream) == fresh,
        chunk@ == written@ + body,
        call_ensures(ServerStream::received, (stream, chunk), result),
    ensures
        result is Ok <==> body.len() <= up,
        result matches Err(error) ==> error == ServeError::TooManyBytes,
        result is Ok ==> {
            let after = final(stream)@;
            &&& after.workload == Some(workload)
            &&& after.recv_remaining + body.len() == up
            &&& after.send_remaining == down
            &&& !after.response_done
        },
{
    let head = written@;
    law_header_round_trip(workload, bytes, seq![]);
    assert(head + seq![] =~= head);
    crate::big_endian::law_be_round_trip(bytes as nat, 8);
    assert(chunk@.take(9) =~= head);
    assert(Served::fresh().header + head =~= head);
}

/// A stream answers once its header has come, and after an upload only once that has come whole. It
/// sends pieces of what remains until all of it is out.
pub proof fn law_answers_wait_for_the_upload(
    stream: &ServerStream,
    piece: Option<Piece>,
)
    requires
        call_ensures(ServerStream::next_send, (stream,), piece),
    ensures
        ({
            let s = stream@;
            &&& piece is Some <==> s.workload is Some && (s.workload == Some(Workload::Upload)
                ==> s.recv_remaining == 0) && !s.response_done && s.send_remaining > 0
            &&& piece matches Some(cut) ==> {
                &&& 0 < cut.len <= s.send_remaining
                &&& cut.fin <==> cut.len == s.send_remaining
                &&& cut.len == s.send_remaining || cut.len == 65536
            }
        }),
{
}

/// Bytes of an answer that are out are not sent again, and the answer is done with its last byte.
pub proof fn law_answers_end_with_their_last_byte(
    stream: &mut ServerStream,
    taken: usize,
    more: bool,
)
    requires
        old(stream)@.wf(),
        old(stream)@.send_remaining > 0,
        !old(stream)@.response_done,
        taken <= old(stream)@.send_remaining,
        taken <= 65536,
        call_ensures(ServerStream::piece_offered, (stream, taken), more),
    ensures
        final(stream)@.send_remaining + taken == old(stream)@.send_remaining,
        final(stream)@.response_done <==> final(stream)@.send_remaining == 0,
        final(stream)@.recv_remaining == old(stream)@.recv_remaining,
        final(stream)@.workload == old(stream)@.workload,
        more <==> taken == old(stream)@.send_remaining || taken == 65536,
{
}

/// A header is gathered from its chunks: it is complete with nine bytes, what follows them is
/// counted, and a stream that ends before is a fault.
pub proof fn law_headers_are_gathered(
    gatherer: &mut HeaderGatherer,
    chunk: Option<&[u8]>,
    result: Result<(), ServeError>,
    complete: bool,
)
    requires
        old(gatherer).wf(),
        old(gatherer).gathered().len() < 9,
        call_ensures(HeaderGatherer::receive, (gatherer, chunk), result),
        call_ensures(HeaderGatherer::is_complete, (&*final(gatherer),), complete),
    ensures
        chunk is None <==> result == Err::<(), ServeError>(ServeError::EndedInHeader),
        chunk is None ==> !complete,
        chunk matches Some(bytes) ==> {
            let all = old(gatherer).gathered() + bytes@;
            &&& result is Ok
            &&& complete <==> all.len() >= 9
            &&& all.len() < 9 ==> final(gatherer).gathered() == all
            &&& all.len() >= 9 ==> final(gatherer).gathered() == all.take(9)
                && final(gatherer).surplus() == all.len() - 9
        },
{
}

/// A stream is planned by its header. What came after the header is taken off what is to come, and
/// more than was announced is a fault.
pub proof fn law_plans_follow_the_header(
    workload: Workload,
    bytes: u64,
    written: [u8; 9],
    gatherer: &HeaderGatherer,
    plan: Result<StreamPlan, ServeError>,
    down: u64,
)
    requires
        call_ensures(header, (workload, bytes), written),
        call_ensures(Workload::bytes_to_client, (workload, bytes), down),
        gatherer.gathered() == written@,
        call_ensures(HeaderGatherer::plan, (gatherer,), plan),
    ensures
        plan is Ok <==> gatherer.surplus() <= bytes,
        plan matches Err(error) ==> error == ServeError::TooManyBytes,
        plan matches Ok(planned) ==> {
            &&& planned.workload == workload
            &&& planned.send == down
            &&& workload is Download ==> planned.receive == 0
            &&& !(workload is Download) ==> planned.receive + gatherer.surplus() == bytes
        },
{
    law_header_round_trip(workload, bytes, seq![]);
    assert(written@ + seq![] =~= written@);
}

/// Every chunk is taken off what is to come or to be sent. More than is to come is a fault, and so
/// is an early end; chunks to send are cut at 65536 bytes.
pub proof fn law_chunks_are_taken_off(
    remaining: u64,
    chunk: Option<usize>,
    result: Result<u64, ServeError>,
    next: Option<(usize, u64)>,
)
    requires
        call_ensures(receive_exact, (remaining, chunk), result),
        call_ensures(send_exact, (remaining,), next),
    ensures
        chunk is None ==> result == Err::<u64, ServeError>(ServeError::EndedInBody),
        chunk matches Some(length) ==> {
            &&& length > remaining ==> result == Err::<u64, ServeError>(ServeError::TooManyBytes)
            &&& length <= remaining ==> (result matches Ok(rest) && rest + length == remaining)
        },
        next is None <==> remaining == 0,
        next matches Some((length, rest)) ==> {
            &&& 0 < length <= 65536
            &&& length + rest == remaining
            &&& rest == 0 || length == 65536
        },
{
}

/// A connection is opened by the first datagram that begins one. After that its sender's datagrams
/// are delivered and nobody else's are.
pub proof fn law_one_sender_is_served(
    connected: bool,
    begins: bool,
    from_peer: bool,
    result: DatagramUse,
)
    requires
        call_ensures(datagram_use, (connected, begins, from_peer), result),
    ensures
        result is Open <==> !connected && begins,
        result is Deliver <==> connected && from_peer,
        result is Ignore <==> (connected && !from_peer) || (!connected && !begins),
{
}

/// Bytes that come on one number, and pieces that are sent on it, leave the streams with other
/// numbers alone. A number that has not come up is a fresh stream.
pub proof fn law_streams_are_kept_apart(
    streams: &mut ServerStreams,
    id: u64,
    bytes: &[u8],
    result: Result<(), ServeError>,
    fresh: ServerStream,
    alone: &mut ServerStream,
    same: Result<(), ServeError>,
    other: u64,
)
    requires
        old(streams).wf(),
        call_ensures(ServerStreams::received, (streams, id, bytes), result),
        call_ensures(ServerStream::new, (), fresh),
        old(alone)@ == if old(streams)@.contains_key(id) {
            old(streams)@[id]
        } else {
            fresh@
        },
        call_ensures(ServerStream::received, (alone, bytes), same),
        other != id,
    ensures
        result is Ok <==> same is Ok,
        result matches Err(error) ==> same == Err::<(), ServeError>(error),
        result is Ok ==> {
            &&& final(streams)@.contains_key(id)
            &&& final(streams)@[id] == final(alone)@
            &&& final(streams)@.contains_key(other) <==> old(streams)@.contains_key(other)
            &&& old(streams)@.contains_key(other) ==> final(streams)@[other]
                == old(streams)@[other]
        },
{
}

/// A stream among others sends what it would send alone.
pub proof fn law_streams_answer_for_themselves(
    streams: &ServerStreams,
    id: u64,
    piece: Option<Piece>,
    alone: &ServerStream,
    same: Option<Piece>,
    sending: &mut ServerStreams,
    taken: Option<usize>,
    more: bool,
    other: u64,
)
    requires
        call_ensures(ServerStreams::next_send, (streams, id), piece),
        streams@.contains_key(id) ==> alone@ == streams@[id],
        call_ensures(ServerStream::next_send, (alone,), same),
        old(sending).wf(),
        old(sending)@.contains_key(id),
        old(sending)@[id].send_remaining > 0,
        taken matches Some(n) ==> n <= old(sending)@[id].send_remaining && n <= 65536,
        call_ensures(ServerStreams::piece_offered, (sending, id, taken), more),
        other != id,
    ensures
        streams@.contains_key(id) ==> piece == same,
        !streams@.contains_key(id) ==> piece is None,
        taken is None ==> !more && final(sending)@ == old(sending)@,
        taken matches Some(n) ==> final(sending)@[id].send_remaining + n
            == old(sending)@[id].send_remaining && (more <==> n == old(sending)@[id].send_remaining
            || n == 65536),
        final(sending)@.dom() == old(sending)@.dom(),
        old(sending)@.contains_key(other) ==> final(sending)@[other] == old(sending)@[other],
{
    assert(final(sending)@.dom() =~= old(sending)@.dom());
}

/// The words that an error is reported with tell which error it is.
pub proof fn law_words_tell_serve_errors_apart(error: ServeError, text: &str)
    requires
        call_ensures(ServeError::message, (error,), text),
    ensures
        error is BadHeader <==> text@ == "bad benchmark header"@,
        error is TooManyBytes <==> text@ == "client sent more bytes than requested"@,
        error is EndedInHeader <==> text@ == "stream ended before benchmark header"@,
        error is EndedInBody <==> text@ == "stream ended before requested upload completed"@,
{
    reveal_strlit("bad benchmark header");
    reveal_strlit("client sent more bytes than requested");
    reveal_strlit("stream ended before benchmark header");
    reveal_strlit("stream ended before requested upload completed");
    assert("bad benchmark header"@.len() == 20);
    assert("client sent more bytes than requested"@.len() == 37);
    assert("stream ended before benchmark header"@.len() == 36);
    assert("stream ended before requested upload completed"@.len() == 46);
}

/// The numbers of the streams are told once each: those that have come up, and no others.
pub proof fn law_numbers_are_told_once(streams: &ServerStreams, ids: Vec<u64>, id: u64)
    requires
        call_ensures(ServerStreams::ids, (streams,), ids),
    ensures
        ids@.contains(id) <==> streams@.contains_key(id),
        forall|i: int, j: int| 0 <= i < j < ids@.len() ==> #[trigger] ids@[i] != #[trigger] ids@[j],
{
    assert(ids@.to_set().contains(id) <==> ids@.contains(id));
}

/// A server that names the stream says so where too many bytes came, and in other words as any.
pub proof fn law_streams_are_named_in_errors(
    error: ServeError,
    id: u64,
    text: String,
    plain: &str,
)
    requires
        call_ensures(ServeError::stream_message, (error, id), text),
        call_ensures(ServeError::message, (error,), plain),
    ensures
        error is TooManyBytes ==> text@ == "client sent too many bytes on stream "@ + digits_of(
            id as nat,
        ),
        !(error is TooManyBytes) ==> text@ == plain@,
{
}

} // verus!
