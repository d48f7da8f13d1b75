//! Tagged streams within a session.

use vstd::prelude::*;
use vstd::slice::slice_subrange;
use vstd::string::*;
use vstd::utf8::*;

use crate::big_endian::{be_bytes, be_value, from_be, law_be_round_trip, lemma_limits, to_be};
use crate::error::IoErrorKind;
use crate::external::string_from_utf8;
use crate::session::MultiplexerError;
use crate::text::{digits_of, number};

verus! {

/// What the header of a stream starts with.
pub const HEADER_MAGIC: [u8; 4] = [0x54, 0x4e, 0x4c, 0x01];

/// Maximum number of UTF-8 bytes allowed in a stream tag.
pub const MAX_TAG_LENGTH: usize = 65535;

/// An error opening or accepting a session stream.
#[derive(Clone, Copy, Debug, PartialEq, Eq, Structural)]
pub enum SessionError {
    Multiplexer(MultiplexerError),
    Io(IoErrorKind),
    InvalidStreamHeader,
    InvalidTagEncoding,
    TagTooLong(usize),
    InvalidHeartbeatConfig,
}

impl SessionError {
    /// The words that the error is reported with, where it does not wrap another error.
    pub open spec fn text(self) -> Option<Seq<char>> {
        match self {
            SessionError::Multiplexer(_) | SessionError::Io(_) => None,
            SessionError::InvalidStreamHeader => Some("invalid stream header"@),
            SessionError::InvalidTagEncoding => Some("stream tag is not valid UTF-8"@),
            SessionError::TagTooLong(length) => Some(
                "stream tag is "@ + digits_of(length as nat) + " bytes; maximum is "@ + digits_of(
                    MAX_TAG_LENGTH as nat,
                ),
            ),
            SessionError::InvalidHeartbeatConfig => Some("invalid heartbeat configuration"@),
        }
    }

    /// The words that the error is reported with, where it does not wrap another error.
    pub fn message(self) -> (result: Option<String>)
        ensures
            result matches Some(text) ==> self.text() == Some(text@),
            result is None ==> self.text() is None,
    {
        match self {
            SessionError::Multiplexer(_) | SessionError::Io(_) => None,
            SessionError::InvalidStreamHeader => Some("invalid stream header".to_owned()),
            SessionError::InvalidTagEncoding => Some("stream tag is not valid UTF-8".to_owned()),
            SessionError::TagTooLong(length) => {
                let text = "stream tag is ".to_owned().concat(&number(length as u64));
                let text = text.concat(" bytes; maximum is ");
                Some(text.concat(&number(MAX_TAG_LENGTH as u64)))
            },
            SessionError::InvalidHeartbeatConfig => Some(
                "invalid heartbeat configuration".to_owned(),
            ),
        }
    }
}

/// The header of a stream: the magic, the length of the tag, the tag.
pub open spec fn stream_header(tag: Seq<char>) -> Seq<u8> {
    HEADER_MAGIC@ + be_bytes(encode_utf8(tag).len(), 2) + encode_utf8(tag)
}

/// The header of a stream as far as it was read.
#[derive(Debug)]
pub enum StreamHeaderRead {
    /// This many bytes more are needed to go on.
    Incomplete(usize),
    /// The header carries this tag.
    Complete(String),
    /// The bytes are no stream header.
    Invalid(SessionError),
}

/// What the bytes of a stream header say.
pub ghost enum StreamHeader {
    Incomplete(nat),
    Complete(Seq<char>),
    Invalid(SessionError),
}

impl View for StreamHeaderRead {
    type V = StreamHeader;

    open spec fn view(&self) -> StreamHeader {
        match self {
            StreamHeaderRead::Incomplete(n) => StreamHeader::Incomplete(*n as nat),
            StreamHeaderRead::Complete(tag) => StreamHeader::Complete(tag@),
            StreamHeaderRead::Invalid(error) => StreamHeader::Invalid(*error),
        }
    }
}

/// What bytes say, read from the first one on.
pub open spec fn stream_header_in(bytes: Seq<u8>) -> StreamHeader {
    let length = be_value(bytes.subrange(4, 6)) as int;
    let tag = bytes.subrange(6, 6 + length);
    if bytes.len() < 4 {
        StreamHeader::Incomplete((4 - bytes.len()) as nat)
    } else if bytes.take(4) != HEADER_MAGIC@ {
        StreamHeader::Invalid(SessionError::InvalidStreamHeader)
    } else if bytes.len() < 6 {
        StreamHeader::Incomplete((6 - bytes.len()) as nat)
    } else if bytes.len() < 6 + length {
        StreamHeader::Incomplete((6 + length - bytes.len()) as nat)
    } else if !valid_utf8(tag) {
        StreamHeader::Invalid(SessionError::InvalidTagEncoding)
    } else {
        StreamHeader::Complete(decode_utf8(tag))
    }
}

/// Accepts exactly the tags that fit in a header.
pub fn validate_tag(tag: &str) -> (result: Result<(), SessionError>)
    ensures
        result == if encode_utf8(tag@).len() > MAX_TAG_LENGTH {
            Err::<(), SessionError>(SessionError::TagTooLong(encode_utf8(tag@).len() as usize))
        } else {
            Ok(())
        },
{
    let length = tag.as_bytes().len();
    if length > MAX_TAG_LENGTH {
        return Err(SessionError::TagTooLong(length));
    }
    Ok(())
}

/// Reads a stream header from its first bytes on. Where it is incomplete, exactly the missing
/// bytes are to be read before the next attempt.
pub fn read_stream_header(bytes: &[u8]) -> (result: StreamHeaderRead)
    ensures
        result@ == stream_header_in(bytes@),
{
    if bytes.len() < 4 {
        return StreamHeaderRead::Incomplete(4 - bytes.len());
    }
    let mut i: usize = 0;
    while i < 4
        invariant
            i <= 4 <= bytes@.len(),
            forall|k: int| 0 <= k < i ==> #[trigger] bytes@[k] == HEADER_MAGIC@[k],
        decreases 4 - i,
    {
        if bytes[i] != HEADER_MAGIC[i] {
            assert(bytes@.take(4)[i as int] != HEADER_MAGIC@[i as int]);
            return StreamHeaderRead::Invalid(SessionError::InvalidStreamHeader);
        }
        i += 1;
    }
    assert(bytes@.take(4) =~= HEADER_MAGIC@);
    if bytes.len() < 6 {
        return StreamHeaderRead::Incomplete(6 - bytes.len());
    }
    let field = slice_subrange(bytes, 4, 6);
    proof {
        lemma_limits();
        crate::big_endian::law_be_bytes_of_value(field@);
    }
    let length = from_be(field) as usize;
    if bytes.len() < 6 + length {
        return StreamHeaderRead::Incomplete(6 + length - bytes.len());
    }
    let mut tag: Vec<u8> = Vec::new();
    tag.extend_from_slice(slice_subrange(bytes, 6, 6 + length));
    assert(tag@ =~= bytes@.subrange(6, 6 + length));
    match string_from_utf8(tag) {
        None => StreamHeaderRead::Invalid(SessionError::InvalidTagEncoding),
        Some(text) => StreamHeaderRead::Complete(text),
    }
}

/// A tagged bidirectional stream within a session, over the multiplexer's stream `inner`.
pub struct Stream<S> {
    tag: String,
    inner: S,
}

impl<S> Stream<S> {
    /// The application-defined string identifying this stream.
    pub closed spec fn label(self) -> Seq<char> {
        self.tag@
    }

    /// The multiplexer's stream.
    pub closed spec fn carrier(self) -> S {
        self.inner
    }

    /// Returns the application-defined string identifying this stream.
    pub fn tag(&self) -> (result: &str)
        ensures
            result@ == self.label(),
    {
        self.tag.as_str()
    }

    /// The multiplexer's stream, for its owner's I/O.
    pub fn inner_mut(&mut self) -> (result: &mut S)
        ensures
            *result == old(self).carrier(),
            final(self).carrier() == *final(result),
            final(self).label() == old(self).label(),
    {
        &mut self.inner
    }

    /// Tags a stream that this end opened. The header returned with it is what the stream carries
    /// first.
    pub fn outgoing(inner: S, tag: String) -> (result: Result<(Self, Vec<u8>), SessionError>)
        ensures
            match result {
                Ok((stream, header)) => {
                    &&& encode_utf8(tag@).len() <= MAX_TAG_LENGTH
                    &&& stream.label() == tag@
                    &&& stream.carrier() == inner
                    &&& header@ == stream_header(tag@)
                },
                Err(error) => {
                    &&& encode_utf8(tag@).len() > MAX_TAG_LENGTH
                    &&& error == SessionError::TagTooLong(encode_utf8(tag@).len() as usize)
                },
            },
    {
        if let Err(error) = validate_tag(&tag) {
            return Err(error);
        }
        let bytes = tag.as_str().as_bytes();
        let mut header: Vec<u8> = Vec::new();
        header.extend_from_slice(&HEADER_MAGIC);
        let mut length = to_be(bytes.len() as u64, 2);
        header.append(&mut length);
        header.extend_from_slice(bytes);
        assert(header@ =~= stream_header(tag@));
        Ok((Stream { tag, inner }, header))
    }

    /// A stream that the peer opened, with the tag from its header.
    pub fn incoming(inner: S, tag: String) -> (result: Self)
        ensures
            result.label() == tag@,
            result.carrier() == inner,
    {
        Stream { tag, inner }
    }
}

/// Reading the header of a stream gives the tag that it was written for, whatever follows it.
pub proof fn law_stream_header_round_trip(tag: Seq<char>, rest: Seq<u8>)
    requires
        encode_utf8(tag).len() <= MAX_TAG_LENGTH,
    ensures
        stream_header_in(stream_header(tag) + rest) == StreamHeader::Complete(tag),
{
    let length = encode_utf8(tag).len();
    let bytes = stream_header(tag) + rest;
    lemma_limits();
    law_be_round_trip(length, 2);
    assert(bytes.take(4) =~= HEADER_MAGIC@);
    assert(bytes.subrange(4, 6) =~= be_bytes(length, 2));
    assert(bytes.subrange(6, 6 + length as int) =~= encode_utf8(tag));
    encode_utf8_valid_utf8(tag);
    encode_utf8_decode_utf8(tag);
}

/// A part of a stream header is incomplete, and what it asks for never goes beyond the header.
pub proof fn law_stream_header_is_not_overread(tag: Seq<char>, n: int)
    requires
        encode_utf8(tag).len() <= MAX_TAG_LENGTH,
        0 <= n < stream_header(tag).len(),
    ensures
        stream_header_in(stream_header(tag).take(n)) matches StreamHeader::Incomplete(more) && 0
            < more <= stream_header(tag).len() - n,
{
    let length = encode_utf8(tag).len();
    let bytes = stream_header(tag).take(n);
    lemma_limits();
    law_be_round_trip(length, 2);
    if n >= 4 {
        assert(bytes.take(4) =~= HEADER_MAGIC@);
    }
    if n >= 6 {
        assert(bytes.subrange(4, 6) =~= be_bytes(length, 2));
    }
}

/// The header of a stream is the four bytes of the magic, the length of the tag's UTF-8 bytes in
/// two bytes, and those bytes. A tag of up to 65535 bytes gets one, and a longer one is refused.
pub proof fn law_streams_are_tagged<S>(
    inner: S,
    tag: String,
    text: &str,
    result: Result<(Stream<S>, Vec<u8>), SessionError>,
    valid: Result<(), SessionError>,
)
    requires
        text@ == tag@,
        call_ensures(Stream::<S>::outgoing, (inner, tag), result),
        call_ensures(validate_tag, (text,), valid),
    ensures
        ({
            let length = encode_utf8(tag@).len();
            &&& result is Ok <==> length <= 65535
            &&& valid is Ok <==> length <= 65535
            &&& result matches Err(error) ==> error == SessionError::TagTooLong(length as usize)
            &&& result matches Ok((stream, header)) ==> {
                &&& stream.label() == tag@
                &&& stream.carrier() == inner
                &&& header@ == seq![
                    0x54u8,
                    0x4e,
                    0x4c,
                    0x01,
                    (length / 256) as u8,
                    (length % 256) as u8,
                ] + encode_utf8(tag@)
            }
        }),
{
    let length = encode_utf8(tag@).len();
    reveal_with_fuel(be_bytes, 3);
    if let Ok((stream, header)) = result {
        assert(length / 256 % 256 == length / 256);
        assert(be_bytes(length, 2) =~= seq![(length / 256) as u8, (length % 256) as u8]);
        assert(header@ =~= seq![
            0x54u8,
            0x4e,
            0x4c,
            0x01,
            (length / 256) as u8,
            (length % 256) as u8,
        ] + encode_utf8(tag@));
    }
}

/// What is written before a tagged stream is read as that tag, whatever follows, and what is read
/// as a tag starts with what is written for it. Other bytes are no header.
pub proof fn law_tags_are_read_back(
    tag: Seq<char>,
    rest: Seq<u8>,
    bytes: &[u8],
    read: StreamHeaderRead,
)
    requires
        encode_utf8(tag).len() <= 65535,
        call_ensures(read_stream_header, (bytes,), read),
    ensures
        bytes@ == stream_header(tag) + rest ==> (read matches StreamHeaderRead::Complete(found)
            && found@ == tag),
        read matches StreamHeaderRead::Complete(found) ==> stream_header(found@).is_prefix_of(
            bytes@,
        ),
        read matches StreamHeaderRead::Incomplete(more) ==> more > 0,
        bytes@.len() >= 4 && bytes@.take(4) != seq![0x54u8, 0x4e, 0x4c, 0x01] ==> read
            == StreamHeaderRead::Invalid(SessionError::InvalidStreamHeader),
{
    law_stream_header_round_trip(tag, rest);
    assert(HEADER_MAGIC@ =~= seq![0x54u8, 0x4e, 0x4c, 0x01]);
    if let StreamHeaderRead::Complete(found) = read {
        let field = bytes@.subrange(4, 6);
        let length = be_value(field) as int;
        let name = bytes@.subrange(6, 6 + length);
        decode_utf8_encode_utf8(name);
        crate::big_endian::law_be_bytes_of_value(field);
        let header = stream_header(found@);
        assert forall|i: int| 0 <= i < 6 + length implies bytes@[i] == header[i] by {
            if i < 4 {
                assert(bytes@.take(4)[i] == bytes@[i]);
            } else if i < 6 {
                assert(field[i - 4] == bytes@[i]);
            } else {
                assert(name[i - 6] == bytes@[i]);
            }
        }
        assert(header =~= bytes@.subrange(0, 6 + length));
    }
}

/// A stream that came in has the tag that was read and the stream that carries it.
pub proof fn law_incoming_streams_keep_their_tag<S>(
    inner: S,
    tag: String,
    stream: Stream<S>,
    told: &str,
)
    requires
        call_ensures(Stream::<S>::incoming, (inner, tag), stream),
        call_ensures(Stream::<S>::tag, (&stream,), told),
    ensures
        told@ == tag@,
        stream.carrier() == inner,
{
}

/// As long as a part of a header is missing, more bytes are asked for, and never more than the
/// header has: so nothing of what the stream carries is taken.
pub proof fn law_headers_are_not_overread(tag: Seq<char>, part: &[u8], read: StreamHeaderRead)
    requires
        encode_utf8(tag).len() <= 65535,
        part@.len() < stream_header(tag).len(),
        part@ == stream_header(tag).take(part@.len() as int),
        call_ensures(read_stream_header, (part,), read),
    ensures
        read matches StreamHeaderRead::Incomplete(more) && {
            &&& 0 < more
            &&& part@.len() + more <= stream_header(tag).len()
            &&& part@.len() < 4 ==> part@.len() + more == 4
            &&& 4 <= part@.len() < 6 ==> part@.len() + more == 6
            &&& part@.len() >= 6 ==> part@.len() + more == stream_header(tag).len()
        },
{
    lemma_limits();
    let length = encode_utf8(tag).len();
    law_be_round_trip(length, 2);
    if part@.len() >= 4 {
        assert(part@.take(4) =~= HEADER_MAGIC@);
    }
    if part@.len() >= 6 {
        assert(part@.subrange(4, 6) =~= be_bytes(length, 2));
    }
}

/// A whole header whose tag is not UTF-8 is no header.
pub proof fn law_bad_tags_are_refused(
    tag: Seq<u8>,
    rest: Seq<u8>,
    bytes: &[u8],
    read: StreamHeaderRead,
)
    requires
        tag.len() <= 65535,
        bytes@ == seq![0x54u8, 0x4e, 0x4c, 0x01] + be_bytes(tag.len(), 2) + tag + rest,
        call_ensures(read_stream_header, (bytes,), read),
    ensures
        valid_utf8(tag) <==> read is Complete,
        !valid_utf8(tag) ==> read == StreamHeaderRead::Invalid(SessionError::InvalidTagEncoding),
{
    lemma_limits();
    law_be_round_trip(tag.len(), 2);
    assert(bytes@.take(4) =~= HEADER_MAGIC@);
    assert(bytes@.subrange(4, 6) =~= be_bytes(tag.len(), 2));
    assert(bytes@.subrange(6, 6 + tag.len() as int) =~= tag);
}

/// An error of a session's own is reported in words that say what is wrong, and with the length of
/// a tag that is too long; an error that it passes on has no words of its own.
pub proof fn law_session_errors_say_what_is_wrong(error: SessionError, text: Option<String>)
    requires
        call_ensures(SessionError::message, (error,), text),
    ensures
        text is None <==> error is Multiplexer || error is Io,
        error is InvalidStreamHeader ==> text->0@ == "invalid stream header"@,
        error is InvalidTagEncoding ==> text->0@ == "stream tag is not valid UTF-8"@,
        error is InvalidHeartbeatConfig ==> text->0@ == "invalid heartbeat configuration"@,
        error matches SessionError::TagTooLong(length) ==> text->0@ == "stream tag is "@
            + digits_of(length as nat) + " bytes; maximum is "@ + digits_of(65535),
{
}

} // verus!
