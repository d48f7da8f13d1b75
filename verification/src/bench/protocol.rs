//! The protocol of the benchmark: a header on each stream, then bytes that mean nothing.

use vstd::prelude::*;

use crate::big_endian::{be_bytes, be_value, from_be, law_be_bytes_of_value, law_be_round_trip,
    lemma_limits, to_be};
use vstd::slice::slice_subrange;

verus! {

/// The protocol's name in a TLS handshake: `tnl-quic-bench/1`.
pub const ALPN: [u8; 16] = [
    116, 110, 108, 45, 113, 117, 105, 99, 45, 98, 101, 110, 99, 104, 47, 49,
];

/// The length of the header.
pub const HEADER_LEN: usize = 9;

/// The most bytes that are sent at once.
pub const CHUNK: usize = 65536;

/// How many bytes a connection may have in flight.
pub const FLOW_WINDOW: u64 = 536870912;

/// The byte that the payload consists of.
pub const PAYLOAD_BYTE: u8 = 0xa5;

/// Bytes to send: so many of the same.
pub fn payload(len: usize) -> (result: Vec<u8>)
    requires
        len <= CHUNK,
    ensures
        result@ == Seq::new(len as nat, |i: int| PAYLOAD_BYTE),
{
    let mut bytes: Vec<u8> = Vec::new();
    let mut i: usize = 0;
    while i < len
        invariant
            i <= len,
            bytes@ == Seq::new(i as nat, |i: int| PAYLOAD_BYTE),
        decreases len - i,
    {
        bytes.push(PAYLOAD_BYTE);
        i += 1;
        assert(bytes@ =~= Seq::new(i as nat, |i: int| PAYLOAD_BYTE));
    }
    bytes
}

/// Which way the bytes of a stream go, as the client sees it.
#[derive(Clone, Copy, Debug, PartialEq, Eq, Structural)]
pub enum Workload {
    Download,
    Upload,
    Bidi,
}

impl Workload {
    /// The number that stands for a workload in a header.
    pub open spec fn number(self) -> u8 {
        match self {
            Workload::Download => 1,
            Workload::Upload => 2,
            Workload::Bidi => 3,
        }
    }

    pub fn code(self) -> (result: u8)
        ensures
            result == self.number(),
    {
        match self {
            Workload::Download => 1,
            Workload::Upload => 2,
            Workload::Bidi => 3,
        }
    }

    pub fn from_code(code: u8) -> (result: Option<Self>)
        ensures
            result matches Some(workload) ==> workload.number() == code,
            result is None ==> !(1 <= code <= 3),
    {
        match code {
            1 => Some(Workload::Download),
            2 => Some(Workload::Upload),
            3 => Some(Workload::Bidi),
            _ => None,
        }
    }

    /// How many bytes the client sends, and the server receives.
    pub open spec fn to_server(self, bytes: u64) -> u64 {
        match self {
            Workload::Download => 0,
            _ => bytes,
        }
    }

    /// How many bytes the server sends, and the client receives: after an upload, one byte says
    /// that all arrived.
    pub open spec fn to_client(self, bytes: u64) -> u64 {
        match self {
            Workload::Upload => 1,
            _ => bytes,
        }
    }

    pub fn bytes_to_server(self, bytes: u64) -> (result: u64)
        ensures
            result == self.to_server(bytes),
    {
        match self {
            Workload::Download => 0,
            _ => bytes,
        }
    }

    pub fn bytes_to_client(self, bytes: u64) -> (result: u64)
        ensures
            result == self.to_client(bytes),
    {
        match self {
            Workload::Upload => 1,
            _ => bytes,
        }
    }
}

/// The header of a stream: the workload, then the number of bytes.
pub open spec fn header_of(workload: Workload, bytes: u64) -> Seq<u8> {
    seq![workload.number()] + be_bytes(bytes as nat, 8)
}

/// What a header says, if it says anything.
pub open spec fn header_in(buf: Seq<u8>) -> Option<(Workload, u64)> {
    if buf.len() < HEADER_LEN {
        None
    } else {
        let bytes = be_value(buf.subrange(1, HEADER_LEN as int)) as u64;
        if buf[0] == 1 {
            Some((Workload::Download, bytes))
        } else if buf[0] == 2 {
            Some((Workload::Upload, bytes))
        } else if buf[0] == 3 {
            Some((Workload::Bidi, bytes))
        } else {
            None
        }
    }
}

pub fn header(workload: Workload, bytes: u64) -> (result: [u8; 9])
    ensures
        result@ == header_of(workload, bytes),
{
    proof {
        law_be_round_trip(bytes as nat, 8);
    }
    let b = to_be(bytes, 8);
    let out = [workload.code(), b[0], b[1], b[2], b[3], b[4], b[5], b[6], b[7]];
    assert(out@ =~= header_of(workload, bytes));
    out
}

pub fn parse_header(buf: &[u8]) -> (result: Option<(Workload, u64)>)
    ensures
        result == header_in(buf@),
{
    if buf.len() < HEADER_LEN {
        return None;
    }
    let workload = match Workload::from_code(buf[0]) {
        Some(workload) => workload,
        None => return None,
    };
    let bytes = from_be(slice_subrange(buf, 1, HEADER_LEN));
    Some((workload, bytes))
}

/// A header says what it was written for, whatever follows it.
pub proof fn law_header_round_trip(workload: Workload, bytes: u64, rest: Seq<u8>)
    ensures
        header_in(header_of(workload, bytes) + rest) == Some((workload, bytes)),
{
    lemma_limits();
    law_be_round_trip(bytes as nat, 8);
    let buf = header_of(workload, bytes) + rest;
    assert(buf.subrange(1, HEADER_LEN as int) =~= be_bytes(bytes as nat, 8));
}

/// A header that says something was written for it.
pub proof fn law_header_is_unambiguous(buf: Seq<u8>)
    requires
        buf.len() == HEADER_LEN,
        header_in(buf) is Some,
    ensures
        header_in(buf) matches Some((workload, bytes)) && header_of(workload, bytes) == buf,
{
    let field = buf.subrange(1, HEADER_LEN as int);
    lemma_limits();
    law_be_bytes_of_value(field);
    let (workload, bytes) = header_in(buf)->0;
    assert(be_value(field) == bytes);
    assert(header_of(workload, bytes) =~= buf);
}

/// The number of a workload stands for it and for no other, and no other number stands for one.
pub proof fn law_workloads_are_numbered(
    workload: Workload,
    code: u8,
    back: Option<Workload>,
    other: u8,
    found: Option<Workload>,
)
    requires
        call_ensures(Workload::code, (workload,), code),
        call_ensures(Workload::from_code, (code,), back),
        call_ensures(Workload::from_code, (other,), found),
    ensures
        back == Some(workload),
        workload is Download ==> code == 1,
        workload is Upload ==> code == 2,
        workload is Bidi ==> code == 3,
        found is Some <==> 1 <= other <= 3,
{
}

/// Bytes go to the server unless they are downloaded, and to the client unless they are uploaded;
/// an upload is answered with one byte.
pub proof fn law_bytes_go_where_the_workload_says(
    workload: Workload,
    bytes: u64,
    up: u64,
    down: u64,
)
    requires
        call_ensures(Workload::bytes_to_server, (workload, bytes), up),
        call_ensures(Workload::bytes_to_client, (workload, bytes), down),
    ensures
        workload is Download ==> up == 0 && down == bytes,
        workload is Upload ==> up == bytes && down == 1,
        workload is Bidi ==> up == bytes && down == bytes,
{
}

/// A header is read as what it was written for, whatever follows it. Fewer than nine bytes are no
/// header, nor are any that start with the number of no workload.
pub proof fn law_headers_are_read_back(
    workload: Workload,
    bytes: u64,
    written: [u8; 9],
    rest: Seq<u8>,
    buf: &[u8],
    read: Option<(Workload, u64)>,
    code: u8,
)
    requires
        call_ensures(header, (workload, bytes), written),
        call_ensures(parse_header, (buf,), read),
        call_ensures(Workload::code, (workload,), code),
    ensures
        written@[0] == code,
        be_value(written@.skip(1)) == bytes,
        buf@ == written@ + rest ==> read == Some((workload, bytes)),
        read is Some <==> buf@.len() >= 9 && 1 <= buf@[0] <= 3,
{
    law_header_round_trip(workload, bytes, rest);
    lemma_limits();
    law_be_round_trip(bytes as nat, 8);
    assert(written@.skip(1) =~= be_bytes(bytes as nat, 8));
}

/// A payload is as long as it is to be, and all of one byte.
pub proof fn law_payload_is_one_byte(len: usize, bytes: Vec<u8>)
    requires
        len <= 65536,
        call_ensures(payload, (len,), bytes),
    ensures
        bytes@.len() == len,
        forall|i: int| 0 <= i < len ==> #[trigger] bytes@[i] == 0xa5,
{
}

} // verus!
