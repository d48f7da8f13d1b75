//! The registration that opens a raw data connection: a magic, then the tunnel's name.

use vstd::prelude::*;
use vstd::slice::slice_subrange;
use vstd::string::*;
use vstd::utf8::*;

use crate::error::IoErrorKind;
use crate::external::string_from_utf8;
use crate::protocol::tunnel_id::{is_tunnel_id, TunnelId};

verus! {

/// What every registration starts with.
pub const TCP_DATA_REGISTRATION_MAGIC: [u8; 5] = [0x54, 0x4e, 0x4c, 0x44, 0x06];

/// The length of the challenge that a registration is answered with.
pub const TCP_DATA_CHALLENGE_LENGTH: usize = 32;

/// The length of the proof that answers a challenge.
pub const TCP_DATA_PROOF_LENGTH: usize = 32;

/// Why bytes are no registration.
#[derive(Clone, Copy, Debug, PartialEq, Eq, Structural)]
pub enum RegistrationError {
    InvalidMagic,
    EmptyTunnelId,
    NotUtf8,
    InvalidTunnelId,
}

/// A registration as far as it was read.
#[derive(Debug)]
pub enum RegistrationRead {
    /// This many bytes more are needed to go on.
    Incomplete(usize),
    /// The registration names this tunnel.
    Complete(TunnelId),
    /// The bytes are no registration.
    Invalid(RegistrationError),
}

/// What the bytes of a registration say.
pub ghost enum Registration {
    Incomplete(nat),
    Complete(Seq<char>),
    Invalid(RegistrationError),
}

impl View for RegistrationRead {
    type V = Registration;

    open spec fn view(&self) -> Registration {
        match self {
            RegistrationRead::Incomplete(n) => Registration::Incomplete(*n as nat),
            RegistrationRead::Complete(id) => Registration::Complete(id@),
            RegistrationRead::Invalid(error) => Registration::Invalid(*error),
        }
    }
}

/// The registration of a tunnel: the magic, the length of the name, the name.
pub open spec fn registration_of(name: Seq<char>) -> Seq<u8> {
    TCP_DATA_REGISTRATION_MAGIC@ + seq![encode_utf8(name).len() as u8] + encode_utf8(name)
}

/// What bytes say, read from the first one on. The magic is judged once it is complete, then the
/// length, then the name.
pub open spec fn registration_in(bytes: Seq<u8>) -> Registration {
    let length = bytes[5] as int;
    let name = bytes.subrange(6, 6 + length);
    if bytes.len() < 5 {
        Registration::Incomplete((5 - bytes.len()) as nat)
    } else if bytes.take(5) != TCP_DATA_REGISTRATION_MAGIC@ {
        Registration::Invalid(RegistrationError::InvalidMagic)
    } else if bytes.len() < 6 {
        Registration::Incomplete(1)
    } else if length == 0 {
        Registration::Invalid(RegistrationError::EmptyTunnelId)
    } else if bytes.len() < 6 + length {
        Registration::Incomplete((6 + length - bytes.len()) as nat)
    } else if !valid_utf8(name) {
        Registration::Invalid(RegistrationError::NotUtf8)
    } else if !is_tunnel_id(decode_utf8(name)) {
        Registration::Invalid(RegistrationError::InvalidTunnelId)
    } else {
        Registration::Complete(decode_utf8(name))
    }
}

impl RegistrationError {
    /// The kind of I/O error that the fault is reported as.
    pub fn kind(self) -> (result: IoErrorKind)
        ensures
            result == IoErrorKind::InvalidData,
    {
        IoErrorKind::InvalidData
    }

    /// The words that the fault is reported with.
    pub open spec fn text(self) -> Seq<char> {
        match self {
            RegistrationError::InvalidMagic => "invalid TCP data registration magic"@,
            RegistrationError::EmptyTunnelId => "empty tunnel ID"@,
            RegistrationError::NotUtf8 => "tunnel ID is not UTF-8"@,
            RegistrationError::InvalidTunnelId => "invalid tunnel ID"@,
        }
    }

    /// The words that the fault is reported with.
    pub fn message(self) -> (result: &'static str)
        ensures
            result@ == self.text(),
    {
        match self {
            RegistrationError::InvalidMagic => "invalid TCP data registration magic",
            RegistrationError::EmptyTunnelId => "empty tunnel ID",
            RegistrationError::NotUtf8 => "tunnel ID is not UTF-8",
            RegistrationError::InvalidTunnelId => "invalid tunnel ID",
        }
    }
}

proof fn lemma_name_bytes(name: Seq<char>)
    requires
        is_tunnel_id(name),
    ensures
        encode_utf8(name).len() == name.len(),
{
    assert(is_ascii_chars(name));
    is_ascii_chars_encode_utf8(name);
}

/// The bytes that register a data connection for a tunnel.
pub fn write_tcp_data_registration(tunnel_id: &TunnelId) -> (result: Vec<u8>)
    ensures
        result@ == registration_of(tunnel_id@),
{
    let name = tunnel_id.as_str();
    proof {
        lemma_name_bytes(name@);
    }
    let bytes = name.as_bytes();
    let mut result: Vec<u8> = Vec::new();
    result.extend_from_slice(&TCP_DATA_REGISTRATION_MAGIC);
    result.push(bytes.len() as u8);
    result.extend_from_slice(bytes);
    assert(result@ =~= registration_of(tunnel_id@));
    result
}

/// Reads a registration from its first bytes on. Where it is incomplete, exactly the missing bytes
/// are to be read before the next attempt.
pub fn read_tcp_data_registration(bytes: &[u8]) -> (result: RegistrationRead)
    ensures
        result@ == registration_in(bytes@),
{
    if bytes.len() < 5 {
        return RegistrationRead::Incomplete(5 - bytes.len());
    }
    let mut i: usize = 0;
    while i < 5
        invariant
            i <= 5 <= bytes@.len(),
            forall|k: int| 0 <= k < i ==> #[trigger] bytes@[k] == TCP_DATA_REGISTRATION_MAGIC@[k],
        decreases 5 - i,
    {
        if bytes[i] != TCP_DATA_REGISTRATION_MAGIC[i] {
            assert(bytes@.take(5)[i as int] != TCP_DATA_REGISTRATION_MAGIC@[i as int]);
            return RegistrationRead::Invalid(RegistrationError::InvalidMagic);
        }
        i += 1;
    }
    assert(bytes@.take(5) =~= TCP_DATA_REGISTRATION_MAGIC@);
    if bytes.len() < 6 {
        return RegistrationRead::Incomplete(1);
    }
    let length = bytes[5] as usize;
    if length == 0 {
        return RegistrationRead::Invalid(RegistrationError::EmptyTunnelId);
    }
    if bytes.len() < 6 + length {
        return RegistrationRead::Incomplete(6 + length - bytes.len());
    }
    let mut name: Vec<u8> = Vec::new();
    name.extend_from_slice(slice_subrange(bytes, 6, 6 + length));
    assert(name@ =~= bytes@.subrange(6, 6 + length));
    match string_from_utf8(name) {
        None => RegistrationRead::Invalid(RegistrationError::NotUtf8),
        Some(text) => match TunnelId::new(&text) {
            Ok(id) => RegistrationRead::Complete(id),
            Err(_) => RegistrationRead::Invalid(RegistrationError::InvalidTunnelId),
        },
    }
}

/// Reading a registration gives the tunnel that it was written for, whatever follows it.
pub proof fn law_registration_round_trip(name: Seq<char>, rest: Seq<u8>)
    requires
        is_tunnel_id(name),
    ensures
        registration_in(registration_of(name) + rest) == Registration::Complete(name),
{
    lemma_name_bytes(name);
    let bytes = registration_of(name) + rest;
    assert(bytes.take(5) =~= TCP_DATA_REGISTRATION_MAGIC@);
    assert(bytes.subrange(6, 6 + name.len() as int) =~= encode_utf8(name));
    encode_utf8_valid_utf8(name);
    encode_utf8_decode_utf8(name);
}

/// A part of a registration is incomplete, and what it asks for never goes beyond the registration.
pub proof fn law_registration_is_not_overread(name: Seq<char>, n: int)
    requires
        is_tunnel_id(name),
        0 <= n < registration_of(name).len(),
    ensures
        registration_in(registration_of(name).take(n)) matches Registration::Incomplete(more) && 0
            < more <= registration_of(name).len() - n,
{
    lemma_name_bytes(name);
    let bytes = registration_of(name).take(n);
    if n >= 5 {
        assert(bytes.take(5) =~= TCP_DATA_REGISTRATION_MAGIC@);
    }
}

/// A registration is the five bytes of the magic, the length of the tunnel's name in one byte, and
/// the name, one byte for each character.
pub proof fn law_registration_is_magic_length_and_name(id: &TunnelId, bytes: Vec<u8>)
    requires
        is_tunnel_id(id@),
        call_ensures(write_tcp_data_registration, (id,), bytes),
    ensures
        bytes@.len() == 6 + id@.len(),
        bytes@.take(6) == seq![0x54u8, 0x4e, 0x4c, 0x44, 0x06, id@.len() as u8],
        forall|i: int| 0 <= i < id@.len() ==> #[trigger] bytes@[i + 6] == id@[i] as u8,
{
    lemma_name_bytes(id@);
    assert(is_ascii_chars(id@));
    is_ascii_chars_encode_utf8(id@);
    assert(bytes@.take(6) =~= seq![0x54u8, 0x4e, 0x4c, 0x44, 0x06, id@.len() as u8]);
}

/// What is written for a tunnel is read as that tunnel, whatever follows, and what is read as a
/// tunnel starts with what is written for it.
pub proof fn law_registrations_are_read_back(
    id: &TunnelId,
    written: Vec<u8>,
    rest: Seq<u8>,
    bytes: &[u8],
    read: RegistrationRead,
)
    requires
        is_tunnel_id(id@),
        call_ensures(write_tcp_data_registration, (id,), written),
        call_ensures(read_tcp_data_registration, (bytes,), read),
    ensures
        bytes@ == written@ + rest ==> (read matches RegistrationRead::Complete(found) && found@
            == id@),
        read matches RegistrationRead::Complete(found) ==> {
            &&& is_tunnel_id(found@)
            &&& found@ == id@ ==> written@.is_prefix_of(bytes@)
        },
        read matches RegistrationRead::Incomplete(more) ==> more > 0,
        bytes@.len() >= 5 && bytes@.take(5) != seq![0x54u8, 0x4e, 0x4c, 0x44, 0x06]
            ==> read matches RegistrationRead::Invalid(RegistrationError::InvalidMagic),
{
    law_registration_round_trip(id@, rest);
    assert(TCP_DATA_REGISTRATION_MAGIC@ =~= seq![0x54u8, 0x4e, 0x4c, 0x44, 0x06]);
    if let RegistrationRead::Complete(found) = read {
        let length = bytes@[5] as int;
        let name = bytes@.subrange(6, 6 + length);
        decode_utf8_encode_utf8(name);
        if found@ == id@ {
            let n = 6 + length;
            assert(bytes@.take(5) == TCP_DATA_REGISTRATION_MAGIC@);
            assert forall|i: int| 0 <= i < n implies bytes@[i] == written@[i] by {
                if i < 5 {
                    assert(bytes@.take(5)[i] == bytes@[i]);
                } else if i > 5 {
                    assert(name[i - 6] == bytes@[i]);
                }
            }
            assert(written@ =~= bytes@.subrange(0, n));
        }
    }
}

/// As long as a part of a registration is missing, more bytes are asked for, and never more than
/// the registration has: so nothing that follows it is taken from the connection.
pub proof fn law_registrations_are_not_overread(
    id: &TunnelId,
    written: Vec<u8>,
    part: &[u8],
    read: RegistrationRead,
)
    requires
        is_tunnel_id(id@),
        call_ensures(write_tcp_data_registration, (id,), written),
        part@.len() < written@.len(),
        part@ == written@.take(part@.len() as int),
        call_ensures(read_tcp_data_registration, (part,), read),
    ensures
        read matches RegistrationRead::Incomplete(more) && {
            &&& 0 < more
            &&& part@.len() + more <= written@.len()
            &&& part@.len() < 5 ==> part@.len() + more == 5
            &&& part@.len() == 5 ==> more == 1
            &&& part@.len() > 5 ==> part@.len() + more == written@.len()
        },
{
    lemma_name_bytes(id@);
    if part@.len() >= 5 {
        assert(part@.take(5) =~= TCP_DATA_REGISTRATION_MAGIC@);
    }
}

/// Bytes with the magic and a length of zero name no tunnel. With the whole of a name that is not
/// UTF-8, or that is no tunnel name, they are refused for that.
pub proof fn law_bad_names_are_refused(
    name: Seq<u8>,
    rest: Seq<u8>,
    bytes: &[u8],
    read: RegistrationRead,
)
    requires
        name.len() < 256,
        bytes@ == seq![0x54u8, 0x4e, 0x4c, 0x44, 0x06, name.len() as u8] + name + rest,
        call_ensures(read_tcp_data_registration, (bytes,), read),
    ensures
        name.len() == 0 <==> (read matches RegistrationRead::Invalid(
            RegistrationError::EmptyTunnelId,
        )),
        name.len() > 0 ==> {
            &&& !valid_utf8(name) <==> (read matches RegistrationRead::Invalid(
                RegistrationError::NotUtf8,
            ))
            &&& valid_utf8(name) && !is_tunnel_id(decode_utf8(name)) <==> (
            read matches RegistrationRead::Invalid(RegistrationError::InvalidTunnelId))
            &&& valid_utf8(name) && is_tunnel_id(decode_utf8(name)) ==> (
            read matches RegistrationRead::Complete(found) && found@ == decode_utf8(name))
        },
{
    assert(bytes@.take(5) =~= TCP_DATA_REGISTRATION_MAGIC@);
    assert(bytes@.subrange(6, 6 + name.len() as int) =~= name);
}

/// The words that an error is reported with tell which error it is.
pub proof fn law_words_tell_registration_faults_apart(error: RegistrationError, text: &str)
    requires
        call_ensures(RegistrationError::message, (error,), text),
    ensures
        error is InvalidMagic <==> text@ == "invalid TCP data registration magic"@,
        error is EmptyTunnelId <==> text@ == "empty tunnel ID"@,
        error is NotUtf8 <==> text@ == "tunnel ID is not UTF-8"@,
        error is InvalidTunnelId <==> text@ == "invalid tunnel ID"@,
{
    reveal_strlit("invalid TCP data registration magic");
    reveal_strlit("empty tunnel ID");
    reveal_strlit("tunnel ID is not UTF-8");
    reveal_strlit("invalid tunnel ID");
    assert("invalid TCP data registration magic"@.len() == 35);
    assert("empty tunnel ID"@.len() == 15);
    assert("tunnel ID is not UTF-8"@.len() == 22);
    assert("invalid tunnel ID"@.len() == 17);
}

} // verus!
