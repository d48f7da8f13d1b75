//! The calls into other crates, and into parts of std without a specification of their own.
//!
//! Nothing in this file is proved: each contract says what the called function is relied on for.

use base64::engine::general_purpose::URL_SAFE_NO_PAD;
use base64::Engine;
use rand::distributions::{Alphanumeric, DistString};
use rand::{Rng, RngCore};
use rustls::server::{Accepted, Acceptor};
use rustls::Error;
use sha2::{Digest, Sha256};
use url::{Host, Url};
use vstd::prelude::*;
use vstd::utf8::{decode_utf8, valid_utf8};

use crate::error::{TlsError, TlsErrorKind};

verus! {

/// Calls `String::from_iter` over the characters.
///
/// The string holds exactly the given characters, in order.
#[verifier::external_body]
pub(crate) fn string_from_chars(chars: &[char]) -> (result: String)
    ensures
        result@ == chars@,
{
    String::from_iter(chars)
}

/// Calls `String::from_utf8`, dropping the error's details.
///
/// Succeeds exactly on well-formed UTF-8, with the characters that the bytes encode.
#[verifier::external_body]
pub(crate) fn string_from_utf8(bytes: Vec<u8>) -> (result: Option<String>)
    ensures
        result is Some <==> valid_utf8(bytes@),
        result matches Some(text) ==> text@ == decode_utf8(bytes@),
{
    String::from_utf8(bytes).ok()
}

/// What `char::to_lowercase` yields for a character.
pub uninterp spec fn lowercase_of(character: char) -> Seq<char>;

/// Calls `char::to_lowercase` and collects what it yields.
///
/// What comes of it is settled by the character. An ASCII character maps to its ASCII lowercase
/// equivalent.
#[verifier::external_body]
pub(crate) fn char_lowercase(character: char) -> (result: Vec<char>)
    ensures
        result@ == lowercase_of(character),
        character <= '\x7f' && !('A' <= character <= 'Z') ==> result@ == seq![character],
        'A' <= character <= 'Z' ==> result@ == seq![((character as u8 + 32) as u8) as char],
{
    character.to_lowercase().collect()
}

/// An ASCII letter or digit.
pub open spec fn is_alphanumeric(c: char) -> bool {
    ('a' <= c <= 'z') || ('A' <= c <= 'Z') || ('0' <= c <= '9')
}

/// Calls `rand::Rng::gen` on the generator of the thread.
///
/// Any number may come back.
#[verifier::external_body]
pub(crate) fn random_u64() -> (result: u64) {
    rand::thread_rng().gen()
}

/// Calls `rand::distributions::DistString::sample_string` on `Alphanumeric` and the generator of
/// the thread.
///
/// The string has the given length and holds only ASCII letters and digits. Which ones is left
/// open: that is chance.
#[verifier::external_body]
pub(crate) fn random_alphanumeric(length: usize) -> (result: String)
    requires
        length <= 0x7fff_ffff,
    ensures
        result@.len() == length,
        forall|i: int| 0 <= i < result@.len() ==> is_alphanumeric(#[trigger] result@[i]),
{
    Alphanumeric.sample_string(&mut rand::thread_rng(), length)
}

/// Calls `rand::Rng::gen_range` on the generator of the thread, from zero to the limit.
///
/// The number is at most the limit.
#[verifier::external_body]
pub(crate) fn random_at_most(limit: u64) -> (result: u64)
    ensures
        result <= limit,
{
    rand::thread_rng().gen_range(0..=limit)
}

/// Calls `rand::RngCore::fill_bytes` on the generator of the operating system.
///
/// There are thirty-two bytes, and any may come back.
#[verifier::external_body]
pub(crate) fn random_token_bytes() -> (result: Vec<u8>)
    ensures
        result@.len() == 32,
{
    let mut bytes = [0u8; 32];
    rand::rngs::OsRng.fill_bytes(&mut bytes);
    bytes.to_vec()
}

/// The SHA-256 digest of bytes.
pub uninterp spec fn sha256_of(bytes: Seq<u8>) -> Seq<u8>;

/// Calls `sha2::Sha256::digest`.
///
/// The digest is settled by the bytes, and has thirty-two of its own.
#[verifier::external_body]
pub(crate) fn sha256(bytes: &[u8]) -> (result: Vec<u8>)
    ensures
        result@ == sha256_of(bytes@),
        result@.len() == 32,
{
    Sha256::digest(bytes).to_vec()
}

/// A character of the URL-safe alphabet of Base64.
pub open spec fn is_base64_char(c: char) -> bool {
    is_alphanumeric(c) || c == '-' || c == '_'
}

/// The Base64 text for bytes, in the URL-safe alphabet and without padding.
pub uninterp spec fn base64_of(bytes: Seq<u8>) -> Seq<char>;

/// The bytes that a Base64 text stands for, in the URL-safe alphabet and without padding.
pub uninterp spec fn base64_bytes(text: Seq<char>) -> Option<Seq<u8>>;

/// Calls `base64::Engine::encode` on `URL_SAFE_NO_PAD`.
///
/// The text is settled by the bytes. It holds only characters of the alphabet, at least one where
/// there is a byte, and decoding it gives the bytes back. More bytes than a fourth of the address space are left out, for which the
/// call may panic.
#[verifier::external_body]
pub(crate) fn base64_encode(bytes: &[u8]) -> (result: String)
    requires
        bytes@.len() <= usize::MAX / 4,
    ensures
        result@ == base64_of(bytes@),
        base64_bytes(result@) == Some(bytes@),
        bytes@.len() > 0 ==> result@.len() > 0,
        forall|i: int| 0 <= i < result@.len() ==> is_base64_char(#[trigger] result@[i]),
{
    URL_SAFE_NO_PAD.encode(bytes)
}

/// Calls `base64::Engine::decode` on `URL_SAFE_NO_PAD`, dropping the error's details.
///
/// Whether there are bytes, and which, is settled by the text.
#[verifier::external_body]
pub(crate) fn base64_decode(text: &str) -> (result: Option<Vec<u8>>)
    ensures
        match result {
            Some(bytes) => base64_bytes(text@) == Some(bytes@),
            None => base64_bytes(text@) is None,
        },
{
    URL_SAFE_NO_PAD.decode(text).ok()
}

/// What the library needs to know of a URL.
#[derive(Debug)]
pub struct UrlParts {
    pub scheme: String,
    pub host: Option<String>,
    /// The host as an address, where it is an IPv6 address.
    pub ipv6: Option<String>,
    /// The port, or the one that is known for the scheme.
    pub port: Option<u16>,
}

/// An optional text by its characters.
pub open spec fn optional_text(text: Option<String>) -> Option<Seq<char>> {
    match text {
        Some(text) => Some(text@),
        None => None,
    }
}

impl View for UrlParts {
    type V = (Seq<char>, Option<Seq<char>>, Option<Seq<char>>, Option<u16>);

    open spec fn view(&self) -> (Seq<char>, Option<Seq<char>>, Option<Seq<char>>, Option<u16>) {
        (self.scheme@, optional_text(self.host), optional_text(self.ipv6), self.port)
    }
}

/// The scheme, host, IPv6 address and port of the URL that a text spells, if it spells one.
pub uninterp spec fn url_parts(text: Seq<char>) -> Option<
    (Seq<char>, Option<Seq<char>>, Option<Seq<char>>, Option<u16>),
>;

/// Calls `url::Url::parse`, dropping the error's details, and takes the parts from the URL with
/// `scheme`, `host_str`, `host` and `port_or_known_default`.
///
/// Whether there is a URL, and which parts it has, is settled by the text.
#[verifier::external_body]
pub(crate) fn parse_url(text: &str) -> (result: Option<UrlParts>)
    ensures
        match result {
            Some(parts) => url_parts(text@) == Some(parts@),
            None => url_parts(text@) is None,
        },
{
    let url = Url::parse(text).ok()?;
    let ipv6 = match url.host() {
        Some(Host::Ipv6(address)) => Some(address.to_string()),
        _ => None,
    };
    let host = url.host_str().map(str::to_owned);
    Some(UrlParts { scheme: url.scheme().to_owned(), host, ipv6, port: url.port_or_known_default() })
}

/// The reader of a TLS connection's first message, `rustls::server::Acceptor`.
#[verifier::external_type_specification]
#[verifier::external_body]
pub struct ExAcceptor(Acceptor);

/// A TLS connection whose first message was read, `rustls::server::Accepted`.
#[verifier::external_type_specification]
#[verifier::external_body]
pub struct ExAccepted(Accepted);

/// The bytes that an acceptor has read, in order: one batch for the time before each call of
/// `accept`, and one for the time since the last.
pub uninterp spec fn acceptor_batches(acceptor: Acceptor) -> Seq<Seq<u8>>;

/// How many bytes of an input an acceptor with these batches reads at once, or that it fails.
pub uninterp spec fn tls_read(batches: Seq<Seq<u8>>, input: Seq<u8>) -> Option<nat>;

/// What an acceptor with these batches makes of them: an error, by its kind and its words,
/// where they are not the start of a TLS connection, nothing yet where the first message is incomplete, and otherwise
/// the server name and the protocols that the message offers.
pub uninterp spec fn tls_accept(batches: Seq<Seq<u8>>) -> Result<
    Option<(Option<Seq<char>>, Option<Seq<Seq<u8>>>)>,
    (TlsErrorKind, Seq<char>),
>;

/// The server name and the protocols that an accepted connection's first message offers.
pub uninterp spec fn accepted_hello(accepted: Accepted) -> (
    Option<Seq<char>>,
    Option<Seq<Seq<u8>>>,
);

/// Calls `rustls::server::Acceptor::default`.
///
/// A new acceptor has read nothing.
#[verifier::external_body]
pub(crate) fn new_acceptor() -> (result: Acceptor)
    ensures
        acceptor_batches(result) == seq![Seq::<u8>::empty()],
{
    Acceptor::default()
}

/// Calls `rustls::server::Acceptor::read_tls` on the bytes, dropping the error's details.
///
/// The acceptor reads some of the bytes from the first one on. What it does is settled by what
/// it has read before and by the bytes. Nothing is said of an acceptor that failed, or that read
/// nothing.
#[verifier::external_body]
pub(crate) fn acceptor_read(acceptor: &mut Acceptor, bytes: &[u8]) -> (result: Option<usize>)
    requires
        bytes@.len() > 0,
        acceptor_batches(*old(acceptor)).len() > 0,
    ensures
        match result {
            Some(n) => {
                let batches = acceptor_batches(*old(acceptor));
                &&& tls_read(batches, bytes@) == Some(n as nat)
                &&& n <= bytes@.len()
                &&& n > 0 ==> acceptor_batches(*final(acceptor)) == batches.update(
                    batches.len() - 1,
                    batches.last() + bytes@.take(n as int),
                )
            },
            None => tls_read(acceptor_batches(*old(acceptor)), bytes@) is None,
        },
{
    let mut input = bytes;
    acceptor.read_tls(&mut input).ok()
}

/// Calls `rustls::server::Acceptor::accept`, keeping the kind of the error and its words, and
/// dropping its alert.
///
/// What comes of it is settled by what the acceptor has read. Nothing is said of an acceptor
/// that accepted or failed.
#[verifier::external_body]
pub(crate) fn acceptor_accept(acceptor: &mut Acceptor) -> (result: Result<
    Option<Accepted>,
    TlsError,
>)
    ensures
        match result {
            Err(error) => tls_accept(acceptor_batches(*old(acceptor))) == Err::<
                Option<(Option<Seq<char>>, Option<Seq<Seq<u8>>>)>,
                (TlsErrorKind, Seq<char>),
            >(error@),
            Ok(None) => {
                &&& tls_accept(acceptor_batches(*old(acceptor))) == Ok::<
                    Option<(Option<Seq<char>>, Option<Seq<Seq<u8>>>)>,
                    (TlsErrorKind, Seq<char>),
                >(None)
                &&& acceptor_batches(*final(acceptor)) == acceptor_batches(*old(acceptor)).push(
                    Seq::<u8>::empty(),
                )
            },
            Ok(Some(accepted)) => tls_accept(acceptor_batches(*old(acceptor))) == Ok::<
                Option<(Option<Seq<char>>, Option<Seq<Seq<u8>>>)>,
                (TlsErrorKind, Seq<char>),
            >(Some(accepted_hello(accepted))),
        },
{
    let (error, _) = match acceptor.accept() {
        Ok(accepted) => return Ok(accepted),
        Err(failed) => failed,
    };
    let kind = match &error {
        Error::InappropriateMessage { .. } => TlsErrorKind::InappropriateMessage,
        Error::InappropriateHandshakeMessage { .. } => TlsErrorKind::InappropriateHandshakeMessage,
        Error::InvalidMessage(_) => TlsErrorKind::InvalidMessage,
        Error::PeerIncompatible(_) => TlsErrorKind::PeerIncompatible,
        Error::PeerMisbehaved(_) => TlsErrorKind::PeerMisbehaved,
        Error::AlertReceived(_) => TlsErrorKind::AlertReceived,
        Error::NoApplicationProtocol => TlsErrorKind::NoApplicationProtocol,
        _ => TlsErrorKind::Other,
    };
    Err(TlsError { kind, detail: error.to_string() })
}

/// What the library needs to know of a TLS connection's first message.
#[derive(Debug)]
pub struct ClientHello {
    pub server_name: Option<String>,
    pub alpn: Option<Vec<Vec<u8>>>,
}

/// The items of a list, each by its bytes.
pub open spec fn byte_strings(list: Seq<Vec<u8>>) -> Seq<Seq<u8>> {
    list.map_values(|bytes: Vec<u8>| bytes@)
}

impl View for ClientHello {
    type V = (Option<Seq<char>>, Option<Seq<Seq<u8>>>);

    open spec fn view(&self) -> (Option<Seq<char>>, Option<Seq<Seq<u8>>>) {
        (
            optional_text(self.server_name),
            match self.alpn {
                Some(list) => Some(byte_strings(list@)),
                None => None,
            },
        )
    }
}

/// Calls `rustls::server::Accepted::client_hello` and takes the server name and the protocols
/// from the message with `server_name` and `alpn`.
///
/// Both are settled by the accepted connection.
#[verifier::external_body]
pub(crate) fn client_hello(accepted: &Accepted) -> (result: ClientHello)
    ensures
        result@ == accepted_hello(*accepted),
{
    let hello = accepted.client_hello();
    ClientHello {
        server_name: hello.server_name().map(str::to_owned),
        alpn: hello.alpn().map(|list| list.map(<[u8]>::to_vec).collect()),
    }
}

} // verus!
