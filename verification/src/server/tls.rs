//! Reads the first message of a TLS connection without taking part in the connection.

use rustls::server::{Accepted, Acceptor};
use vstd::prelude::*;
use vstd::slice::slice_subrange;
use vstd::string::*;

use crate::error::{Cause, TlsError};
use crate::external::{accepted_hello, acceptor_accept, acceptor_batches, acceptor_read,
    client_hello, new_acceptor, string_from_chars, tls_accept, tls_read};
use crate::text::{chars_of, drop_trailing, law_trailing_characters_are_dropped, lower, to_lower,
    without_trailing};

verus! {

/// The most bytes that a first message may take.
pub const MAX_CLIENT_HELLO_LENGTH: usize = 65536;

/// The first byte of a TLS handshake.
pub const TLS_HANDSHAKE: u8 = 22;

/// The protocol with which a certificate authority checks the control over a host:
/// `acme-tls/1`.
pub const ACME_PROTOCOL: [u8; 10] = [97, 99, 109, 101, 45, 116, 108, 115, 47, 49];

/// Why a connection's first message could not be read.
#[derive(Debug, PartialEq, Eq)]
pub enum InspectError {
    Closed,
    TooLarge,
    ReadFailed,
    NotConsumed,
    InvalidHello(TlsError),
}

impl InspectError {
    /// The words that the error is reported with.
    pub open spec fn text(self) -> Seq<char> {
        match self {
            InspectError::Closed => "connection closed before sending a complete TLS ClientHello"@,
            InspectError::TooLarge => "TLS ClientHello is too large"@,
            InspectError::ReadFailed => "could not read the TLS ClientHello"@,
            InspectError::NotConsumed => "Rustls did not consume the ClientHello bytes"@,
            InspectError::InvalidHello(_) => "could not parse the TLS ClientHello"@,
        }
    }

    /// The words that the error is reported with.
    pub fn message(&self) -> (result: &'static str)
        ensures
            result@ == self.text(),
    {
        match self {
            InspectError::Closed => "connection closed before sending a complete TLS ClientHello",
            InspectError::TooLarge => "TLS ClientHello is too large",
            InspectError::ReadFailed => "could not read the TLS ClientHello",
            InspectError::NotConsumed => "Rustls did not consume the ClientHello bytes",
            InspectError::InvalidHello(_) => "could not parse the TLS ClientHello",
        }
    }
}

impl InspectError {
    /// What brought the error about, as far as it matters for reporting it.
    pub open spec fn origin(self) -> Cause {
        match self {
            InspectError::InvalidHello(error) => Cause::Tls(error.kind),
            _ => Cause::Other,
        }
    }

    /// What brought the error about, as far as it matters for reporting it.
    pub fn cause(&self) -> (result: Cause)
        ensures
            result == self.origin(),
    {
        match self {
            InspectError::InvalidHello(error) => Cause::Tls(error.kind),
            _ => Cause::Other,
        }
    }

    /// The words of the TLS error behind the error, if there is one.
    pub fn detail(&self) -> (result: Option<&str>)
        ensures
            match self {
                InspectError::InvalidHello(error) => result matches Some(text) && text@
                    == error.detail@,
                _ => result is None,
            },
    {
        match self {
            InspectError::InvalidHello(error) => Some(error.detail.as_str()),
            _ => None,
        }
    }
}

/// The batches with more bytes in the last one.
pub open spec fn extended(batches: Seq<Seq<u8>>, bytes: Seq<u8>) -> Seq<Seq<u8>> {
    batches.update(batches.len() - 1, batches.last() + bytes)
}

/// Why an acceptor with these batches does not read all of the bytes, if it does not. It never
/// reads more than it is given.
pub open spec fn feed_error(batches: Seq<Seq<u8>>, bytes: Seq<u8>) -> Option<InspectError>
    decreases bytes.len(),
{
    if bytes.len() == 0 {
        None
    } else {
        match tls_read(batches, bytes) {
            None => Some(InspectError::ReadFailed),
            Some(n) => if n == 0 || n > bytes.len() {
                Some(InspectError::NotConsumed)
            } else {
                feed_error(extended(batches, bytes.take(n as int)), bytes.skip(n as int))
            },
        }
    }
}

/// Hands bytes to an acceptor until it has read them all.
fn feed_acceptor(acceptor: &mut Acceptor, bytes: &[u8]) -> (result: Result<(), InspectError>)
    requires
        acceptor_batches(*old(acceptor)).len() > 0,
    ensures
        match result {
            Ok(_) => {
                &&& feed_error(acceptor_batches(*old(acceptor)), bytes@) is None
                &&& acceptor_batches(*final(acceptor)) == extended(
                    acceptor_batches(*old(acceptor)),
                    bytes@,
                )
            },
            Err(error) => feed_error(acceptor_batches(*old(acceptor)), bytes@) == Some(error),
        },
{
    let ghost start = acceptor_batches(*acceptor);
    let mut position: usize = 0;
    proof {
        assert(bytes@.skip(0) =~= bytes@);
        assert(extended(start, bytes@.take(0)) =~= start);
    }
    while position < bytes.len()
        invariant
            position <= bytes@.len(),
            start == acceptor_batches(*old(acceptor)),
            start.len() > 0,
            acceptor_batches(*acceptor) == extended(start, bytes@.take(position as int)),
            feed_error(start, bytes@) == feed_error(
                acceptor_batches(*acceptor),
                bytes@.skip(position as int),
            ),
        decreases bytes@.len() - position,
    {
        let rest = slice_subrange(bytes, position, bytes.len());
        let ghost now = acceptor_batches(*acceptor);
        assert(rest@ =~= bytes@.skip(position as int));
        match acceptor_read(acceptor, rest) {
            None => return Err(InspectError::ReadFailed),
            Some(0) => return Err(InspectError::NotConsumed),
            Some(n) => {
                proof {
                    assert(rest@.skip(n as int) =~= bytes@.skip(position + n));
                    assert(bytes@.take(position as int) + rest@.take(n as int) =~= bytes@.take(
                        position + n,
                    ));
                    assert(now.last() + rest@.take(n as int) =~= start.last() + bytes@.take(
                        position + n,
                    ));
                    assert(extended(now, rest@.take(n as int)) =~= extended(
                        start,
                        bytes@.take(position + n),
                    ));
                }
                position += n;
            },
        }
    }
    assert(bytes@.take(position as int) =~= bytes@);
    Ok(())
}

/// All bytes of the batches, in order.
pub open spec fn all_bytes(batches: Seq<Seq<u8>>) -> Seq<u8>
    decreases batches.len(),
{
    if batches.len() == 0 {
        seq![]
    } else {
        all_bytes(batches.drop_last()) + batches.last()
    }
}

/// The host that a server name stands for: without dots at its end, in lowercase.
pub open spec fn host_of(name: Seq<char>) -> Seq<char> {
    lower(without_trailing(name, '.'))
}

/// The host that a server name stands for.
pub fn normalize_host(name: &str) -> (result: String)
    ensures
        result@ == host_of(name@),
{
    string_from_chars(&to_lower(&drop_trailing(&chars_of(name), '.')))
}

/// The reading of a connection's first message.
pub struct Inspector {
    acceptor: Acceptor,
    prefix: Vec<u8>,
}

/// A TLS connection whose first message was read, and nothing of it answered.
pub struct TlsConnection<S> {
    accepted: Accepted,
    server_name: Option<String>,
    prefix: Vec<u8>,
    stream: S,
}

/// How the reading of a first message stands.
pub enum Inspection<S> {
    /// More bytes are needed.
    Reading(Inspector, S),
    /// The message was read.
    Tls(TlsConnection<S>),
}

impl Inspector {
    /// The bytes that were read from the connection.
    pub closed spec fn read(self) -> Seq<u8> {
        self.prefix@
    }

    /// What the acceptor was given, in batches.
    pub closed spec fn batches(self) -> Seq<Seq<u8>> {
        acceptor_batches(self.acceptor)
    }

    /// Every byte that was read from the connection was given to the acceptor, in order, and
    /// there are not too many.
    pub open spec fn wf(self) -> bool {
        &&& self.batches().len() > 0
        &&& all_bytes(self.batches()) == self.read()
        &&& self.read().len() <= MAX_CLIENT_HELLO_LENGTH
    }

    /// Begins with the first byte of a connection. There is nothing to inspect where it is not
    /// that of a TLS handshake.
    pub fn begin(first_byte: u8) -> (result: Result<Option<Self>, InspectError>)
        ensures
            first_byte != TLS_HANDSHAKE ==> result == Ok::<Option<Self>, InspectError>(None),
            first_byte == TLS_HANDSHAKE ==> {
                let error = feed_error(seq![Seq::<u8>::empty()], seq![first_byte]);
                match result {
                    Ok(inspector) => {
                        &&& error is None
                        &&& inspector matches Some(inspector)
                        &&& inspector.wf()
                        &&& inspector.read() == seq![first_byte]
                        &&& inspector.batches() == seq![seq![first_byte]]
                    },
                    Err(found) => error == Some(found),
                }
            },
    {
        if first_byte != TLS_HANDSHAKE {
            return Ok(None);
        }
        let mut acceptor = new_acceptor();
        let ghost start = acceptor_batches(acceptor);
        let mut prefix: Vec<u8> = Vec::new();
        prefix.push(first_byte);
        assert(prefix@ =~= seq![first_byte]);
        if let Err(error) = feed_acceptor(&mut acceptor, &prefix) {
            return Err(error);
        }
        proof {
            assert(Seq::<u8>::empty() + prefix@ =~= prefix@);
            assert(extended(start, prefix@) =~= seq![seq![first_byte]]);
            reveal_with_fuel(all_bytes, 2);
            assert(seq![seq![first_byte]].drop_last() =~= Seq::<Seq<u8>>::empty());
            assert(Seq::<u8>::empty() + seq![first_byte] =~= seq![first_byte]);
        }
        Ok(Some(Inspector { acceptor, prefix }))
    }

    /// Looks whether the first message is complete.
    pub fn accept<S>(self, stream: S) -> (result: Result<Inspection<S>, InspectError>)
        requires
            self.wf(),
        ensures
            match tls_accept(self.batches()) {
                Err(fault) => result matches Err(InspectError::InvalidHello(error)) && error@
                    == fault,
                Ok(None) => {
                    &&& result matches Ok(Inspection::Reading(inspector, same))
                    &&& same == stream
                    &&& inspector.wf()
                    &&& inspector.read() == self.read()
                    &&& inspector.batches() == self.batches().push(Seq::<u8>::empty())
                },
                Ok(Some(hello)) => {
                    &&& result matches Ok(Inspection::Tls(connection))
                    &&& connection.hello() == hello
                    &&& connection.wf()
                    &&& connection.read() == self.read()
                    &&& connection.carrier() == stream
                },
            },
    {
        let ghost before = self;
        let mut acceptor = self.acceptor;
        let prefix = self.prefix;
        match acceptor_accept(&mut acceptor) {
            Err(error) => Err(InspectError::InvalidHello(error)),
            Ok(None) => {
                proof {
                    let batches = before.batches();
                    let longer = batches.push(Seq::<u8>::empty());
                    assert(longer.drop_last() =~= batches);
                    assert(all_bytes(batches) + Seq::<u8>::empty() =~= all_bytes(batches));
                }
                Ok(Inspection::Reading(Inspector { acceptor, prefix }, stream))
            },
            Ok(Some(accepted)) => {
                let hello = client_hello(&accepted);
                let server_name = match &hello.server_name {
                    Some(name) => Some(normalize_host(name)),
                    None => None,
                };
                Ok(Inspection::Tls(TlsConnection { accepted, server_name, prefix, stream }))
            },
        }
    }

    /// Takes the bytes that were read from the connection next. None at all mean that it was
    /// closed.
    pub fn receive(&mut self, bytes: &[u8]) -> (result: Result<(), InspectError>)
        requires
            old(self).wf(),
        ensures
            match result {
                Ok(_) => {
                    &&& 0 < bytes@.len()
                    &&& old(self).read().len() + bytes@.len() <= MAX_CLIENT_HELLO_LENGTH
                    &&& feed_error(old(self).batches(), bytes@) is None
                    &&& final(self).wf()
                    &&& final(self).read() == old(self).read() + bytes@
                    &&& final(self).batches() == extended(old(self).batches(), bytes@)
                },
                Err(error) => if bytes@.len() == 0 {
                    error == InspectError::Closed
                } else if old(self).read().len() + bytes@.len() > MAX_CLIENT_HELLO_LENGTH {
                    error == InspectError::TooLarge
                } else {
                    feed_error(old(self).batches(), bytes@) == Some(error)
                },
            },
    {
        if bytes.len() == 0 {
            return Err(InspectError::Closed);
        }
        if bytes.len() > MAX_CLIENT_HELLO_LENGTH - self.prefix.len() {
            return Err(InspectError::TooLarge);
        }
        let ghost before = *self;
        self.prefix.extend_from_slice(bytes);
        if let Err(error) = feed_acceptor(&mut self.acceptor, bytes) {
            return Err(error);
        }
        proof {
            let batches = before.batches();
            assert(self.batches() == extended(batches, bytes@));
            assert(self.batches().drop_last() =~= batches.drop_last());
            assert(all_bytes(self.batches()) =~= all_bytes(batches) + bytes@);
            assert(self.read() =~= before.read() + bytes@);
        }
        Ok(())
    }
}

/// Whether a first message offers only the protocol of a certificate authority's check.
pub open spec fn is_challenge(hello: (Option<Seq<char>>, Option<Seq<Seq<u8>>>)) -> bool {
    hello.1 == Some(seq![ACME_PROTOCOL@])
}

/// Whether a first message offers the protocol of a certificate authority's check.
pub open spec fn offers_challenge(hello: (Option<Seq<char>>, Option<Seq<Seq<u8>>>)) -> bool {
    hello.1 matches Some(protocols) && protocols.contains(ACME_PROTOCOL@)
}

fn is_acme_protocol(protocol: &[u8]) -> (result: bool)
    ensures
        result == (protocol@ == ACME_PROTOCOL@),
{
    if protocol.len() != 10 {
        return false;
    }
    let mut i: usize = 0;
    while i < 10
        invariant
            i <= 10 == protocol@.len(),
            forall|k: int| 0 <= k < i ==> #[trigger] protocol@[k] == ACME_PROTOCOL@[k],
        decreases 10 - i,
    {
        if protocol[i] != ACME_PROTOCOL[i] {
            return false;
        }
        i += 1;
    }
    assert(protocol@ =~= ACME_PROTOCOL@);
    true
}

impl<S> TlsConnection<S> {
    /// The server name and the protocols that the first message offers.
    pub closed spec fn hello(self) -> (Option<Seq<char>>, Option<Seq<Seq<u8>>>) {
        accepted_hello(self.accepted)
    }

    /// The bytes that were read from the connection.
    pub closed spec fn read(self) -> Seq<u8> {
        self.prefix@
    }

    pub closed spec fn carrier(self) -> S {
        self.stream
    }

    /// The server name is the one that the first message offers.
    pub closed spec fn wf(self) -> bool {
        match self.hello().0 {
            Some(name) => self.server_name matches Some(text) && text@ == host_of(name),
            None => self.server_name is None,
        }
    }

    /// The host that the visitor asks for, if it names one.
    pub fn server_name(&self) -> (result: Option<&str>)
        requires
            self.wf(),
        ensures
            match self.hello().0 {
                Some(name) => result matches Some(text) && text@ == host_of(name),
                None => result is None,
            },
    {
        match &self.server_name {
            Some(name) => Some(name.as_str()),
            None => None,
        }
    }

    /// Whether the connection is a certificate authority's check and nothing else.
    pub fn is_acme_challenge(&self) -> (result: bool)
        ensures
            result == is_challenge(self.hello()),
    {
        let hello = client_hello(&self.accepted);
        match &hello.alpn {
            None => false,
            Some(protocols) => {
                proof {
                    let list = hello@.1->0;
                    assert(list.len() == protocols@.len());
                    if protocols@.len() == 1 {
                        assert(list[0] == protocols@[0]@);
                        assert(list =~= seq![list[0]]);
                    }
                    assert(seq![ACME_PROTOCOL@][0] == ACME_PROTOCOL@);
                }
                protocols.len() == 1 && is_acme_protocol(&protocols[0])
            },
        }
    }

    /// Whether the connection may be a certificate authority's check.
    pub fn offers_acme_challenge(&self) -> (result: bool)
        ensures
            result == offers_challenge(self.hello()),
    {
        let hello = client_hello(&self.accepted);
        match &hello.alpn {
            None => false,
            Some(protocols) => {
                let ghost list = hello@.1->0;
                let mut i: usize = 0;
                while i < protocols.len()
                    invariant
                        i <= protocols@.len() == list.len(),
                        forall|k: int| 0 <= k < list.len() ==> #[trigger] list[k] == protocols@[k]@,
                        forall|k: int| 0 <= k < i ==> #[trigger] list[k] != ACME_PROTOCOL@,
                        self.hello().1 == Some(list),
                    decreases protocols@.len() - i,
                {
                    assert(list[i as int] == protocols@[i as int]@);
                    if is_acme_protocol(&protocols[i]) {
                        return true;
                    }
                    i += 1;
                }
                false
            },
        }
    }

    /// The bytes that were read from the connection, and the connection.
    pub fn into_raw_parts(self) -> (result: (Vec<u8>, S))
        ensures
            result.0@ == self.read(),
            result.1 == self.carrier(),
    {
        (self.prefix, self.stream)
    }

    /// What the handshake goes on with, and the connection.
    pub fn into_handshake(self) -> (result: (Accepted, S))
        ensures
            accepted_hello(result.0) == self.hello(),
            result.1 == self.carrier(),
    {
        (self.accepted, self.stream)
    }
}

/// A connection that is a certificate authority's check and nothing else also may be one.
pub proof fn law_challenge_is_offered(hello: (Option<Seq<char>>, Option<Seq<Seq<u8>>>))
    requires
        is_challenge(hello),
    ensures
        offers_challenge(hello),
{
    assert(hello.1->0[0] == ACME_PROTOCOL@);
}

/// What is read next from a connection of which some bytes were read already.
pub enum PrefixRead {
    /// These bytes.
    Bytes(Vec<u8>),
    /// Whatever the connection gives.
    Stream,
}

/// A connection of which some bytes were read already, to be read from the first one on.
pub struct PrefixedStream<S> {
    prefix: Vec<u8>,
    prefix_offset: usize,
    stream: S,
}

impl<S> PrefixedStream<S> {
    pub closed spec fn wf(self) -> bool {
        self.prefix_offset <= self.prefix@.len()
    }

    /// The bytes that come before those of the connection.
    pub closed spec fn pending(self) -> Seq<u8> {
        self.prefix@.skip(self.prefix_offset as int)
    }

    pub closed spec fn carrier(self) -> S {
        self.stream
    }

    pub fn new(prefix: Vec<u8>, stream: S) -> (result: Self)
        ensures
            result.wf(),
            result.pending() == prefix@,
            result.carrier() == stream,
    {
        assert(prefix@.skip(0) =~= prefix@);
        PrefixedStream { prefix, prefix_offset: 0, stream }
    }

    /// The connection, for its owner's I/O.
    pub fn inner_mut(&mut self) -> (result: &mut S)
        requires
            old(self).wf(),
        ensures
            *result == old(self).carrier(),
            final(self).wf(),
            final(self).carrier() == *final(result),
            final(self).pending() == old(self).pending(),
    {
        &mut self.stream
    }

    /// Says what to read, with room for so many bytes.
    pub fn next_read(&mut self, room: usize) -> (result: PrefixRead)
        requires
            old(self).wf(),
        ensures
            final(self).wf(),
            final(self).carrier() == old(self).carrier(),
            match result {
                PrefixRead::Stream => {
                    &&& old(self).pending().len() == 0
                    &&& final(self).pending().len() == 0
                },
                PrefixRead::Bytes(bytes) => {
                    &&& old(self).pending().len() > 0
                    &&& bytes@.len() == if room < old(self).pending().len() {
                        room as int
                    } else {
                        old(self).pending().len() as int
                    }
                    &&& bytes@ + final(self).pending() == old(self).pending()
                },
            },
    {
        let length = self.prefix.len();
        if self.prefix_offset >= length {
            return PrefixRead::Stream;
        }
        let ghost before = self.pending();
        let remaining = length - self.prefix_offset;
        let count = if remaining < room {
            remaining
        } else {
            room
        };
        let end = self.prefix_offset + count;
        let mut bytes: Vec<u8> = Vec::new();
        bytes.extend_from_slice(slice_subrange(&self.prefix, self.prefix_offset, end));
        self.prefix_offset = end;
        assert(bytes@ + self.pending() =~= before);
        PrefixRead::Bytes(bytes)
    }
}

/// The cipher suite that is preferred between server and node: as safe against active attackers
/// as the others, and faster in bulk. This is `TLS13_AES_128_GCM_SHA256`.
pub const PREFERRED_SUITE: u16 = 0x1301;

/// The positions at which the preferred suite stands (`preferred`), or does not (`!preferred`).
pub open spec fn suite_positions(suites: Seq<u16>, preferred: bool) -> Seq<usize>
    decreases suites.len(),
{
    if suites.len() == 0 {
        seq![]
    } else {
        let before = suite_positions(suites.drop_last(), preferred);
        if (suites.last() == PREFERRED_SUITE) == preferred {
            before.push((suites.len() - 1) as usize)
        } else {
            before
        }
    }
}

/// The order in which cipher suites are offered, by their positions: the preferred one first, the
/// others as they were.
pub fn transport_suite_order(suites: &[u16]) -> (result: Vec<usize>)
    ensures
        result@ == suite_positions(suites@, true) + suite_positions(suites@, false),
{
    let mut first: Vec<usize> = Vec::new();
    let mut rest: Vec<usize> = Vec::new();
    let mut i: usize = 0;
    while i < suites.len()
        invariant
            i <= suites@.len(),
            first@ == suite_positions(suites@.take(i as int), true),
            rest@ == suite_positions(suites@.take(i as int), false),
        decreases suites@.len() - i,
    {
        assert(suites@.take(i + 1).drop_last() =~= suites@.take(i as int));
        if suites[i] == PREFERRED_SUITE {
            first.push(i);
        } else {
            rest.push(i);
        }
        i += 1;
    }
    assert(suites@.take(i as int) =~= suites@);
    first.append(&mut rest);
    first
}

proof fn lemma_suite_positions(suites: Seq<u16>, preferred: bool, position: usize)
    requires
        suites.len() <= usize::MAX,
    ensures
        suite_positions(suites, preferred).contains(position) <==> position < suites.len() && (
        suites[position as int] == PREFERRED_SUITE) == preferred,
        forall|i: int, j: int|
            0 <= i < j < suite_positions(suites, preferred).len() ==> #[trigger] suite_positions(
                suites,
                preferred,
            )[i] < #[trigger] suite_positions(suites, preferred)[j],
        forall|i: int|
            0 <= i < suite_positions(suites, preferred).len() ==> (#[trigger] suite_positions(
                suites,
                preferred,
            )[i]) < suites.len(),
    decreases suites.len(),
{
    if suites.len() > 0 {
        lemma_suite_positions(suites.drop_last(), preferred, position);
        let before = suite_positions(suites.drop_last(), preferred);
        let last = (suites.len() - 1) as usize;
        let all = suite_positions(suites, preferred);
        if (suites.last() == PREFERRED_SUITE) == preferred {
            assert(all == before.push(last));
            assert(all[before.len() as int] == last);
            if before.contains(position) {
                let i = choose|i: int| 0 <= i < before.len() && before[i] == position;
                assert(all[i] == position);
            }
            if all.contains(position) && position != last {
                let i = choose|i: int| 0 <= i < all.len() && all[i] == position;
                assert(before[i] == position);
            }
        }
    }
}

/// Ordering the suites loses none and doubles none, and keeps those of one kind in order.
pub proof fn law_suite_order_keeps_every_suite(suites: Seq<u16>, preferred: bool, position: usize)
    requires
        suites.len() <= usize::MAX,
    ensures
        position < suites.len() <==> (suite_positions(suites, true) + suite_positions(
            suites,
            false,
        )).contains(position),
        !(suite_positions(suites, true).contains(position) && suite_positions(
            suites,
            false,
        ).contains(position)),
        forall|i: int, j: int|
            0 <= i < j < suite_positions(suites, preferred).len() ==> #[trigger] suite_positions(
                suites,
                preferred,
            )[i] < #[trigger] suite_positions(suites, preferred)[j],
{
    lemma_suite_positions(suites, true, position);
    lemma_suite_positions(suites, false, position);
    let first = suite_positions(suites, true);
    let rest = suite_positions(suites, false);
    let all = first + rest;
    if first.contains(position) {
        let i = choose|i: int| 0 <= i < first.len() && first[i] == position;
        assert(all[i] == position);
    }
    if rest.contains(position) {
        let i = choose|i: int| 0 <= i < rest.len() && rest[i] == position;
        assert(all[first.len() + i] == position);
    }
    if all.contains(position) {
        let i = choose|i: int| 0 <= i < all.len() && all[i] == position;
        if i < first.len() {
            assert(first[i] == position);
        } else {
            assert(rest[i - first.len()] == position);
        }
    }
}

/// The host that a visitor asks for is the server name without dots at its end, in lowercase.
pub proof fn law_server_name_is_the_host<S>(
    connection: &TlsConnection<S>,
    name: &str,
    host: Seq<char>,
    dots: nat,
    normal: String,
    asked: Option<&str>,
)
    requires
        call_ensures(normalize_host, (name,), normal),
        call_ensures(TlsConnection::<S>::server_name, (connection,), asked),
        host.len() > 0 ==> host.last() != '.',
        name@ == host + Seq::new(dots, |i: int| '.'),
    ensures
        normal@ == lower(host),
        connection.hello().0 is None ==> asked is None,
        connection.hello().0 == Some(name@) ==> (asked matches Some(text) && text@ == lower(host)),
{
    law_trailing_characters_are_dropped(host, '.', dots);
}

/// A connection is a certificate authority's check where it offers the protocol `acme-tls/1` and
/// no other; it may be one where that is among what it offers.
pub proof fn law_challenges_are_told_by_their_protocol<S>(
    connection: &TlsConnection<S>,
    only: bool,
    among: bool,
)
    requires
        call_ensures(TlsConnection::<S>::is_acme_challenge, (connection,), only),
        call_ensures(TlsConnection::<S>::offers_acme_challenge, (connection,), among),
    ensures
        ({
            let acme = seq![97u8, 99, 109, 101, 45, 116, 108, 115, 47, 49];
            match connection.hello().1 {
                None => !only && !among,
                Some(protocols) => {
                    &&& only <==> protocols == seq![acme]
                    &&& among <==> exists|i: int|
                        0 <= i < protocols.len() && #[trigger] protocols[i] == acme
                },
            }
        }),
{
    assert(ACME_PROTOCOL@ =~= seq![97u8, 99, 109, 101, 45, 116, 108, 115, 47, 49]);
}

/// An acceptor that always reads something, and never more than it is given, is fed everything.
pub proof fn law_reading_acceptor_is_fed(batches: Seq<Seq<u8>>, bytes: Seq<u8>)
    requires
        forall|b: Seq<Seq<u8>>, input: Seq<u8>|
            input.len() > 0 ==> (#[trigger] tls_read(b, input) matches Some(n) && 0 < n
                <= input.len()),
    ensures
        feed_error(batches, bytes) is None,
    decreases bytes.len(),
{
    if bytes.len() > 0 {
        let n = tls_read(batches, bytes)->0;
        law_reading_acceptor_is_fed(extended(batches, bytes.take(n as int)), bytes.skip(n as int));
    }
}

/// An acceptor that fails at once is not fed, and neither is one that reads nothing.
pub proof fn law_failing_acceptor_is_reported(batches: Seq<Seq<u8>>, bytes: Seq<u8>)
    requires
        bytes.len() > 0,
    ensures
        tls_read(batches, bytes) is None ==> feed_error(batches, bytes) == Some(
            InspectError::ReadFailed,
        ),
        tls_read(batches, bytes) == Some(0nat) ==> feed_error(batches, bytes) == Some(
            InspectError::NotConsumed,
        ),
{
}

/// A connection is inspected exactly where its first byte is that of a TLS handshake.
pub proof fn law_only_tls_is_inspected(
    first_byte: u8,
    result: Result<Option<Inspector>, InspectError>,
)
    requires
        call_ensures(Inspector::begin, (first_byte,), result),
    ensures
        first_byte != 22 ==> result == Ok::<Option<Inspector>, InspectError>(None),
        first_byte == 22 ==> !(result matches Ok(None)),
        result matches Ok(Some(inspector)) ==> inspector.read() == seq![first_byte],
{
}

/// Every byte that is received is kept for the node, in order, up to 65536 of them. A connection
/// that is closed or sends more is given up.
pub proof fn law_received_bytes_are_kept(
    inspector: &mut Inspector,
    bytes: &[u8],
    result: Result<(), InspectError>,
)
    requires
        call_ensures(Inspector::receive, (inspector, bytes), result),
    ensures
        result is Ok ==> final(inspector).read() == old(inspector).read() + bytes@,
        bytes@.len() == 0 ==> result == Err::<(), InspectError>(InspectError::Closed),
        bytes@.len() > 0 && old(inspector).read().len() + bytes@.len() > 65536 ==> result == Err::<
            (),
            InspectError,
        >(InspectError::TooLarge),
        bytes@.len() > 0 && old(inspector).read().len() + bytes@.len() <= 65536 && feed_error(
            old(inspector).batches(),
            bytes@,
        ) is None ==> result is Ok,
{
}

/// The preferred suite is offered before all others, and only suites of that number come first.
pub proof fn law_preferred_suite_comes_first(suites: &[u16], order: Vec<usize>, i: int, j: int)
    requires
        call_ensures(transport_suite_order, (suites,), order),
        0 <= i < j < order@.len(),
    ensures
        order@[i] < suites@.len(),
        order@[j] < suites@.len(),
        suites@[order@[j] as int] == 0x1301 ==> suites@[order@[i] as int] == 0x1301,
        (suites@[order@[i] as int] == 0x1301) == (suites@[order@[j] as int] == 0x1301)
            ==> order@[i] < order@[j],
{
    let first = suite_positions(suites@, true);
    let rest = suite_positions(suites@, false);
    assert(suites@.len() <= usize::MAX) by {
        assert(suites@.len() == suites.len());
    }
    lemma_suite_positions(suites@, true, order@[i]);
    lemma_suite_positions(suites@, false, order@[i]);
    lemma_suite_positions(suites@, true, order@[j]);
    lemma_suite_positions(suites@, false, order@[j]);
    if i < first.len() {
        assert(first[i] == order@[i]);
    } else {
        assert(rest[i - first.len()] == order@[i]);
    }
    if j < first.len() {
        assert(first[j] == order@[j]);
    } else {
        assert(rest[j - first.len()] == order@[j]);
    }
}

/// A connection of which bytes were read gives those bytes first, in order, as many as there is
/// room for, and then what the connection gives.
pub proof fn law_read_bytes_come_first<S>(
    stream: &mut PrefixedStream<S>,
    room: usize,
    result: PrefixRead,
)
    requires
        call_ensures(PrefixedStream::<S>::next_read, (stream, room), result),
    ensures
        old(stream).pending().len() == 0 ==> result is Stream,
        old(stream).pending().len() > 0 ==> {
            &&& result matches PrefixRead::Bytes(bytes)
            &&& bytes@ + final(stream).pending() == old(stream).pending()
            &&& room > 0 ==> bytes@.len() > 0
            &&& bytes@.len() <= room
            &&& bytes@.len() == room || final(stream).pending().len() == 0
        },
{
}

/// An error that a first message brought about is a TLS error of its kind, with its words; any
/// other is none.
pub proof fn law_tls_errors_keep_their_kind(
    error: &InspectError,
    cause: Cause,
    detail: Option<&str>,
)
    requires
        call_ensures(InspectError::cause, (error,), cause),
        call_ensures(InspectError::detail, (error,), detail),
    ensures
        *error matches InspectError::InvalidHello(tls) ==> cause == Cause::Tls(tls.kind) && (
        detail matches Some(text) && text@ == tls.detail@),
        !(*error is InvalidHello) ==> cause == Cause::Other && detail is None,
{
}

/// A connection is handed on with the bytes that were read from it, or with what the handshake
/// goes on with.
pub proof fn law_connections_are_handed_on<S>(
    connection: TlsConnection<S>,
    raw: (Vec<u8>, S),
    shaken: (Accepted, S),
)
    requires
        call_ensures(TlsConnection::<S>::into_raw_parts, (connection,), raw),
        call_ensures(TlsConnection::<S>::into_handshake, (connection,), shaken),
    ensures
        raw.0@ == connection.read(),
        raw.1 == connection.carrier() && shaken.1 == connection.carrier(),
        accepted_hello(shaken.0) == connection.hello(),
{
}

/// The words that an error is reported with tell which error it is.
pub proof fn law_words_tell_inspect_errors_apart(error: &InspectError, text: &str)
    requires
        call_ensures(InspectError::message, (error,), text),
    ensures
        *error is Closed <==> text@ == "connection closed before sending a complete TLS ClientHello"@,
        *error is TooLarge <==> text@ == "TLS ClientHello is too large"@,
        *error is ReadFailed <==> text@ == "could not read the TLS ClientHello"@,
        *error is NotConsumed <==> text@ == "Rustls did not consume the ClientHello bytes"@,
        *error is InvalidHello <==> text@ == "could not parse the TLS ClientHello"@,
{
    reveal_strlit("connection closed before sending a complete TLS ClientHello");
    reveal_strlit("TLS ClientHello is too large");
    reveal_strlit("could not read the TLS ClientHello");
    reveal_strlit("Rustls did not consume the ClientHello bytes");
    reveal_strlit("could not parse the TLS ClientHello");
    assert("connection closed before sending a complete TLS ClientHello"@.len() == 59);
    assert("TLS ClientHello is too large"@.len() == 28);
    assert("could not read the TLS ClientHello"@.len() == 34);
    assert("Rustls did not consume the ClientHello bytes"@.len() == 44);
    assert("could not parse the TLS ClientHello"@.len() == 35);
}

} // verus!
