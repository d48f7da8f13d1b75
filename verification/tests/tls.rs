use std::sync::Arc;

use rustls::pki_types::ServerName;
use rustls::{ClientConfig, ClientConnection, RootCertStore};
use tnl::error::{is_routine_connection_error, TlsErrorKind};
use tnl::server::route::{handle_connection, Dispatch};
use tnl::server::tls::{
    normalize_host, transport_suite_order, InspectError, Inspection, Inspector, PrefixRead,
    PrefixedStream, TlsConnection,
};

/// The first message of a client that asks for a host and offers protocols.
fn hello(host: &str, protocols: &[&[u8]]) -> Vec<u8> {
    let provider = Arc::new(rustls::crypto::ring::default_provider());
    let mut config = ClientConfig::builder_with_provider(provider)
        .with_safe_default_protocol_versions()
        .unwrap()
        .with_root_certificates(RootCertStore::empty())
        .with_no_client_auth();
    config.alpn_protocols = protocols.iter().map(|protocol| protocol.to_vec()).collect();
    let name = ServerName::try_from(host.to_owned()).unwrap();
    let mut client = ClientConnection::new(Arc::new(config), name).unwrap();
    let mut bytes = Vec::new();
    while client.wants_write() {
        client.write_tls(&mut bytes).unwrap();
    }
    bytes
}

fn inspect(bytes: &[u8], most: usize) -> Result<TlsConnection<&'static str>, InspectError> {
    let mut inspector = Inspector::begin(bytes[0]).unwrap().unwrap();
    let mut rest = &bytes[1..];
    loop {
        match inspector.accept("stream")? {
            Inspection::Tls(connection) => return Ok(connection),
            Inspection::Reading(next, stream) => {
                assert_eq!(stream, "stream");
                inspector = next;
            }
        }
        let count = most.min(rest.len());
        inspector.receive(&rest[..count])?;
        rest = &rest[count..];
    }
}

#[test]
fn the_first_message_names_the_host() {
    let bytes = hello("App.Example.com", &[]);
    for most in [1, 100, 4096] {
        let connection = inspect(&bytes, most).unwrap();
        assert_eq!(connection.server_name(), Some("app.example.com"));
        assert!(!connection.is_acme_challenge() && !connection.offers_acme_challenge());
        let (read, stream) = connection.into_raw_parts();
        assert_eq!(stream, "stream");
        assert_eq!(read, bytes);
    }
}

#[test]
fn an_address_is_no_host() {
    let connection = inspect(&hello("192.0.2.1", &[]), 4096).unwrap();
    assert_eq!(connection.server_name(), None);
    assert!(matches!(handle_connection(&connection, "example.com"), Dispatch::Close));
}

#[test]
fn challenges_are_told_by_their_protocol() {
    let only = inspect(&hello("h.example", &[b"acme-tls/1"]), 4096).unwrap();
    assert!(only.is_acme_challenge() && only.offers_acme_challenge());
    let among = inspect(&hello("h.example", &[b"h2", b"acme-tls/1"]), 4096).unwrap();
    assert!(!among.is_acme_challenge() && among.offers_acme_challenge());
    let other = inspect(&hello("h.example", &[b"acme-tls/2"]), 4096).unwrap();
    assert!(!other.is_acme_challenge() && !other.offers_acme_challenge());
}

#[test]
fn connections_are_dispatched_by_host_and_protocol() {
    let dispatch = |host: &str, protocols: &[&[u8]]| {
        handle_connection(&inspect(&hello(host, protocols), 4096).unwrap(), "tnl.example")
    };
    assert!(matches!(dispatch("tnl.example", &[]), Dispatch::ServeApi));
    assert!(matches!(dispatch("tnl.example", &[b"acme-tls/1"]), Dispatch::AnswerChallenge));
    assert!(matches!(
        dispatch("app.tnl.example", &[b"acme-tls/1"]),
        Dispatch::Forward(id) if id.as_str() == "app"
    ));
    assert!(matches!(dispatch("other.example", &[]), Dispatch::Close));
}

#[test]
fn only_tls_is_inspected() {
    assert!(Inspector::begin(b'G').unwrap().is_none());
    assert!(Inspector::begin(22).unwrap().is_some());
}

#[test]
fn faults_of_the_first_message_are_told_apart() {
    let bytes = hello("h.example", &[]);
    assert_eq!(inspect(&bytes[..20], 4096).err(), Some(InspectError::Closed));
    let mut inspector = Inspector::begin(22).unwrap().unwrap();
    assert_eq!(inspector.receive(&vec![0; 65536]), Err(InspectError::TooLarge));
    let mut garbage = vec![22, 3, 1, 0, 4];
    garbage.extend([9, 9, 9, 9]);
    let fault = inspect(&garbage, 4096).err().unwrap();
    assert!(matches!(
        &fault,
        InspectError::InvalidHello(error) if error.kind == TlsErrorKind::InvalidMessage
    ));
    assert!(fault.detail().is_some_and(|detail| !detail.is_empty()));
    assert!(InspectError::Closed.detail().is_none());
    assert_eq!(fault.message(), "could not parse the TLS ClientHello");
    assert!(is_routine_connection_error(&[fault.cause()]));
    assert!(!is_routine_connection_error(&[InspectError::TooLarge.cause()]));
    assert_eq!(InspectError::TooLarge.message(), "TLS ClientHello is too large");
}

#[test]
fn more_than_is_taken_at_once_is_read_in_parts() {
    let mut inspector = Inspector::begin(22).unwrap().unwrap();
    inspector.receive(&[3, 1]).unwrap();
    match inspector.accept(()).unwrap() {
        Inspection::Reading(mut next, ()) => assert_eq!(next.receive(&[]), Err(InspectError::Closed)),
        Inspection::Tls(_) => panic!("nothing to accept"),
    }
}

#[test]
fn an_accepted_connection_goes_on_with_its_handshake() {
    let connection = inspect(&hello("h.example", &[b"h2"]), 4096).unwrap();
    let (accepted, stream) = connection.into_handshake();
    assert_eq!(stream, "stream");
    assert_eq!(accepted.client_hello().server_name(), Some("h.example"));
}

#[test]
fn hosts_are_compared_in_lowercase_and_without_dots() {
    assert_eq!(normalize_host("A.Example.COM.."), "a.example.com");
    assert_eq!(normalize_host(""), "");
}

#[test]
fn bytes_that_were_read_come_first() {
    let mut stream = PrefixedStream::new(b"abcde".to_vec(), 7);
    assert!(matches!(stream.next_read(2), PrefixRead::Bytes(bytes) if bytes == b"ab"));
    assert!(matches!(stream.next_read(0), PrefixRead::Bytes(bytes) if bytes.is_empty()));
    assert!(matches!(stream.next_read(9), PrefixRead::Bytes(bytes) if bytes == b"cde"));
    assert!(matches!(stream.next_read(9), PrefixRead::Stream));
    *stream.inner_mut() += 1;
    assert_eq!(*stream.inner_mut(), 8);
}

#[test]
fn the_fast_suite_is_offered_first() {
    assert_eq!(transport_suite_order(&[0x1302, 0x1301, 0x1303]), [1, 0, 2]);
    assert_eq!(transport_suite_order(&[0x1302, 0x1303]), [0, 1]);
    assert_eq!(transport_suite_order(&[1, 0x1301, 2, 0x1301]), [1, 3, 0, 2]);
}
