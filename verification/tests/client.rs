use tnl::client::forward::{
    accepted, certificate_event, check_port, check_target, hostname_in, is_routine_connection_error,
    plan_visitor, Cause, CertificateEvent, ClientEvent, ForwardError, Forwarding, MessageUse,
    SessionStart, StreamUse, TlsErrorKind,
};
use tnl::client::http::{
    check_response, endpoint_at, find_endpoint, find_field, registration_error_is_fatal,
    tunnel_url, ApiError, ApiRejection, HeaderProgress, HeaderReader,
};
use tnl::client::names::{
    choose_tunnel_id, default_tunnel_id, sanitize_tunnel_id, tunnel_id_from,
};
use tnl::client::reconnect::Reconnect;
use tnl::error::IoErrorKind;
use tnl::external::UrlParts;
use tnl::net::{IpAddr, SocketAddr};
use tnl::server::control::{ClientControlMessage, ServerControlMessage};
use tnl::session::MultiplexerError;
use tnl::stream::SessionError;
use tnl::TunnelId;

#[test]
fn names_are_made_of_directories() {
    for (directory, name) in [
        ("My App", "my-app"),
        ("my--app__2", "my-app-2"),
        ("--x--", "x"),
        ("...", ""),
        ("", ""),
        ("Grüße", "gr-e"),
        ("ÀÉ", ""),
        ("already-good", "already-good"),
        ("İstanbul", "i-stanbul"),
    ] {
        assert_eq!(sanitize_tunnel_id(directory), name, "{directory}");
    }
    let long = format!("{}-b", "a".repeat(62));
    assert_eq!(sanitize_tunnel_id(&long), "a".repeat(62));
    assert_eq!(sanitize_tunnel_id(&"c".repeat(80)), "c".repeat(63));
}

#[test]
fn a_tunnel_always_gets_a_name() {
    assert_eq!(default_tunnel_id(Some("My App")).unwrap().as_str(), "my-app");
    for directory in [None, Some("..."), Some("")] {
        let id = default_tunnel_id(directory).unwrap();
        assert_eq!(id.as_str().len(), 8);
        assert!(id
            .as_str()
            .bytes()
            .all(|byte| byte.is_ascii_lowercase() || byte.is_ascii_digit()));
    }
    let names: Vec<String> =
        (0..8).map(|_| default_tunnel_id(None).unwrap().to_string()).collect();
    assert!(names.iter().any(|name| *name != names[0]));
    assert_eq!(tunnel_id_from(None, "AbC").unwrap().as_str(), "abc");
    assert!(tunnel_id_from(Some("-"), "-").is_err());
    assert_eq!(choose_tunnel_id(Some("MyApp"), None).unwrap().as_str(), "myapp");
    assert!(choose_tunnel_id(Some("my app"), None).is_err());
    assert_eq!(choose_tunnel_id(None, Some("dir")).unwrap().as_str(), "dir");
}

fn parts(scheme: &str, host: Option<&str>, ipv6: Option<&str>, port: Option<u16>) -> UrlParts {
    UrlParts {
        scheme: scheme.to_owned(),
        host: host.map(str::to_owned),
        ipv6: ipv6.map(str::to_owned),
        port,
    }
}

#[test]
fn the_api_is_found_by_its_url() {
    let endpoint = find_endpoint("https://tnl.example.com", "token").unwrap();
    assert_eq!(endpoint.host, "tnl.example.com");
    assert_eq!(endpoint.port, 443);
    assert_eq!(endpoint.host_header, "tnl.example.com:443");
    assert_eq!(endpoint.authorization, "Bearer token");
    let endpoint = find_endpoint("https://[::1]:8443/", "token").unwrap();
    assert_eq!(endpoint.host_header, "[::1]:8443");
    assert_eq!(
        endpoint.open_tunnel_request(&TunnelId::new("app").unwrap()),
        "CONNECT /v1/tunnels/app HTTP/1.1\r\nHost: [::1]:8443\r\nAuthorization: Bearer token\r\n\r\n"
    );
    assert_eq!(
        endpoint.open_versioned_tunnel_request(&TunnelId::new("app").unwrap()),
        "CONNECT /v1/tunnels/app HTTP/1.1\r\nHost: [::1]:8443\r\nAuthorization: Bearer token\r\nX-Tnl-Protocol-Version: 2\r\n\r\n"
    );
    assert_eq!(
        endpoint.open_connection_request("abc"),
        "CONNECT /v1/connections/abc HTTP/1.1\r\nHost: [::1]:8443\r\nAuthorization: Bearer token\r\n\r\n"
    );
}

#[test]
fn the_api_is_not_found_by_other_urls() {
    let message = |url: &str, token: &str| find_endpoint(url, token).unwrap_err().message();
    assert_eq!(message("nonsense", "t"), "config contains an invalid API URL");
    assert_eq!(message("http://tnl.example.com", "t"), "config API URL must use HTTPS");
    assert_eq!(message("https://tnl.example.com", ""), "config contains an invalid token");
    assert_eq!(message("https://tnl.example.com", "a\nb"), "config contains an invalid token");
    let found = endpoint_at(Some(parts("https", None, None, Some(1))), "t");
    assert_eq!(found.unwrap_err().message(), "API URL does not contain a host");
    let found = endpoint_at(Some(parts("https", Some("h"), None, None)), "t");
    assert_eq!(found.unwrap_err().message(), "API URL does not contain a port");
    assert!(endpoint_at(None, "t").is_err());
    let found = endpoint_at(Some(parts("https", Some("h"), None, Some(7))), "t").unwrap();
    assert_eq!(found.host_header, "h:7");
}

fn read_header(stream: &[u8]) -> (Result<String, ApiError>, usize) {
    let mut reader = HeaderReader::new();
    let mut at = 0;
    while reader.progress() == HeaderProgress::Reading {
        reader.push(stream[at]);
        at += 1;
    }
    (reader.finish(), at)
}

#[test]
fn a_response_header_ends_with_a_blank_line() {
    let (header, read) = read_header(b"HTTP/1.1 200 OK\r\n\r\nbody\r\n\r\n");
    assert_eq!(header.unwrap(), "HTTP/1.1 200 OK\r\n\r\n");
    assert_eq!(read, 19);

    let mut longest = vec![b'x'; 16380];
    longest.extend(b"\r\n\r\n");
    assert_eq!(read_header(&longest).0.unwrap().len(), 16384);
    let (header, read) = read_header(&vec![b'x'; 20000]);
    assert_eq!(read, 16384);
    assert_eq!(
        header.unwrap_err().message(),
        "tunnel server HTTP response header is too large"
    );
    assert_eq!(
        read_header(b"\xff\r\n\r\n").0.unwrap_err().message(),
        "tunnel server returned a non-UTF-8 HTTP response"
    );
}

#[test]
fn responses_are_judged_by_their_status() {
    assert!(check_response("HTTP/1.1 200 OK\r\n\r\n").is_ok());
    assert!(check_response("HTTP/1.1 +299\r\n\r\n").is_ok());
    let message = |header: &str| check_response(header).unwrap_err().message();
    assert_eq!(message(""), "tunnel server returned an empty HTTP response");
    for header in ["\r\n", "HTTP/1.1\r\n", "HTTP/1.1 abc\r\n", "HTTP/1.1 70000\r\n"] {
        assert_eq!(message(header), "tunnel server returned an invalid HTTP status");
    }
    assert_eq!(
        message("HTTP/1.1 409 Conflict\r\n\r\n"),
        "tunnel server rejected the connection (HTTP/1.1 409 Conflict)"
    );
    assert!(check_response("HTTP/1.1 199 x\r\n").is_err());
    assert!(check_response("HTTP/1.1 300 x\r\n").is_err());
}

#[test]
fn the_public_url_is_in_the_response() {
    let header = "HTTP/1.1 200 OK\r\nServer: x\r\nx-TNL-url:  https://a.b \r\nX-Tnl-Url: c\r\n\r\n";
    assert_eq!(tunnel_url(header).unwrap(), "https://a.b");
    assert_eq!(find_field(header, "server").unwrap(), "x");
    assert!(find_field(header, "Server").is_none());
    let missing = "tunnel server response did not include X-Tnl-Url";
    assert_eq!(tunnel_url("HTTP/1.1 200 OK\r\n\r\n").unwrap_err().message(), missing);
    let empty = "HTTP/1.1 200 OK\r\nX-Tnl-Url: \r\nX-Tnl-Url: c\r\n\r\n";
    assert_eq!(tunnel_url(empty).unwrap_err().message(), missing);
    assert!(matches!(
        tunnel_url("HTTP/1.1 500 x\r\nX-Tnl-Url: c\r\n"),
        Err(ApiError::Rejected(ApiRejection { status: 500, .. }))
    ));
}

fn rejected(status: u16) -> ApiError {
    ApiError::Rejected(ApiRejection { status, status_line: String::new() })
}

#[test]
fn only_refusals_are_fatal() {
    assert!(registration_error_is_fatal(&rejected(400), false));
    assert!(registration_error_is_fatal(&rejected(499), true));
    assert!(registration_error_is_fatal(&rejected(409), false));
    assert!(!registration_error_is_fatal(&rejected(409), true));
    assert!(!registration_error_is_fatal(&rejected(399), false));
    assert!(!registration_error_is_fatal(&rejected(500), false));
    assert!(!registration_error_is_fatal(&ApiError::MissingUrl, false));
}

const SECOND: u128 = 1_000_000_000;

#[test]
fn delays_double_up_to_thirty_seconds() {
    let mut reconnect = Reconnect::new();
    for seconds in [1, 2, 4, 8, 16, 30, 30] {
        assert_eq!(reconnect.retry_in(0, 7), seconds * SECOND + 7_000_000);
    }
    assert_eq!(reconnect.retry_in(60 * SECOND - 1, 0), 30 * SECOND);
    assert_eq!(reconnect.retry_in(60 * SECOND, 0), SECOND);
    assert_eq!(reconnect.retry_in(0, 0), 2 * SECOND);
}

#[test]
fn failed_sessions_are_tried_again_unless_refused() {
    let mut reconnect = Reconnect::new();
    let first = reconnect.session_failed(None, false, 0).unwrap();
    assert!((SECOND..=SECOND + SECOND / 4).contains(&first));
    assert_eq!(first % 1_000_000, 0);
    assert_eq!(reconnect.session_failed(Some(&rejected(401)), true, 0), None);
    let second = reconnect.session_failed(Some(&rejected(503)), true, 0).unwrap();
    assert!((2 * SECOND..=2 * SECOND + SECOND / 4).contains(&second));
}

#[test]
fn a_tunnel_keeps_its_hostname() {
    let mut forwarding = Forwarding::new();
    assert!(!forwarding.has_registered());
    forwarding.registration_succeeded();
    assert!(forwarding.has_registered());
    let mut forwarding = Forwarding::new();
    match forwarding.registered("https://app.example.com").unwrap() {
        SessionStart::ObtainCertificate(name) => forwarding.certificate_managed(name),
        other => panic!("{other:?}"),
    }
    assert!(forwarding.has_registered());
    assert!(matches!(
        forwarding.registered("https://app.example.com/x"),
        Ok(SessionStart::Reconnected)
    ));
    assert_eq!(
        forwarding.registered("https://b.example.com").unwrap_err().message(),
        "tunnel hostname changed from app.example.com to b.example.com"
    );
    assert_eq!(
        forwarding.registered("nonsense").unwrap_err().message(),
        "server returned an invalid tunnel URL"
    );
    assert_eq!(
        forwarding.registered("data:x").unwrap_err().message(),
        "server tunnel URL did not contain a hostname"
    );
    assert_eq!(hostname_in(Some(parts("x", Some("h"), None, None))).unwrap(), "h");
    assert!(forwarding.registered_at(None).is_err());
}

#[test]
fn streams_are_forwarded_by_their_tag() {
    let mut forwarding = Forwarding::new();
    assert!(matches!(forwarding.stream_opened("other"), Ok(StreamUse::Ignore)));
    assert!(matches!(forwarding.stream_opened("tnl/tcp"), Err(ForwardError::NotReady)));
    forwarding.certificate_managed("h".to_owned());
    assert!(matches!(forwarding.stream_opened("tnl/tcp"), Ok(StreamUse::Forward)));
}

#[test]
fn control_messages_are_acted_on() {
    let mut forwarding = Forwarding::new();
    assert_eq!(
        forwarding.message_received(None).unwrap_err().message(),
        "invalid server message"
    );
    let request = || Some(ServerControlMessage::Connection("r".to_owned()));
    assert_eq!(
        forwarding.message_received(request()).unwrap_err().message(),
        "server sent a connection before the tunnel was ready"
    );
    match forwarding.message_received(Some(ServerControlMessage::Ready("https://h/".to_owned()))) {
        Ok(MessageUse::ObtainCertificate(name)) => forwarding.certificate_managed(name),
        other => panic!("{other:?}"),
    }
    assert!(matches!(forwarding.message_received(request()), Ok(MessageUse::Forward(id)) if id == "r"));
    assert!(matches!(
        forwarding.message_received(Some(ServerControlMessage::Ping)),
        Ok(MessageUse::Answer(ClientControlMessage::Pong))
    ));
    assert_eq!(
        ForwardError::ControlClosed.message(),
        "tunnel server closed the control connection"
    );
}

#[test]
fn a_port_is_not_zero() {
    assert!(check_port(1).is_ok());
    let target = |port| SocketAddr { ip: IpAddr::V4([127, 0, 0, 1]), port };
    assert!(check_target(target(1)).is_ok());
    assert_eq!(
        check_target(target(0)).unwrap_err().message(),
        "target port must be between 1 and 65535"
    );
    assert_eq!(check_port(0).unwrap_err().message(), "port must be between 1 and 65535");
}

#[test]
fn visitors_wait_for_a_certificate_and_challenges_do_not() {
    let visitor = plan_visitor(false);
    assert!(visitor.wait_for_certificate && visitor.connect && !visitor.use_challenge);
    assert_eq!(visitor.handshake_error, "could not complete visitor TLS handshake");
    let challenge = plan_visitor(true);
    assert!(!challenge.wait_for_certificate && !challenge.connect && challenge.use_challenge);
    assert_eq!(challenge.handshake_error, "could not complete ACME TLS-ALPN-01 handshake");
}

#[test]
fn certificate_news_is_passed_on() {
    let target = SocketAddr { ip: IpAddr::V4([127, 0, 0, 1]), port: 3000 };
    assert!(matches!(
        certificate_event("h", "https://h", target, CertificateEvent::Deployed),
        Some(ClientEvent::Ready { url, target: t }) if url == "https://h" && t == target
    ));
    assert!(certificate_event("h", "u", target, CertificateEvent::Stored).is_none());
    for (order, expected) in [(true, Some(3600 * SECOND)), (false, None)] {
        let event = CertificateEvent::Failed { order, error: "e".to_owned() };
        match certificate_event("h", "u", target, event) {
            Some(ClientEvent::CertificateError { hostname, error, retry_in }) => {
                assert_eq!((hostname.as_str(), error.as_str(), retry_in), ("h", "e", expected));
            }
            other => panic!("{other:?}"),
        }
    }
}

#[test]
fn routine_errors_are_those_of_peers() {
    assert!(!is_routine_connection_error(&[]));
    assert!(!is_routine_connection_error(&[Cause::Other, Cause::Io(IoErrorKind::NotFound)]));
    assert!(is_routine_connection_error(&[Cause::Other, Cause::Io(IoErrorKind::BrokenPipe)]));
    assert!(is_routine_connection_error(&[Cause::Tls(TlsErrorKind::AlertReceived)]));
    assert!(!is_routine_connection_error(&[Cause::Tls(TlsErrorKind::Other)]));
}

#[test]
fn a_session_without_streams_is_closed() {
    assert_eq!(accepted(Some(1)), Ok(1));
    assert_eq!(
        accepted::<u8>(None),
        Err(SessionError::Multiplexer(MultiplexerError::SessionClosed))
    );
}
