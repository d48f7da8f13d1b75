use tnl::auth::{hash_token, issue_token};
use tnl::config::{enroll, Client};
use tnl::server::api::{
    authenticate, bearer_token, header_text, open_tunnel, protocol_version_supported,
    valid_header_value, validate_tunnel_request,
};
use tnl::server::forward::{forward, CarryAction, CarryError, CarryEvent};
use tnl::server::route::{route, HostRoute};
use tnl::{TunnelId, PROTOCOL_VERSION, PROTOCOL_VERSION_HEADER, TRANSPORT_ACTIVATION_MARKER};

#[test]
fn rejects_missing_or_old_protocol_versions() {
    assert_eq!(PROTOCOL_VERSION_HEADER, "X-Tnl-Protocol-Version");
    assert!(protocol_version_supported(Some(b"2")));
    assert!(!protocol_version_supported(Some(b"1")));
    assert!(!protocol_version_supported(None));
}

#[test]
fn versions_have_to_match_to_the_byte() {
    for other in [b"".as_slice(), b"2 ", b" 2", b"22", b"3", b"\xff"] {
        assert!(!protocol_version_supported(Some(other)));
    }
    assert_eq!(PROTOCOL_VERSION, "2");
    assert_eq!(&TRANSPORT_ACTIVATION_MARKER, b"TNL\x02");
}

#[test]
fn header_values_are_visible_text() {
    assert_eq!(header_text(b"a\tb ~").unwrap(), "a\tb ~");
    for value in [b"\x00".as_slice(), b"\x7f", b"\x80", b"a\n"] {
        assert!(header_text(value).is_none());
    }
    assert!(valid_header_value("é\t") && valid_header_value(""));
    assert!(!valid_header_value("\u{7f}") && !valid_header_value("\r"));
}

#[test]
fn clients_are_let_in_by_their_token() {
    let issued = issue_token();
    let mut clients: Vec<Client> = Vec::new();
    enroll(&mut clients, "laptop", issued.token_hash.clone());
    let header = format!("Bearer {}", issued.token);
    let identity = authenticate(Some(header.as_bytes()), Some(&clients)).unwrap();
    assert_eq!(identity.token_hash, issued.token_hash);
    assert_eq!(authenticate(Some(header.as_bytes()), None).err(), Some(500));
    for other in [b"Bearer x".as_slice(), b"bearer x", b"Basic x", b"", b"Bearer \xff"] {
        assert_eq!(authenticate(Some(other), Some(&clients)).err(), Some(401));
    }
    assert_eq!(authenticate(None, Some(&clients)).err(), Some(401));
    assert_eq!(authenticate(None, None).err(), Some(401));
    assert_eq!(bearer_token(Some(b"Bearer  t")).unwrap(), " t");
    assert_ne!(hash_token(&issued.token), issued.token);
}

#[test]
fn tunnel_requests_are_validated_in_order() {
    let version = Some(b"2".as_slice());
    let rejected = |shutdown: bool, name: &str, version: Option<&[u8]>| {
        let rejection = validate_tunnel_request(shutdown, name, version).unwrap_err();
        (rejection.status, rejection.body)
    };
    assert_eq!(validate_tunnel_request(false, "app", version).unwrap().as_str(), "app");
    assert_eq!(rejected(true, "-", None), (503, ""));
    assert_eq!(rejected(false, "-", None), (400, "invalid tunnel name"));
    assert_eq!(
        rejected(false, "app", None),
        (426, "unsupported or missing tunnel protocol version")
    );
}

#[test]
fn registrations_are_answered_with_the_url() {
    let id = TunnelId::new("app").unwrap();
    let headers = open_tunnel(&id, "tnl.example.com").unwrap();
    assert_eq!(headers.url, "https://app.tnl.example.com");
    assert_eq!(headers.control_sessions, "8");
    assert_eq!(headers.transport_pool, "32");
    assert_eq!(headers.protocol_version, "2");
    assert_eq!(open_tunnel(&id, "a\nb").err(), Some(500));
}

#[test]
fn hosts_lead_to_the_api_or_to_a_tunnel() {
    let domain = "tnl.example.com";
    assert!(matches!(route(domain, domain), HostRoute::Api));
    match route("app.tnl.example.com", domain) {
        HostRoute::Tunnel(id) => assert_eq!(id.as_str(), "app"),
        other => panic!("{other:?}"),
    }
    for host in [
        "example.com",
        ".tnl.example.com",
        "a.b.tnl.example.com",
        "apptnl.example.com",
        "APP.tnl.example.com",
        "-a.tnl.example.com",
        "",
    ] {
        assert!(matches!(route(host, domain), HostRoute::Reject), "{host}");
    }
}

#[test]
fn connections_take_a_transport_or_a_stream() {
    let started = |transports_preferred| forward(CarryEvent::Started { transports_preferred });
    assert_eq!(started(true), CarryAction::WaitForTransport);
    assert_eq!(started(false), CarryAction::OpenStream);
    assert_eq!(forward(CarryEvent::Waited { found: true }), CarryAction::Activate);
    assert_eq!(forward(CarryEvent::Waited { found: false }), CarryAction::OpenStream);
    assert_eq!(forward(CarryEvent::Activated), CarryAction::CarryOverTransport);
    assert_eq!(forward(CarryEvent::Carried { finished: true }), CarryAction::Recycle);
    assert_eq!(
        forward(CarryEvent::Carried { finished: false }),
        CarryAction::Fail(CarryError::NotFinished)
    );
    assert_eq!(
        forward(CarryEvent::OpenTimedOut),
        CarryAction::Fail(CarryError::OpenTimedOut)
    );
    assert_eq!(forward(CarryEvent::Opened { found: true }), CarryAction::CarryOverStream);
    assert_eq!(forward(CarryEvent::Opened { found: false }), CarryAction::Finish);
    assert_eq!(forward(CarryEvent::StreamEnded), CarryAction::Finish);
    assert_eq!(
        CarryError::NotFinished.message(),
        "reusable dedicated transport did not finish cleanly"
    );
}
