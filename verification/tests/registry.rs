use tnl::server::api::{public_url, register_node, take_connection, ClientIdentity};
use tnl::server::control::{
    frame_message, serve_silent_control, ClientControlMessage, ControlAction, ControlError,
    ControlEvent, ControlSession, ServerControlMessage, SilentControlEvent, HEARTBEAT_INTERVAL,
};
use tnl::server::registry::{ConnectError, RequestOutcome};
use tnl::server::TunnelRegistry;
use tnl::TunnelId;

type Rule = fn(&TunnelId) -> String;

fn id(name: &str) -> TunnelId {
    TunnelId::new(name).unwrap()
}

fn client(hash: &str) -> ClientIdentity {
    ClientIdentity { token_hash: hash.to_owned() }
}

#[test]
fn a_registered_tunnel_is_taken_until_its_session_ends() {
    let mut registry: TunnelRegistry<char, (), Rule> = TunnelRegistry::new();
    let session = registry.register(&id("app"), "a", 'x').unwrap();
    assert!(registry.register(&id("app"), "a", 'y').is_none());
    registry.unregister(&id("app"), session.wrapping_add(1));
    assert!(registry.register(&id("app"), "b", 'y').is_none());
    registry.unregister(&id("app"), session);
    assert!(registry.register(&id("app"), "b", 'y').is_some());
}

#[test]
fn session_numbers_are_made_up() {
    let mut registry: TunnelRegistry<(), (), Rule> = TunnelRegistry::new();
    let numbers: Vec<u64> = (0..8)
        .map(|n| registry.register(&id(&format!("app{n}")), "a", ()).unwrap())
        .collect();
    assert!(numbers.iter().any(|n| *n != numbers[0]));
}

#[test]
fn a_connection_goes_to_its_owner_once() {
    let mut registry: TunnelRegistry<&'static str, &'static str, Rule> = TunnelRegistry::default();
    assert_eq!(registry.connect(&id("app"), "data"), Ok(None));
    registry.register(&id("app"), "a", "control").unwrap();
    let request = match registry.connect(&id("app"), "data") {
        Ok(Some((request, sender))) => {
            assert_eq!(*sender, "control");
            request
        }
        other => panic!("{other:?}"),
    };
    assert_eq!(request.len(), 24);
    assert!(request.bytes().all(|byte| byte.is_ascii_alphanumeric()));
    assert_eq!(registry.attach(&request, "b"), None);
    assert_eq!(registry.attach(&request, "a"), Some("data"));
    assert_eq!(registry.attach(&request, "a"), None);
    let again = registry.connect(&id("app"), "data").unwrap().unwrap().0;
    assert_ne!(again, request);
}

#[test]
fn a_completed_request_is_pending_no_longer() {
    let mut registry: TunnelRegistry<(), char, Rule> = TunnelRegistry::new();
    registry.register(&id("app"), "a", ()).unwrap();
    for (outcome, expected) in [
        (RequestOutcome::Connected(5), Ok(5)),
        (RequestOutcome::NotSent, Err(ConnectError::ClientDisconnected)),
        (RequestOutcome::Abandoned, Err(ConnectError::NotEstablished)),
        (RequestOutcome::TimedOut, Err(ConnectError::TimedOut)),
    ] {
        registry.request_connection(&id("app"), "r".to_owned(), 'd').unwrap();
        assert_eq!(registry.complete_request("r", outcome), expected);
        assert_eq!(registry.attach("r", "a"), None);
    }
    assert_eq!(
        ConnectError::TimedOut.message(),
        "timed out waiting for the tunnel data connection"
    );
}

#[test]
fn shutdown_empties_the_registry() {
    let mut registry: TunnelRegistry<(), char, Rule> = TunnelRegistry::new();
    registry.register(&id("app"), "a", ()).unwrap();
    registry.request_connection(&id("app"), "r".to_owned(), 'd').unwrap();
    assert!(!registry.is_shutdown());
    registry.shutdown();
    assert!(registry.is_shutdown());
    assert_eq!(registry.attach("r", "a"), None);
    assert!(registry.register(&id("other"), "a", ()).is_none());
    assert_eq!(
        registry.connect(&id("app"), 'd').err().map(|error| error.message()),
        Some("tunnel registry is shut down")
    );
}

#[test]
fn nodes_are_told_their_name_or_their_url() {
    let plain: TunnelRegistry<(), (), Rule> = TunnelRegistry::new();
    assert_eq!(plain.ready_value(&id("app")), "app");
    let domain = "tnl.example.com".to_owned();
    let hosted: TunnelRegistry<(), (), _> =
        TunnelRegistry::with_public_url(move |id: &TunnelId| public_url(id, &domain));
    let shouted: TunnelRegistry<(), (), _> =
        TunnelRegistry::with_public_url(|id: &TunnelId| id.as_str().to_uppercase());
    assert_eq!(shouted.ready_value(&id("app")), "APP");
    assert_eq!(hosted.ready_value(&id("app")), "https://app.tnl.example.com");
}

#[test]
fn registration_and_attachment_have_answers() {
    let mut registry: TunnelRegistry<(), char, Rule> = TunnelRegistry::new();
    let rejection = register_node(&mut registry, "-", &client("a"), ()).err().unwrap();
    assert_eq!((rejection.status, rejection.body), (400, "invalid tunnel name"));
    let registration = register_node(&mut registry, "app", &client("a"), ()).ok().unwrap();
    assert_eq!(registration.tunnel_id.as_str(), "app");
    let rejection = register_node(&mut registry, "app", &client("a"), ()).err().unwrap();
    assert_eq!((rejection.status, rejection.body), (409, "tunnel name is already in use"));
    registry.request_connection(&id("app"), "r".to_owned(), 'd').unwrap();
    assert_eq!(take_connection(&mut registry, "r", &client("b")), Err(404));
    assert_eq!(take_connection(&mut registry, "r", &client("a")), Ok('d'));
    registry.unregister(&id("app"), registration.session_id);
    assert!(register_node(&mut registry, "app", &client("b"), ()).is_ok());
}

#[test]
fn a_silent_node_is_given_up_at_the_third_heartbeat() {
    let (mut session, first) = ControlSession::start("url".to_owned(), 1000);
    assert!(matches!(first, ServerControlMessage::Ready(url) if url == "url"));
    for n in 1..=2 {
        assert!(matches!(
            session.step(ControlEvent::Tick, 1000 + n * HEARTBEAT_INTERVAL),
            ControlAction::Send(ServerControlMessage::Ping)
        ));
    }
    assert!(matches!(
        session.step(ControlEvent::Tick, 1000 + 3 * HEARTBEAT_INTERVAL),
        ControlAction::Fail(ControlError::HeartbeatMissed)
    ));
}

#[test]
fn a_node_that_answers_is_kept() {
    let (mut session, _) = ControlSession::start("url".to_owned(), 0);
    let pong = ControlEvent::Line(Some(ClientControlMessage::Pong));
    assert!(matches!(session.step(pong, 50), ControlAction::Continue));
    assert!(matches!(
        session.step(ControlEvent::Tick, 49 + 3 * HEARTBEAT_INTERVAL),
        ControlAction::Send(ServerControlMessage::Ping)
    ));
    assert!(matches!(
        session.step(ControlEvent::Request("r".to_owned()), 60),
        ControlAction::Send(ServerControlMessage::Connection(request)) if request == "r"
    ));
    assert!(matches!(session.step(ControlEvent::InputClosed, 60), ControlAction::Stop));
    assert!(matches!(session.step(ControlEvent::RequestsClosed, 60), ControlAction::Stop));
    assert!(matches!(
        session.step(ControlEvent::Line(None), 60),
        ControlAction::Fail(ControlError::InvalidMessage)
    ));
    assert_eq!(
        ControlError::HeartbeatMissed.message(),
        "tunnel client missed the heartbeat deadline"
    );
}

#[test]
fn a_silent_session_takes_no_input() {
    assert!(matches!(serve_silent_control(SilentControlEvent::Input(0)), ControlAction::Stop));
    assert!(matches!(
        serve_silent_control(SilentControlEvent::Input(1)),
        ControlAction::Fail(ControlError::UnexpectedData)
    ));
    assert!(matches!(
        serve_silent_control(SilentControlEvent::Request("r".to_owned())),
        ControlAction::Send(ServerControlMessage::Connection(_))
    ));
    assert!(matches!(
        serve_silent_control(SilentControlEvent::RequestsClosed),
        ControlAction::Stop
    ));
}

#[test]
fn messages_are_lines() {
    assert_eq!(frame_message(b"{}".to_vec()), b"{}\n");
}
