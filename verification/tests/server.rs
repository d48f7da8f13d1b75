use tnl::server::tunnel_server::{
    AcceptEvent, ServeAction, ServeEvent, TransportWait, WaitEvent, SHORT_TRANSPORT_STREAK_LIMIT,
};
use tnl::server::{
    RegisterError, RegisterTransportError, TunnelServer, MAX_SESSIONS_PER_TUNNEL,
    MAX_TRANSPORTS_PER_TUNNEL,
};
use tnl::session::{HeartbeatMonitor, HeartbeatPlan, MultiplexerError, SessionPlan};
use tnl::stream::{
    read_stream_header, validate_tag, SessionError, Stream, StreamHeaderRead, MAX_TAG_LENGTH,
};
use tnl::{SessionConfig, Transport, TunnelId};

const MILLI: u128 = 1_000_000;
const SECOND: u128 = 1_000_000_000;

fn id(name: &str) -> TunnelId {
    TunnelId::new(name).unwrap()
}

#[test]
fn pools_sessions_only_for_the_same_owner() {
    let mut server: TunnelServer<usize, ()> = TunnelServer::default();
    let tunnel_id = id("pooled");
    for n in 0..MAX_SESSIONS_PER_TUNNEL {
        server.register(&tunnel_id, "owner-a", n).unwrap();
    }
    assert!(matches!(
        server.register(&tunnel_id, "owner-a", 99),
        Err(RegisterError::AlreadyRegistered)
    ));

    let other_id = id("owned");
    server.register(&other_id, "owner-a", 100).unwrap();
    assert!(matches!(
        server.register(&other_id, "owner-b", 101),
        Err(RegisterError::AlreadyRegistered)
    ));
}

#[test]
fn dedicated_transports_require_the_tunnel_owner_and_are_bounded() {
    let mut server: TunnelServer<(), usize> = TunnelServer::default();
    let tunnel_id = id("transport-pool");
    server.register(&tunnel_id, "owner-a", ()).unwrap();
    assert!(!server.transport_pool_preferred(&tunnel_id, 0));

    assert_eq!(
        server.register_transport(&tunnel_id, "owner-b", 0),
        Err(RegisterTransportError::OwnerMismatch)
    );

    for n in 0..MAX_TRANSPORTS_PER_TUNNEL {
        server.register_transport(&tunnel_id, "owner-a", n).unwrap();
    }

    assert_eq!(
        server.register_transport(&tunnel_id, "owner-a", 64),
        Err(RegisterTransportError::PoolFull)
    );

    assert!(server.take_transport(&tunnel_id).is_some());

    assert!(server.transport_pool_preferred(&tunnel_id, 0));
    for _ in 0..SHORT_TRANSPORT_STREAK_LIMIT {
        server.report_transport_outcome(&tunnel_id, 5 * MILLI, 1024, 0);
    }
    assert!(!server.transport_pool_preferred(&tunnel_id, 0));
    server.report_transport_outcome(&tunnel_id, SECOND, 1024 * 1024, 0);
    assert!(server.transport_pool_preferred(&tunnel_id, 0));
}

#[test]
fn waits_for_a_replenished_dedicated_transport() {
    let mut server: TunnelServer<(), &'static str> = TunnelServer::default();
    let tunnel_id = id("transport-wait");
    server.register(&tunnel_id, "owner-a", ()).unwrap();
    assert!(matches!(
        server.take_transport_wait(&tunnel_id, WaitEvent::Started),
        TransportWait::Waiting
    ));
    server.register_transport(&tunnel_id, "owner-a", "fresh").unwrap();
    match server.take_transport_wait(&tunnel_id, WaitEvent::Notified) {
        TransportWait::Taken(transport) => assert_eq!(transport.into_inner(), "fresh"),
        _ => panic!("no transport"),
    }
}

#[test]
fn a_wait_ends_at_its_deadline_and_without_a_tunnel() {
    let mut server: TunnelServer<(), ()> = TunnelServer::default();
    let tunnel_id = id("waiting");
    assert!(matches!(
        server.take_transport_wait(&tunnel_id, WaitEvent::Started),
        TransportWait::Expired
    ));
    assert!(matches!(
        server.take_transport_wait(&tunnel_id, WaitEvent::Notified),
        TransportWait::Waiting
    ));
    server.register(&tunnel_id, "owner", ()).unwrap();
    server.register_transport(&tunnel_id, "owner", ()).unwrap();
    assert!(matches!(
        server.take_transport_wait(&tunnel_id, WaitEvent::DeadlineReached),
        TransportWait::Expired
    ));
    assert!(server.take_transport(&tunnel_id).is_some());
}

#[test]
fn transports_come_out_oldest_first() {
    let mut server: TunnelServer<(), usize> = TunnelServer::default();
    let tunnel_id = id("fifo");
    server.register(&tunnel_id, "owner", ()).unwrap();
    for n in 0..5 {
        server.register_transport(&tunnel_id, "owner", n).unwrap();
    }
    for n in 0..5 {
        assert_eq!(server.take_transport(&tunnel_id).unwrap().into_inner(), n);
    }
    assert!(server.take_transport(&tunnel_id).is_none());
    assert!(server.take_transport(&id("other")).is_none());
}

#[test]
fn four_short_transports_bring_two_seconds_of_backoff() {
    let mut server: TunnelServer<(), ()> = TunnelServer::default();
    let tunnel_id = id("short");
    server.register(&tunnel_id, "owner", ()).unwrap();
    server.register_transport(&tunnel_id, "owner", ()).unwrap();
    for n in 0..4 {
        assert!(server.transport_pool_preferred(&tunnel_id, n));
        server.report_transport_outcome(&tunnel_id, 100 * MILLI, 65536, n);
    }
    assert!(!server.transport_pool_preferred(&tunnel_id, 3));
    assert!(!server.transport_pool_preferred(&tunnel_id, 3 + 2 * SECOND - 1));
    assert!(server.transport_pool_preferred(&tunnel_id, 3 + 2 * SECOND));
}

#[test]
fn a_longer_or_larger_transport_is_not_short() {
    let mut server: TunnelServer<(), ()> = TunnelServer::default();
    let tunnel_id = id("mixed");
    server.register(&tunnel_id, "owner", ()).unwrap();
    server.register_transport(&tunnel_id, "owner", ()).unwrap();
    for _ in 0..3 {
        server.report_transport_outcome(&tunnel_id, 0, 0, 0);
    }
    server.report_transport_outcome(&tunnel_id, 100 * MILLI + 1, 0, 0);
    server.report_transport_outcome(&tunnel_id, 0, 0, 0);
    assert!(server.transport_pool_preferred(&tunnel_id, 0));
    for _ in 0..2 {
        server.report_transport_outcome(&tunnel_id, 0, 0, 0);
    }
    server.report_transport_outcome(&tunnel_id, 0, 65537, 0);
    server.report_transport_outcome(&tunnel_id, 0, 0, 0);
    assert!(server.transport_pool_preferred(&tunnel_id, 0));
}

#[test]
fn sessions_take_turns() {
    let mut server: TunnelServer<char, ()> = TunnelServer::default();
    let tunnel_id = id("turns");
    for name in ['a', 'b', 'c'] {
        server.register(&tunnel_id, "owner", name).unwrap();
    }
    let mut order = Vec::new();
    for _ in 0..7 {
        order.push(*server.open(&tunnel_id, "tnl/tcp").unwrap().unwrap());
    }
    assert_eq!(order, ['a', 'b', 'c', 'a', 'b', 'c', 'a']);
    assert!(server.open(&id("nobody"), "tnl/tcp").unwrap().is_none());
    let long = "x".repeat(MAX_TAG_LENGTH + 1);
    assert_eq!(
        server.open(&tunnel_id, &long),
        Err(SessionError::TagTooLong(MAX_TAG_LENGTH + 1))
    );
    assert_eq!(server.open(&tunnel_id, "tnl/tcp"), Ok(Some(&'c')));
}

#[test]
fn a_tunnel_goes_with_its_last_session() {
    let mut server: TunnelServer<char, ()> = TunnelServer::default();
    let tunnel_id = id("gone");
    let first = server.register(&tunnel_id, "owner-a", 'a').unwrap();
    let second = server.register(&tunnel_id, "owner-a", 'b').unwrap();
    assert_ne!(first, second);
    server.unregister(&tunnel_id, first);
    server.unregister(&tunnel_id, first);
    assert_eq!(server.open(&tunnel_id, ""), Ok(Some(&'b')));
    server.unregister(&tunnel_id, second);
    assert_eq!(server.open(&tunnel_id, ""), Ok(None));
    server.register(&tunnel_id, "owner-b", 'c').unwrap();
    assert_eq!(server.open(&tunnel_id, ""), Ok(Some(&'c')));
}

#[test]
fn used_transports_return_only_to_their_own_registration() {
    let mut server: TunnelServer<(), usize> = TunnelServer::default();
    let tunnel_id = id("recycled");
    let session = server.register(&tunnel_id, "owner-a", ()).unwrap();
    server.register_transport(&tunnel_id, "owner-a", 1).unwrap();
    server.register_transport(&tunnel_id, "owner-a", 2).unwrap();
    let used = server.take_transport(&tunnel_id).unwrap();
    assert!(server.recycle_transport(&tunnel_id, used));
    assert_eq!(server.take_transport(&tunnel_id).unwrap().into_inner(), 2);
    let used = server.take_transport(&tunnel_id).unwrap();
    server.unregister(&tunnel_id, session);
    server.register(&tunnel_id, "owner-b", ()).unwrap();
    assert!(!server.recycle_transport(&tunnel_id, used));
    assert!(server.take_transport(&tunnel_id).is_none());
}

#[test]
fn shutdown_refuses_everything() {
    let mut server: TunnelServer<(), ()> = TunnelServer::new(SessionConfig::new());
    let tunnel_id = id("down");
    assert_eq!(
        server.register_transport(&tunnel_id, "owner", ()),
        Err(RegisterTransportError::TunnelNotRegistered)
    );
    let session = server.register(&tunnel_id, "owner", ()).unwrap();
    assert!(!server.wait_for_shutdown(false) && server.wait_for_shutdown(true));
    server.shutdown();
    assert!(server.is_shutdown() && server.wait_for_shutdown(false));
    assert_eq!(server.register(&tunnel_id, "owner", ()), Err(RegisterError::ServerShutdown));
    assert_eq!(
        server.register_transport(&tunnel_id, "owner", ()),
        Err(RegisterTransportError::ServerShutdown)
    );
    assert_eq!(
        server.open(&tunnel_id, ""),
        Err(SessionError::Multiplexer(MultiplexerError::SessionClosed))
    );
    assert_eq!(
        server.complete_registration(&tunnel_id, session, Ok(())),
        Err(RegisterError::ServerShutdown)
    );
    assert_eq!(RegisterTransportError::PoolFull.message(), "tunnel transport pool is full");
    assert_eq!(
        RegisterError::ServerShutdown.message().unwrap(),
        "tunnel server is shut down"
    );
}

#[test]
fn a_session_that_does_not_start_is_taken_back() {
    let mut server: TunnelServer<(), ()> = TunnelServer::default();
    let tunnel_id = id("start");
    let session = server.register(&tunnel_id, "owner-a", ()).unwrap();
    let error = SessionError::InvalidHeartbeatConfig;
    assert_eq!(
        server.complete_registration(&tunnel_id, session, Err(error)),
        Err(RegisterError::Connection(error))
    );
    let session = server.register(&tunnel_id, "owner-b", ()).unwrap();
    assert_eq!(server.complete_registration(&tunnel_id, session, Ok(())), Ok(()));
}

#[test]
fn serving_ends_with_the_session() {
    let mut server: TunnelServer<(), ()> = TunnelServer::default();
    assert_eq!(server.serve(ServeEvent::OpenRequested), ServeAction::Open);
    assert_eq!(server.serve(ServeEvent::RequestsClosed), ServeAction::Stop);
    let closed = MultiplexerError::SessionClosed;
    let gone = MultiplexerError::RemoteGoneAway;
    let reset = MultiplexerError::StreamReset;
    let multiplexer = SessionError::Multiplexer;
    assert_eq!(server.serve(ServeEvent::Opened(Ok(()))), ServeAction::Continue);
    assert_eq!(server.serve(ServeEvent::Opened(Err(multiplexer(gone)))), ServeAction::Stop);
    assert_eq!(server.serve(ServeEvent::Opened(Err(multiplexer(reset)))), ServeAction::Continue);
    assert_eq!(server.serve(ServeEvent::Inbound(Ok(()))), ServeAction::Accept);
    assert_eq!(server.serve(ServeEvent::Inbound(Err(closed))), ServeAction::Stop);
    assert_eq!(
        server.serve(ServeEvent::Inbound(Err(gone))),
        ServeAction::Fail(multiplexer(gone))
    );
    let news = ServeEvent::ShutdownChanged { lost: false };
    assert_eq!(server.serve(news), ServeAction::Continue);
    assert_eq!(server.serve(ServeEvent::ShutdownChanged { lost: true }), ServeAction::Stop);
    server.shutdown();
    assert_eq!(server.serve(news), ServeAction::Stop);
}

#[test]
fn accepting_ends_with_a_stream_or_with_the_server() {
    let mut server: TunnelServer<(), ()> = TunnelServer::default();
    let closed = Err(SessionError::Multiplexer(MultiplexerError::SessionClosed));
    assert_eq!(server.accept::<u8>(AcceptEvent::Started), None);
    assert_eq!(server.accept(AcceptEvent::Incoming(Some(Ok(7)))), Some(Ok(7)));
    assert_eq!(server.accept::<u8>(AcceptEvent::Incoming(None)), Some(closed));
    assert_eq!(server.accept::<u8>(AcceptEvent::ShutdownChanged { lost: false }), None);
    server.shutdown();
    assert_eq!(server.accept::<u8>(AcceptEvent::Started), Some(closed));
}

#[test]
fn heartbeats_need_room_before_the_timeout() {
    let plan = SessionPlan {
        client: true,
        window_size: 4 * 1024 * 1024,
        stream_limit: 512,
        heartbeat: None,
    };
    assert_eq!(SessionConfig::default().start(true), Ok(plan));
    let config = SessionConfig::new().heartbeat(10, 25);
    assert_eq!(
        config.clone().start(false),
        Ok(SessionPlan {
            client: false,
            heartbeat: Some(HeartbeatPlan { interval: 10, tolerance: 15 }),
            ..plan
        })
    );
    for (interval, timeout) in [(0, 5), (5, 5), (6, 5)] {
        let config = SessionConfig::new().heartbeat(interval, timeout);
        assert_eq!(config.start(true), Err(SessionError::InvalidHeartbeatConfig));
        let server: TunnelServer<(), ()> = TunnelServer::new(config);
        assert_eq!(server.session_plan(), Err(SessionError::InvalidHeartbeatConfig));
    }
}

#[test]
fn a_missed_heartbeat_closes_the_session_once() {
    let mut monitor = HeartbeatMonitor::new();
    assert_eq!(monitor.report(true), None);
    assert_eq!(monitor.report(false), Some(MultiplexerError::PeerEof));
    assert_eq!(monitor.report(false), None);
}

#[test]
fn stream_headers_carry_tags() {
    let (stream, header) = Stream::outgoing("carrier", "tnl/é".to_owned()).unwrap();
    assert_eq!(stream.tag(), "tnl/é");
    let mut expected = b"TNL\x01\x00\x06".to_vec();
    expected.extend("tnl/é".bytes());
    assert_eq!(header, expected);
    for n in 0..header.len() {
        match read_stream_header(&header[..n]) {
            StreamHeaderRead::Incomplete(more) => assert!(more > 0 && n + more <= header.len()),
            other => panic!("{other:?}"),
        }
    }
    match read_stream_header(&header) {
        StreamHeaderRead::Complete(tag) => {
            let mut stream = Stream::incoming("carrier", tag);
            assert_eq!(stream.tag(), "tnl/é");
            assert_eq!(*stream.inner_mut(), "carrier");
        }
        other => panic!("{other:?}"),
    }
}

#[test]
fn stream_header_faults_are_told_apart() {
    let invalid = |bytes: &[u8]| match read_stream_header(bytes) {
        StreamHeaderRead::Invalid(error) => error,
        other => panic!("{other:?}"),
    };
    assert_eq!(invalid(b"TNL\x02"), SessionError::InvalidStreamHeader);
    assert_eq!(invalid(b"TNL\x01\x00\x01\xff"), SessionError::InvalidTagEncoding);
    let longest = "x".repeat(MAX_TAG_LENGTH);
    assert_eq!(validate_tag(&longest), Ok(()));
    let longer = "x".repeat(MAX_TAG_LENGTH + 1);
    let error = validate_tag(&longer).unwrap_err();
    assert_eq!(
        error.message().unwrap(),
        "stream tag is 65536 bytes; maximum is 65535"
    );
    assert!(Stream::outgoing((), longer).is_err());
    assert_eq!(
        SessionError::InvalidStreamHeader.message().unwrap(),
        "invalid stream header"
    );
    assert!(SessionError::Multiplexer(MultiplexerError::Protocol).message().is_none());
}

#[test]
fn a_transport_keeps_its_generation() {
    let mut transport = Transport::new(5, 9);
    assert_eq!(transport.generation(), 9);
    *transport.inner_mut() = 6;
    assert_eq!(transport.generation(), 9);
    assert_eq!(transport.into_inner(), 6);
}
