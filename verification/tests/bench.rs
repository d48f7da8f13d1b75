use tnl::bench::load::{
    all_done, application_bytes, cut_piece, find_stream, open_streams, LoadError, LoadGenerator,
    Piece, WriteAction,
};
use tnl::bench::protocol::{header, parse_header, payload, Workload, ALPN, CHUNK};
use tnl::bench::serve::{
    datagram_use, receive_exact, send_exact, DatagramUse, HeaderGatherer, ServeError, ServerStream, ServerStreams, StreamPlan,
};

#[test]
fn headers_name_workload_and_bytes() {
    assert_eq!(header(Workload::Upload, 0x0102), [2, 0, 0, 0, 0, 0, 0, 1, 2]);
    for workload in [Workload::Download, Workload::Upload, Workload::Bidi] {
        for bytes in [0, 1, u64::MAX] {
            assert_eq!(parse_header(&header(workload, bytes)), Some((workload, bytes)));
        }
        assert_eq!(Workload::from_code(workload.code()), Some(workload));
    }
    assert_eq!(parse_header(&[1; 8]), None);
    assert_eq!(parse_header(&[0; 9]), None);
    assert_eq!(parse_header(&[4; 9]), None);
    assert_eq!(Workload::from_code(0), None);
    assert_eq!(&ALPN, b"tnl-quic-bench/1");
    assert_eq!(payload(3), [0xa5; 3]);
    assert_eq!(payload(CHUNK).len(), 65536);
}

#[test]
fn pieces_are_cut_to_chunks() {
    assert_eq!(cut_piece(1), Piece { len: 1, fin: true });
    assert_eq!(cut_piece(CHUNK as u64), Piece { len: CHUNK, fin: true });
    assert_eq!(cut_piece(CHUNK as u64 + 1), Piece { len: CHUNK, fin: false });
}

#[test]
fn streams_are_numbered_by_fours() {
    let (streams, next) = open_streams(8, 3, Workload::Upload, 100);
    assert_eq!(next, 20);
    assert_eq!(streams.iter().map(|stream| stream.id).collect::<Vec<_>>(), [8, 12, 16]);
    assert!(streams.iter().all(|stream| stream.send_remaining == 100 && stream.recv_remaining == 1));
    assert_eq!(find_stream(&streams, 12), Some(1));
    assert_eq!(find_stream(&streams, 13), None);
    assert!(!all_done(&streams));
    let (streams, _) = open_streams(0, 1, Workload::Download, 0);
    assert!(all_done(&streams));
    assert!(all_done(&[]));
}

/// Runs one round of a load generator against a server, with a connection that takes at most
/// `most` bytes at once.
fn run_round(load: &mut LoadGenerator, server: &mut ServerStreams, count: usize, most: usize) {
    load.begin_round(count);
    while !load.is_done() {
        for at in 0..load.len() {
            let id = load.id(at);
            while let Some(action) = load.write_action(at) {
                let more = match action {
                    WriteAction::Header(bytes) => {
                        server.received(id, &bytes).unwrap();
                        load.header_offered(at, Some(bytes.len())).unwrap()
                    }
                    WriteAction::Piece(piece) => {
                        let taken = piece.len.min(most);
                        server.received(id, &payload(taken)).unwrap();
                        load.piece_offered(at, Some(taken))
                    }
                };
                if !more {
                    break;
                }
            }
        }
        for id in server.ids() {
            while let Some(piece) = server.next_send(id) {
                let taken = piece.len.min(most);
                load.received(id, taken as u64).unwrap();
                if !server.piece_offered(id, Some(taken)) {
                    break;
                }
            }
        }
    }
}

#[test]
fn rounds_carry_everything() {
    for workload in [Workload::Download, Workload::Upload, Workload::Bidi] {
        for most in [10_000, usize::MAX] {
            let mut load = LoadGenerator::new(workload, 200_000);
            let mut server = ServerStreams::new();
            for round in 1..=2 {
                run_round(&mut load, &mut server, 3, most);
                assert_eq!(server.ids().len(), 3 * round);
            }
            assert_eq!(load.id(0), 12);
        }
    }
}

#[test]
fn load_faults_are_told_apart() {
    let mut load = LoadGenerator::new(Workload::Download, 5);
    load.begin_round(1);
    assert_eq!(load.header_offered(0, Some(4)), Err(LoadError::PartialHeader(4)));
    assert_eq!(load.header_offered(0, None), Ok(false));
    assert_eq!(load.header_offered(0, Some(9)), Ok(true));
    assert!(load.write_action(0).is_none());
    assert_eq!(load.received(0, 6), Err(LoadError::TooManyBytes(0)));
    assert_eq!(load.received(4, 6), Ok(()));
    assert_eq!(load.received(0, 5), Ok(()));
    assert!(load.is_done());
}

#[test]
fn application_bytes_count_both_directions() {
    assert_eq!(application_bytes(Workload::Download, 3, 100), 300);
    assert_eq!(application_bytes(Workload::Upload, 3, 100), 300);
    assert_eq!(application_bytes(Workload::Bidi, 3, 100), 600);
}

#[test]
fn servers_answer_when_they_know_what_to_answer() {
    let mut stream = ServerStream::new();
    let bytes = header(Workload::Upload, 3);
    stream.received(&bytes[..4]).unwrap();
    assert_eq!(stream.next_send(), None);
    stream.received(&bytes[4..]).unwrap();
    assert_eq!(stream.next_send(), None);
    stream.received(&[1, 2, 3]).unwrap();
    assert_eq!(stream.next_send(), Some(Piece { len: 1, fin: true }));
    assert!(stream.piece_offered(1));
    assert_eq!(stream.next_send(), None);
    assert_eq!(stream.received(&[4]), Err(ServeError::TooManyBytes));

    let mut stream = ServerStream::new();
    assert_eq!(stream.received(&[9; 12]), Err(ServeError::BadHeader));
    let mut stream = ServerStream::new();
    let mut all = header(Workload::Bidi, 2).to_vec();
    all.extend([1, 2]);
    stream.received(&all).unwrap();
    assert_eq!(stream.next_send(), Some(Piece { len: 2, fin: true }));
    assert!(!stream.piece_offered(1));
    assert_eq!(stream.next_send(), Some(Piece { len: 1, fin: true }));
}

#[test]
fn servers_name_the_stream_that_failed() {
    let mut streams = ServerStreams::new();
    assert!(streams.ids().is_empty());
    streams.received(8, &header(Workload::Upload, 1)).unwrap();
    streams.received(4, &header(Workload::Download, 2)).unwrap();
    let mut ids = streams.ids();
    ids.sort();
    assert_eq!(ids, [4, 8]);
    assert_eq!(streams.next_send(8), None);
    assert_eq!(streams.next_send(4), Some(Piece { len: 2, fin: true }));
    assert_eq!(streams.next_send(5), None);
    assert!(!streams.piece_offered(4, None));
    assert!(streams.piece_offered(4, Some(2)));
    assert_eq!(streams.next_send(4), None);
    let error = streams.received(8, &[1, 2]).unwrap_err();
    assert_eq!(error.stream_message(8), "client sent too many bytes on stream 8");
    assert_eq!(error.message(), "client sent more bytes than requested");
    assert_eq!(ServeError::BadHeader.stream_message(8), "bad benchmark header");
}

#[test]
fn headers_are_gathered_from_chunks() {
    let bytes = header(Workload::Upload, 5);
    let mut gatherer = HeaderGatherer::new();
    gatherer.receive(Some(&bytes[..7])).unwrap();
    assert!(!gatherer.is_complete());
    let mut rest = bytes[7..].to_vec();
    rest.extend([1, 2]);
    gatherer.receive(Some(&rest)).unwrap();
    assert!(gatherer.is_complete());
    assert_eq!(
        gatherer.plan(),
        Ok(StreamPlan { workload: Workload::Upload, receive: 3, send: 1 })
    );

    let plan = |workload: Workload, bytes: u64, body: usize| {
        let mut all = header(workload, bytes).to_vec();
        all.extend(vec![0; body]);
        let mut gatherer = HeaderGatherer::new();
        gatherer.receive(Some(&all)).unwrap();
        gatherer.plan()
    };
    assert_eq!(
        plan(Workload::Download, 5, 0),
        Ok(StreamPlan { workload: Workload::Download, receive: 0, send: 5 })
    );
    assert_eq!(
        plan(Workload::Bidi, 5, 5),
        Ok(StreamPlan { workload: Workload::Bidi, receive: 0, send: 5 })
    );
    assert_eq!(plan(Workload::Upload, 5, 6), Err(ServeError::TooManyBytes));
    let mut gatherer = HeaderGatherer::new();
    assert_eq!(gatherer.receive(None), Err(ServeError::EndedInHeader));
    gatherer.receive(Some(&[7; 9])).unwrap();
    assert_eq!(gatherer.plan(), Err(ServeError::BadHeader));
    assert_eq!(ServeError::BadHeader.message(), "bad benchmark header");
}

#[test]
fn exact_transfers_add_up() {
    assert_eq!(receive_exact(5, Some(3)), Ok(2));
    assert_eq!(receive_exact(5, Some(6)), Err(ServeError::TooManyBytes));
    assert_eq!(receive_exact(5, None), Err(ServeError::EndedInBody));
    let mut remaining = 150_000;
    let mut lengths = Vec::new();
    while let Some((length, rest)) = send_exact(remaining) {
        lengths.push(length);
        remaining = rest;
    }
    assert_eq!(lengths, [65536, 65536, 18928]);
}

#[test]
fn one_peer_is_served() {
    assert_eq!(datagram_use(false, true, false), DatagramUse::Open);
    assert_eq!(datagram_use(false, false, false), DatagramUse::Ignore);
    assert_eq!(datagram_use(true, false, true), DatagramUse::Deliver);
    assert_eq!(datagram_use(true, true, false), DatagramUse::Ignore);
}
