use std::collections::VecDeque;

use tnl::big_endian::{from_be, to_be};
use tnl::error::{IoErrorKind, TransportError};
use tnl::protocol::registration::{
    read_tcp_data_registration, write_tcp_data_registration, RegistrationError, RegistrationRead,
    TCP_DATA_REGISTRATION_MAGIC,
};
use tnl::protocol::reusable::{
    ReadStep, ReusableTransportStream, ShutdownStep, WriteStep, TCP_DATA_MAX_FRAME_LENGTH,
};
use tnl::protocol::sideband::{
    check_acknowledgement, SidebandReadStep, SidebandShutdownStep, SidebandTransportStream,
    SIDEBAND_ACK,
};
use tnl::TunnelId;

type Pipe = VecDeque<u8>;

fn take(pipe: &mut Pipe, most: usize) -> Vec<u8> {
    let count = most.min(pipe.len());
    pipe.drain(..count).collect()
}

/// Writes all of the data, with transports that take at most `most` bytes at once.
fn write_frames<S>(stream: &mut ReusableTransportStream<S>, wire: &mut Pipe, data: &[u8], most: usize) {
    let mut rest = data;
    while !rest.is_empty() {
        let mut step = stream.begin_write(rest.len());
        let taken = loop {
            match step {
                WriteStep::Return(taken) => break taken,
                WriteStep::Frame(payload) => {
                    let mut bytes = stream.header_to_write();
                    bytes.extend_from_slice(&rest[..payload]);
                    let count = most.min(bytes.len());
                    wire.extend(bytes[..count].iter());
                    match stream.frame_written(count).unwrap() {
                        Some(taken) => break taken,
                        None => step = stream.next_write(rest.len()),
                    }
                }
                WriteStep::Header => {
                    let bytes = stream.header_to_write();
                    let count = most.min(bytes.len());
                    wire.extend(bytes[..count].iter());
                    stream.header_written(count).unwrap();
                    step = stream.next_write(rest.len());
                }
                WriteStep::Payload(payload) => {
                    let count = most.min(payload);
                    wire.extend(rest[..count].iter());
                    break stream.payload_written(count).unwrap();
                }
                WriteStep::Fail(error) => panic!("{}", error.message()),
            }
        };
        rest = &rest[taken..];
    }
}

fn shut_down<S>(stream: &mut ReusableTransportStream<S>, wire: &mut Pipe, most: usize) {
    let mut step = stream.begin_shutdown();
    loop {
        match step {
            ShutdownStep::Return => return,
            ShutdownStep::Header => {
                let bytes = stream.header_to_write();
                let count = most.min(bytes.len());
                wire.extend(bytes[..count].iter());
                stream.terminator_written(count).unwrap();
                step = stream.next_shutdown();
            }
            ShutdownStep::Flush => {
                stream.flushed();
                return;
            }
            ShutdownStep::Fail(error) => panic!("{}", error.message()),
        }
    }
}

fn read_frames<S>(stream: &mut ReusableTransportStream<S>, wire: &mut Pipe, room: usize) -> Vec<u8> {
    let mut received = Vec::new();
    loop {
        match stream.next_read(room) {
            ReadStep::Return => return received,
            ReadStep::Payload(most) => {
                let bytes = take(wire, most);
                stream.payload_read(bytes.len()).unwrap();
                received.extend(bytes);
            }
            ReadStep::Header(most) => {
                let bytes = take(wire, most);
                stream.header_read(&bytes).unwrap();
            }
        }
    }
}

#[test]
fn validates_tunnel_ids() {
    for valid in ["a", "my-app", "app123"] {
        assert!(TunnelId::new(valid).is_ok(), "{valid}");
    }
    for invalid in ["", "-app", "app-", "MyApp", "a.b", &"a".repeat(64)] {
        assert!(TunnelId::new(invalid).is_err(), "{invalid}");
    }
}

#[test]
fn tunnel_ids_reach_to_sixty_three_characters() {
    let longest = "a".repeat(63);
    assert_eq!(TunnelId::new(&longest).unwrap().as_str(), longest);
    assert_eq!(
        TunnelId::new("é").unwrap_err().message(),
        "tunnel name must contain only lowercase letters, numbers, and internal hyphens"
    );
}

#[test]
fn round_trips_tcp_data_registration() {
    let tunnel_id = TunnelId::new("my-app").unwrap();
    let bytes = write_tcp_data_registration(&tunnel_id);
    assert_eq!(bytes[0], TCP_DATA_REGISTRATION_MAGIC[0]);
    let mut read = Vec::new();
    let mut wire: Pipe = bytes.into_iter().collect();
    let found = loop {
        match read_tcp_data_registration(&read) {
            RegistrationRead::Incomplete(more) => read.extend(take(&mut wire, more)),
            RegistrationRead::Complete(id) => break id,
            RegistrationRead::Invalid(error) => panic!("{}", error.message()),
        }
    };
    assert!(found == tunnel_id);
    assert!(wire.is_empty());
}

#[test]
fn registration_has_magic_length_and_name() {
    let bytes = write_tcp_data_registration(&TunnelId::new("ab").unwrap());
    let mut expected = TCP_DATA_REGISTRATION_MAGIC.to_vec();
    expected.extend([2, b'a', b'b']);
    assert_eq!(bytes, expected);
}

fn registration_fault(bytes: &[u8]) -> RegistrationError {
    match read_tcp_data_registration(bytes) {
        RegistrationRead::Invalid(error) => error,
        other => panic!("{other:?}"),
    }
}

#[test]
fn registration_faults_are_told_apart() {
    let magic = TCP_DATA_REGISTRATION_MAGIC.to_vec();
    let with = |rest: &[u8]| {
        let mut bytes = magic.clone();
        bytes.extend_from_slice(rest);
        bytes
    };
    let mut wrong = magic.clone();
    wrong[4] ^= 1;
    assert_eq!(registration_fault(&wrong), RegistrationError::InvalidMagic);
    assert_eq!(registration_fault(&with(&[0])), RegistrationError::EmptyTunnelId);
    assert_eq!(registration_fault(&with(&[1, 0xff])), RegistrationError::NotUtf8);
    assert_eq!(registration_fault(&with(&[1, b'A'])), RegistrationError::InvalidTunnelId);
    assert_eq!(RegistrationError::NotUtf8.message(), "tunnel ID is not UTF-8");
    assert_eq!(RegistrationError::NotUtf8.kind(), IoErrorKind::InvalidData);
}

#[test]
fn carries_sequential_streams_without_closing_the_transport() {
    let mut to_right: Pipe = VecDeque::new();
    let mut to_left: Pipe = VecDeque::new();
    for (left_data, right_data) in [
        (b"left one".as_slice(), b"right one".as_slice()),
        (b"left two".as_slice(), b"right two".as_slice()),
    ] {
        let mut left = ReusableTransportStream::new(());
        let mut right = ReusableTransportStream::new(());
        write_frames(&mut left, &mut to_right, left_data, 1024);
        shut_down(&mut left, &mut to_right, 1024);
        write_frames(&mut right, &mut to_left, right_data, 1024);
        shut_down(&mut right, &mut to_left, 1024);
        let received = read_frames(&mut left, &mut to_left, 1024);
        assert!(left.is_finished());
        assert_eq!(received, right_data);
        let received = read_frames(&mut right, &mut to_right, 1024);
        assert!(right.is_finished());
        assert_eq!(received, left_data);
    }
    assert!(to_left.is_empty() && to_right.is_empty());
}

#[test]
fn frames_have_a_length_in_four_bytes() {
    let mut wire: Pipe = VecDeque::new();
    let mut stream = ReusableTransportStream::new(());
    write_frames(&mut stream, &mut wire, b"abc", 1024);
    shut_down(&mut stream, &mut wire, 1024);
    let bytes: Vec<u8> = wire.into_iter().collect();
    assert_eq!(bytes, [0, 0, 0, 3, b'a', b'b', b'c', 0, 0, 0, 0]);
}

#[test]
fn frames_survive_any_cutting() {
    let data: Vec<u8> = (0..200_000u32).map(|i| i as u8).collect();
    for most in [1, 3, 7, 4096, usize::MAX] {
        for room in [1, 5, 65536] {
            let mut wire: Pipe = VecDeque::new();
            let mut writer = ReusableTransportStream::new(());
            let mut reader = ReusableTransportStream::new(());
            let part = if most == 1 { &data[..3000] } else { &data[..] };
            write_frames(&mut writer, &mut wire, part, most);
            shut_down(&mut writer, &mut wire, most);
            assert_eq!(read_frames(&mut reader, &mut wire, room), part);
            assert!(wire.is_empty());
        }
    }
}

#[test]
fn frame_faults_are_told_apart() {
    let mut stream = ReusableTransportStream::new(());
    assert_eq!(stream.header_read(&[]), Err(TransportError::ClosedBeforeHeader));
    stream.header_read(&[0, 0, 0, 2]).unwrap();
    assert_eq!(stream.payload_read(0), Err(TransportError::ClosedDuringFrame));

    let mut stream = ReusableTransportStream::new(());
    let too_long = (TCP_DATA_MAX_FRAME_LENGTH as u32 + 1).to_be_bytes();
    assert_eq!(stream.header_read(&too_long), Err(TransportError::FrameTooLarge));

    let mut stream = ReusableTransportStream::new(());
    stream.begin_write(5);
    assert_eq!(stream.begin_shutdown(), ShutdownStep::Fail(TransportError::IncompleteFrame));
    assert_eq!(stream.frame_written(0), Err(TransportError::FrameNotWritten));

    let mut stream = ReusableTransportStream::new(());
    let mut wire: Pipe = VecDeque::new();
    shut_down(&mut stream, &mut wire, 9);
    assert_eq!(stream.begin_write(1), WriteStep::Fail(TransportError::StreamFinished));
    assert_eq!(stream.begin_shutdown(), ShutdownStep::Return);
    assert!(!stream.is_finished());
}

#[test]
fn a_pending_flush_does_not_end_the_direction_twice() {
    let mut wire: Pipe = VecDeque::new();
    let mut stream = ReusableTransportStream::new(());
    assert_eq!(stream.begin_shutdown(), ShutdownStep::Header);
    let bytes = stream.header_to_write();
    wire.extend(bytes.iter());
    stream.terminator_written(bytes.len()).unwrap();
    assert_eq!(stream.next_shutdown(), ShutdownStep::Flush);

    // The flush was pending, and the end is asked for again.
    assert_eq!(stream.begin_shutdown(), ShutdownStep::Flush);
    assert_eq!(stream.begin_write(1), WriteStep::Fail(TransportError::StreamFinished));
    assert_eq!(stream.begin_write(0), WriteStep::Return(0));
    stream.flushed();
    assert_eq!(stream.begin_shutdown(), ShutdownStep::Return);
    assert_eq!(stream.begin_write(0), WriteStep::Fail(TransportError::StreamFinished));
    assert_eq!(wire, [0, 0, 0, 0]);

    let mut next = ReusableTransportStream::new(());
    write_frames(&mut next, &mut wire, b"next", 1024);
    shut_down(&mut next, &mut wire, 1024);
    let mut first_reader = ReusableTransportStream::new(());
    assert_eq!(read_frames(&mut first_reader, &mut wire, 1024), b"");
    let mut next_reader = ReusableTransportStream::new(());
    assert_eq!(read_frames(&mut next_reader, &mut wire, 1024), b"next");
}

#[test]
fn a_half_written_end_is_completed() {
    let mut stream = ReusableTransportStream::new(());
    stream.begin_shutdown();
    stream.terminator_written(1).unwrap();
    assert_eq!(stream.begin_write(0), WriteStep::Return(0));
    assert_eq!(stream.begin_write(5), WriteStep::Fail(TransportError::StreamFinished));
    assert_eq!(stream.begin_shutdown(), ShutdownStep::Header);
    assert_eq!(stream.header_to_write(), [0, 0, 0]);
    stream.terminator_written(3).unwrap();
    assert_eq!(stream.begin_shutdown(), ShutdownStep::Flush);
}

#[test]
fn a_write_takes_at_most_one_frame() {
    let mut stream = ReusableTransportStream::new(());
    assert_eq!(stream.begin_write(0), WriteStep::Return(0));
    assert_eq!(
        stream.begin_write(TCP_DATA_MAX_FRAME_LENGTH + 10),
        WriteStep::Frame(TCP_DATA_MAX_FRAME_LENGTH)
    );
    assert_eq!(stream.frame_written(2), Ok(None));
    assert_eq!(stream.next_write(10), WriteStep::Header);
    assert_eq!(stream.header_to_write().len(), 2);
}

/// One side of a connection with a sideband.
struct Side {
    data_out: Pipe,
    counts_out: Pipe,
}

fn write_raw(stream: &mut SidebandTransportStream<(), ()>, out: &mut Side, data: &[u8]) {
    stream.begin_write().unwrap();
    out.data_out.extend(data.iter());
    assert_eq!(stream.payload_written(data.len()), Ok(data.len()));
    let mut step = stream.begin_shutdown();
    loop {
        match step {
            SidebandShutdownStep::Return => return,
            SidebandShutdownStep::Count => {
                let bytes = stream.count_to_write();
                let count = bytes.len().min(3);
                out.counts_out.extend(bytes[..count].iter());
                stream.count_written(count).unwrap();
                step = stream.next_shutdown();
            }
            SidebandShutdownStep::Flush => {
                stream.flushed();
                return;
            }
        }
    }
}

fn read_raw(stream: &mut SidebandTransportStream<(), ()>, from: &mut Side, room: usize) -> Vec<u8> {
    let mut received = Vec::new();
    loop {
        let pending = from.counts_out.is_empty();
        match stream.next_read(room, pending).unwrap() {
            SidebandReadStep::Return => return received,
            SidebandReadStep::Count(most) => {
                let bytes = take(&mut from.counts_out, most);
                stream.count_read(&bytes).unwrap();
            }
            SidebandReadStep::Payload(most) => {
                let bytes = take(&mut from.data_out, most);
                stream.payload_read(bytes.len()).unwrap();
                received.extend(bytes);
            }
        }
    }
}

#[test]
fn carries_sequential_raw_streams_with_sideband_boundaries() {
    let mut left_side = Side { data_out: VecDeque::new(), counts_out: VecDeque::new() };
    let mut right_side = Side { data_out: VecDeque::new(), counts_out: VecDeque::new() };
    for (left_data, right_data) in [
        (b"left one".as_slice(), b"right one".as_slice()),
        (b"left two".as_slice(), b"right two".as_slice()),
    ] {
        let mut left = SidebandTransportStream::new((), ());
        let mut right = SidebandTransportStream::new((), ());
        write_raw(&mut left, &mut left_side, left_data);
        write_raw(&mut right, &mut right_side, right_data);
        assert_eq!(read_raw(&mut left, &mut right_side, 1024), right_data);
        assert_eq!(read_raw(&mut right, &mut left_side, 1024), left_data);
        let left_byte = left.finish().unwrap();
        let right_byte = right.finish().unwrap();
        check_acknowledgement(left_byte).unwrap();
        check_acknowledgement(right_byte).unwrap();
    }
}

#[test]
fn raw_data_of_the_next_stream_is_left_alone() {
    let mut side = Side { data_out: VecDeque::new(), counts_out: VecDeque::new() };
    let mut first = SidebandTransportStream::new((), ());
    write_raw(&mut first, &mut side, b"first");
    side.data_out.extend(b"second".iter());
    let mut reader = SidebandTransportStream::new((), ());
    assert_eq!(read_raw(&mut reader, &mut side, 1024), b"first");
    let rest: Vec<u8> = side.data_out.into_iter().collect();
    assert_eq!(rest, b"second");
}

#[test]
fn sideband_faults_are_told_apart() {
    let mut stream: SidebandTransportStream<(), ()> = SidebandTransportStream::new((), ());
    assert_eq!(stream.count_read(&[]), Err(TransportError::SidebandClosed));
    assert_eq!(stream.payload_read(0), Err(TransportError::ClosedBeforeBoundary));
    stream.payload_read(2).unwrap();
    stream.count_read(&[0, 0, 0, 0, 0, 0, 0, 1]).unwrap();
    assert!(matches!(stream.next_read(9, false), Err(TransportError::CountTooSmall)));
    assert_eq!(stream.finish(), Err(TransportError::PayloadUnfinished));

    let mut stream: SidebandTransportStream<(), ()> = SidebandTransportStream::new((), ());
    stream.payload_written(usize::MAX).unwrap();
    assert_eq!(stream.payload_written(1), Err(TransportError::CountOverflow));
    assert_eq!(stream.begin_shutdown(), SidebandShutdownStep::Count);
    assert_eq!(stream.count_to_write(), [255; 8]);
    assert_eq!(stream.begin_write(), Err(TransportError::SidebandFinished));
    assert_eq!(stream.count_written(0), Err(TransportError::CountNotWritten));

    assert_eq!(check_acknowledgement(SIDEBAND_ACK), Ok(()));
    assert_eq!(
        check_acknowledgement(SIDEBAND_ACK ^ 1),
        Err(TransportError::InvalidAcknowledgement)
    );
}

#[test]
fn transport_faults_have_kinds_and_words() {
    assert_eq!(TransportError::FrameTooLarge.kind(), IoErrorKind::InvalidData);
    assert_eq!(TransportError::StreamFinished.kind(), IoErrorKind::BrokenPipe);
    assert_eq!(TransportError::ClosedDuringFrame.kind(), IoErrorKind::UnexpectedEof);
    assert_eq!(TransportError::CountNotWritten.kind(), IoErrorKind::WriteZero);
    assert_eq!(TransportError::HeaderNotWritten.kind(), IoErrorKind::WriteZero);
    assert_eq!(TransportError::TerminatorNotWritten.kind(), IoErrorKind::WriteZero);
    for error in [
        TransportError::HeaderNotWritten,
        TransportError::TerminatorNotWritten,
        TransportError::FrameTooLarge,
    ] {
        assert!(!error.message().is_empty());
    }
    let mut stream = ReusableTransportStream::new(());
    stream.begin_write(5);
    stream.frame_written(1).unwrap();
    assert_eq!(stream.header_written(0), Err(TransportError::HeaderNotWritten));
    let mut stream = ReusableTransportStream::new(());
    stream.begin_shutdown();
    assert_eq!(stream.terminator_written(0), Err(TransportError::TerminatorNotWritten));
}

#[test]
fn numbers_come_back_from_their_bytes() {
    assert_eq!(to_be(0x0102, 4), [0, 0, 1, 2]);
    for n in [0, 1, 255, 256, u64::MAX] {
        assert_eq!(to_be(n, 8), n.to_be_bytes());
        assert_eq!(from_be(&to_be(n, 8)), n);
    }
    assert_eq!(to_be(0x010203, 2), [2, 3]);
    assert_eq!(from_be(&[]), 0);
}
