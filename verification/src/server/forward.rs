//! How a visitor's connection is carried to the node of its tunnel.

use vstd::prelude::*;

verus! {

/// For how long, in nanoseconds, a node may take to accept a stream.
pub const OPEN_STREAM_TIMEOUT: u128 = 10_000_000_000;

/// For how long, in nanoseconds, a dedicated transport is waited for.
pub const TRANSPORT_REPLENISH_WAIT: u128 = 250_000_000;

/// How many bytes are forwarded at once.
pub const FORWARD_BUFFER_SIZE: usize = 65536;

/// What happened last on the way to the node.
#[derive(Clone, Copy, Debug, PartialEq, Eq, Structural)]
pub enum CarryEvent {
    /// The connection is to be carried; dedicated transports are preferred, or not.
    Started { transports_preferred: bool },
    /// The wait for a dedicated transport is over, with one or without.
    Waited { found: bool },
    /// The dedicated transport was told that it carries data.
    Activated,
    /// The connection was carried over a dedicated transport to its end, which left the transport
    /// clean, or not.
    Carried { finished: bool },
    /// The node took too long to accept a stream.
    OpenTimedOut,
    /// The tunnel has a node, which accepted a stream, or has none.
    Opened { found: bool },
    /// The connection was carried over a stream to its end.
    StreamEnded,
}

/// What comes next on the way to the node.
#[derive(Clone, Copy, Debug, PartialEq, Eq, Structural)]
pub enum CarryAction {
    /// Wait for a dedicated transport.
    WaitForTransport,
    /// Tell the dedicated transport that it carries data.
    Activate,
    /// Carry the connection over the dedicated transport, in frames.
    CarryOverTransport,
    /// Put the dedicated transport back into the pool, and be done.
    Recycle,
    /// Open a stream in a session of the node.
    OpenStream,
    /// Carry the connection over the stream.
    CarryOverStream,
    /// Be done.
    Finish,
    /// Give up.
    Fail(CarryError),
}

/// Why a connection was not carried to its end.
#[derive(Clone, Copy, Debug, PartialEq, Eq, Structural)]
pub enum CarryError {
    NotFinished,
    OpenTimedOut,
}

impl CarryError {
    /// The words that the error is reported with.
    pub open spec fn text(self) -> Seq<char> {
        match self {
            CarryError::NotFinished => "reusable dedicated transport did not finish cleanly"@,
            CarryError::OpenTimedOut => "timed out opening a stream to the node"@,
        }
    }

    /// The words that the error is reported with.
    pub fn message(self) -> (result: &'static str)
        ensures
            result@ == self.text(),
    {
        match self {
            CarryError::NotFinished => "reusable dedicated transport did not finish cleanly",
            CarryError::OpenTimedOut => "timed out opening a stream to the node",
        }
    }
}

/// What comes after an event on the way to the node.
pub open spec fn carry_action(event: CarryEvent) -> CarryAction {
    match event {
        CarryEvent::Started { transports_preferred } => if transports_preferred {
            CarryAction::WaitForTransport
        } else {
            CarryAction::OpenStream
        },
        CarryEvent::Waited { found } => if found {
            CarryAction::Activate
        } else {
            CarryAction::OpenStream
        },
        CarryEvent::Activated => CarryAction::CarryOverTransport,
        CarryEvent::Carried { finished } => if finished {
            CarryAction::Recycle
        } else {
            CarryAction::Fail(CarryError::NotFinished)
        },
        CarryEvent::OpenTimedOut => CarryAction::Fail(CarryError::OpenTimedOut),
        CarryEvent::Opened { found } => if found {
            CarryAction::CarryOverStream
        } else {
            CarryAction::Finish
        },
        CarryEvent::StreamEnded => CarryAction::Finish,
    }
}

/// Says what comes after an event on the way to the node.
pub fn forward(event: CarryEvent) -> (result: CarryAction)
    ensures
        result == carry_action(event),
{
    match event {
        CarryEvent::Started { transports_preferred } => {
            if transports_preferred {
                CarryAction::WaitForTransport
            } else {
                CarryAction::OpenStream
            }
        },
        CarryEvent::Waited { found } => {
            if found {
                CarryAction::Activate
            } else {
                CarryAction::OpenStream
            }
        },
        CarryEvent::Activated => CarryAction::CarryOverTransport,
        CarryEvent::Carried { finished } => {
            if finished {
                CarryAction::Recycle
            } else {
                CarryAction::Fail(CarryError::NotFinished)
            }
        },
        CarryEvent::OpenTimedOut => CarryAction::Fail(CarryError::OpenTimedOut),
        CarryEvent::Opened { found } => {
            if found {
                CarryAction::CarryOverStream
            } else {
                CarryAction::Finish
            }
        },
        CarryEvent::StreamEnded => CarryAction::Finish,
    }
}

/// Only a transport that was left clean goes back into the pool.
pub proof fn law_only_clean_transports_are_recycled(event: CarryEvent)
    requires
        carry_action(event) == CarryAction::Recycle,
    ensures
        event == (CarryEvent::Carried { finished: true }),
{
}

/// A visitor is carried over a dedicated transport where those are preferred and one is found, and
/// over a stream otherwise. A transport is first told, then carries, then goes back if it was left
/// clean. A visitor of a tunnel without a node is let go.
pub proof fn law_visitors_are_carried(event: CarryEvent, action: CarryAction)
    requires
        call_ensures(forward, (event,), action),
    ensures
        event == (CarryEvent::Started { transports_preferred: true }) ==> action
            == CarryAction::WaitForTransport,
        event == (CarryEvent::Started { transports_preferred: false }) ==> action
            == CarryAction::OpenStream,
        event == (CarryEvent::Waited { found: true }) ==> action == CarryAction::Activate,
        event == (CarryEvent::Waited { found: false }) ==> action == CarryAction::OpenStream,
        event == CarryEvent::Activated ==> action == CarryAction::CarryOverTransport,
        event == (CarryEvent::Carried { finished: true }) ==> action == CarryAction::Recycle,
        event == (CarryEvent::Carried { finished: false }) ==> action == CarryAction::Fail(
            CarryError::NotFinished,
        ),
        event == CarryEvent::OpenTimedOut ==> action == CarryAction::Fail(CarryError::OpenTimedOut),
        event == (CarryEvent::Opened { found: true }) ==> action == CarryAction::CarryOverStream,
        event == (CarryEvent::Opened { found: false }) ==> action == CarryAction::Finish,
        event == CarryEvent::StreamEnded ==> action == CarryAction::Finish,
{
}

/// The words that an error is reported with tell which error it is.
pub proof fn law_words_tell_carry_errors_apart(error: CarryError, text: &str)
    requires
        call_ensures(CarryError::message, (error,), text),
    ensures
        error is NotFinished <==> text@ == "reusable dedicated transport did not finish cleanly"@,
        error is OpenTimedOut <==> text@ == "timed out opening a stream to the node"@,
{
    reveal_strlit("reusable dedicated transport did not finish cleanly");
    reveal_strlit("timed out opening a stream to the node");
    assert("reusable dedicated transport did not finish cleanly"@.len() == 51);
    assert("timed out opening a stream to the node"@.len() == 38);
}

} // verus!
