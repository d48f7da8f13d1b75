//! Control sessions in which a server asks a node for connections.

use vstd::prelude::*;
use vstd::string::*;

verus! {

/// The time between two heartbeats, in nanoseconds.
pub const HEARTBEAT_INTERVAL: u128 = 20_000_000_000;

/// The silence after which a node is given up, in nanoseconds.
pub const HEARTBEAT_TIMEOUT: u128 = 60_000_000_000;

/// What a server says in a control session.
#[derive(Debug)]
pub enum ServerControlMessage {
    /// The tunnel is ready under this value.
    Ready(String),
    /// A connection is asked for.
    Connection(String),
    /// The node is to answer.
    Ping,
}

/// What a node says in a control session.
#[derive(Clone, Copy, Debug, PartialEq, Eq, Structural)]
pub enum ClientControlMessage {
    /// The answer to a ping.
    Pong,
}

/// Why a control session failed.
#[derive(Clone, Copy, Debug, PartialEq, Eq, Structural)]
pub enum ControlError {
    InvalidMessage,
    HeartbeatMissed,
    UnexpectedData,
}

impl ControlError {
    /// The words that the error is reported with.
    pub open spec fn text(self) -> Seq<char> {
        match self {
            ControlError::InvalidMessage => "tunnel client sent an invalid control message"@,
            ControlError::HeartbeatMissed => "tunnel client missed the heartbeat deadline"@,
            ControlError::UnexpectedData => "tunnel client sent unexpected control data"@,
        }
    }

    /// The words that the error is reported with.
    pub fn message(self) -> (result: &'static str)
        ensures
            result@ == self.text(),
    {
        match self {
            ControlError::InvalidMessage => "tunnel client sent an invalid control message",
            ControlError::HeartbeatMissed => "tunnel client missed the heartbeat deadline",
            ControlError::UnexpectedData => "tunnel client sent unexpected control data",
        }
    }
}

/// What happens in a control session.
pub enum ControlEvent {
    /// The node closed its side.
    InputClosed,
    /// A line came from the node, which holds this message, or none.
    Line(Option<ClientControlMessage>),
    /// A connection is to be asked for.
    Request(String),
    /// No connection can be asked for any more.
    RequestsClosed,
    /// It is time for a heartbeat.
    Tick,
}

/// What is done in a control session.
#[derive(Debug)]
pub enum ControlAction {
    Send(ServerControlMessage),
    Continue,
    Stop,
    Fail(ControlError),
}

/// A control session. Times are in nanoseconds on a clock that never goes back.
pub struct ControlSession {
    last_pong: u128,
}

impl ControlSession {
    /// When the node last gave a sign of life.
    pub closed spec fn last_sign(self) -> u128 {
        self.last_pong
    }

    /// Begins a session. The node is told first that its tunnel is ready.
    pub fn start(url: String, now: u128) -> (result: (Self, ServerControlMessage))
        ensures
            result.0.last_sign() == now,
            result.1 == ServerControlMessage::Ready(url),
    {
        (ControlSession { last_pong: now }, ServerControlMessage::Ready(url))
    }

    /// Whether the node has been silent for too long.
    pub open spec fn is_overdue(self, now: u128) -> bool {
        now - self.last_sign() >= HEARTBEAT_TIMEOUT
    }

    /// Says what the session does on an event.
    pub fn step(&mut self, event: ControlEvent, now: u128) -> (result: ControlAction)
        ensures
            result == match event {
                ControlEvent::InputClosed => ControlAction::Stop,
                ControlEvent::RequestsClosed => ControlAction::Stop,
                ControlEvent::Line(None) => ControlAction::Fail(ControlError::InvalidMessage),
                ControlEvent::Line(Some(_)) => ControlAction::Continue,
                ControlEvent::Request(id) => ControlAction::Send(
                    ServerControlMessage::Connection(id),
                ),
                ControlEvent::Tick => if old(self).is_overdue(now) {
                    ControlAction::Fail(ControlError::HeartbeatMissed)
                } else {
                    ControlAction::Send(ServerControlMessage::Ping)
                },
            },
            final(self).last_sign() == if event matches ControlEvent::Line(Some(_)) {
                now
            } else {
                old(self).last_sign()
            },
    {
        match event {
            ControlEvent::InputClosed => ControlAction::Stop,
            ControlEvent::RequestsClosed => ControlAction::Stop,
            ControlEvent::Line(message) => match message {
                None => ControlAction::Fail(ControlError::InvalidMessage),
                Some(ClientControlMessage::Pong) => {
                    self.last_pong = now;
                    ControlAction::Continue
                },
            },
            ControlEvent::Request(id) => ControlAction::Send(ServerControlMessage::Connection(id)),
            ControlEvent::Tick => {
                if now >= self.last_pong && now - self.last_pong >= HEARTBEAT_TIMEOUT {
                    ControlAction::Fail(ControlError::HeartbeatMissed)
                } else {
                    ControlAction::Send(ServerControlMessage::Ping)
                }
            },
        }
    }
}

/// What happens in a control session without heartbeats.
pub enum SilentControlEvent {
    /// This many bytes came from the node.
    Input(usize),
    /// A connection is to be asked for.
    Request(String),
    /// No connection can be asked for any more.
    RequestsClosed,
}

/// Says what a control session does on an event, where the node has nothing to say.
pub fn serve_silent_control(event: SilentControlEvent) -> (result: ControlAction)
    ensures
        result == match event {
            SilentControlEvent::Input(0) => ControlAction::Stop,
            SilentControlEvent::Input(_) => ControlAction::Fail(ControlError::UnexpectedData),
            SilentControlEvent::Request(id) => ControlAction::Send(
                ServerControlMessage::Connection(id),
            ),
            SilentControlEvent::RequestsClosed => ControlAction::Stop,
        },
{
    match event {
        SilentControlEvent::Input(0) => ControlAction::Stop,
        SilentControlEvent::Input(_) => ControlAction::Fail(ControlError::UnexpectedData),
        SilentControlEvent::Request(id) => ControlAction::Send(
            ServerControlMessage::Connection(id),
        ),
        SilentControlEvent::RequestsClosed => ControlAction::Stop,
    }
}

/// The bytes that carry a message, given the message as JSON: one line.
pub fn frame_message(json: Vec<u8>) -> (result: Vec<u8>)
    ensures
        result@ == json@.push(10),
{
    let mut line = json;
    line.push(10);
    line
}

/// With a heartbeat in every interval, a silent node is given up at the third one, and not before.
pub proof fn law_silent_node_is_given_up_at_the_third_heartbeat(session: ControlSession, n: nat)
    requires
        session.last_sign() + n * HEARTBEAT_INTERVAL <= u128::MAX,
    ensures
        session.is_overdue((session.last_sign() + n * HEARTBEAT_INTERVAL) as u128) <==> n >= 3,
{
    assert(n * HEARTBEAT_INTERVAL >= HEARTBEAT_TIMEOUT <==> n >= 3) by (nonlinear_arith)
        requires
            HEARTBEAT_INTERVAL == 20_000_000_000u128,
            HEARTBEAT_TIMEOUT == 60_000_000_000u128,
    ;
}

/// A control session asks for every connection that is requested, pings a node at every heartbeat
/// until it has been silent for a minute, takes every answer as a sign of life, and ends when
/// either side is done.
pub proof fn law_control_session(
    session: &mut ControlSession,
    event: ControlEvent,
    now: u128,
    result: ControlAction,
)
    requires
        call_ensures(ControlSession::step, (session, event, now), result),
    ensures
        match event {
            ControlEvent::InputClosed => result is Stop,
            ControlEvent::RequestsClosed => result is Stop,
            ControlEvent::Line(None) => result == ControlAction::Fail(ControlError::InvalidMessage),
            ControlEvent::Line(Some(_)) => result is Continue && final(session).last_sign() == now,
            ControlEvent::Request(id) => result == ControlAction::Send(
                ServerControlMessage::Connection(id),
            ),
            ControlEvent::Tick => {
                let silent_for = now - old(session).last_sign();
                &&& silent_for >= 60_000_000_000 ==> result == ControlAction::Fail(
                    ControlError::HeartbeatMissed,
                )
                &&& silent_for < 60_000_000_000 ==> result == ControlAction::Send(
                    ServerControlMessage::Ping,
                )
            },
        },
        !(event matches ControlEvent::Line(Some(_))) ==> final(session).last_sign() == old(
            session,
        ).last_sign(),
{
}

/// A session begins with a sign of life and with what the node is told.
pub proof fn law_control_session_begins(
    url: String,
    now: u128,
    result: (ControlSession, ServerControlMessage),
)
    requires
        call_ensures(ControlSession::start, (url, now), result),
    ensures
        result.0.last_sign() == now,
        result.1 == ServerControlMessage::Ready(url),
{
}

/// A node that has nothing to say fails its session with any byte, and ends it with none.
pub proof fn law_silent_session(event: SilentControlEvent, result: ControlAction)
    requires
        call_ensures(serve_silent_control, (event,), result),
    ensures
        match event {
            SilentControlEvent::Input(count) => {
                &&& count == 0 ==> result is Stop
                &&& count > 0 ==> result == ControlAction::Fail(ControlError::UnexpectedData)
            },
            SilentControlEvent::Request(id) => result == ControlAction::Send(
                ServerControlMessage::Connection(id),
            ),
            SilentControlEvent::RequestsClosed => result is Stop,
        },
{
}

/// A message is one line: its bytes, and a newline after them.
pub proof fn law_message_is_a_line(json: Vec<u8>, line: Vec<u8>)
    requires
        call_ensures(frame_message, (json,), line),
    ensures
        line@ == json@ + seq![10u8],
{
    assert(line@ =~= json@ + seq![10u8]);
}

/// The words that an error is reported with tell which error it is.
pub proof fn law_words_tell_control_errors_apart(error: ControlError, text: &str)
    requires
        call_ensures(ControlError::message, (error,), text),
    ensures
        error is InvalidMessage <==> text@ == "tunnel client sent an invalid control message"@,
        error is HeartbeatMissed <==> text@ == "tunnel client missed the heartbeat deadline"@,
        error is UnexpectedData <==> text@ == "tunnel client sent unexpected control data"@,
{
    reveal_strlit("tunnel client sent an invalid control message");
    reveal_strlit("tunnel client missed the heartbeat deadline");
    reveal_strlit("tunnel client sent unexpected control data");
    assert("tunnel client sent an invalid control message"@.len() == 45);
    assert("tunnel client missed the heartbeat deadline"@.len() == 43);
    assert("tunnel client sent unexpected control data"@.len() == 42);
}

} // verus!
