//! Multiplexed sessions: their settings and how they end.

use vstd::prelude::*;

use crate::stream::SessionError;

verus! {

/// How many streams may be open in one session.
pub const MAX_CONCURRENT_STREAMS: usize = 512;

/// How many bytes a stream may have in flight.
pub const STREAM_WINDOW_SIZE: usize = 4194304;

/// The type of the streams that carry what an application sends.
pub const APPLICATION_STREAM_TYPE: u32 = 0;

/// The words with which a session is closed that missed a heartbeat.
pub const HEARTBEAT_TIMEOUT_MESSAGE: &'static str = "heartbeat timed out";

/// An error of the multiplexer.
#[derive(Clone, Copy, Debug, PartialEq, Eq, Structural)]
pub enum MultiplexerError {
    NoError,
    Protocol,
    Internal,
    FlowControl,
    StreamClosed,
    StreamRefused,
    StreamCancelled,
    StreamReset,
    FrameSizeError,
    AcceptQueueFull,
    EnhanceYourCalm,
    RemoteGoneAway,
    StreamsExhausted,
    WriteTimeout,
    SessionClosed,
    PeerEof,
    Unknown,
}

/// Periodic liveness checks, in nanoseconds.
#[derive(Clone, Copy, Debug, PartialEq, Eq, Structural)]
pub struct HeartbeatConfig {
    /// The time between two checks.
    pub interval: u128,
    /// The silence after which the session is given up.
    pub timeout: u128,
}

/// The settings of the multiplexer's own liveness checks, in nanoseconds.
#[derive(Clone, Copy, Debug, PartialEq, Eq, Structural)]
pub struct HeartbeatPlan {
    /// The time between two checks.
    pub interval: u128,
    /// How late an answer may be.
    pub tolerance: u128,
}

/// How the multiplexer is to be started.
#[derive(Clone, Copy, Debug, PartialEq, Eq, Structural)]
pub struct SessionPlan {
    /// Whether this end is the client.
    pub client: bool,
    pub window_size: usize,
    pub stream_limit: usize,
    pub heartbeat: Option<HeartbeatPlan>,
}

/// Liveness settings applied to a multiplexed session.
#[derive(Debug)]
pub struct SessionConfig {
    heartbeat: Option<HeartbeatConfig>,
}

impl Clone for SessionConfig {
    fn clone(&self) -> (result: Self)
        ensures
            result == self,
    {
        SessionConfig { heartbeat: self.heartbeat }
    }
}

impl Default for SessionConfig {
    fn default() -> (result: Self)
        ensures
            result.liveness() is None,
    {
        SessionConfig { heartbeat: None }
    }
}

/// Whether liveness checks can work: some time passes between two of them, and the session is
/// given up only after that time.
pub open spec fn is_heartbeat(config: HeartbeatConfig) -> bool {
    0 < config.interval < config.timeout
}

impl SessionConfig {
    /// The liveness checks, if there are any.
    pub closed spec fn liveness(self) -> Option<HeartbeatConfig> {
        self.heartbeat
    }

    /// How a session with these settings is started.
    pub open spec fn started(self, client: bool) -> Result<SessionPlan, SessionError> {
        let plan = SessionPlan {
            client,
            window_size: STREAM_WINDOW_SIZE,
            stream_limit: MAX_CONCURRENT_STREAMS,
            heartbeat: None,
        };
        match self.liveness() {
            None => Ok(plan),
            Some(h) => if is_heartbeat(h) {
                Ok(
                    SessionPlan {
                        heartbeat: Some(
                            HeartbeatPlan {
                                interval: h.interval,
                                tolerance: (h.timeout - h.interval) as u128,
                            },
                        ),
                        ..plan
                    },
                )
            } else {
                Err(SessionError::InvalidHeartbeatConfig)
            },
        }
    }

    pub fn new() -> (result: Self)
        ensures
            result.liveness() is None,
    {
        SessionConfig { heartbeat: None }
    }

    /// Enables heartbeat checks, with times in nanoseconds. A missed heartbeat closes the session.
    pub fn heartbeat(self, interval: u128, timeout: u128) -> (result: Self)
        ensures
            result.liveness() == Some(HeartbeatConfig { interval, timeout }),
    {
        SessionConfig { heartbeat: Some(HeartbeatConfig { interval, timeout }) }
    }

    /// How a session with these settings is started.
    pub fn start(&self, client: bool) -> (result: Result<SessionPlan, SessionError>)
        ensures
            result == self.started(client),
    {
        let heartbeat = match self.heartbeat {
            Some(heartbeat) => {
                if heartbeat.interval == 0 || heartbeat.timeout <= heartbeat.interval {
                    return Err(SessionError::InvalidHeartbeatConfig);
                }
                Some(
                    HeartbeatPlan {
                        interval: heartbeat.interval,
                        tolerance: heartbeat.timeout - heartbeat.interval,
                    },
                )
            },
            None => None,
        };
        Ok(
            SessionPlan {
                client,
                window_size: STREAM_WINDOW_SIZE,
                stream_limit: MAX_CONCURRENT_STREAMS,
                heartbeat,
            },
        )
    }
}

/// What the multiplexer reports about heartbeats, watched for the first one that is missed.
pub struct HeartbeatMonitor {
    timed_out: bool,
}

impl HeartbeatMonitor {
    /// Whether a heartbeat was missed.
    pub closed spec fn expired(self) -> bool {
        self.timed_out
    }

    pub fn new() -> (result: Self)
        ensures
            !result.expired(),
    {
        HeartbeatMonitor { timed_out: false }
    }

    /// Takes a report: a heartbeat that was answered, or one that was missed. Returns the error
    /// that the session is to be closed with now, which happens once.
    pub fn report(&mut self, answered: bool) -> (result: Option<MultiplexerError>)
        ensures
            result == if !answered && !old(self).expired() {
                Some(MultiplexerError::PeerEof)
            } else {
                None
            },
            final(self).expired() == (old(self).expired() || !answered),
    {
        if !answered && !self.timed_out {
            self.timed_out = true;
            Some(MultiplexerError::PeerEof)
        } else {
            None
        }
    }
}

/// A session starts with windows of four mebibytes and at most 512 streams. Liveness checks are
/// passed on where some time lies between two of them and the timeout is longer than that; the
/// tolerance is then what is left of the timeout. Any other checks are refused.
pub proof fn law_sessions_start_as_configured(
    plain: SessionConfig,
    interval: u128,
    timeout: u128,
    checked: SessionConfig,
    client: bool,
    without: Result<SessionPlan, SessionError>,
    with: Result<SessionPlan, SessionError>,
)
    requires
        call_ensures(SessionConfig::new, (), plain),
        call_ensures(SessionConfig::heartbeat, (plain, interval, timeout), checked),
        call_ensures(SessionConfig::start, (&plain, client), without),
        call_ensures(SessionConfig::start, (&checked, client), with),
    ensures
        without == Ok::<SessionPlan, SessionError>(
            SessionPlan { client, window_size: 4194304, stream_limit: 512, heartbeat: None },
        ),
        with is Ok <==> interval > 0 && timeout > interval,
        with matches Ok(plan) ==> {
            &&& plan.client == client
            &&& plan.window_size == 4194304
            &&& plan.stream_limit == 512
            &&& plan.heartbeat matches Some(beat)
            &&& beat.interval == interval
            &&& beat.interval + beat.tolerance == timeout
        },
        with matches Err(error) ==> error == SessionError::InvalidHeartbeatConfig,
{
}

/// A session is closed for want of a heartbeat at the first one that is missed, and never again.
pub proof fn law_missed_heartbeat_closes_once(
    monitor: &mut HeartbeatMonitor,
    again: &mut HeartbeatMonitor,
    fresh: HeartbeatMonitor,
    answered: bool,
    first: Option<MultiplexerError>,
    later: bool,
    second: Option<MultiplexerError>,
)
    requires
        call_ensures(HeartbeatMonitor::new, (), fresh),
        *old(monitor) == fresh,
        call_ensures(HeartbeatMonitor::report, (monitor, answered), first),
        *old(again) == *final(monitor),
        call_ensures(HeartbeatMonitor::report, (again, later), second),
    ensures
        answered ==> first is None,
        !answered ==> first == Some(MultiplexerError::PeerEof) && second is None,
        answered && !later ==> second == Some(MultiplexerError::PeerEof),
        later ==> second is None,
{
}

} // verus!
