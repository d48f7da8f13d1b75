//! Matches registered nodes with multiplexed sessions and dedicated transports.

use std::collections::VecDeque;

use vstd::arithmetic::div_mod::{lemma_fundamental_div_mod, lemma_fundamental_div_mod_converse};
use vstd::arithmetic::mul::{lemma_mul_is_commutative, lemma_mul_is_distributive_add};
use vstd::prelude::*;
use vstd::string::*;
use vstd::utf8::encode_utf8;

use crate::protocol::TunnelId;
use crate::session::{MultiplexerError, SessionConfig, SessionPlan};
use crate::stream::{validate_tag, SessionError, MAX_TAG_LENGTH};
use crate::table::Table;
use crate::text::same_text;
use crate::transport::Transport;

verus! {

/// Maximum number of transport sessions pooled for one logical tunnel.
pub const MAX_SESSIONS_PER_TUNNEL: usize = 8;

/// Maximum number of idle dedicated data transports retained for one tunnel.
pub const MAX_TRANSPORTS_PER_TUNNEL: usize = 64;

/// Number of idle dedicated transports a node should normally keep warm.
pub const RECOMMENDED_IDLE_TRANSPORTS_PER_TUNNEL: usize = 32;

/// A transport that lasted longer, in nanoseconds, was not a short one.
pub const SHORT_TRANSPORT_MAX_DURATION: u128 = 100_000_000;

/// A transport that carried more bytes was not a short one.
pub const SHORT_TRANSPORT_MAX_BYTES: u64 = 65536;

/// How many short transports in a row make the server turn away from dedicated transports.
pub const SHORT_TRANSPORT_STREAK_LIMIT: u8 = 4;

/// For how long, in nanoseconds, the server turns away from dedicated transports.
pub const SHORT_TRANSPORT_BACKOFF: u128 = 2_000_000_000;

/// An error registering a node connection with a [`TunnelServer`].
#[derive(Clone, Copy, Debug, PartialEq, Eq, Structural)]
pub enum RegisterError {
    AlreadyRegistered,
    ServerShutdown,
    Connection(SessionError),
}

impl RegisterError {
    /// The words that the error is reported with, where it does not wrap another error.
    pub open spec fn text(self) -> Option<Seq<char>> {
        match self {
            RegisterError::AlreadyRegistered => Some(
                "tunnel is already registered or has reached its control session limit"@,
            ),
            RegisterError::ServerShutdown => Some("tunnel server is shut down"@),
            RegisterError::Connection(error) => error.text(),
        }
    }

    /// The words that the error is reported with, where it does not wrap another error.
    pub fn message(self) -> (result: Option<String>)
        ensures
            result matches Some(text) ==> self.text() == Some(text@),
            result is None ==> self.text() is None,
    {
        match self {
            RegisterError::AlreadyRegistered => Some(
                "tunnel is already registered or has reached its control session limit".to_owned(),
            ),
            RegisterError::ServerShutdown => Some("tunnel server is shut down".to_owned()),
            RegisterError::Connection(error) => error.message(),
        }
    }
}

/// An error registering a dedicated data transport.
#[derive(Clone, Copy, Debug, PartialEq, Eq, Structural)]
pub enum RegisterTransportError {
    TunnelNotRegistered,
    OwnerMismatch,
    PoolFull,
    ServerShutdown,
}

impl RegisterTransportError {
    /// The words that the error is reported with.
    pub open spec fn text(self) -> Seq<char> {
        match self {
            RegisterTransportError::TunnelNotRegistered => "tunnel is not registered"@,
            RegisterTransportError::OwnerMismatch => "transport owner does not own the tunnel"@,
            RegisterTransportError::PoolFull => "tunnel transport pool is full"@,
            RegisterTransportError::ServerShutdown => "tunnel server is shut down"@,
        }
    }

    /// The words that the error is reported with.
    pub fn message(self) -> (result: &'static str)
        ensures
            result@ == self.text(),
    {
        match self {
            RegisterTransportError::TunnelNotRegistered => "tunnel is not registered",
            RegisterTransportError::OwnerMismatch => "transport owner does not own the tunnel",
            RegisterTransportError::PoolFull => "tunnel transport pool is full",
            RegisterTransportError::ServerShutdown => "tunnel server is shut down",
        }
    }
}

/// A session of a tunnel, with what opens streams in it.
pub struct RegisteredSession<O> {
    pub session_id: u64,
    pub opener: O,
}

struct RegisteredTunnel<O, T> {
    owner: String,
    generation: u64,
    sessions: Vec<RegisteredSession<O>>,
    transports: VecDeque<Transport<T>>,
    transport_pool_active: bool,
    short_transport_streak: u8,
    transport_backoff_until: Option<u128>,
    next_session: usize,
}

/// A registered tunnel.
pub ghost struct TunnelState<O, T> {
    /// Who registered it.
    pub owner: Seq<char>,
    /// Which registration created it.
    pub generation: u64,
    /// Its sessions, oldest first.
    pub sessions: Seq<RegisteredSession<O>>,
    /// Its idle dedicated transports, oldest first.
    pub transports: Seq<Transport<T>>,
    /// Whether a dedicated transport was ever registered for it.
    pub pool_active: bool,
    /// How many short transports there were in a row.
    pub streak: u8,
    /// Until when dedicated transports are not preferred, if they were too short.
    pub backoff_until: Option<u128>,
    /// How many streams were opened in its sessions, up to wrapping around.
    pub turn: usize,
}

impl<O, T> TunnelState<O, T> {
    pub open spec fn new(owner: Seq<char>, generation: u64) -> Self {
        TunnelState {
            owner,
            generation,
            sessions: Seq::empty(),
            transports: Seq::empty(),
            pool_active: false,
            streak: 0,
            backoff_until: None,
            turn: 0,
        }
    }

    /// The bounds that hold of every registered tunnel: it has a session, neither too many
    /// sessions nor too many transports, and only transports of its own registration.
    pub open spec fn wf(self) -> bool {
        &&& 0 < self.sessions.len() <= MAX_SESSIONS_PER_TUNNEL
        &&& self.transports.len() <= MAX_TRANSPORTS_PER_TUNNEL
        &&& self.transports.len() > 0 ==> self.pool_active
        &&& self.streak < SHORT_TRANSPORT_STREAK_LIMIT
        &&& forall|i: int|
            0 <= i < self.transports.len() ==> (#[trigger] self.transports[i]).birth()
                == self.generation
    }

    /// Whether every session has a smaller number than this.
    pub open spec fn numbers_below(self, number: u64) -> bool {
        forall|i: int|
            0 <= i < self.sessions.len() ==> (#[trigger] self.sessions[i]).session_id < number
    }

    pub open spec fn with_session(self, session: RegisteredSession<O>) -> Self {
        TunnelState { sessions: self.sessions.push(session), ..self }
    }

    pub open spec fn without_session(self, session_id: u64) -> Self {
        TunnelState {
            sessions: self.sessions.filter(
                |session: RegisteredSession<O>| session.session_id != session_id,
            ),
            ..self
        }
    }

    /// The session that the next stream is opened in.
    pub open spec fn next(self) -> RegisteredSession<O> {
        self.sessions[self.turn as int % self.sessions.len() as int]
    }

    /// The tunnel after a stream was opened in its next session.
    pub open spec fn after_open(self) -> Self {
        TunnelState {
            turn: if self.turn == usize::MAX {
                0
            } else {
                (self.turn + 1) as usize
            },
            ..self
        }
    }

    pub open spec fn with_transport(self, transport: Transport<T>) -> Self {
        TunnelState { pool_active: true, transports: self.transports.push(transport), ..self }
    }

    /// The tunnel without its oldest idle transport.
    pub open spec fn after_take(self) -> Self {
        TunnelState {
            transports: if self.transports.len() == 0 {
                self.transports
            } else {
                self.transports.skip(1)
            },
            ..self
        }
    }

    /// Whether the tunnel keeps away from dedicated transports at a given time.
    pub open spec fn backs_off(self, now: u128) -> bool {
        self.backoff_until matches Some(deadline) && deadline > now
    }

    /// The tunnel after it was asked for its preference.
    pub open spec fn after_preference(self, now: u128) -> Self {
        if self.backs_off(now) {
            self
        } else {
            TunnelState { backoff_until: None, ..self }
        }
    }

    /// The tunnel after one of its transports came to an end.
    pub open spec fn after_outcome(self, duration: u128, bytes: u64, now: u128) -> Self {
        if !is_short(duration, bytes) {
            TunnelState { streak: 0, backoff_until: None, ..self }
        } else if self.streak + 1 >= SHORT_TRANSPORT_STREAK_LIMIT {
            TunnelState {
                streak: 0,
                backoff_until: Some((now + SHORT_TRANSPORT_BACKOFF) as u128),
                ..self
            }
        } else {
            TunnelState { streak: (self.streak + 1) as u8, ..self }
        }
    }
}

/// Whether a transport that lasted so long and carried so much was a short one.
pub open spec fn is_short(duration: u128, bytes: u64) -> bool {
    duration <= SHORT_TRANSPORT_MAX_DURATION && bytes <= SHORT_TRANSPORT_MAX_BYTES
}

/// What a server knows about its nodes.
pub ghost struct ServerState<O, T> {
    pub shutdown: bool,
    /// The number of the next session.
    pub next_session_id: u64,
    /// How many sessions were ever registered.
    pub registrations: nat,
    /// The registered tunnels, by name.
    pub tunnels: Map<Seq<char>, TunnelState<O, T>>,
}

impl<O, T> ServerState<O, T> {
    pub open spec fn new() -> Self {
        ServerState {
            shutdown: false,
            next_session_id: 0,
            registrations: 0,
            tunnels: Map::empty(),
        }
    }

    /// After shutdown there are no tunnels, every tunnel is within its bounds, and as long as the
    /// numbers last, no session has the number of the next one or a later one.
    pub open spec fn wf(self) -> bool {
        &&& self.shutdown ==> self.tunnels == Map::<Seq<char>, TunnelState<O, T>>::empty()
        &&& forall|name: Seq<char>| #[trigger]
            self.tunnels.contains_key(name) ==> self.tunnels[name].wf()
        &&& self.registrations <= u64::MAX ==> self.next_session_id == self.registrations
        &&& self.registrations <= u64::MAX ==> forall|name: Seq<char>| #[trigger]
            self.tunnels.contains_key(name) ==> self.tunnels[name].numbers_below(
                self.next_session_id,
            )
    }

    pub open spec fn has(self, name: Seq<char>) -> bool {
        self.tunnels.contains_key(name)
    }

    /// Puts a tunnel in the place of what the name stood for.
    pub open spec fn with_tunnel(self, name: Seq<char>, tunnel: TunnelState<O, T>) -> Self {
        ServerState { tunnels: self.tunnels.insert(name, tunnel), ..self }
    }

    /// Why a session cannot be registered, if it cannot.
    pub open spec fn register_error(self, name: Seq<char>, owner: Seq<char>) -> Option<
        RegisterError,
    > {
        if self.shutdown {
            Some(RegisterError::ServerShutdown)
        } else if self.has(name) && (self.tunnels[name].owner != owner
            || self.tunnels[name].sessions.len() >= MAX_SESSIONS_PER_TUNNEL) {
            Some(RegisterError::AlreadyRegistered)
        } else {
            None
        }
    }

    /// The server after a session was registered under its next number.
    pub open spec fn after_register(self, name: Seq<char>, owner: Seq<char>, opener: O) -> Self {
        let session = RegisteredSession { session_id: self.next_session_id, opener };
        let tunnel = if self.has(name) {
            self.tunnels[name]
        } else {
            TunnelState::new(owner, self.next_session_id)
        };
        ServerState {
            next_session_id: if self.next_session_id == u64::MAX {
                0
            } else {
                (self.next_session_id + 1) as u64
            },
            registrations: self.registrations + 1,
            ..self.with_tunnel(name, tunnel.with_session(session))
        }
    }

    /// The server after a session ended: its tunnel goes with the last one.
    pub open spec fn after_unregister(self, name: Seq<char>, session_id: u64) -> Self {
        if !self.has(name) {
            self
        } else {
            let tunnel = self.tunnels[name].without_session(session_id);
            if tunnel.sessions.len() == 0 {
                ServerState { tunnels: self.tunnels.remove(name), ..self }
            } else {
                self.with_tunnel(name, tunnel)
            }
        }
    }

    /// Why a dedicated transport cannot be registered, if it cannot.
    pub open spec fn transport_error(self, name: Seq<char>, owner: Seq<char>) -> Option<
        RegisterTransportError,
    > {
        if self.shutdown {
            Some(RegisterTransportError::ServerShutdown)
        } else if !self.has(name) {
            Some(RegisterTransportError::TunnelNotRegistered)
        } else if self.tunnels[name].owner != owner {
            Some(RegisterTransportError::OwnerMismatch)
        } else if self.tunnels[name].transports.len() >= MAX_TRANSPORTS_PER_TUNNEL {
            Some(RegisterTransportError::PoolFull)
        } else {
            None
        }
    }

    /// Whether a used transport is taken back into the pool: it belongs to the tunnel as it is
    /// registered now, and the pool has room.
    pub open spec fn takes_back(self, name: Seq<char>, transport: Transport<T>) -> bool {
        &&& self.has(name)
        &&& self.tunnels[name].generation == transport.birth()
        &&& self.tunnels[name].transports.len() < MAX_TRANSPORTS_PER_TUNNEL
    }

    /// The server after the oldest idle transport of a tunnel was taken.
    pub open spec fn after_take(self, name: Seq<char>) -> Self {
        if self.has(name) {
            self.with_tunnel(name, self.tunnels[name].after_take())
        } else {
            self
        }
    }

    /// The server after a tunnel was asked for its preference.
    pub open spec fn after_preference(self, name: Seq<char>, now: u128) -> Self {
        if self.has(name) {
            self.with_tunnel(name, self.tunnels[name].after_preference(now))
        } else {
            self
        }
    }

    /// Whether dedicated transports are preferred.
    pub open spec fn prefers_transports(self, name: Seq<char>, now: u128) -> bool {
        self.has(name) && self.tunnels[name].pool_active && !self.tunnels[name].backs_off(now)
    }

    /// The server after a transport of a tunnel came to an end.
    pub open spec fn after_outcome(
        self,
        name: Seq<char>,
        duration: u128,
        bytes: u64,
        now: u128,
    ) -> Self {
        if self.has(name) {
            self.with_tunnel(name, self.tunnels[name].after_outcome(duration, bytes, now))
        } else {
            self
        }
    }

    /// The server after a stream was opened in a session of a tunnel.
    pub open spec fn after_open(self, name: Seq<char>) -> Self {
        if self.has(name) {
            self.with_tunnel(name, self.tunnels[name].after_open())
        } else {
            self
        }
    }

    pub open spec fn after_shutdown(self) -> Self {
        ServerState { shutdown: true, tunnels: Map::empty(), ..self }
    }
}

impl<O, T> RegisteredTunnel<O, T> {
    spec fn state(self) -> TunnelState<O, T> {
        TunnelState {
            owner: self.owner@,
            generation: self.generation,
            sessions: self.sessions@,
            transports: self.transports@,
            pool_active: self.transport_pool_active,
            streak: self.short_transport_streak,
            backoff_until: self.transport_backoff_until,
            turn: self.next_session,
        }
    }

    fn new(owner: String, generation: u64) -> (result: Self)
        ensures
            result.state() == TunnelState::<O, T>::new(owner@, generation),
    {
        let result = RegisteredTunnel {
            owner,
            generation,
            sessions: Vec::new(),
            transports: VecDeque::new(),
            transport_pool_active: false,
            short_transport_streak: 0,
            transport_backoff_until: None,
            next_session: 0,
        };
        assert(result.sessions@ =~= Seq::empty());
        assert(result.transports@ =~= Seq::empty());
        result
    }

    fn drop_session(&mut self, session_id: u64)
        ensures
            final(self).state() == old(self).state().without_session(session_id),
    {
        let ghost before = self.sessions@;
        let ghost keep = |session: RegisteredSession<O>| session.session_id != session_id;
        let ghost mut done: int = 0;
        let mut i: usize = 0;
        proof {
            reveal(Seq::filter);
            assert(before.take(0).filter(keep) =~= self.sessions@.take(0));
            assert(before.skip(0) =~= self.sessions@.skip(0));
        }
        while i < self.sessions.len()
            invariant
                i <= self.sessions@.len(),
                0 <= done <= before.len(),
                self.sessions@.take(i as int) == before.take(done).filter(keep),
                self.sessions@.skip(i as int) == before.skip(done),
                keep == (|session: RegisteredSession<O>| session.session_id != session_id),
                self.state() == (TunnelState { sessions: self.sessions@, ..old(self).state() }),
            decreases self.sessions@.len() - i,
        {
            let ghost now = self.sessions@;
            proof {
                assert(now.skip(i as int).len() == before.skip(done).len());
                assert(now.skip(i as int)[0] == before.skip(done)[0]);
                assert(before.take(done + 1).drop_last() =~= before.take(done));
                reveal(Seq::filter);
                assert(before.skip(done + 1) =~= before.skip(done).skip(1));
                assert(now.skip(i as int).skip(1) =~= now.skip(i as int + 1));
            }
            if self.sessions[i].session_id == session_id {
                self.sessions.remove(i);
                proof {
                    assert(self.sessions@.take(i as int) =~= now.take(i as int));
                    assert(self.sessions@.skip(i as int) =~= now.skip(i as int + 1));
                }
            } else {
                i += 1;
                proof {
                    assert(self.sessions@.take(i as int) =~= now.take(i - 1).push(now[i - 1]));
                }
            }
            proof {
                done = done + 1;
            }
        }
        proof {
            assert(self.sessions@.take(i as int) =~= self.sessions@);
            assert(before.skip(done).len() == 0);
            assert(before.take(done) =~= before);
        }
    }
}

/// What happens while a caller waits for a dedicated transport.
#[derive(Clone, Copy, Debug, PartialEq, Eq, Structural)]
pub enum WaitEvent {
    /// The wait begins.
    Started,
    /// A transport was registered for the tunnel.
    Notified,
    /// The wait has lasted as long as it may.
    DeadlineReached,
}

/// How a wait for a dedicated transport stands.
pub enum TransportWait<T> {
    /// A transport became available, and the wait is over.
    Taken(Transport<T>),
    /// The wait goes on.
    Waiting,
    /// The wait is over without a transport.
    Expired,
}

/// Matches registered nodes with multiplexed sessions.
///
/// `O` is what opens streams in a session, `T` a dedicated transport connection. Times are in
/// nanoseconds on a clock that never goes back.
pub struct TunnelServer<O, T> {
    config: SessionConfig,
    shutdown: bool,
    next_session_id: u64,
    registrations: Ghost<nat>,
    tunnels: Table<RegisteredTunnel<O, T>>,
}

spec fn states<O, T>(tunnels: Map<Seq<char>, RegisteredTunnel<O, T>>) -> Map<
    Seq<char>,
    TunnelState<O, T>,
> {
    Map::new(|name: Seq<char>| tunnels.contains_key(name), |name: Seq<char>| tunnels[name].state())
}

impl<O, T> View for TunnelServer<O, T> {
    type V = ServerState<O, T>;

    closed spec fn view(&self) -> ServerState<O, T> {
        ServerState {
            shutdown: self.shutdown,
            next_session_id: self.next_session_id,
            registrations: self.registrations@,
            tunnels: states(self.tunnels@),
        }
    }
}

proof fn lemma_filtered_numbers<O, T>(tunnel: TunnelState<O, T>, session_id: u64, number: u64)
    requires
        tunnel.numbers_below(number),
    ensures
        tunnel.without_session(session_id).numbers_below(number),
{
    let keep = |session: RegisteredSession<O>| session.session_id != session_id;
    let kept = tunnel.sessions.filter(keep);
    assert forall|i: int| 0 <= i < kept.len() implies (#[trigger] kept[i]).session_id < number by {
        assert(kept.contains(kept[i]));
        tunnel.sessions.lemma_filter_contains_rev(keep, kept[i]);
    }
}

proof fn lemma_update<O, T>(
    before: TunnelServer<O, T>,
    after: TunnelServer<O, T>,
    name: Seq<char>,
)
    requires
        before.wf(),
        !before.shutdown,
        !after.shutdown,
        after.tunnels.wf(),
        after.tunnels@ == before.tunnels@.insert(name, after.tunnels@[name]),
        after.tunnels@[name].state().wf(),
        after.registrations@ <= u64::MAX ==> {
            &&& before.registrations@ <= u64::MAX
            &&& before.next_session_id <= after.next_session_id == after.registrations@
            &&& after.tunnels@[name].state().numbers_below(after.next_session_id)
        },
    ensures
        after.wf(),
        after@.tunnels == before@.tunnels.insert(name, after.tunnels@[name].state()),
{
    assert(after@.tunnels =~= before@.tunnels.insert(name, after.tunnels@[name].state()));
    assert forall|other: Seq<char>| #[trigger] after@.tunnels.contains_key(other) implies (
    after@.tunnels[other].wf()) by {
        if other != name {
            assert(before@.tunnels.contains_key(other));
        }
    }
    if after.registrations@ <= u64::MAX {
        assert forall|other: Seq<char>| #[trigger] after@.tunnels.contains_key(other) implies (
        after@.tunnels[other].numbers_below(after.next_session_id)) by {
            if other != name {
                assert(before@.tunnels.contains_key(other));
                assert(before@.tunnels[other].numbers_below(before.next_session_id));
            }
        }
    }
}

impl<O, T> TunnelServer<O, T> {
    /// Names are unique.
    pub closed spec fn sound(self) -> bool {
        self.tunnels.wf()
    }

    /// The bounds on what a server keeps.
    pub open spec fn wf(self) -> bool {
        self.sound() && self@.wf()
    }

    /// The settings of the server's sessions.
    pub closed spec fn settings(self) -> SessionConfig {
        self.config
    }

    pub fn new(config: SessionConfig) -> (result: Self)
        ensures
            result.wf(),
            result.settings() == config,
            result@ == ServerState::<O, T>::new(),
    {
        let result = TunnelServer {
            config,
            shutdown: false,
            next_session_id: 0,
            registrations: Ghost(0),
            tunnels: Table::new(),
        };
        assert(result@.tunnels =~= Map::empty());
        result
    }

    /// How a session with a node is started.
    pub fn session_plan(&self) -> (result: Result<SessionPlan, SessionError>)
        ensures
            result == self.settings().started(false),
    {
        self.config.start(false)
    }

    /// Registers a session owned by an authenticated node and returns its number. A tunnel may
    /// pool multiple sessions only when all of them have the same owner.
    pub fn register(&mut self, tunnel_id: &TunnelId, owner: &str, opener: O) -> (result: Result<
        u64,
        RegisterError,
    >)
        requires
            old(self).wf(),
        ensures
            final(self).wf(),
            final(self).settings() == old(self).settings(),
            match old(self)@.register_error(tunnel_id@, owner@) {
                Some(error) => result == Err::<u64, RegisterError>(error) && final(self)@ == old(
                    self,
                )@,
                None => {
                    &&& result == Ok::<u64, RegisterError>(old(self)@.next_session_id)
                    &&& final(self)@ == old(self)@.after_register(tunnel_id@, owner@, opener)
                },
            },
    {
        if self.shutdown {
            return Err(RegisterError::ServerShutdown);
        }
        let name = tunnel_id.as_str();
        let known = match self.tunnels.get(name) {
            Some(tunnel) => {
                assert(self@.tunnels.contains_key(name@));
                if !same_text(&tunnel.owner, owner) || tunnel.sessions.len()
                    >= MAX_SESSIONS_PER_TUNNEL {
                    return Err(RegisterError::AlreadyRegistered);
                }
                true
            },
            None => false,
        };
        let ghost before = *self;
        let session_id = self.next_session_id;
        if !known {
            self.tunnels.insert(
                name.to_owned(),
                RegisteredTunnel::new(owner.to_owned(), session_id),
            );
        }
        let ghost blank = self.tunnels@[name@].state();
        if let Some(tunnel) = self.tunnels.get_mut(name) {
            tunnel.sessions.push(RegisteredSession { session_id, opener });
        }
        self.next_session_id = session_id.wrapping_add(1);
        self.registrations = Ghost(self.registrations@ + 1);
        proof {
            let session = RegisteredSession { session_id, opener };
            let tunnel = self.tunnels@[name@];
            assert(tunnel.state() == blank.with_session(session));
            assert(self.tunnels@ =~= before.tunnels@.insert(name@, tunnel));
            if self.registrations@ <= u64::MAX {
                if known {
                    assert(before@.tunnels[name@].numbers_below(before.next_session_id));
                }
                assert(tunnel.state().numbers_below(self.next_session_id));
            }
            lemma_update(before, *self, name@);
        }
        Ok(session_id)
    }

    /// Completes a registration once the session has started, or failed to: a failed one is
    /// taken back, and so is one that shutdown has overtaken.
    pub fn complete_registration(
        &mut self,
        tunnel_id: &TunnelId,
        session_id: u64,
        started: Result<(), SessionError>,
    ) -> (result: Result<(), RegisterError>)
        requires
            old(self).wf(),
        ensures
            final(self).wf(),
            final(self).settings() == old(self).settings(),
            result == match started {
                Err(error) => Err::<(), RegisterError>(RegisterError::Connection(error)),
                Ok(_) => if old(self)@.shutdown {
                    Err(RegisterError::ServerShutdown)
                } else {
                    Ok(())
                },
            },
            final(self)@ == if result is Ok {
                old(self)@
            } else {
                old(self)@.after_unregister(tunnel_id@, session_id)
            },
    {
        match started {
            Err(error) => {
                self.unregister(tunnel_id, session_id);
                Err(RegisterError::Connection(error))
            },
            Ok(()) => {
                if self.is_shutdown() {
                    self.unregister(tunnel_id, session_id);
                    Err(RegisterError::ServerShutdown)
                } else {
                    Ok(())
                }
            },
        }
    }

    /// Chooses the session of a registered node that a tagged stream is opened in: each one in
    /// turn.
    pub fn open(&mut self, tunnel_id: &TunnelId, tag: &str) -> (result: Result<
        Option<&O>,
        SessionError,
    >)
        requires
            old(self).wf(),
        ensures
            final(self).wf(),
            final(self).settings() == old(self).settings(),
            final(self)@ == old(self)@.after_open(tunnel_id@),
            match result {
                Ok(Some(opener)) => {
                    &&& old(self)@.has(tunnel_id@)
                    &&& encode_utf8(tag@).len() <= MAX_TAG_LENGTH
                    &&& *opener == old(self)@.tunnels[tunnel_id@].next().opener
                },
                Ok(None) => !old(self)@.shutdown && !old(self)@.has(tunnel_id@),
                Err(error) => if old(self)@.shutdown {
                    error == SessionError::Multiplexer(MultiplexerError::SessionClosed)
                } else {
                    &&& old(self)@.has(tunnel_id@)
                    &&& encode_utf8(tag@).len() > MAX_TAG_LENGTH
                    &&& error == SessionError::TagTooLong(encode_utf8(tag@).len() as usize)
                },
            },
    {
        if self.shutdown {
            return Err(SessionError::Multiplexer(MultiplexerError::SessionClosed));
        }
        let ghost before = *self;
        let name = tunnel_id.as_str();
        let mut at: usize = 0;
        match self.tunnels.get_mut(name) {
            None => return Ok(None),
            Some(tunnel) => {
                assert(before@.tunnels.contains_key(name@));
                at = tunnel.next_session % tunnel.sessions.len();
                tunnel.next_session = tunnel.next_session.wrapping_add(1);
            },
        }
        proof {
            lemma_update(before, *self, name@);
        }
        if let Err(error) = validate_tag(tag) {
            return Err(error);
        }
        match self.tunnels.get(name) {
            Some(tunnel) => Ok(Some(&tunnel.sessions[at].opener)),
            None => Ok(None),
        }
    }

    /// Adds an authenticated, dedicated data transport to a registered tunnel.
    pub fn register_transport(&mut self, tunnel_id: &TunnelId, owner: &str, connection: T) -> (result:
        Result<(), RegisterTransportError>)
        requires
            old(self).wf(),
        ensures
            final(self).wf(),
            final(self).settings() == old(self).settings(),
            match old(self)@.transport_error(tunnel_id@, owner@) {
                Some(error) => {
                    &&& result == Err::<(), RegisterTransportError>(error)
                    &&& final(self)@ == old(self)@
                },
                None => {
                    let tunnel = old(self)@.tunnels[tunnel_id@];
                    &&& result == Ok::<(), RegisterTransportError>(())
                    &&& final(self)@ == old(self)@.with_tunnel(
                        tunnel_id@,
                        tunnel.with_transport(Transport::of(connection, tunnel.generation)),
                    )
                    &&& Transport::of(connection, tunnel.generation).connection() == connection
                    &&& Transport::of(connection, tunnel.generation).birth() == tunnel.generation
                },
            },
    {
        if self.shutdown {
            return Err(RegisterTransportError::ServerShutdown);
        }
        let ghost before = *self;
        let name = tunnel_id.as_str();
        let generation = match self.tunnels.get(name) {
            None => return Err(RegisterTransportError::TunnelNotRegistered),
            Some(tunnel) => {
                assert(before@.tunnels.contains_key(name@));
                if !same_text(&tunnel.owner, owner) {
                    return Err(RegisterTransportError::OwnerMismatch);
                }
                if tunnel.transports.len() >= MAX_TRANSPORTS_PER_TUNNEL {
                    return Err(RegisterTransportError::PoolFull);
                }
                tunnel.generation
            },
        };
        let transport = Transport::new(connection, generation);
        if let Some(tunnel) = self.tunnels.get_mut(name) {
            tunnel.transport_pool_active = true;
            tunnel.transports.push_back(transport);
        }
        proof {
            lemma_update(before, *self, name@);
        }
        Ok(())
    }

    /// Takes the oldest idle dedicated data transport for a tunnel.
    pub fn take_transport(&mut self, tunnel_id: &TunnelId) -> (result: Option<Transport<T>>)
        requires
            old(self).wf(),
        ensures
            final(self).wf(),
            final(self).settings() == old(self).settings(),
            final(self)@ == old(self)@.after_take(tunnel_id@),
            result == if old(self)@.has(tunnel_id@) && old(
                self,
            )@.tunnels[tunnel_id@].transports.len() > 0 {
                Some(old(self)@.tunnels[tunnel_id@].transports[0])
            } else {
                None
            },
    {
        let ghost before = *self;
        let name = tunnel_id.as_str();
        let mut taken: Option<Transport<T>> = None;
        match self.tunnels.get_mut(name) {
            None => return None,
            Some(tunnel) => {
                assert(before@.tunnels.contains_key(name@));
                taken = tunnel.transports.pop_front();
            },
        }
        proof {
            let old_pool = before@.tunnels[name@].transports;
            let pool = self.tunnels@[name@].state().transports;
            if old_pool.len() > 0 {
                assert(pool =~= old_pool.skip(1));
            }
            lemma_update(before, *self, name@);
        }
        taken
    }

    /// Waits briefly for a dedicated transport to become available: says, for each thing that
    /// happens in the wait, whether it is over.
    ///
    /// Between two events the caller waits for a notification that a transport was registered,
    /// or for the deadline.
    pub fn take_transport_wait(&mut self, tunnel_id: &TunnelId, event: WaitEvent) -> (result:
        TransportWait<T>)
        requires
            old(self).wf(),
        ensures
            final(self).wf(),
            final(self).settings() == old(self).settings(),
            ({
                let name = tunnel_id@;
                let expired = event is DeadlineReached || (event is Started && !old(self)@.has(
                    name,
                ));
                if expired {
                    result == TransportWait::<T>::Expired && final(self)@ == old(self)@
                } else if old(self)@.has(name) && old(self)@.tunnels[name].transports.len() > 0 {
                    &&& result == TransportWait::Taken(old(self)@.tunnels[name].transports[0])
                    &&& final(self)@ == old(self)@.after_take(name)
                } else {
                    result == TransportWait::<T>::Waiting && final(self)@ == old(self)@
                }
            }),
    {
        match event {
            WaitEvent::DeadlineReached => return TransportWait::Expired,
            WaitEvent::Started => {
                if !self.tunnels.contains_key(tunnel_id.as_str()) {
                    return TransportWait::Expired;
                }
            },
            WaitEvent::Notified => {},
        }
        let ghost before = *self;
        match self.take_transport(tunnel_id) {
            Some(transport) => TransportWait::Taken(transport),
            None => {
                proof {
                    let name = tunnel_id@;
                    if before@.has(name) {
                        assert(before@.tunnels.insert(name, before@.tunnels[name])
                            =~= before@.tunnels);
                    }
                }
                TransportWait::Waiting
            },
        }
    }

    /// Takes a used transport back into the pool of its tunnel, if it still belongs there.
    /// Otherwise the transport is given up. Returns whether it was taken back.
    pub fn recycle_transport(&mut self, tunnel_id: &TunnelId, transport: Transport<T>) -> (result:
        bool)
        requires
            old(self).wf(),
        ensures
            final(self).wf(),
            final(self).settings() == old(self).settings(),
            result == old(self)@.takes_back(tunnel_id@, transport),
            final(self)@ == if result {
                old(self)@.with_tunnel(
                    tunnel_id@,
                    old(self)@.tunnels[tunnel_id@].with_transport(transport),
                )
            } else {
                old(self)@
            },
    {
        let ghost before = *self;
        let name = tunnel_id.as_str();
        match self.tunnels.get(name) {
            None => return false,
            Some(tunnel) => {
                assert(before@.tunnels.contains_key(name@));
                if tunnel.generation != transport.generation() || tunnel.transports.len()
                    >= MAX_TRANSPORTS_PER_TUNNEL {
                    return false;
                }
            },
        }
        if let Some(tunnel) = self.tunnels.get_mut(name) {
            tunnel.transport_pool_active = true;
            tunnel.transports.push_back(transport);
        }
        proof {
            lemma_update(before, *self, name@);
        }
        true
    }

    /// Returns whether dedicated transport should currently be preferred.
    pub fn transport_pool_preferred(&mut self, tunnel_id: &TunnelId, now: u128) -> (result: bool)
        requires
            old(self).wf(),
        ensures
            final(self).wf(),
            final(self).settings() == old(self).settings(),
            final(self)@ == old(self)@.after_preference(tunnel_id@, now),
            result == old(self)@.prefers_transports(tunnel_id@, now),
    {
        let ghost before = *self;
        let name = tunnel_id.as_str();
        let mut preferred = false;
        match self.tunnels.get_mut(name) {
            None => return false,
            Some(tunnel) => {
                assert(before@.tunnels.contains_key(name@));
                let backs_off = match tunnel.transport_backoff_until {
                    Some(deadline) => deadline > now,
                    None => false,
                };
                if !backs_off {
                    tunnel.transport_backoff_until = None;
                    preferred = tunnel.transport_pool_active;
                }
            },
        }
        proof {
            lemma_update(before, *self, name@);
        }
        preferred
    }

    /// Reports how a consumed dedicated transport behaved so short-connection workloads can fall
    /// back to the reusable multiplexed data plane.
    pub fn report_transport_outcome(
        &mut self,
        tunnel_id: &TunnelId,
        duration: u128,
        bytes: u64,
        now: u128,
    )
        requires
            old(self).wf(),
            is_short(duration, bytes) && old(self)@.has(tunnel_id@) && old(
                self,
            )@.tunnels[tunnel_id@].streak + 1 >= SHORT_TRANSPORT_STREAK_LIMIT ==> now
                + SHORT_TRANSPORT_BACKOFF <= u128::MAX,
        ensures
            final(self).wf(),
            final(self).settings() == old(self).settings(),
            final(self)@ == old(self)@.after_outcome(tunnel_id@, duration, bytes, now),
    {
        let ghost before = *self;
        let name = tunnel_id.as_str();
        match self.tunnels.get_mut(name) {
            None => return ,
            Some(tunnel) => {
                assert(before@.tunnels.contains_key(name@));
                if duration <= SHORT_TRANSPORT_MAX_DURATION && bytes <= SHORT_TRANSPORT_MAX_BYTES {
                    tunnel.short_transport_streak = tunnel.short_transport_streak.saturating_add(1);
                    if tunnel.short_transport_streak >= SHORT_TRANSPORT_STREAK_LIMIT {
                        tunnel.transport_backoff_until = Some(now + SHORT_TRANSPORT_BACKOFF);
                        tunnel.short_transport_streak = 0;
                    }
                } else {
                    tunnel.short_transport_streak = 0;
                    tunnel.transport_backoff_until = None;
                }
            },
        }
        proof {
            lemma_update(before, *self, name@);
        }
    }

    /// Ends a session. A tunnel goes with the last of its sessions.
    pub fn unregister(&mut self, tunnel_id: &TunnelId, session_id: u64)
        requires
            old(self).wf(),
        ensures
            final(self).wf(),
            final(self).settings() == old(self).settings(),
            final(self)@ == old(self)@.after_unregister(tunnel_id@, session_id),
    {
        let ghost before = *self;
        let name = tunnel_id.as_str();
        let mut remove_tunnel = false;
        match self.tunnels.get_mut(name) {
            None => return ,
            Some(tunnel) => {
                assert(before@.tunnels.contains_key(name@));
                tunnel.drop_session(session_id);
                remove_tunnel = tunnel.sessions.len() == 0;
            },
        }
        if remove_tunnel {
            self.tunnels.remove(name);
            proof {
                assert(self@.tunnels =~= before@.tunnels.remove(name@));
                assert forall|other: Seq<char>| #[trigger] self@.tunnels.contains_key(other) implies (
                self@.tunnels[other].wf()) by {
                    assert(before@.tunnels.contains_key(other));
                }
                if self.registrations@ <= u64::MAX {
                    assert forall|other: Seq<char>| #[trigger]
                        self@.tunnels.contains_key(other) implies (
                    self@.tunnels[other].numbers_below(self.next_session_id)) by {
                        assert(before@.tunnels.contains_key(other));
                    }
                }
            }
        } else {
            proof {
                before@.tunnels[name@].sessions.lemma_filter_len(
                    |session: RegisteredSession<O>| session.session_id != session_id,
                );
                if self.registrations@ <= u64::MAX {
                    lemma_filtered_numbers(
                        before@.tunnels[name@],
                        session_id,
                        before.next_session_id,
                    );
                }
                lemma_update(before, *self, name@);
            }
        }
    }

    /// Closes all registered sessions.
    pub fn shutdown(&mut self)
        requires
            old(self).wf(),
        ensures
            final(self).wf(),
            final(self).settings() == old(self).settings(),
            final(self)@ == old(self)@.after_shutdown(),
    {
        self.shutdown = true;
        self.tunnels.clear();
        assert(self@.tunnels =~= Map::empty());
    }

    pub fn is_shutdown(&self) -> (result: bool)
        ensures
            result == self@.shutdown,
    {
        self.shutdown
    }
}

impl<O, T> Default for TunnelServer<O, T> {
    fn default() -> (result: Self)
        ensures
            result.wf(),
            result.settings().liveness() is None,
            result@ == ServerState::<O, T>::new(),
    {
        TunnelServer::new(SessionConfig::new())
    }
}

/// What happens in a session that is being served.
#[derive(Clone, Copy, Debug)]
pub enum ServeEvent {
    /// A stream is asked for.
    OpenRequested,
    /// Nobody can ask for a stream any more.
    RequestsClosed,
    /// The stream that was asked for was opened and tagged, or not.
    Opened(Result<(), SessionError>),
    /// The node opened a stream, or the multiplexer gave up accepting.
    Inbound(Result<(), MultiplexerError>),
    /// There is news of shutdown, or there can be none any more.
    ShutdownChanged { lost: bool },
}

/// What is done in a session that is being served.
#[derive(Clone, Copy, Debug, PartialEq, Eq, Structural)]
pub enum ServeAction {
    /// Open a stream in the session.
    Open,
    /// Read the tag of the inbound stream, and hand it out.
    Accept,
    /// Wait for the next event.
    Continue,
    /// End the session.
    Stop,
    /// End the session with an error.
    Fail(SessionError),
}

/// Whether a stream could not be opened because its session is over.
pub open spec fn is_session_end(error: SessionError) -> bool {
    error == SessionError::Multiplexer(MultiplexerError::SessionClosed) || error
        == SessionError::Multiplexer(MultiplexerError::RemoteGoneAway) || error
        == SessionError::Multiplexer(MultiplexerError::PeerEof)
}

/// What is done on an event.
pub open spec fn serve_action(event: ServeEvent, shutdown: bool) -> ServeAction {
    match event {
        ServeEvent::OpenRequested => ServeAction::Open,
        ServeEvent::RequestsClosed => ServeAction::Stop,
        ServeEvent::Opened(Err(error)) => if is_session_end(error) {
            ServeAction::Stop
        } else {
            ServeAction::Continue
        },
        ServeEvent::Opened(Ok(_)) => ServeAction::Continue,
        ServeEvent::Inbound(Ok(_)) => ServeAction::Accept,
        ServeEvent::Inbound(Err(error)) => if error == MultiplexerError::SessionClosed || error
            == MultiplexerError::PeerEof {
            ServeAction::Stop
        } else {
            ServeAction::Fail(SessionError::Multiplexer(error))
        },
        ServeEvent::ShutdownChanged { lost } => if lost || shutdown {
            ServeAction::Stop
        } else {
            ServeAction::Continue
        },
    }
}

/// What happens while a caller waits for a stream that a node opens.
pub enum AcceptEvent<S> {
    /// The wait begins.
    Started,
    /// A node's stream came, or failed to; without one, none can come any more.
    Incoming(Option<Result<S, SessionError>>),
    /// There is news of shutdown, or there can be none any more.
    ShutdownChanged { lost: bool },
}

impl<O, T> TunnelServer<O, T> {
    /// Says what a session that is being served does on an event.
    pub fn serve(&self, event: ServeEvent) -> (result: ServeAction)
        ensures
            result == serve_action(event, self@.shutdown),
    {
        match event {
            ServeEvent::OpenRequested => ServeAction::Open,
            ServeEvent::RequestsClosed => ServeAction::Stop,
            ServeEvent::Opened(opened) => match opened {
                Err(SessionError::Multiplexer(error)) => match error {
                    MultiplexerError::SessionClosed
                    | MultiplexerError::RemoteGoneAway
                    | MultiplexerError::PeerEof => ServeAction::Stop,
                    _ => ServeAction::Continue,
                },
                _ => ServeAction::Continue,
            },
            ServeEvent::Inbound(inbound) => match inbound {
                Ok(()) => ServeAction::Accept,
                Err(error) => match error {
                    MultiplexerError::SessionClosed | MultiplexerError::PeerEof => ServeAction::Stop,
                    _ => ServeAction::Fail(SessionError::Multiplexer(error)),
                },
            },
            ServeEvent::ShutdownChanged { lost } => {
                if lost || self.shutdown {
                    ServeAction::Stop
                } else {
                    ServeAction::Continue
                }
            },
        }
    }

    /// Waits for the next stream opened by any registered node: says, for each thing that happens
    /// in the wait, what the wait came to, or that it goes on.
    pub fn accept<S>(&self, event: AcceptEvent<S>) -> (result: Option<Result<S, SessionError>>)
        ensures
            ({
                let closed = Err::<S, SessionError>(
                    SessionError::Multiplexer(MultiplexerError::SessionClosed),
                );
                result == match event {
                    AcceptEvent::Incoming(Some(incoming)) => Some(incoming),
                    AcceptEvent::Incoming(None) => Some(closed),
                    AcceptEvent::Started => if self@.shutdown {
                        Some(closed)
                    } else {
                        None
                    },
                    AcceptEvent::ShutdownChanged { lost } => if lost || self@.shutdown {
                        Some(closed)
                    } else {
                        None
                    },
                }
            }),
    {
        let over = match event {
            AcceptEvent::Incoming(Some(incoming)) => return Some(incoming),
            AcceptEvent::Incoming(None) => true,
            AcceptEvent::Started => self.shutdown,
            AcceptEvent::ShutdownChanged { lost } => lost || self.shutdown,
        };
        if over {
            Some(Err(SessionError::Multiplexer(MultiplexerError::SessionClosed)))
        } else {
            None
        }
    }

    /// Completes when shutdown begins: says whether the wait is over. Without news to come
    /// (`lost`) it is over too.
    pub fn wait_for_shutdown(&self, lost: bool) -> (result: bool)
        ensures
            result == (self@.shutdown || lost),
    {
        self.shutdown || lost
    }
}

/// Once a node has registered a tunnel, no other owner can register a session or a transport
/// for it.
pub proof fn law_tunnel_belongs_to_its_owner<O, T>(
    server: ServerState<O, T>,
    name: Seq<char>,
    owner: Seq<char>,
    opener: O,
    other: Seq<char>,
)
    requires
        server.wf(),
        server.register_error(name, owner) is None,
        other != owner,
    ensures
        ({
            let after = server.after_register(name, owner, opener);
            &&& after.register_error(name, other) == Some(RegisterError::AlreadyRegistered)
            &&& after.transport_error(name, other) == Some(RegisterTransportError::OwnerMismatch)
        }),
{
}

/// A session that ends, or that never started, leaves the tunnels as they were before it was
/// registered. This holds as long as session numbers last, which is the first 2^64 registrations.
pub proof fn law_unregister_undoes_register<O, T>(
    server: ServerState<O, T>,
    name: Seq<char>,
    owner: Seq<char>,
    opener: O,
)
    requires
        server.wf(),
        server.register_error(name, owner) is None,
        server.registrations <= u64::MAX,
    ensures
        server.after_register(name, owner, opener).after_unregister(
            name,
            server.next_session_id,
        ).tunnels == server.tunnels,
{
    let id = server.next_session_id;
    let keep = |session: RegisteredSession<O>| session.session_id != id;
    if server.has(name) {
        assert(server.tunnels[name].numbers_below(id));
    }
    let session = RegisteredSession { session_id: id, opener };
    let sessions = if server.has(name) {
        server.tunnels[name].sessions
    } else {
        Seq::empty()
    };
    let after = server.after_register(name, owner, opener);
    assert(after.tunnels[name].sessions == sessions.push(session));
    assert(sessions.push(session).drop_last() =~= sessions);
    reveal(Seq::filter);
    assert(sessions.push(session).filter(keep) == sessions.filter(keep));
    lemma_filter_all(sessions, keep);
    assert(after.tunnels[name].without_session(id).sessions == sessions);
    assert(after.after_unregister(name, id).tunnels =~= server.tunnels);
}

proof fn lemma_filter_all<A>(s: Seq<A>, keep: spec_fn(A) -> bool)
    requires
        forall|i: int| 0 <= i < s.len() ==> keep(#[trigger] s[i]),
    ensures
        s.filter(keep) == s,
    decreases s.len(),
{
    reveal(Seq::filter);
    if s.len() > 0 {
        lemma_filter_all(s.drop_last(), keep);
        assert(s.drop_last().push(s.last()) =~= s);
    } else {
        assert(s.filter(keep) =~= s);
    }
}

/// The server after a number of transports were taken from a tunnel.
pub open spec fn after_takes<O, T>(server: ServerState<O, T>, name: Seq<char>, n: nat) -> ServerState<
    O,
    T,
>
    decreases n,
{
    if n == 0 {
        server
    } else {
        after_takes(server, name, (n - 1) as nat).after_take(name)
    }
}

/// Dedicated transports are handed out in the order in which they were registered.
pub proof fn law_transports_come_out_in_order<O, T>(
    server: ServerState<O, T>,
    name: Seq<char>,
    n: nat,
)
    requires
        server.has(name),
        n <= server.tunnels[name].transports.len(),
    ensures
        after_takes(server, name, n).has(name),
        after_takes(server, name, n).tunnels[name].transports
            == server.tunnels[name].transports.skip(n as int),
    decreases n,
{
    let pool = server.tunnels[name].transports;
    if n == 0 {
        assert(pool.skip(0) =~= pool);
    } else {
        law_transports_come_out_in_order(server, name, (n - 1) as nat);
        assert(pool.skip(n - 1).skip(1) =~= pool.skip(n as int));
    }
}

/// The tunnel after a number of streams were opened in its sessions.
pub open spec fn after_opens<O, T>(tunnel: TunnelState<O, T>, n: nat) -> TunnelState<O, T>
    decreases n,
{
    if n == 0 {
        tunnel
    } else {
        after_opens(tunnel, (n - 1) as nat).after_open()
    }
}

/// The sessions of a tunnel take turns: of as many streams in a row as there are sessions, no
/// two are opened in the same one.
pub proof fn law_sessions_take_turns<O, T>(tunnel: TunnelState<O, T>, i: nat, j: nat)
    requires
        tunnel.wf(),
        tunnel.turn + tunnel.sessions.len() <= usize::MAX,
        i < j < tunnel.sessions.len(),
    ensures
        after_opens(tunnel, i).sessions == tunnel.sessions,
        after_opens(tunnel, j).sessions == tunnel.sessions,
        after_opens(tunnel, i).turn as int % tunnel.sessions.len() as int != after_opens(
            tunnel,
            j,
        ).turn as int % tunnel.sessions.len() as int,
{
    lemma_turn(tunnel, i);
    lemma_turn(tunnel, j);
    let n = tunnel.sessions.len() as int;
    let a = tunnel.turn + i;
    let d = j - i;
    assert((a + d) % n != a % n) by (nonlinear_arith)
        requires
            0 <= a,
            0 < d < n,
    {
        let q = a / n;
        let r = a % n;
        assert(a == n * q + r && 0 <= r < n);
        if r + d < n {
            assert((a + d) == n * q + (r + d));
            assert((a + d) % n == r + d);
        } else {
            assert((a + d) == n * (q + 1) + (r + d - n));
            assert((a + d) % n == r + d - n);
        }
    }
}

proof fn lemma_turn<O, T>(tunnel: TunnelState<O, T>, n: nat)
    requires
        tunnel.turn + n <= usize::MAX,
    ensures
        after_opens(tunnel, n) == (TunnelState { turn: (tunnel.turn + n) as usize, ..tunnel }),
    decreases n,
{
    if n > 0 {
        lemma_turn(tunnel, (n - 1) as nat);
    }
}

/// The tunnel after one transport for each time, all of them short.
pub open spec fn after_short_transports<O, T>(
    tunnel: TunnelState<O, T>,
    times: Seq<u128>,
) -> TunnelState<O, T>
    decreases times.len(),
{
    if times.len() == 0 {
        tunnel
    } else {
        after_short_transports(tunnel, times.drop_last()).after_outcome(0, 0, times.last())
    }
}

/// Four short transports in a row, after one that was not short, turn the server away from
/// dedicated transports for two seconds; fewer do not.
pub proof fn law_short_transports_are_backed_off_from<O, T>(
    tunnel: TunnelState<O, T>,
    times: Seq<u128>,
    now: u128,
)
    requires
        tunnel.streak == 0,
        tunnel.backoff_until is None,
        0 < times.len() <= SHORT_TRANSPORT_STREAK_LIMIT,
        times.last() + SHORT_TRANSPORT_BACKOFF <= u128::MAX,
    ensures
        after_short_transports(tunnel, times).backs_off(now) <==> times.len()
            == SHORT_TRANSPORT_STREAK_LIMIT && now < times.last() + SHORT_TRANSPORT_BACKOFF,
{
    reveal_with_fuel(after_short_transports, 5);
}

/// How short a transport was makes no difference, only that it was short.
pub proof fn law_short_transports_are_alike<O, T>(
    tunnel: TunnelState<O, T>,
    duration: u128,
    bytes: u64,
    now: u128,
)
    requires
        is_short(duration, bytes),
    ensures
        tunnel.after_outcome(duration, bytes, now) == tunnel.after_outcome(0, 0, now),
{
}

/// A transport that was not short ends a backoff.
pub proof fn law_long_transport_ends_backoff<O, T>(
    tunnel: TunnelState<O, T>,
    duration: u128,
    bytes: u64,
    earlier: u128,
    now: u128,
)
    requires
        !is_short(duration, bytes),
    ensures
        !tunnel.after_outcome(duration, bytes, earlier).backs_off(now),
        tunnel.after_outcome(duration, bytes, earlier).streak == 0,
{
}

/// After shutdown nothing can be registered, and no tunnel is left.
pub proof fn law_shutdown_is_final<O, T>(
    server: ServerState<O, T>,
    name: Seq<char>,
    owner: Seq<char>,
)
    ensures
        server.after_shutdown().register_error(name, owner) == Some(RegisterError::ServerShutdown),
        server.after_shutdown().transport_error(name, owner) == Some(
            RegisterTransportError::ServerShutdown,
        ),
        !server.after_shutdown().has(name),
{
}

/// Whether two states of a server agree on every tunnel but one.
pub open spec fn agree_elsewhere<O, T>(
    before: ServerState<O, T>,
    after: ServerState<O, T>,
    name: Seq<char>,
) -> bool {
    forall|other: Seq<char>|
        #![trigger after.tunnels.contains_key(other)]
        #![trigger after.tunnels[other]]
        other != name ==> {
            &&& before.tunnels.contains_key(other) == after.tunnels.contains_key(other)
            &&& before.tunnels.contains_key(other) ==> before.tunnels[other] == after.tunnels[other]
        }
}

/// A session is registered exactly where the server runs and the tunnel is either new, or has the
/// same owner and fewer than eight sessions. It then comes last among the tunnel's sessions, under
/// the number that is returned, and nothing else changes. A new tunnel belongs to the owner and has
/// no transports.
pub proof fn law_register_adds_a_session<O, T>(
    server: &mut TunnelServer<O, T>,
    id: &TunnelId,
    owner: &str,
    opener: O,
    result: Result<u64, RegisterError>,
)
    requires
        old(server).wf(),
        call_ensures(TunnelServer::<O, T>::register, (server, id, owner, opener), result),
    ensures
        ({
            let before = old(server)@;
            let after = final(server)@;
            let known = before.tunnels.contains_key(id@);
            let was = before.tunnels[id@];
            let now_is = after.tunnels[id@];
            &&& result is Ok <==> !before.shutdown && (known ==> was.owner == owner@
                && was.sessions.len() < 8)
            &&& result == Err::<u64, RegisterError>(RegisterError::ServerShutdown)
                <==> before.shutdown
            &&& result is Err && !before.shutdown ==> result == Err::<u64, RegisterError>(
                RegisterError::AlreadyRegistered,
            )
            &&& result is Err ==> after == before
            &&& agree_elsewhere(before, after, id@)
            &&& after.shutdown == before.shutdown
            &&& result matches Ok(number) ==> {
                &&& after.tunnels.contains_key(id@)
                &&& now_is.owner == owner@
                &&& known ==> now_is.sessions == was.sessions.push(
                    RegisteredSession { session_id: number, opener },
                )
                &&& !known ==> now_is.sessions == seq![RegisteredSession { session_id: number, opener }]
                &&& known ==> now_is.transports == was.transports && now_is.pool_active == was.pool_active
                    && now_is.streak == was.streak && now_is.backoff_until == was.backoff_until && now_is.turn
                    == was.turn && now_is.generation == was.generation
                &&& !known ==> now_is.transports.len() == 0 && !now_is.pool_active && now_is.streak == 0
                    && now_is.backoff_until is None && now_is.turn == 0
                &&& !known ==> now_is.generation == number
                &&& number == before.next_session_id
                &&& number < u64::MAX ==> after.next_session_id == number + 1
                &&& number == u64::MAX ==> after.next_session_id == 0
            }
        }),
{
    let before = old(server)@;
    if result is Ok && !before.has(id@) {
        let session = RegisteredSession { session_id: result->Ok_0, opener };
        assert(final(server)@.tunnels[id@].sessions =~= seq![session]);
    }
}

/// A registered tunnel has one to eight sessions, at most sixty-four transports wait, and they are
/// all of its own registration.
pub proof fn law_sessions_are_bounded<O, T>(tunnel: TunnelState<O, T>)
    requires
        tunnel.wf(),
    ensures
        1 <= tunnel.sessions.len() <= 8,
        tunnel.transports.len() <= 64,
        forall|i: int|
            0 <= i < tunnel.transports.len() ==> (#[trigger] tunnel.transports[i]).birth()
                == tunnel.generation,
{
}

/// A transport is registered exactly where the server runs, the tunnel is registered for that
/// owner, and fewer than sixty-four transports wait. It then waits last, and nothing else changes
/// but that the tunnel has a pool.
pub proof fn law_transport_waits_last<O, T>(
    server: &mut TunnelServer<O, T>,
    id: &TunnelId,
    owner: &str,
    connection: T,
    result: Result<(), RegisterTransportError>,
)
    requires
        old(server).wf(),
        call_ensures(
            TunnelServer::<O, T>::register_transport,
            (server, id, owner, connection),
            result,
        ),
    ensures
        ({
            let before = old(server)@;
            let after = final(server)@;
            let known = before.tunnels.contains_key(id@);
            let was = before.tunnels[id@];
            let now_is = after.tunnels[id@];
            &&& result is Ok <==> !before.shutdown && known && was.owner == owner@
                && was.transports.len() < 64
            &&& before.shutdown ==> result == Err::<(), RegisterTransportError>(
                RegisterTransportError::ServerShutdown,
            )
            &&& !before.shutdown && !known ==> result == Err::<(), RegisterTransportError>(
                RegisterTransportError::TunnelNotRegistered,
            )
            &&& !before.shutdown && known && was.owner != owner@ ==> result == Err::<
                (),
                RegisterTransportError,
            >(RegisterTransportError::OwnerMismatch)
            &&& !before.shutdown && known && was.owner == owner@ && was.transports.len() >= 64
                ==> result == Err::<(), RegisterTransportError>(RegisterTransportError::PoolFull)
            &&& result is Err ==> after == before
            &&& agree_elsewhere(before, after, id@)
            &&& after.shutdown == before.shutdown
            &&& result is Ok ==> {
                &&& after.tunnels.contains_key(id@)
                &&& now_is.transports.len() == was.transports.len() + 1
                &&& now_is.transports.drop_last() == was.transports
                &&& now_is.transports.last().connection() == connection
                &&& now_is.transports.last().birth() == was.generation
                &&& now_is.pool_active
                &&& now_is.owner == was.owner && now_is.sessions == was.sessions && now_is.streak == was.streak
                    && now_is.backoff_until == was.backoff_until && now_is.turn == was.turn && now_is.generation
                    == was.generation
            }
        }),
{
    if result is Ok {
        let was = old(server)@.tunnels[id@];
        assert(final(server)@.tunnels[id@].transports.drop_last() =~= was.transports);
    }
}

/// The transport that has waited longest is handed out, if any waits, and leaves the pool. Nothing
/// else changes.
pub proof fn law_oldest_transport_is_taken<O, T>(
    server: &mut TunnelServer<O, T>,
    id: &TunnelId,
    result: Option<Transport<T>>,
)
    requires
        old(server).wf(),
        call_ensures(TunnelServer::<O, T>::take_transport, (server, id), result),
    ensures
        ({
            let before = old(server)@;
            let after = final(server)@;
            let was = before.tunnels[id@];
            let now_is = after.tunnels[id@];
            &&& result is Some <==> before.tunnels.contains_key(id@) && was.transports.len() > 0
            &&& result matches Some(transport) ==> was.transports == seq![transport]
                + now_is.transports
            &&& result is None ==> after.tunnels == before.tunnels
            &&& agree_elsewhere(before, after, id@)
            &&& after.tunnels.contains_key(id@) == before.tunnels.contains_key(id@)
            &&& before.tunnels.contains_key(id@) ==> now_is.owner == was.owner && now_is.sessions
                == was.sessions && now_is.pool_active == was.pool_active && now_is.streak == was.streak
                && now_is.backoff_until == was.backoff_until && now_is.turn == was.turn && now_is.generation
                == was.generation
        }),
{
    let was = old(server)@.tunnels[id@];
    if result is Some {
        assert(was.transports =~= seq![was.transports[0]] + was.transports.skip(1));
    } else {
        assert(final(server)@.tunnels =~= old(server)@.tunnels);
    }
}

/// A transport that was taken from a pool of any size can be put back, and then waits last: after
/// as many more takes as others wait, it comes out again.
pub proof fn law_taken_transport_can_be_put_back<O, T>(
    taking: &mut TunnelServer<O, T>,
    returning: &mut TunnelServer<O, T>,
    id: &TunnelId,
    transport: Transport<T>,
    returned: bool,
)
    requires
        old(taking).wf(),
        call_ensures(TunnelServer::<O, T>::take_transport, (taking, id), Some(transport)),
        *old(returning) == *final(taking),
        call_ensures(
            TunnelServer::<O, T>::recycle_transport,
            (returning, id, transport),
            returned,
        ),
    ensures
        returned,
        seq![transport] + final(returning)@.tunnels[id@].transports == old(
            taking,
        )@.tunnels[id@].transports + seq![transport],
{
    let pool = old(taking)@.tunnels[id@].transports;
    assert(old(taking)@.tunnels[id@].wf());
    assert(pool[0].birth() == old(taking)@.tunnels[id@].generation);
    assert(seq![pool[0]] + pool.skip(1).push(pool[0]) =~= pool + seq![pool[0]]);
}

/// A used transport is taken back exactly where the tunnel is registered as it was when the
/// transport was, and fewer than sixty-four wait. It then waits last. Otherwise nothing changes.
pub proof fn law_used_transport_waits_last<O, T>(
    server: &mut TunnelServer<O, T>,
    id: &TunnelId,
    transport: Transport<T>,
    result: bool,
)
    requires
        old(server).wf(),
        call_ensures(TunnelServer::<O, T>::recycle_transport, (server, id, transport), result),
    ensures
        ({
            let before = old(server)@;
            let after = final(server)@;
            let was = before.tunnels[id@];
            let now_is = after.tunnels[id@];
            &&& result <==> before.tunnels.contains_key(id@) && was.generation == transport.birth()
                && was.transports.len() < 64
            &&& !result ==> after == before
            &&& agree_elsewhere(before, after, id@)
            &&& result ==> now_is.transports == was.transports + seq![transport] && now_is.sessions
                == was.sessions && now_is.owner == was.owner && now_is.generation == was.generation
                && now_is.backoff_until == was.backoff_until && now_is.streak == was.streak
        }),
{
    if result {
        let was = old(server)@.tunnels[id@];
        assert(was.transports.push(transport) =~= was.transports + seq![transport]);
    }
}

/// A wait for a transport is over without one where the tunnel is not registered at its start, or
/// when its time is up. Otherwise it is over as soon as a transport waits, which is then the one
/// that has waited longest.
pub proof fn law_wait_ends_with_the_oldest_transport<O, T>(
    server: &mut TunnelServer<O, T>,
    id: &TunnelId,
    event: WaitEvent,
    result: TransportWait<T>,
)
    requires
        old(server).wf(),
        call_ensures(TunnelServer::<O, T>::take_transport_wait, (server, id, event), result),
    ensures
        ({
            let before = old(server)@;
            let after = final(server)@;
            let known = before.tunnels.contains_key(id@);
            let waiting = if known {
                before.tunnels[id@].transports
            } else {
                Seq::empty()
            };
            &&& event == WaitEvent::DeadlineReached ==> result is Expired
            &&& event == WaitEvent::Started && !known ==> result is Expired
            &&& event != WaitEvent::DeadlineReached && waiting.len() > 0 ==> {
                &&& result matches TransportWait::Taken(transport)
                &&& waiting == seq![transport] + after.tunnels[id@].transports
            }
            &&& event == WaitEvent::Notified && waiting.len() == 0 ==> result is Waiting
            &&& event == WaitEvent::Started && known && waiting.len() == 0 ==> result is Waiting
            &&& !(result is Taken) ==> after == before
        }),
{
    if old(server)@.has(id@) {
        let waiting = old(server)@.tunnels[id@].transports;
        if waiting.len() > 0 {
            assert(waiting =~= seq![waiting[0]] + waiting.skip(1));
        }
    }
}

/// Dedicated transports are preferred exactly where the tunnel has a pool and is not backing off.
/// Asking changes no later answer.
pub proof fn law_pool_is_preferred_unless_backing_off<O, T>(
    server: &mut TunnelServer<O, T>,
    id: &TunnelId,
    now: u128,
    later: u128,
    result: bool,
)
    requires
        old(server).wf(),
        now <= later,
        call_ensures(TunnelServer::<O, T>::transport_pool_preferred, (server, id, now), result),
    ensures
        ({
            let before = old(server)@;
            let after = final(server)@;
            let was = before.tunnels[id@];
            &&& result <==> before.tunnels.contains_key(id@) && was.pool_active && (
            was.backoff_until matches Some(until) ==> until <= now)
            &&& after.prefers_transports(id@, later) == before.prefers_transports(id@, later)
            &&& agree_elsewhere(before, after, id@)
            &&& before.tunnels.contains_key(id@) ==> {
                let now_is = after.tunnels[id@];
                now_is.transports == was.transports && now_is.sessions == was.sessions && now_is.streak
                    == was.streak && now_is.owner == was.owner && now_is.pool_active == was.pool_active
            }
        }),
{
}

/// A transport counts as short where it lasted at most a tenth of a second and carried at most
/// 65536 bytes. Three short ones in a row change nothing but the count; the fourth makes the tunnel
/// back off for two seconds and starts the count again; one that is not short ends both.
pub proof fn law_fourth_short_transport_backs_off<O, T>(
    server: &mut TunnelServer<O, T>,
    id: &TunnelId,
    duration: u128,
    bytes: u64,
    now: u128,
)
    requires
        old(server).wf(),
        old(server)@.tunnels.contains_key(id@),
        call_ensures(
            TunnelServer::<O, T>::report_transport_outcome,
            (server, id, duration, bytes, now),
            (),
        ),
        now + 2_000_000_000 <= u128::MAX,
    ensures
        ({
            let was = old(server)@.tunnels[id@];
            let now_is = final(server)@.tunnels[id@];
            let short = duration <= 100_000_000 && bytes <= 65536;
            &&& !short ==> now_is.streak == 0 && now_is.backoff_until is None
            &&& short && was.streak < 3 ==> now_is.streak == was.streak + 1 && now_is.backoff_until
                == was.backoff_until
            &&& short && was.streak == 3 ==> now_is.streak == 0 && now_is.backoff_until == Some(
                (now + 2_000_000_000) as u128,
            )
            &&& was.streak <= 3
            &&& now_is.transports == was.transports && now_is.sessions == was.sessions && now_is.pool_active
                == was.pool_active && now_is.owner == was.owner
            &&& agree_elsewhere(old(server)@, final(server)@, id@)
        }),
{
}

/// A stream is opened in a session of the tunnel, and the next one in the session after it, the
/// first following the last. A tunnel that is not registered has none, a tag that is too long is
/// refused, and after shutdown the session counts as closed.
pub proof fn law_streams_go_round_the_sessions<O, T>(
    first: &mut TunnelServer<O, T>,
    second: &mut TunnelServer<O, T>,
    id: &TunnelId,
    tag: &str,
    at: int,
    opener: &O,
    next_opener: &O,
)
    requires
        old(first).wf(),
        *old(second) == *final(first),
        call_ensures(
            TunnelServer::<O, T>::open,
            (first, id, tag),
            Ok::<Option<&O>, SessionError>(Some(opener)),
        ),
        call_ensures(
            TunnelServer::<O, T>::open,
            (second, id, tag),
            Ok::<Option<&O>, SessionError>(Some(next_opener)),
        ),
        0 <= at < old(first)@.tunnels[id@].sessions.len(),
        old(first)@.tunnels[id@].turn < usize::MAX,
        old(first)@.tunnels[id@].turn as int % old(first)@.tunnels[id@].sessions.len() as int == at,
    ensures
        ({
            let sessions = old(first)@.tunnels[id@].sessions;
            &&& *opener == sessions[at].opener
            &&& *next_opener == sessions[if at + 1 == sessions.len() {
                0
            } else {
                at + 1
            }].opener
            &&& final(second)@.tunnels[id@].sessions == sessions
        }),
{
    let n = old(first)@.tunnels[id@].sessions.len() as int;
    let t = old(first)@.tunnels[id@].turn as int;
    let q = t / n;
    lemma_fundamental_div_mod(t, n);
    if at + 1 == n {
        lemma_mul_is_distributive_add(n, q, 1);
        lemma_mul_is_commutative(n, q + 1);
        lemma_fundamental_div_mod_converse(t + 1, n, q + 1, 0);
    } else {
        lemma_mul_is_commutative(n, q);
        lemma_fundamental_div_mod_converse(t + 1, n, q, at + 1);
    }
}

/// A transport that was supplied for an earlier registration of a tunnel is given up: only one of
/// the registration that holds now is taken back.
pub proof fn law_earlier_transports_are_given_up<O, T>(
    registering: &mut TunnelServer<O, T>,
    id: &TunnelId,
    owner: &str,
    opener: O,
    number: u64,
    recycling: &mut TunnelServer<O, T>,
    transport: Transport<T>,
    back: bool,
)
    requires
        old(registering).wf(),
        !old(registering)@.tunnels.contains_key(id@),
        call_ensures(
            TunnelServer::<O, T>::register,
            (registering, id, owner, opener),
            Ok::<u64, RegisterError>(number),
        ),
        *old(recycling) == *final(registering),
        call_ensures(
            TunnelServer::<O, T>::recycle_transport,
            (recycling, id, transport),
            back,
        ),
    ensures
        back <==> transport.birth() == number,
        old(registering)@.registrations <= u64::MAX ==> number == old(registering)@.registrations,
{
}

/// When a stream can be opened: the server runs, the tunnel is registered, and the tag fits. One
/// that is asked for takes its turn, whether or not its tag fits, and changes nothing else.
pub proof fn law_streams_are_opened_for_registered_tunnels<O, T>(
    server: &mut TunnelServer<O, T>,
    id: &TunnelId,
    tag: &str,
    result: Result<Option<&O>, SessionError>,
)
    requires
        old(server).wf(),
        call_ensures(TunnelServer::<O, T>::open, (server, id, tag), result),
    ensures
        ({
            let before = old(server)@;
            let known = before.tunnels.contains_key(id@);
            let length = encode_utf8(tag@).len();
            &&& before.shutdown ==> result == Err::<Option<&O>, SessionError>(
                SessionError::Multiplexer(MultiplexerError::SessionClosed),
            )
            &&& !before.shutdown && !known ==> result == Ok::<Option<&O>, SessionError>(None)
            &&& !before.shutdown && known && length <= 65535 ==> (result matches Ok(Some(
                _,
            )))
            &&& !before.shutdown && known && length > 65535 ==> result == Err::<
                Option<&O>,
                SessionError,
            >(SessionError::TagTooLong(length as usize))
            &&& agree_elsewhere(before, final(server)@, id@)
        }),
        old(server)@.tunnels.contains_key(id@) ==> {
            let before = old(server)@.tunnels[id@];
            let after = final(server)@.tunnels[id@];
            &&& final(server)@.tunnels.contains_key(id@)
            &&& before.turn < usize::MAX ==> after.turn == before.turn + 1
            &&& before.turn == usize::MAX ==> after.turn == 0
            &&& after.sessions == before.sessions
            &&& after.transports == before.transports
            &&& after.owner == before.owner
            &&& after.generation == before.generation
            &&& after.streak == before.streak
            &&& after.backoff_until == before.backoff_until
        },
{
}

/// A session that ends goes from its tunnel, all others stay in order, and the tunnel goes with the
/// last. Other tunnels, and a tunnel without such a session, stay as they are.
pub proof fn law_unregister_takes_one_session<O, T>(
    server: &mut TunnelServer<O, T>,
    id: &TunnelId,
    session_id: u64,
    before: Seq<RegisteredSession<O>>,
    session: RegisteredSession<O>,
    after: Seq<RegisteredSession<O>>,
)
    requires
        old(server).wf(),
        old(server)@.tunnels.contains_key(id@),
        session.session_id == session_id,
        forall|i: int|
            0 <= i < before.len() ==> (#[trigger] before[i]).session_id != session_id,
        forall|i: int| 0 <= i < after.len() ==> (#[trigger] after[i]).session_id != session_id,
        call_ensures(TunnelServer::<O, T>::unregister, (server, id, session_id), ()),
    ensures
        agree_elsewhere(old(server)@, final(server)@, id@),
        old(server)@.tunnels[id@].sessions == before + seq![session] + after ==> {
            &&& final(server)@.tunnels.contains_key(id@) <==> before.len() + after.len() > 0
            &&& before.len() + after.len() > 0 ==> final(server)@.tunnels[id@] == (TunnelState {
                sessions: before + after,
                ..old(server)@.tunnels[id@]
            })
        },
        old(server)@.tunnels[id@].sessions == before ==> final(server)@.tunnels.contains_key(id@)
            && final(server)@.tunnels[id@] == old(server)@.tunnels[id@],
{
    let keep = |session: RegisteredSession<O>| session.session_id != session_id;
    let was = old(server)@.tunnels[id@];
    Seq::filter_distributes_over_add(before + seq![session], after, keep);
    Seq::filter_distributes_over_add(before, seq![session], keep);
    lemma_filter_all(before, keep);
    lemma_filter_all(after, keep);
    assert(seq![session].filter(keep).len() == 0) by {
        reveal(Seq::filter);
        assert(seq![session].drop_last().filter(keep).len() == 0);
        assert(seq![session].last() == session);
    }
    assert(before + seq![session].filter(keep) + after =~= before + after);
}

/// Shutdown ends every tunnel, and leaves nothing that could be registered or opened.
pub proof fn law_shutdown_ends_everything<O, T>(server: &mut TunnelServer<O, T>)
    requires
        old(server).wf(),
        call_ensures(TunnelServer::<O, T>::shutdown, (server,), ()),
    ensures
        final(server)@.shutdown,
        forall|name: Seq<char>| !#[trigger] final(server)@.tunnels.contains_key(name),
        final(server)@.next_session_id == old(server)@.next_session_id,
        final(server)@.registrations == old(server)@.registrations,
{
}

/// A registration that is completed stays; one whose session failed to start, or that shutdown has
/// overtaken, is taken back, and says why.
pub proof fn law_failed_registration_is_taken_back<O, T>(
    registering: &mut TunnelServer<O, T>,
    completing: &mut TunnelServer<O, T>,
    id: &TunnelId,
    owner: &str,
    opener: O,
    session_id: u64,
    started: Result<(), SessionError>,
    result: Result<(), RegisterError>,
)
    requires
        old(registering).wf(),
        old(registering)@.registrations <= u64::MAX,
        call_ensures(
            TunnelServer::<O, T>::register,
            (registering, id, owner, opener),
            Ok::<u64, RegisterError>(session_id),
        ),
        *old(completing) == *final(registering),
        call_ensures(
            TunnelServer::<O, T>::complete_registration,
            (completing, id, session_id, started),
            result,
        ),
    ensures
        result == match started {
            Ok(_) => Ok::<(), RegisterError>(()),
            Err(error) => Err(RegisterError::Connection(error)),
        },
        started is Ok ==> final(completing)@ == final(registering)@,
        started is Err ==> final(completing)@.tunnels == old(registering)@.tunnels,
{
    if started is Err {
        law_unregister_undoes_register(old(registering)@, id@, owner@, opener);
    }
}

/// A registration that shutdown has overtaken fails; where its session failed to start, that is
/// what it fails with, as without shutdown.
pub proof fn law_shutdown_overtakes_registrations<O, T>(
    server: &mut TunnelServer<O, T>,
    id: &TunnelId,
    session_id: u64,
    started: Result<(), SessionError>,
    result: Result<(), RegisterError>,
)
    requires
        old(server).wf(),
        old(server)@.shutdown,
        call_ensures(
            TunnelServer::<O, T>::complete_registration,
            (server, id, session_id, started),
            result,
        ),
    ensures
        started is Ok ==> result == Err::<(), RegisterError>(RegisterError::ServerShutdown),
        started matches Err(error) ==> result == Err::<(), RegisterError>(
            RegisterError::Connection(error),
        ),
        final(server)@.tunnels == old(server)@.tunnels,
{
}

/// A session is served until nobody can ask for streams, until the multiplexer says that the
/// session is over, or until shutdown. A stream that cannot be opened for another reason does not
/// end it, and any other error in accepting ends it with that error.
pub proof fn law_sessions_are_served_until_they_end<O, T>(
    server: &TunnelServer<O, T>,
    event: ServeEvent,
    result: ServeAction,
)
    requires
        call_ensures(TunnelServer::<O, T>::serve, (server, event), result),
    ensures
        match event {
            ServeEvent::OpenRequested => result == ServeAction::Open,
            ServeEvent::RequestsClosed => result == ServeAction::Stop,
            ServeEvent::Opened(Ok(_)) => result == ServeAction::Continue,
            ServeEvent::Opened(Err(SessionError::Multiplexer(error))) => {
                let over = error is SessionClosed || error is RemoteGoneAway || error is PeerEof;
                &&& over ==> result == ServeAction::Stop
                &&& !over ==> result == ServeAction::Continue
            },
            ServeEvent::Opened(Err(_)) => result == ServeAction::Continue,
            ServeEvent::Inbound(Ok(_)) => result == ServeAction::Accept,
            ServeEvent::Inbound(Err(error)) => {
                let over = error is SessionClosed || error is PeerEof;
                &&& over ==> result == ServeAction::Stop
                &&& !over ==> result == ServeAction::Fail(SessionError::Multiplexer(error))
            },
            ServeEvent::ShutdownChanged { lost } => {
                &&& lost || server@.shutdown ==> result == ServeAction::Stop
                &&& !lost && !server@.shutdown ==> result == ServeAction::Continue
            },
        },
{
}

/// A wait for a node's stream is over with whatever comes, and without anything to come, or with
/// shutdown, as a closed session. The wait for shutdown is over with shutdown.
pub proof fn law_waits_end_with_shutdown<O, T, S>(
    server: &TunnelServer<O, T>,
    event: AcceptEvent<S>,
    lost: bool,
    result: Option<Result<S, SessionError>>,
    over: bool,
    down: bool,
)
    requires
        call_ensures(TunnelServer::<O, T>::accept::<S>, (server, event), result),
        call_ensures(TunnelServer::<O, T>::wait_for_shutdown, (server, lost), over),
        call_ensures(TunnelServer::<O, T>::is_shutdown, (server,), down),
    ensures
        down == server@.shutdown,
        over == (lost || server@.shutdown),
        ({
            let closed = Some(
                Err::<S, SessionError>(SessionError::Multiplexer(MultiplexerError::SessionClosed)),
            );
            match event {
                AcceptEvent::Incoming(Some(incoming)) => result == Some(incoming),
                AcceptEvent::Incoming(None) => result == closed,
                AcceptEvent::Started => {
                    &&& server@.shutdown ==> result == closed
                    &&& !server@.shutdown ==> result is None
                },
                AcceptEvent::ShutdownChanged { lost } => {
                    &&& server@.shutdown || lost ==> result == closed
                    &&& !server@.shutdown && !lost ==> result is None
                },
            }
        }),
{
}

/// The words that an error is reported with tell which error it is.
pub proof fn law_words_tell_transport_refusals_apart(error: RegisterTransportError, text: &str)
    requires
        call_ensures(RegisterTransportError::message, (error,), text),
    ensures
        error is TunnelNotRegistered <==> text@ == "tunnel is not registered"@,
        error is OwnerMismatch <==> text@ == "transport owner does not own the tunnel"@,
        error is PoolFull <==> text@ == "tunnel transport pool is full"@,
        error is ServerShutdown <==> text@ == "tunnel server is shut down"@,
{
    reveal_strlit("tunnel is not registered");
    reveal_strlit("transport owner does not own the tunnel");
    reveal_strlit("tunnel transport pool is full");
    reveal_strlit("tunnel server is shut down");
    assert("tunnel is not registered"@.len() == 24);
    assert("transport owner does not own the tunnel"@.len() == 39);
    assert("tunnel transport pool is full"@.len() == 29);
    assert("tunnel server is shut down"@.len() == 26);
}

} // verus!
