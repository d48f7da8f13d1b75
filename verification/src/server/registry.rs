//! Tracks registered nodes and pairs the connections that the server asks for with them.

use vstd::prelude::*;
use vstd::string::*;

use crate::external::{is_alphanumeric, random_alphanumeric, random_u64};
use crate::protocol::TunnelId;
use crate::table::Table;
use crate::text::same_text;

verus! {

/// For how long, in nanoseconds, a node may take to establish a data connection.
pub const DATA_CONNECTION_TIMEOUT: u128 = 10_000_000_000;

/// The length of the number that a connection request is known by.
pub const CONNECTION_ID_LENGTH: usize = 24;

/// What a node is told when its tunnel is ready.
pub enum PublicUrl<F> {
    /// The name of the tunnel.
    Name,
    /// What this function gives for the tunnel.
    Custom(F),
}

/// Whether a node of a tunnel can be told this when the tunnel is ready.
pub open spec fn is_ready_value<F: Fn(&TunnelId) -> String>(
    rule: PublicUrl<F>,
    tunnel_id: &TunnelId,
    value: String,
) -> bool {
    match rule {
        PublicUrl::Name => value@ == tunnel_id@,
        PublicUrl::Custom(public_url) => call_ensures(public_url, (tunnel_id,), value),
    }
}

/// Whether a function gives a value for every tunnel.
pub open spec fn is_total<F: Fn(&TunnelId) -> String>(public_url: F) -> bool {
    forall|tunnel_id: &TunnelId| #[trigger] call_requires(public_url, (tunnel_id,))
}

struct Tunnel<S> {
    session_id: u64,
    owner: String,
    sender: S,
}

struct PendingConnection<D> {
    owner: String,
    sender: D,
}

/// A registered node.
pub ghost struct Node<S> {
    pub session_id: u64,
    pub owner: Seq<char>,
    /// Where connection requests go.
    pub sender: S,
}

/// A data connection that a node was asked for.
pub ghost struct Pending<D> {
    /// Who was asked for it.
    pub owner: Seq<char>,
    /// Where the connection goes.
    pub sender: D,
}

/// What a registry holds.
pub ghost struct RegistryState<S, D> {
    pub shutdown: bool,
    /// The registered nodes, by tunnel name.
    pub tunnels: Map<Seq<char>, Node<S>>,
    /// The connections that were asked for, by request.
    pub pending: Map<Seq<char>, Pending<D>>,
}

impl<S, D> RegistryState<S, D> {
    pub open spec fn new() -> Self {
        RegistryState { shutdown: false, tunnels: Map::empty(), pending: Map::empty() }
    }

    /// Whether a node can register a tunnel.
    pub open spec fn is_free(self, tunnel_id: Seq<char>) -> bool {
        !self.shutdown && !self.tunnels.contains_key(tunnel_id)
    }

    pub open spec fn after_register(
        self,
        tunnel_id: Seq<char>,
        owner: Seq<char>,
        session_id: u64,
        sender: S,
    ) -> Self {
        RegistryState {
            tunnels: self.tunnels.insert(tunnel_id, Node { session_id, owner, sender }),
            ..self
        }
    }

    pub open spec fn after_unregister(self, tunnel_id: Seq<char>, session_id: u64) -> Self {
        if self.tunnels.contains_key(tunnel_id) && self.tunnels[tunnel_id].session_id
            == session_id {
            RegistryState { tunnels: self.tunnels.remove(tunnel_id), ..self }
        } else {
            self
        }
    }

    pub open spec fn after_request(
        self,
        tunnel_id: Seq<char>,
        connection_id: Seq<char>,
        sender: D,
    ) -> Self {
        RegistryState {
            pending: self.pending.insert(
                connection_id,
                Pending { owner: self.tunnels[tunnel_id].owner, sender },
            ),
            ..self
        }
    }

    /// Whether a connection was asked for, from this owner.
    pub open spec fn awaits(self, connection_id: Seq<char>, owner: Seq<char>) -> bool {
        self.pending.contains_key(connection_id) && self.pending[connection_id].owner == owner
    }

    pub open spec fn after_cancel(self, connection_id: Seq<char>) -> Self {
        RegistryState { pending: self.pending.remove(connection_id), ..self }
    }

    pub open spec fn after_shutdown(self) -> Self {
        RegistryState { shutdown: true, tunnels: Map::empty(), pending: Map::empty() }
    }
}

/// Tracks registered nodes and pairs the connections that the server asks for with them.
///
/// `S` carries connection requests to a node, `D` a data connection to whoever asked for it.
pub struct TunnelRegistry<S, D, F> {
    public_url: PublicUrl<F>,
    shutdown: bool,
    tunnels: Table<Tunnel<S>>,
    pending_connections: Table<PendingConnection<D>>,
}

spec fn nodes<S>(tunnels: Map<Seq<char>, Tunnel<S>>) -> Map<Seq<char>, Node<S>> {
    Map::new(
        |name: Seq<char>| tunnels.contains_key(name),
        |name: Seq<char>|
            Node {
                session_id: tunnels[name].session_id,
                owner: tunnels[name].owner@,
                sender: tunnels[name].sender,
            },
    )
}

spec fn requests<D>(pending: Map<Seq<char>, PendingConnection<D>>) -> Map<Seq<char>, Pending<D>> {
    Map::new(
        |id: Seq<char>| pending.contains_key(id),
        |id: Seq<char>| Pending { owner: pending[id].owner@, sender: pending[id].sender },
    )
}

impl<S, D, F> View for TunnelRegistry<S, D, F> {
    type V = RegistryState<S, D>;

    closed spec fn view(&self) -> RegistryState<S, D> {
        RegistryState {
            shutdown: self.shutdown,
            tunnels: nodes(self.tunnels@),
            pending: requests(self.pending_connections@),
        }
    }
}

/// Why a connection request led to no connection.
#[derive(Clone, Copy, Debug, PartialEq, Eq, Structural)]
pub enum ConnectError {
    Shutdown,
    ClientDisconnected,
    NotEstablished,
    TimedOut,
}

impl ConnectError {
    /// The words that the error is reported with.
    pub open spec fn text(self) -> Seq<char> {
        match self {
            ConnectError::Shutdown => "tunnel registry is shut down"@,
            ConnectError::ClientDisconnected => "tunnel client disconnected"@,
            ConnectError::NotEstablished => "tunnel data connection was not established"@,
            ConnectError::TimedOut => "timed out waiting for the tunnel data connection"@,
        }
    }

    /// The words that the error is reported with.
    pub fn message(self) -> (result: &'static str)
        ensures
            result@ == self.text(),
    {
        match self {
            ConnectError::Shutdown => "tunnel registry is shut down",
            ConnectError::ClientDisconnected => "tunnel client disconnected",
            ConnectError::NotEstablished => "tunnel data connection was not established",
            ConnectError::TimedOut => "timed out waiting for the tunnel data connection",
        }
    }
}

/// What became of a connection request.
pub enum RequestOutcome<C> {
    /// The request could not be sent.
    NotSent,
    /// The node established the connection.
    Connected(C),
    /// The request was given up.
    Abandoned,
    /// The node took too long.
    TimedOut,
}

impl<S, D, F: Fn(&TunnelId) -> String> TunnelRegistry<S, D, F> {
    /// Names are unique.
    pub closed spec fn sound(self) -> bool {
        self.tunnels.wf() && self.pending_connections.wf()
    }

    /// Names are unique, and there is something to tell every node.
    pub open spec fn wf(self) -> bool {
        &&& self.sound()
        &&& self.url_rule() matches PublicUrl::Custom(public_url) ==> is_total(public_url)
    }

    /// What nodes are told when their tunnels are ready.
    pub closed spec fn url_rule(self) -> PublicUrl<F> {
        self.public_url
    }

    /// Creates a registry whose ready value is the registered tunnel ID.
    pub fn new() -> (result: Self)
        ensures
            result.wf(),
            result.url_rule() == PublicUrl::<F>::Name,
            result@ == RegistryState::<S, D>::new(),
    {
        Self::with_rule(PublicUrl::Name)
    }

    /// Creates a registry with a custom ready value, such as a public tunnel URL.
    pub fn with_public_url(public_url: F) -> (result: Self)
        requires
            is_total(public_url),
        ensures
            result.wf(),
            result.url_rule() == PublicUrl::Custom(public_url),
            result@ == RegistryState::<S, D>::new(),
    {
        Self::with_rule(PublicUrl::Custom(public_url))
    }

    fn with_rule(public_url: PublicUrl<F>) -> (result: Self)
        requires
            public_url matches PublicUrl::Custom(public_url) ==> is_total(public_url),
        ensures
            result.wf(),
            result.url_rule() == public_url,
            result@ == RegistryState::<S, D>::new(),
    {
        let result = TunnelRegistry {
            public_url,
            shutdown: false,
            tunnels: Table::new(),
            pending_connections: Table::new(),
        };
        assert(result@.tunnels =~= Map::empty());
        assert(result@.pending =~= Map::empty());
        result
    }

    /// What the node of a tunnel is told when the tunnel is ready.
    pub fn ready_value(&self, tunnel_id: &TunnelId) -> (result: String)
        requires
            self.wf(),
        ensures
            is_ready_value(self.url_rule(), tunnel_id, result),
    {
        match &self.public_url {
            PublicUrl::Name => tunnel_id.to_string(),
            PublicUrl::Custom(public_url) => public_url(tunnel_id),
        }
    }

    /// Closes registered control sessions and cancels pending connection requests.
    pub fn shutdown(&mut self)
        requires
            old(self).wf(),
        ensures
            final(self).wf(),
            final(self).url_rule() == old(self).url_rule(),
            final(self)@ == old(self)@.after_shutdown(),
    {
        self.tunnels.clear();
        self.pending_connections.clear();
        self.shutdown = true;
        assert(self@.tunnels =~= Map::empty());
        assert(self@.pending =~= Map::empty());
    }

    /// Returns whether this registry has begun shutting down.
    pub fn is_shutdown(&self) -> (result: bool)
        ensures
            result == self@.shutdown,
    {
        self.shutdown
    }

    /// Registers a node under a random session number, which is returned. A tunnel that is
    /// registered already, or any after shutdown, is refused.
    pub fn register(&mut self, tunnel_id: &TunnelId, owner: &str, sender: S) -> (result: Option<
        u64,
    >)
        requires
            old(self).wf(),
        ensures
            final(self).wf(),
            final(self).url_rule() == old(self).url_rule(),
            result is Some <==> old(self)@.is_free(tunnel_id@),
            final(self)@ == match result {
                Some(session_id) => old(self)@.after_register(
                    tunnel_id@,
                    owner@,
                    session_id,
                    sender,
                ),
                None => old(self)@,
            },
    {
        if self.is_shutdown() {
            return None;
        }
        if self.tunnels.contains_key(tunnel_id.as_str()) {
            return None;
        }
        let session_id = random_u64();
        let ghost before = *self;
        self.tunnels.insert(
            tunnel_id.to_string(),
            Tunnel { session_id, owner: owner.to_owned(), sender },
        );
        assert(self@.tunnels =~= before@.after_register(
            tunnel_id@,
            owner@,
            session_id,
            sender,
        ).tunnels);
        Some(session_id)
    }

    /// Forgets a node, unless another session has taken its tunnel since.
    pub fn unregister(&mut self, tunnel_id: &TunnelId, session_id: u64)
        requires
            old(self).wf(),
        ensures
            final(self).wf(),
            final(self).url_rule() == old(self).url_rule(),
            final(self)@ == old(self)@.after_unregister(tunnel_id@, session_id),
    {
        let ghost before = *self;
        let current = match self.tunnels.get(tunnel_id.as_str()) {
            Some(tunnel) => tunnel.session_id == session_id,
            None => false,
        };
        if current {
            self.tunnels.remove(tunnel_id.as_str());
            assert(self@.tunnels =~= before@.tunnels.remove(tunnel_id@));
        }
    }

    /// Hands out where a requested connection goes, once, and only to the owner that was asked
    /// for it.
    pub fn attach(&mut self, connection_id: &str, owner: &str) -> (result: Option<D>)
        requires
            old(self).wf(),
        ensures
            final(self).wf(),
            final(self).url_rule() == old(self).url_rule(),
            if old(self)@.awaits(connection_id@, owner@) {
                &&& result == Some(old(self)@.pending[connection_id@].sender)
                &&& final(self)@ == old(self)@.after_cancel(connection_id@)
            } else {
                result == None::<D> && final(self)@ == old(self)@
            },
    {
        let ghost before = *self;
        let awaited = match self.pending_connections.get(connection_id) {
            Some(connection) => same_text(&connection.owner, owner),
            None => false,
        };
        if !awaited {
            return None;
        }
        match self.pending_connections.remove(connection_id) {
            Some(connection) => {
                assert(self@.pending =~= before@.pending.remove(connection_id@));
                Some(connection.sender)
            },
            None => None,
        }
    }

    /// Asks the node of a tunnel for a connection under a random request number, which is
    /// returned with where the request goes. Returns `Ok(None)` when the node is not currently
    /// registered.
    pub fn connect(&mut self, tunnel_id: &TunnelId, data_sender: D) -> (result: Result<
        Option<(String, &S)>,
        ConnectError,
    >)
        requires
            old(self).wf(),
        ensures
            final(self).wf(),
            final(self).url_rule() == old(self).url_rule(),
            match result {
                Err(error) => {
                    &&& old(self)@.shutdown
                    &&& error == ConnectError::Shutdown
                    &&& final(self)@ == old(self)@
                },
                Ok(None) => {
                    &&& !old(self)@.shutdown
                    &&& !old(self)@.tunnels.contains_key(tunnel_id@)
                    &&& final(self)@ == old(self)@
                },
                Ok(Some((id, sender))) => {
                    &&& !old(self)@.shutdown
                    &&& old(self)@.tunnels.contains_key(tunnel_id@)
                    &&& *sender == old(self)@.tunnels[tunnel_id@].sender
                    &&& id@.len() == CONNECTION_ID_LENGTH
                    &&& forall|i: int| 0 <= i < id@.len() ==> is_alphanumeric(#[trigger] id@[i])
                    &&& final(self)@ == old(self)@.after_request(tunnel_id@, id@, data_sender)
                },
            },
    {
        let connection_id = random_alphanumeric(CONNECTION_ID_LENGTH);
        let id = connection_id.clone();
        match self.request_connection(tunnel_id, connection_id, data_sender) {
            Err(error) => Err(error),
            Ok(None) => Ok(None),
            Ok(Some(sender)) => Ok(Some((id, sender))),
        }
    }

    /// Asks the node of a tunnel for a connection under the given request number, and returns
    /// where the request goes.
    pub fn request_connection(
        &mut self,
        tunnel_id: &TunnelId,
        connection_id: String,
        data_sender: D,
    ) -> (result: Result<Option<&S>, ConnectError>)
        requires
            old(self).wf(),
        ensures
            final(self).wf(),
            final(self).url_rule() == old(self).url_rule(),
            match result {
                Err(error) => {
                    &&& old(self)@.shutdown
                    &&& error == ConnectError::Shutdown
                    &&& final(self)@ == old(self)@
                },
                Ok(None) => {
                    &&& !old(self)@.shutdown
                    &&& !old(self)@.tunnels.contains_key(tunnel_id@)
                    &&& final(self)@ == old(self)@
                },
                Ok(Some(sender)) => {
                    &&& !old(self)@.shutdown
                    &&& old(self)@.tunnels.contains_key(tunnel_id@)
                    &&& *sender == old(self)@.tunnels[tunnel_id@].sender
                    &&& final(self)@ == old(self)@.after_request(
                        tunnel_id@,
                        connection_id@,
                        data_sender,
                    )
                },
            },
    {
        if self.shutdown {
            return Err(ConnectError::Shutdown);
        }
        let ghost before = *self;
        match self.tunnels.get(tunnel_id.as_str()) {
            None => Ok(None),
            Some(tunnel) => {
                let connection = PendingConnection {
                    owner: tunnel.owner.clone(),
                    sender: data_sender,
                };
                let ghost id = connection_id@;
                self.pending_connections.insert(connection_id, connection);
                assert(self@.pending =~= before@.after_request(
                    tunnel_id@,
                    id,
                    data_sender,
                ).pending);
                Ok(Some(&tunnel.sender))
            },
        }
    }

    /// Says what became of a connection request, which is pending no longer.
    pub fn complete_request<C>(&mut self, connection_id: &str, outcome: RequestOutcome<C>) -> (result:
        Result<C, ConnectError>)
        requires
            old(self).wf(),
        ensures
            final(self).wf(),
            final(self).url_rule() == old(self).url_rule(),
            final(self)@ == old(self)@.after_cancel(connection_id@),
            result == match outcome {
                RequestOutcome::Connected(connection) => Ok::<C, ConnectError>(connection),
                RequestOutcome::NotSent => Err(ConnectError::ClientDisconnected),
                RequestOutcome::Abandoned => Err(ConnectError::NotEstablished),
                RequestOutcome::TimedOut => Err(ConnectError::TimedOut),
            },
    {
        let ghost before = *self;
        self.pending_connections.remove(connection_id);
        assert(self@.pending =~= before@.pending.remove(connection_id@));
        match outcome {
            RequestOutcome::Connected(connection) => Ok(connection),
            RequestOutcome::NotSent => Err(ConnectError::ClientDisconnected),
            RequestOutcome::Abandoned => Err(ConnectError::NotEstablished),
            RequestOutcome::TimedOut => Err(ConnectError::TimedOut),
        }
    }
}

impl<S, D, F: Fn(&TunnelId) -> String> Default for TunnelRegistry<S, D, F> {
    fn default() -> (result: Self)
        ensures
            result.wf(),
            result.url_rule() == PublicUrl::<F>::Name,
            result@ == RegistryState::<S, D>::new(),
    {
        Self::new()
    }
}

/// A registered tunnel cannot be registered again, by anyone.
pub proof fn law_registered_tunnel_is_taken<S, D>(
    registry: RegistryState<S, D>,
    tunnel_id: Seq<char>,
    owner: Seq<char>,
    session_id: u64,
    sender: S,
)
    ensures
        !registry.after_register(tunnel_id, owner, session_id, sender).is_free(tunnel_id),
{
}

/// Unregistering a session frees its tunnel and leaves the registry as it was before.
pub proof fn law_unregister_undoes_registration<S, D>(
    registry: RegistryState<S, D>,
    tunnel_id: Seq<char>,
    owner: Seq<char>,
    session_id: u64,
    sender: S,
)
    requires
        registry.is_free(tunnel_id),
    ensures
        registry.after_register(tunnel_id, owner, session_id, sender).after_unregister(
            tunnel_id,
            session_id,
        ) == registry,
{
    let after = registry.after_register(tunnel_id, owner, session_id, sender);
    assert(after.after_unregister(tunnel_id, session_id).tunnels =~= registry.tunnels);
}

/// A session that ends late does not disturb the session that has taken its tunnel since.
pub proof fn law_stale_unregister_changes_nothing<S, D>(
    registry: RegistryState<S, D>,
    tunnel_id: Seq<char>,
    session_id: u64,
)
    requires
        registry.tunnels.contains_key(tunnel_id),
        registry.tunnels[tunnel_id].session_id != session_id,
    ensures
        registry.after_unregister(tunnel_id, session_id) == registry,
{
}

/// A requested connection goes to the owner of the tunnel and to nobody else, and only once.
pub proof fn law_connection_goes_to_its_owner_once<S, D>(
    registry: RegistryState<S, D>,
    tunnel_id: Seq<char>,
    connection_id: Seq<char>,
    sender: D,
    owner: Seq<char>,
)
    requires
        registry.tunnels.contains_key(tunnel_id),
    ensures
        ({
            let after = registry.after_request(tunnel_id, connection_id, sender);
            &&& after.awaits(connection_id, owner) <==> owner == registry.tunnels[tunnel_id].owner
            &&& !after.after_cancel(connection_id).awaits(connection_id, owner)
        }),
{
}

/// A request that is completed leaves the registry as it was before the request.
pub proof fn law_completed_request_leaves_no_trace<S, D>(
    registry: RegistryState<S, D>,
    tunnel_id: Seq<char>,
    connection_id: Seq<char>,
    sender: D,
)
    requires
        registry.tunnels.contains_key(tunnel_id),
        !registry.pending.contains_key(connection_id),
    ensures
        registry.after_request(tunnel_id, connection_id, sender).after_cancel(connection_id)
            == registry,
{
    let after = registry.after_request(tunnel_id, connection_id, sender);
    assert(after.after_cancel(connection_id).pending =~= registry.pending);
}

/// A tunnel is registered exactly where the registry runs and the tunnel is free, for this owner
/// and nobody else's tunnels or requests.
pub proof fn law_free_tunnels_are_registered<S, D, F: Fn(&TunnelId) -> String>(
    registry: &mut TunnelRegistry<S, D, F>,
    id: &TunnelId,
    owner: &str,
    sender: S,
    result: Option<u64>,
)
    requires
        old(registry).wf(),
        call_ensures(TunnelRegistry::<S, D, F>::register, (registry, id, owner, sender), result),
    ensures
        ({
            let before = old(registry)@;
            let after = final(registry)@;
            &&& result is Some <==> !before.shutdown && !before.tunnels.contains_key(id@)
            &&& result is None ==> after == before
            &&& after.pending == before.pending
            &&& after.shutdown == before.shutdown
            &&& result matches Some(session) ==> after.tunnels == before.tunnels.insert(
                id@,
                Node { session_id: session, owner: owner@, sender },
            )
        }),
{
}

/// A session that ends frees its tunnel, and only if the tunnel is still its own.
pub proof fn law_only_the_session_frees_its_tunnel<S, D, F: Fn(&TunnelId) -> String>(
    registry: &mut TunnelRegistry<S, D, F>,
    id: &TunnelId,
    session_id: u64,
)
    requires
        old(registry).wf(),
        call_ensures(TunnelRegistry::<S, D, F>::unregister, (registry, id, session_id), ()),
    ensures
        ({
            let before = old(registry)@;
            let after = final(registry)@;
            let own = before.tunnels.contains_key(id@) && before.tunnels[id@].session_id
                == session_id;
            &&& own ==> after.tunnels == before.tunnels.remove(id@)
            &&& !own ==> after == before
            &&& after.pending == before.pending
            &&& after.shutdown == before.shutdown
        }),
{
}

/// A connection that was asked for is handed to the owner of the tunnel that it was asked for, by
/// whoever asked, and to nobody else.
pub proof fn law_asked_connection_is_attached<S, D, F: Fn(&TunnelId) -> String>(
    asking: &mut TunnelRegistry<S, D, F>,
    attaching: &mut TunnelRegistry<S, D, F>,
    id: &TunnelId,
    request: String,
    request_text: &str,
    data: D,
    asked: Result<Option<&S>, ConnectError>,
    owner: &str,
    attached: Option<D>,
)
    requires
        old(asking).wf(),
        call_ensures(
            TunnelRegistry::<S, D, F>::request_connection,
            (asking, id, request, data),
            asked,
        ),
        *old(attaching) == *final(asking),
        request_text@ == request@,
        call_ensures(
            TunnelRegistry::<S, D, F>::attach,
            (attaching, request_text, owner),
            attached,
        ),
    ensures
        ({
            let before = old(asking)@;
            let known = before.tunnels.contains_key(id@);
            &&& before.shutdown ==> asked == Err::<Option<&S>, ConnectError>(ConnectError::Shutdown)
            &&& !before.shutdown && !known ==> asked == Ok::<Option<&S>, ConnectError>(None)
            &&& !before.shutdown && known ==> (asked matches Ok(Some(sender)) && *sender
                == before.tunnels[id@].sender)
            &&& asked matches Ok(Some(_)) ==> {
                &&& owner@ == before.tunnels[id@].owner ==> attached == Some(data)
                &&& owner@ != before.tunnels[id@].owner ==> attached is None
                &&& final(attaching)@.tunnels == before.tunnels
            }
        }),
{
}

/// A connection is attached exactly where it was asked for, from that owner, and then is asked for
/// no longer. Other requests stay.
pub proof fn law_attached_once<S, D, F: Fn(&TunnelId) -> String>(
    registry: &mut TunnelRegistry<S, D, F>,
    request: &str,
    owner: &str,
    result: Option<D>,
)
    requires
        old(registry).wf(),
        call_ensures(TunnelRegistry::<S, D, F>::attach, (registry, request, owner), result),
    ensures
        ({
            let before = old(registry)@;
            let after = final(registry)@;
            let asked = before.pending.contains_key(request@) && before.pending[request@].owner
                == owner@;
            &&& result is Some <==> asked
            &&& asked ==> result == Some(before.pending[request@].sender) && after.pending
                == before.pending.remove(request@)
            &&& !asked ==> after == before
            &&& after.tunnels == before.tunnels
        }),
{
}

/// A request that is over is pending no longer, whatever came of it, and what came of it is
/// reported.
pub proof fn law_requests_come_to_an_end<S, D, F: Fn(&TunnelId) -> String, C>(
    registry: &mut TunnelRegistry<S, D, F>,
    request: &str,
    outcome: RequestOutcome<C>,
    result: Result<C, ConnectError>,
)
    requires
        old(registry).wf(),
        call_ensures(
            TunnelRegistry::<S, D, F>::complete_request::<C>,
            (registry, request, outcome),
            result,
        ),
    ensures
        final(registry)@.pending == old(registry)@.pending.remove(request@),
        final(registry)@.tunnels == old(registry)@.tunnels,
        match outcome {
            RequestOutcome::Connected(connection) => result == Ok::<C, ConnectError>(connection),
            RequestOutcome::NotSent => result == Err::<C, ConnectError>(
                ConnectError::ClientDisconnected,
            ),
            RequestOutcome::Abandoned => result == Err::<C, ConnectError>(
                ConnectError::NotEstablished,
            ),
            RequestOutcome::TimedOut => result == Err::<C, ConnectError>(ConnectError::TimedOut),
        },
{
}

/// Shutdown ends every tunnel and every request.
pub proof fn law_shutdown_empties_the_registry<S, D, F: Fn(&TunnelId) -> String>(
    registry: &mut TunnelRegistry<S, D, F>,
)
    requires
        old(registry).wf(),
        call_ensures(TunnelRegistry::<S, D, F>::shutdown, (registry,), ()),
    ensures
        final(registry)@.shutdown,
        forall|id: Seq<char>| !#[trigger] final(registry)@.tunnels.contains_key(id),
        forall|id: Seq<char>| !#[trigger] final(registry)@.pending.contains_key(id),
{
}

/// A registry without a rule tells a node the name of its tunnel; one with a rule tells it what
/// the rule gives for the tunnel.
pub proof fn law_nodes_are_told_what_the_rule_gives<S, D, F: Fn(&TunnelId) -> String>(
    plain: TunnelRegistry<S, D, F>,
    ruled: TunnelRegistry<S, D, F>,
    rule: F,
    id: &TunnelId,
    told: String,
    given: String,
)
    requires
        call_ensures(TunnelRegistry::<S, D, F>::new, (), plain),
        call_ensures(TunnelRegistry::<S, D, F>::with_public_url, (rule,), ruled),
        call_ensures(TunnelRegistry::<S, D, F>::ready_value, (&plain, id), told),
        call_ensures(TunnelRegistry::<S, D, F>::ready_value, (&ruled, id), given),
    ensures
        told@ == id@,
        call_ensures(rule, (id,), given),
{
}

/// A connection that is asked for gets a number of 24 letters and digits, and is asked for at the
/// session of its tunnel. Without a session nothing is asked for, and after shutdown it is a fault.
pub proof fn law_connections_are_numbered<S, D, F: Fn(&TunnelId) -> String>(
    registry: &mut TunnelRegistry<S, D, F>,
    id: &TunnelId,
    data: D,
    result: Result<Option<(String, &S)>, ConnectError>,
)
    requires
        old(registry).wf(),
        call_ensures(TunnelRegistry::<S, D, F>::connect, (registry, id, data), result),
    ensures
        ({
            let before = old(registry)@;
            let known = before.tunnels.contains_key(id@);
            &&& before.shutdown <==> result is Err
            &&& !before.shutdown && !known ==> (result matches Ok(None))
            &&& !before.shutdown && known ==> (result matches Ok(Some((number, sender))) && {
                &&& *sender == before.tunnels[id@].sender
                &&& number@.len() == 24
                &&& forall|i: int|
                    0 <= i < 24 ==> (('a' <= #[trigger] number@[i] <= 'z') || ('A' <= number@[i]
                        <= 'Z') || ('0' <= number@[i] <= '9'))
                &&& final(registry)@.pending.contains_key(number@)
            })
        }),
{
}

/// The words that an error is reported with tell which error it is.
pub proof fn law_words_tell_connect_errors_apart(error: ConnectError, text: &str)
    requires
        call_ensures(ConnectError::message, (error,), text),
    ensures
        error is Shutdown <==> text@ == "tunnel registry is shut down"@,
        error is ClientDisconnected <==> text@ == "tunnel client disconnected"@,
        error is NotEstablished <==> text@ == "tunnel data connection was not established"@,
        error is TimedOut <==> text@ == "timed out waiting for the tunnel data connection"@,
{
    reveal_strlit("tunnel registry is shut down");
    reveal_strlit("tunnel client disconnected");
    reveal_strlit("tunnel data connection was not established");
    reveal_strlit("timed out waiting for the tunnel data connection");
    assert("tunnel registry is shut down"@.len() == 28);
    assert("tunnel client disconnected"@.len() == 26);
    assert("tunnel data connection was not established"@.len() == 42);
    assert("timed out waiting for the tunnel data connection"@.len() == 48);
}

} // verus!
