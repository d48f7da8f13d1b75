//! What a node decides while it forwards its tunnel to a local service.

use vstd::prelude::*;
use vstd::string::*;

pub use crate::error::{is_routine_connection_error, Cause, TlsErrorKind};
use crate::external::{parse_url, url_parts, UrlParts};
use crate::net::SocketAddr;
use crate::server::control::{ClientControlMessage, ServerControlMessage};
use crate::session::MultiplexerError;
use crate::stream::SessionError;
use crate::text::same_text;

verus! {

/// The tag of the streams that carry a visitor's connection.
pub const TCP_FORWARD_TAG: &'static str = "tnl/tcp";

/// How long, in nanoseconds, a failed certificate order is not repeated.
pub const ACME_ORDER_RETRY_DELAY: u128 = 3_600_000_000_000;

/// How long, in nanoseconds, a connection to the API is idle before it is probed.
pub const TCP_KEEPALIVE_IDLE: u128 = 30_000_000_000;

/// The time between two probes of a connection to the API, in nanoseconds.
pub const TCP_KEEPALIVE_INTERVAL: u128 = 10_000_000_000;

/// How many probes of a connection to the API may go unanswered.
pub const TCP_KEEPALIVE_RETRIES: u32 = 3;

/// What a forwarder tells its user. Times are in nanoseconds.
#[allow(inconsistent_fields)]
#[derive(Debug)]
pub enum ClientEvent {
    ObtainingCertificate { hostname: String },
    Ready { url: String, target: SocketAddr },
    Reconnected { url: String },
    Disconnected { error: String, retry_in: u128 },
    ConnectionFailed { connection_id: String, error: String },
    CertificateError { hostname: String, error: String, retry_in: Option<u128> },
}

/// Why a forwarder gave up a session, or never began one.
#[derive(Debug)]
pub enum ForwardError {
    InvalidPort,
    InvalidTargetPort,
    InvalidUrl,
    NoHostname,
    HostnameChanged { from: String, to: String },
    NotReady,
    InvalidMessage,
    ControlClosed,
}

impl ForwardError {
    /// The words that the error is reported with.
    pub open spec fn text(self) -> Seq<char> {
        match self {
            ForwardError::InvalidPort => "port must be between 1 and 65535"@,
            ForwardError::InvalidTargetPort => "target port must be between 1 and 65535"@,
            ForwardError::InvalidUrl => "server returned an invalid tunnel URL"@,
            ForwardError::NoHostname => "server tunnel URL did not contain a hostname"@,
            ForwardError::HostnameChanged { from, to } => "tunnel hostname changed from "@ + from@
                + " to "@ + to@,
            ForwardError::NotReady => "server sent a connection before the tunnel was ready"@,
            ForwardError::InvalidMessage => "invalid server message"@,
            ForwardError::ControlClosed => "tunnel server closed the control connection"@,
        }
    }

    /// The words that the error is reported with.
    pub fn message(&self) -> (result: String)
        ensures
            result@ == self.text(),
    {
        match self {
            ForwardError::InvalidPort => "port must be between 1 and 65535".to_owned(),
            ForwardError::InvalidTargetPort => "target port must be between 1 and 65535".to_owned(),
            ForwardError::InvalidUrl => "server returned an invalid tunnel URL".to_owned(),
            ForwardError::NoHostname => "server tunnel URL did not contain a hostname".to_owned(),
            ForwardError::HostnameChanged { from, to } => {
                let text = "tunnel hostname changed from ".to_owned().concat(from.as_str());
                let text = text.concat(" to ");
                text.concat(to.as_str())
            },
            ForwardError::NotReady =>
                "server sent a connection before the tunnel was ready".to_owned(),
            ForwardError::InvalidMessage => "invalid server message".to_owned(),
            ForwardError::ControlClosed => "tunnel server closed the control connection".to_owned(),
        }
    }
}

/// Accepts the ports that a local service can have.
pub fn check_port(port: u16) -> (result: Result<(), ForwardError>)
    ensures
        match result {
            Ok(_) => port != 0,
            Err(error) => port == 0 && error == ForwardError::InvalidPort,
        },
{
    if port == 0 {
        Err(ForwardError::InvalidPort)
    } else {
        Ok(())
    }
}

/// Accepts the targets that a forwarder can have, by their port.
pub fn check_target(target: SocketAddr) -> (result: Result<(), ForwardError>)
    ensures
        match result {
            Ok(_) => target.port != 0,
            Err(error) => target.port == 0 && error == ForwardError::InvalidTargetPort,
        },
{
    if target.port == 0 {
        Err(ForwardError::InvalidTargetPort)
    } else {
        Ok(())
    }
}

/// How a session begins that was registered.
#[derive(Debug)]
pub enum SessionStart {
    /// A certificate is to be obtained for this host name.
    ObtainCertificate(String),
    /// The tunnel goes on as it was.
    Reconnected,
}

/// What a forwarder remembers from one session to the next.
pub struct Forwarding {
    hostname: Option<String>,
    has_registered: bool,
}

/// What a forwarder remembers from one session to the next.
pub ghost struct ForwardingState {
    /// The host name that a certificate is managed for.
    pub hostname: Option<Seq<char>>,
    /// Whether a registration has ever succeeded.
    pub has_registered: bool,
}

impl View for Forwarding {
    type V = ForwardingState;

    closed spec fn view(&self) -> ForwardingState {
        ForwardingState {
            hostname: match self.hostname {
                Some(hostname) => Some(hostname@),
                None => None,
            },
            has_registered: self.has_registered,
        }
    }
}

/// Whether a session begins like this, with a tunnel at a URL with these parts.
pub open spec fn begins_with(
    known: Option<Seq<char>>,
    parts: Option<(Seq<char>, Option<Seq<char>>, Option<Seq<char>>, Option<u16>)>,
    result: Result<SessionStart, ForwardError>,
) -> bool {
    match parts {
        None => result == Err::<SessionStart, ForwardError>(ForwardError::InvalidUrl),
        Some((_, None, _, _)) => result == Err::<SessionStart, ForwardError>(
            ForwardError::NoHostname,
        ),
        Some((_, Some(hostname), _, _)) => match known {
            None => {
                &&& result matches Ok(SessionStart::ObtainCertificate(name))
                &&& name@ == hostname
            },
            Some(known) => if known == hostname {
                result == Ok::<SessionStart, ForwardError>(SessionStart::Reconnected)
            } else {
                &&& result matches Err(ForwardError::HostnameChanged { from, to })
                &&& from@ == known
                &&& to@ == hostname
            },
        },
    }
}

/// The host name in a URL with these parts.
pub fn hostname_in(parts: Option<UrlParts>) -> (result: Result<String, ForwardError>)
    ensures
        match parts {
            None => result == Err::<String, ForwardError>(ForwardError::InvalidUrl),
            Some(parts) => match parts@.1 {
                None => result == Err::<String, ForwardError>(ForwardError::NoHostname),
                Some(hostname) => result matches Ok(name) && name@ == hostname,
            },
        },
{
    match parts {
        None => Err(ForwardError::InvalidUrl),
        Some(parts) => match parts.host {
            None => Err(ForwardError::NoHostname),
            Some(hostname) => Ok(hostname),
        },
    }
}

/// What is done with a stream that the server opened.
#[derive(Clone, Copy, Debug, PartialEq, Eq, Structural)]
pub enum StreamUse {
    /// Forward it to the local service.
    Forward,
    /// Leave it: its tag is not known.
    Ignore,
}

impl Forwarding {
    pub fn new() -> (result: Self)
        ensures
            result@ == (ForwardingState { hostname: None, has_registered: false }),
    {
        Forwarding { hostname: None, has_registered: false }
    }

    /// Whether a registration has ever succeeded.
    pub fn has_registered(&self) -> (result: bool)
        ensures
            result == self@.has_registered,
    {
        self.has_registered
    }

    /// A registration has succeeded, whatever becomes of its session.
    pub fn registration_succeeded(&mut self)
        ensures
            final(self)@ == (ForwardingState { has_registered: true, ..old(self)@ }),
    {
        self.has_registered = true;
    }

    /// Begins a session whose tunnel is at a URL with these parts.
    pub fn registered_at(&mut self, parts: Option<UrlParts>) -> (result: Result<
        SessionStart,
        ForwardError,
    >)
        ensures
            final(self)@ == (ForwardingState { has_registered: true, ..old(self)@ }),
            begins_with(
                old(self)@.hostname,
                match parts {
                    Some(parts) => Some(parts@),
                    None => None,
                },
                result,
            ),
    {
        self.registration_succeeded();
        let hostname = match hostname_in(parts) {
            Err(error) => return Err(error),
            Ok(hostname) => hostname,
        };
        match &self.hostname {
            None => Ok(SessionStart::ObtainCertificate(hostname)),
            Some(known) => {
                if same_text(known, &hostname) {
                    Ok(SessionStart::Reconnected)
                } else {
                    Err(ForwardError::HostnameChanged { from: known.clone(), to: hostname })
                }
            },
        }
    }

    /// Begins a session whose tunnel is at a URL.
    pub fn registered(&mut self, url: &str) -> (result: Result<SessionStart, ForwardError>)
        ensures
            final(self)@ == (ForwardingState { has_registered: true, ..old(self)@ }),
            begins_with(old(self)@.hostname, url_parts(url@), result),
    {
        self.registered_at(parse_url(url))
    }

    /// A certificate is now managed for a host name.
    pub fn certificate_managed(&mut self, hostname: String)
        ensures
            final(self)@ == (ForwardingState { hostname: Some(hostname@), ..old(self)@ }),
    {
        self.hostname = Some(hostname);
    }

    /// Says what to do with a stream that the server opened.
    pub fn stream_opened(&self, tag: &str) -> (result: Result<StreamUse, ForwardError>)
        ensures
            result == if tag@ != TCP_FORWARD_TAG@ {
                Ok::<StreamUse, ForwardError>(StreamUse::Ignore)
            } else if self@.hostname is None {
                Err(ForwardError::NotReady)
            } else {
                Ok(StreamUse::Forward)
            },
    {
        if !same_text(tag, TCP_FORWARD_TAG) {
            return Ok(StreamUse::Ignore);
        }
        match &self.hostname {
            None => Err(ForwardError::NotReady),
            Some(_) => Ok(StreamUse::Forward),
        }
    }

    /// Says what to do on a message in a control session; without one the line was no message.
    pub fn message_received(&self, message: Option<ServerControlMessage>) -> (result: Result<
        MessageUse,
        ForwardError,
    >)
        ensures
            match message {
                None => result == Err::<MessageUse, ForwardError>(ForwardError::InvalidMessage),
                Some(ServerControlMessage::Ping) => result == Ok::<MessageUse, ForwardError>(
                    MessageUse::Answer(ClientControlMessage::Pong),
                ),
                Some(ServerControlMessage::Connection(id)) => result == if self@.hostname is None {
                    Err::<MessageUse, ForwardError>(ForwardError::NotReady)
                } else {
                    Ok(MessageUse::Forward(id))
                },
                Some(ServerControlMessage::Ready(url)) => match url_parts(url@) {
                    None => result == Err::<MessageUse, ForwardError>(ForwardError::InvalidUrl),
                    Some((_, None, _, _)) => result == Err::<MessageUse, ForwardError>(
                        ForwardError::NoHostname,
                    ),
                    Some((_, Some(hostname), _, _)) => {
                        &&& result matches Ok(MessageUse::ObtainCertificate(name))
                        &&& name@ == hostname
                    },
                },
            },
    {
        match message {
            None => Err(ForwardError::InvalidMessage),
            Some(ServerControlMessage::Ping) => Ok(MessageUse::Answer(ClientControlMessage::Pong)),
            Some(ServerControlMessage::Connection(id)) => match &self.hostname {
                None => Err(ForwardError::NotReady),
                Some(_) => Ok(MessageUse::Forward(id)),
            },
            Some(ServerControlMessage::Ready(url)) => match hostname_in(parse_url(&url)) {
                Err(error) => Err(error),
                Ok(hostname) => Ok(MessageUse::ObtainCertificate(hostname)),
            },
        }
    }
}

/// What is done on a message in a control session.
#[derive(Debug)]
pub enum MessageUse {
    /// A certificate is to be obtained for this host name.
    ObtainCertificate(String),
    /// The connection with this number is to be taken and forwarded.
    Forward(String),
    /// The server is to be answered.
    Answer(ClientControlMessage),
}

/// A tunnel that keeps its host name is taken up again after any number of sessions, and one
/// that changed it is not.
pub proof fn law_tunnel_keeps_its_hostname(
    known: Seq<char>,
    parts: (Seq<char>, Option<Seq<char>>, Option<Seq<char>>, Option<u16>),
    result: Result<SessionStart, ForwardError>,
)
    requires
        begins_with(Some(known), Some(parts), result),
    ensures
        result is Ok <==> parts.1 == Some(known),
{
}

/// How a visitor's connection is treated, by what its first message asks for.
#[derive(Clone, Copy, Debug)]
pub struct VisitorPlan {
    /// Whether to wait until there is a certificate.
    pub wait_for_certificate: bool,
    /// Whether to answer with the challenge certificate.
    pub use_challenge: bool,
    /// Whether to connect to the local service; the connection is closed otherwise.
    pub connect: bool,
    /// The words that a failed handshake is reported with.
    pub handshake_error: &'static str,
}

/// Says how a visitor's connection is treated. The certificate authority's own connections get
/// the challenge certificate and nothing else.
pub fn plan_visitor(is_challenge: bool) -> (result: VisitorPlan)
    ensures
        result.wait_for_certificate == !is_challenge,
        result.use_challenge == is_challenge,
        result.connect == !is_challenge,
        result.handshake_error@ == if is_challenge {
            "could not complete ACME TLS-ALPN-01 handshake"@
        } else {
            "could not complete visitor TLS handshake"@
        },
{
    VisitorPlan {
        wait_for_certificate: !is_challenge,
        use_challenge: is_challenge,
        connect: !is_challenge,
        handshake_error: if is_challenge {
            "could not complete ACME TLS-ALPN-01 handshake"
        } else {
            "could not complete visitor TLS handshake"
        },
    }
}

/// What the certificate manager reports.
#[derive(Debug)]
pub enum CertificateEvent {
    /// A certificate is in use.
    Deployed,
    /// Something was stored for later.
    Stored,
    /// Something failed, possibly an order.
    Failed { order: bool, error: String },
}

/// Whether the user is told this about the certificate.
pub open spec fn tells(
    hostname: Seq<char>,
    url: Seq<char>,
    target: SocketAddr,
    event: CertificateEvent,
    told: Option<ClientEvent>,
) -> bool {
    match event {
        CertificateEvent::Stored => told is None,
        CertificateEvent::Deployed => {
            &&& told matches Some(ClientEvent::Ready { url: u, target: t })
            &&& u@ == url
            &&& t == target
        },
        CertificateEvent::Failed { order, error } => {
            &&& told matches Some(
                ClientEvent::CertificateError { hostname: h, error: e, retry_in: r },
            )
            &&& h@ == hostname
            &&& e == error
            &&& r == if order {
                Some(ACME_ORDER_RETRY_DELAY)
            } else {
                None
            }
        },
    }
}

/// Says what the user is told about the certificate. Where a time to wait is told, the manager
/// is to be left alone for so long.
pub fn certificate_event(
    hostname: &str,
    url: &str,
    target: SocketAddr,
    event: CertificateEvent,
) -> (result: Option<ClientEvent>)
    ensures
        tells(hostname@, url@, target, event, result),
{
    match event {
        CertificateEvent::Stored => None,
        CertificateEvent::Deployed => Some(ClientEvent::Ready { url: url.to_owned(), target }),
        CertificateEvent::Failed { order, error } => {
            let retry_in = if order {
                Some(ACME_ORDER_RETRY_DELAY)
            } else {
                None
            };
            Some(ClientEvent::CertificateError { hostname: hostname.to_owned(), error, retry_in })
        },
    }
}

/// What accepting a stream gives: without one the session is over.
pub fn accepted<S>(stream: Option<S>) -> (result: Result<S, SessionError>)
    ensures
        result == match stream {
            Some(stream) => Ok::<S, SessionError>(stream),
            None => Err(SessionError::Multiplexer(MultiplexerError::SessionClosed)),
        },
{
    match stream {
        Some(stream) => Ok(stream),
        None => Err(SessionError::Multiplexer(MultiplexerError::SessionClosed)),
    }
}

/// Every port but zero is accepted.
pub proof fn law_ports_are_not_zero(
    port: u16,
    result: Result<(), ForwardError>,
    target: SocketAddr,
    checked: Result<(), ForwardError>,
)
    requires
        call_ensures(check_port, (port,), result),
        call_ensures(check_target, (target,), checked),
    ensures
        result is Ok <==> port > 0,
        result matches Err(error) ==> error is InvalidPort,
        checked is Ok <==> target.port > 0,
        checked matches Err(error) ==> error is InvalidTargetPort,
{
}

/// A first session asks for a certificate for the host of its URL. Once that is managed, a session
/// at a URL with the same host goes on with it, and one with another host is given up. A session
/// that was registered counts as that, whatever came of it.
pub proof fn law_sessions_keep_the_hostname(
    forwarding: &mut Forwarding,
    first: Option<UrlParts>,
    start: Result<SessionStart, ForwardError>,
    managed: &mut Forwarding,
    hostname: String,
    later: &mut Forwarding,
    second: Option<UrlParts>,
    again: Result<SessionStart, ForwardError>,
    fresh: Forwarding,
    known: bool,
)
    requires
        call_ensures(Forwarding::new, (), fresh),
        *old(forwarding) == fresh,
        call_ensures(Forwarding::registered_at, (forwarding, first), start),
        call_ensures(Forwarding::has_registered, (&*final(forwarding),), known),
        *old(managed) == *final(forwarding),
        call_ensures(Forwarding::certificate_managed, (managed, hostname), ()),
        *old(later) == *final(managed),
        call_ensures(Forwarding::registered_at, (later, second), again),
    ensures
        !fresh@.has_registered,
        known,
        first is None ==> start matches Err(ForwardError::InvalidUrl),
        first matches Some(parts) ==> {
            &&& parts.host is None ==> (start matches Err(ForwardError::NoHostname))
            &&& parts.host matches Some(host) ==> (start matches Ok(
                SessionStart::ObtainCertificate(name),
            ) && name@ == host@)
        },
        second is None ==> again matches Err(ForwardError::InvalidUrl),
        second matches Some(parts) ==> {
            &&& parts.host is None ==> (again matches Err(ForwardError::NoHostname))
            &&& parts.host matches Some(host) ==> {
                &&& host@ == hostname@ ==> (again matches Ok(SessionStart::Reconnected))
                &&& host@ != hostname@ ==> (again matches Err(
                    ForwardError::HostnameChanged { from, to },
                ) && from@ == hostname@ && to@ == host@)
            }
        },
{
}

/// Streams of another tag than that of visitors are left alone. Visitors' streams and connections
/// are forwarded once a certificate is managed, and are a fault before; pings are answered.
pub proof fn law_visitors_wait_for_the_certificate(
    forwarding: &Forwarding,
    tag: &str,
    use_of: Result<StreamUse, ForwardError>,
    message: Option<ServerControlMessage>,
    result: Result<MessageUse, ForwardError>,
)
    requires
        call_ensures(Forwarding::stream_opened, (forwarding, tag), use_of),
        call_ensures(Forwarding::message_received, (forwarding, message), result),
    ensures
        use_of matches Ok(StreamUse::Ignore) <==> tag@ != seq!['t', 'n', 'l', '/', 't', 'c', 'p'],
        use_of matches Ok(StreamUse::Forward) <==> tag@ == seq!['t', 'n', 'l', '/', 't', 'c', 'p']
            && forwarding@.hostname is Some,
        use_of matches Err(error) ==> error is NotReady,
        message is None ==> result matches Err(ForwardError::InvalidMessage),
        message matches Some(ServerControlMessage::Ping) ==> result matches Ok(
            MessageUse::Answer(ClientControlMessage::Pong),
        ),
        message matches Some(ServerControlMessage::Connection(id)) ==> {
            &&& forwarding@.hostname is Some ==> result == Ok::<MessageUse, ForwardError>(
                MessageUse::Forward(id),
            )
            &&& forwarding@.hostname is None ==> (result matches Err(ForwardError::NotReady))
        },
{
    reveal_strlit("tnl/tcp");
    assert(TCP_FORWARD_TAG@ =~= seq!['t', 'n', 'l', '/', 't', 'c', 'p']);
}

/// The certificate authority's connections get the challenge certificate at once and go no further;
/// visitors wait for the certificate and are connected.
pub proof fn law_challenges_go_no_further(is_challenge: bool, plan: VisitorPlan)
    requires
        call_ensures(plan_visitor, (is_challenge,), plan),
    ensures
        is_challenge ==> plan.use_challenge && !plan.wait_for_certificate && !plan.connect,
        !is_challenge ==> !plan.use_challenge && plan.wait_for_certificate && plan.connect,
{
}

/// The user is told that the tunnel is ready, at its URL, once a certificate is in use, and of
/// every fault. After a failed order the manager is left alone for an hour.
pub proof fn law_user_is_told_about_certificates(
    hostname: &str,
    url: &str,
    target: SocketAddr,
    event: CertificateEvent,
    told: Option<ClientEvent>,
)
    requires
        call_ensures(certificate_event, (hostname, url, target, event), told),
    ensures
        told is None <==> event is Stored,
        event is Deployed <==> told matches Some(ClientEvent::Ready { .. }),
        told matches Some(ClientEvent::Ready { url: u, target: t }) ==> u@ == url@ && t == target,
        event matches CertificateEvent::Failed { order, error } ==> (told matches Some(
            ClientEvent::CertificateError { hostname: h, error: e, retry_in: r },
        ) && {
            &&& h@ == hostname@
            &&& e@ == error@
            &&& order ==> r == Some(3_600_000_000_000u128)
            &&& !order ==> r is None
        }),
{
}

/// A stream that was accepted is handed on, and none at all is the end of the session.
pub proof fn law_no_stream_is_the_end<S>(stream: Option<S>, result: Result<S, SessionError>)
    requires
        call_ensures(accepted::<S>, (stream,), result),
    ensures
        stream matches Some(opened) ==> result == Ok::<S, SessionError>(opened),
        stream is None ==> result == Err::<S, SessionError>(
            SessionError::Multiplexer(MultiplexerError::SessionClosed),
        ),
{
}

/// A session at a URL begins as one at the parts of the URL does.
pub proof fn law_sessions_begin_at_their_url(
    first: &mut Forwarding,
    url: &str,
    result: Result<SessionStart, ForwardError>,
    second: &mut Forwarding,
    parts: UrlParts,
    same: Result<SessionStart, ForwardError>,
    host: Result<String, ForwardError>,
)
    requires
        url_parts(url@) == Some(parts@),
        *old(first) == *old(second),
        call_ensures(Forwarding::registered, (first, url), result),
        call_ensures(Forwarding::registered_at, (second, Some(parts)), same),
        call_ensures(hostname_in, (Some(parts),), host),
    ensures
        result is Ok <==> same is Ok,
        result matches Ok(SessionStart::ObtainCertificate(name)) ==> (same matches Ok(
            SessionStart::ObtainCertificate(other),
        ) && name@ == other@),
        result matches Ok(SessionStart::Reconnected) <==> same matches Ok(
            SessionStart::Reconnected,
        ),
        final(first)@ == final(second)@,
        host is Ok <==> parts.host is Some,
        host matches Ok(name) ==> parts.host->0@ == name@,
        host matches Err(error) ==> error is NoHostname,
{
}

/// An error about a changed host name names both of them, the old one first.
pub proof fn law_changed_hostnames_are_named(error: &ForwardError, text: String)
    requires
        call_ensures(ForwardError::message, (error,), text),
    ensures
        *error matches ForwardError::HostnameChanged { from, to } ==> exists|
            a: Seq<char>,
            b: Seq<char>,
        | #[trigger] (a + from@ + b + to@) == text@,
{
    if let ForwardError::HostnameChanged { from, to } = *error {
        let a = "tunnel hostname changed from "@;
        let b = " to "@;
        assert((a + from@ + b + to@) == text@);
    }
}

/// News that a tunnel is ready asks for a certificate for the host of its URL, whether or not one
/// is managed already. Without a URL, or without a host in it, it is a fault.
pub proof fn law_ready_tunnels_get_a_certificate(
    forwarding: &Forwarding,
    url: String,
    result: Result<MessageUse, ForwardError>,
    parts: UrlParts,
)
    requires
        call_ensures(
            Forwarding::message_received,
            (forwarding, Some(ServerControlMessage::Ready(url))),
            result,
        ),
    ensures
        url_parts(url@) is None <==> (result matches Err(ForwardError::InvalidUrl)),
        url_parts(url@) == Some(parts@) ==> {
            &&& parts.host is None <==> (result matches Err(ForwardError::NoHostname))
            &&& parts.host matches Some(host) ==> (result matches Ok(
                MessageUse::ObtainCertificate(name),
            ) && name@ == host@)
        },
{
}

} // verus!
