//! Where a visitor's connection goes.

use vstd::prelude::*;

use crate::external::string_from_chars;
use crate::protocol::tunnel_id::{is_tunnel_id, is_tunnel_id_char, TunnelId};
use crate::server::tls::{host_of, is_challenge, TlsConnection, ACME_PROTOCOL};
use crate::text::{before_suffix, chars_of, has_char, law_trailing_characters_are_dropped, lower,
    same_text};

verus! {

/// Where a connection to a host goes.
#[derive(Debug)]
pub enum HostRoute {
    /// To the server's API.
    Api,
    /// To the node of a tunnel.
    Tunnel(TunnelId),
    /// Nowhere.
    Reject,
}

/// Where a connection to a host goes.
pub ghost enum Route {
    Api,
    Tunnel(Seq<char>),
    Reject,
}

impl View for HostRoute {
    type V = Route;

    open spec fn view(&self) -> Route {
        match self {
            HostRoute::Api => Route::Api,
            HostRoute::Tunnel(id) => Route::Tunnel(id@),
            HostRoute::Reject => Route::Reject,
        }
    }
}

/// What a host's name ends with under a domain.
pub open spec fn suffix_of(domain: Seq<char>) -> Seq<char> {
    seq!['.'] + domain
}

/// Where a connection to a host goes on a server for a domain: to the API for the domain itself,
/// and to a tunnel for the tunnel's name under the domain.
pub open spec fn route_of(host: Seq<char>, domain: Seq<char>) -> Route {
    let suffix = suffix_of(domain);
    let name = host.take(host.len() - suffix.len());
    if host == domain {
        Route::Api
    } else if suffix.is_suffix_of(host) && is_tunnel_id(name) {
        Route::Tunnel(name)
    } else {
        Route::Reject
    }
}

/// Where a connection to a host goes on a server for a domain.
pub fn route(host: &str, domain: &str) -> (result: HostRoute)
    ensures
        result@ == route_of(host@, domain@),
{
    if same_text(host, domain) {
        return HostRoute::Api;
    }
    let mut suffix: Vec<char> = Vec::new();
    suffix.push('.');
    let domain_text = chars_of(domain);
    suffix.extend_from_slice(&domain_text);
    assert(suffix@ =~= suffix_of(domain@));
    match before_suffix(&chars_of(host), &suffix) {
        None => HostRoute::Reject,
        Some(name) => {
            proof {
                assert(name@ =~= host@.take(host@.len() - suffix@.len()));
            }
            if has_char(&name, '.') {
                proof {
                    if is_tunnel_id(name@) {
                        let i = choose|i: int| 0 <= i < name@.len() && name@[i] == '.';
                        assert(is_tunnel_id_char(name@[i]));
                    }
                }
                return HostRoute::Reject;
            }
            match TunnelId::new(&string_from_chars(&name)) {
                Ok(id) => HostRoute::Tunnel(id),
                Err(_) => HostRoute::Reject,
            }
        },
    }
}

/// The host of every tunnel under a domain leads to the tunnel.
pub proof fn law_tunnel_host_leads_to_the_tunnel(id: Seq<char>, domain: Seq<char>)
    requires
        is_tunnel_id(id),
    ensures
        route_of(id + seq!['.'] + domain, domain) == Route::Tunnel(id),
{
    let host = id + seq!['.'] + domain;
    let suffix = suffix_of(domain);
    assert(host.len() > domain.len());
    assert(host.skip(host.len() - suffix.len()) =~= suffix);
    assert(host.take(host.len() - suffix.len()) =~= id);
    assert(suffix.is_suffix_of(host)) by {
        assert(host.subrange(host.len() - suffix.len(), host.len() as int) =~= suffix);
    }
}

/// No two hosts lead to the same tunnel.
pub proof fn law_tunnel_has_one_host(a: Seq<char>, b: Seq<char>, domain: Seq<char>)
    requires
        route_of(a, domain) is Tunnel,
        route_of(a, domain) == route_of(b, domain),
    ensures
        a == b,
{
    let suffix = suffix_of(domain);
    let name = a.take(a.len() - suffix.len());
    assert(a =~= name + suffix);
    assert(b =~= name + suffix);
}

/// What is done with a visitor's connection.
#[derive(Debug)]
pub enum Dispatch {
    /// Close it.
    Close,
    /// Answer a certificate authority's check.
    AnswerChallenge,
    /// Serve the API on it.
    ServeApi,
    /// Forward it to the node of a tunnel.
    Forward(TunnelId),
}

/// What is done with a visitor's connection.
pub ghost enum DispatchKind {
    Close,
    AnswerChallenge,
    ServeApi,
    Forward(Seq<char>),
}

impl View for Dispatch {
    type V = DispatchKind;

    open spec fn view(&self) -> DispatchKind {
        match self {
            Dispatch::Close => DispatchKind::Close,
            Dispatch::AnswerChallenge => DispatchKind::AnswerChallenge,
            Dispatch::ServeApi => DispatchKind::ServeApi,
            Dispatch::Forward(id) => DispatchKind::Forward(id@),
        }
    }
}

/// What is done with a connection, by its first message.
pub open spec fn dispatch_of(
    hello: (Option<Seq<char>>, Option<Seq<Seq<u8>>>),
    domain: Seq<char>,
) -> DispatchKind {
    match hello.0 {
        None => DispatchKind::Close,
        Some(name) => match route_of(host_of(name), domain) {
            Route::Api => if is_challenge(hello) {
                DispatchKind::AnswerChallenge
            } else {
                DispatchKind::ServeApi
            },
            Route::Tunnel(id) => DispatchKind::Forward(id),
            Route::Reject => DispatchKind::Close,
        },
    }
}

/// Says what to do with a visitor's connection on a server for a domain.
pub fn handle_connection<S>(connection: &TlsConnection<S>, domain: &str) -> (result: Dispatch)
    requires
        connection.wf(),
    ensures
        result@ == dispatch_of(connection.hello(), domain@),
{
    match connection.server_name() {
        None => Dispatch::Close,
        Some(name) => match route(name, domain) {
            HostRoute::Api => {
                if connection.is_acme_challenge() {
                    Dispatch::AnswerChallenge
                } else {
                    Dispatch::ServeApi
                }
            },
            HostRoute::Tunnel(id) => Dispatch::Forward(id),
            HostRoute::Reject => Dispatch::Close,
        },
    }
}

/// A host leads to the API exactly where it is the domain, and to a tunnel exactly where it is the
/// tunnel's name, a dot and the domain. Every other host leads nowhere.
pub proof fn law_hosts_lead_where_they_say(
    host: &str,
    domain: &str,
    id: Seq<char>,
    result: HostRoute,
)
    requires
        call_ensures(route, (host, domain), result),
    ensures
        result is Api <==> host@ == domain@,
        is_tunnel_id(id) && host@ == id + seq!['.'] + domain@ ==> (result matches HostRoute::Tunnel(
            tunnel,
        ) && tunnel@ == id),
        result matches HostRoute::Tunnel(tunnel) ==> is_tunnel_id(tunnel@) && host@ == tunnel@
            + seq!['.'] + domain@,
        !(result is Api) && !(result is Tunnel) ==> result is Reject,
{
    if is_tunnel_id(id) && host@ == id + seq!['.'] + domain@ {
        law_tunnel_host_leads_to_the_tunnel(id, domain@);
    }
    if let HostRoute::Tunnel(tunnel) = result {
        let suffix = suffix_of(domain@);
        let name = host@.take(host@.len() - suffix.len());
        assert(host@ =~= name + suffix);
        assert(host@ =~= name + seq!['.'] + domain@);
    }
}

/// A visitor of a tunnel is forwarded to the tunnel's node, whatever protocols the visitor offers.
/// The domain itself is the API's, but for a certificate authority's check, which offers the one
/// protocol `acme-tls/1`. A visitor of any other host, or of none, is turned away.
pub proof fn law_visitors_get_where_they_ask<S>(
    connection: &TlsConnection<S>,
    domain: &str,
    name: Seq<char>,
    host: Seq<char>,
    dots: nat,
    id: Seq<char>,
    result: Dispatch,
)
    requires
        call_ensures(handle_connection::<S>, (connection, domain), result),
        host.len() > 0 ==> host.last() != '.',
        name == host + Seq::new(dots, |i: int| '.'),
    ensures
        connection.hello().0 is None ==> result is Close,
        connection.hello().0 == Some(name) ==> {
            &&& is_tunnel_id(id) && lower(host) == id + seq!['.'] + domain@ ==> (
            result matches Dispatch::Forward(tunnel) && tunnel@ == id)
            &&& lower(host) == domain@ ==> if connection.hello().1 == Some(
                seq![seq![97u8, 99, 109, 101, 45, 116, 108, 115, 47, 49]],
            ) {
                result is AnswerChallenge
            } else {
                result is ServeApi
            }
            &&& result matches Dispatch::Forward(tunnel) ==> is_tunnel_id(tunnel@) && lower(host)
                == tunnel@ + seq!['.'] + domain@
            &&& result is AnswerChallenge || result is ServeApi ==> lower(host) == domain@
        },
{
    law_trailing_characters_are_dropped(host, '.', dots);
    let h = lower(host);
    if is_tunnel_id(id) && h == id + seq!['.'] + domain@ {
        law_tunnel_host_leads_to_the_tunnel(id, domain@);
    }
    assert(ACME_PROTOCOL@ =~= seq![97u8, 99, 109, 101, 45, 116, 108, 115, 47, 49]);
    if connection.hello().0 == Some(name) && result is Forward {
        let suffix = suffix_of(domain@);
        let start = h.take(h.len() - suffix.len());
        assert(h =~= start + suffix);
        assert(h =~= start + seq!['.'] + domain@);
    }
}

/// Of two visitors who ask for the same host, other than the domain, the same becomes, whatever
/// protocols each offers.
pub proof fn law_protocols_matter_only_to_the_domain<S>(
    one: &TlsConnection<S>,
    other: &TlsConnection<S>,
    domain: &str,
    first: Dispatch,
    second: Dispatch,
)
    requires
        call_ensures(handle_connection::<S>, (one, domain), first),
        call_ensures(handle_connection::<S>, (other, domain), second),
        one.hello().0 == other.hello().0,
        !(first is AnswerChallenge) && !(first is ServeApi),
    ensures
        first@ == second@,
{
}

} // verus!
