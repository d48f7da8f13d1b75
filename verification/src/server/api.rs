//! The server's API: who may use it, and what it answers.

use vstd::prelude::*;
use vstd::string::*;
use vstd::utf8::*;

use crate::auth::{hash_token, hex_of, token_hash_of};
use crate::config::{client_list, enrolled, knows, knows_token, law_enrolled_client_is_known, Client};
use crate::external::{is_base64_char, sha256_of, string_from_chars};
use crate::protocol::tunnel_id::{is_tunnel_id, is_tunnel_id_char, TunnelId};
use crate::server::registry::TunnelRegistry;
use crate::server::route::{law_tunnel_host_leads_to_the_tunnel, route_of, Route};
use crate::server::tunnel_server::{MAX_SESSIONS_PER_TUNNEL, RECOMMENDED_IDLE_TRANSPORTS_PER_TUNNEL};
use crate::text::{after_prefix, chars_of, digits_of, number, same_text};
use crate::PROTOCOL_VERSION;

verus! {

pub const STATUS_OK: u16 = 200;

pub const STATUS_BAD_REQUEST: u16 = 400;

pub const STATUS_UNAUTHORIZED: u16 = 401;

pub const STATUS_NOT_FOUND: u16 = 404;

pub const STATUS_CONFLICT: u16 = 409;

pub const STATUS_UPGRADE_REQUIRED: u16 = 426;

pub const STATUS_INTERNAL_SERVER_ERROR: u16 = 500;

pub const STATUS_SERVICE_UNAVAILABLE: u16 = 503;

/// An answer other than success, possibly with words.
#[derive(Clone, Copy, Debug)]
pub struct Rejection {
    pub status: u16,
    pub body: &'static str,
}

impl Rejection {
    pub open spec fn is(self, status: u16, body: Seq<char>) -> bool {
        self.status == status && self.body@ == body
    }
}

/// A byte of a header value that is text.
pub open spec fn is_text_byte(byte: u8) -> bool {
    32 <= byte < 127 || byte == 9
}

/// The text of a header value, if it is one.
pub open spec fn header_text_of(value: Seq<u8>) -> Option<Seq<char>> {
    if forall|i: int| 0 <= i < value.len() ==> is_text_byte(#[trigger] value[i]) {
        Some(value.map_values(|byte: u8| byte as char))
    } else {
        None
    }
}

/// The text of a header value, if it is one: visible ASCII characters, spaces and tabs.
pub fn header_text(value: &[u8]) -> (result: Option<String>)
    ensures
        match result {
            Some(text) => header_text_of(value@) == Some(text@),
            None => header_text_of(value@) is None,
        },
{
    let mut text: Vec<char> = Vec::new();
    let mut i: usize = 0;
    while i < value.len()
        invariant
            i <= value@.len(),
            text@.len() == i,
            forall|k: int| 0 <= k < i ==> is_text_byte(#[trigger] value@[k]),
            forall|k: int| 0 <= k < i ==> #[trigger] text@[k] == value@[k] as char,
        decreases value@.len() - i,
    {
        let byte = value[i];
        if !((32 <= byte && byte < 127) || byte == 9) {
            return None;
        }
        text.push(byte as char);
        i += 1;
    }
    assert(text@ =~= value@.map_values(|byte: u8| byte as char));
    Some(string_from_chars(&text))
}

/// Whether a text can be a header value.
pub open spec fn is_header_value(text: Seq<char>) -> bool {
    forall|i: int|
        0 <= i < encode_utf8(text).len() ==> {
            let byte = #[trigger] encode_utf8(text)[i];
            (byte >= 32 && byte != 127) || byte == 9
        }
}

/// Whether a text can be a header value: no byte of it controls anything but a tab.
pub fn valid_header_value(text: &str) -> (result: bool)
    ensures
        result == is_header_value(text@),
{
    let bytes = text.as_bytes();
    let mut i: usize = 0;
    while i < bytes.len()
        invariant
            i <= bytes@.len(),
            bytes@ == encode_utf8(text@),
            forall|k: int|
                0 <= k < i ==> {
                    let byte = #[trigger] bytes@[k];
                    (byte >= 32 && byte != 127) || byte == 9
                },
        decreases bytes@.len() - i,
    {
        let byte = bytes[i];
        if !((byte >= 32 && byte != 127) || byte == 9) {
            return false;
        }
        i += 1;
    }
    true
}

/// The token in an `Authorization` header, if there is one.
pub open spec fn bearer_token_of(header: Option<Seq<u8>>) -> Option<Seq<char>> {
    match header {
        None => None,
        Some(value) => match header_text_of(value) {
            None => None,
            Some(text) => if "Bearer "@.is_prefix_of(text) {
                Some(text.skip("Bearer "@.len() as int))
            } else {
                None
            },
        },
    }
}

/// A header by its bytes.
pub open spec fn header_bytes(header: Option<&[u8]>) -> Option<Seq<u8>> {
    match header {
        Some(value) => Some(value@),
        None => None,
    }
}

/// The token in an `Authorization` header, if there is one.
pub fn bearer_token(header: Option<&[u8]>) -> (result: Option<String>)
    ensures
        match result {
            Some(token) => bearer_token_of(header_bytes(header)) == Some(token@),
            None => bearer_token_of(header_bytes(header)) is None,
        },
{
    match header {
        None => None,
        Some(value) => match header_text(value) {
            None => None,
            Some(text) => match after_prefix(&chars_of(&text), &chars_of("Bearer ")) {
                None => None,
                Some(token) => {
                    assert(token@ =~= text@.skip("Bearer "@.len() as int));
                    Some(string_from_chars(&token))
                },
            },
        },
    }
}

/// Who a request comes from: the hash of the client's token.
#[derive(Debug)]
pub struct ClientIdentity {
    pub token_hash: String,
}

/// Why a request is not served for lack of a known client, if it is not. `clients` is absent
/// where the configuration cannot be read.
pub open spec fn authentication_error(
    header: Option<Seq<u8>>,
    clients: Option<Seq<(Seq<char>, Seq<char>)>>,
) -> Option<u16> {
    match bearer_token_of(header) {
        None => Some(STATUS_UNAUTHORIZED),
        Some(token) => match clients {
            None => Some(STATUS_INTERNAL_SERVER_ERROR),
            Some(clients) => if knows(clients, token_hash_of(token)) {
                None
            } else {
                Some(STATUS_UNAUTHORIZED)
            },
        },
    }
}

/// Finds out who a request comes from, by its `Authorization` header.
pub fn authenticate(header: Option<&[u8]>, clients: Option<&Vec<Client>>) -> (result: Result<
    ClientIdentity,
    u16,
>)
    ensures
        ({
            let list = match clients {
                Some(clients) => Some(client_list(clients@)),
                None => None,
            };
            match result {
                Ok(identity) => {
                    &&& authentication_error(header_bytes(header), list) is None
                    &&& bearer_token_of(header_bytes(header)) matches Some(token)
                    &&& identity.token_hash@ == token_hash_of(token)
                },
                Err(status) => authentication_error(header_bytes(header), list) == Some(status),
            }
        }),
{
    let token = match bearer_token(header) {
        Some(token) => token,
        None => return Err(STATUS_UNAUTHORIZED),
    };
    let token_hash = hash_token(&token);
    match clients {
        None => Err(STATUS_INTERNAL_SERVER_ERROR),
        Some(clients) => {
            if knows_token(clients, &token_hash) {
                Ok(ClientIdentity { token_hash })
            } else {
                Err(STATUS_UNAUTHORIZED)
            }
        },
    }
}

/// Whether a request names the version of the protocol that is spoken here.
pub open spec fn names_version(header: Option<Seq<u8>>) -> bool {
    header matches Some(value) && header_text_of(value) == Some(PROTOCOL_VERSION@)
}

/// Whether a request, by its version header, speaks the protocol that is spoken here.
pub fn protocol_version_supported(header: Option<&[u8]>) -> (result: bool)
    ensures
        result == names_version(header_bytes(header)),
{
    match header {
        None => false,
        Some(value) => match header_text(value) {
            None => false,
            Some(text) => same_text(&text, PROTOCOL_VERSION),
        },
    }
}

/// Accepts the requests for a tunnel that a running server can serve.
pub fn validate_tunnel_request(is_shutdown: bool, tunnel_id: &str, version: Option<&[u8]>) -> (result:
    Result<TunnelId, Rejection>)
    ensures
        match result {
            Ok(id) => {
                &&& !is_shutdown
                &&& is_tunnel_id(tunnel_id@)
                &&& names_version(header_bytes(version))
                &&& id@ == tunnel_id@
            },
            Err(rejection) => if is_shutdown {
                rejection.is(STATUS_SERVICE_UNAVAILABLE, ""@)
            } else if !is_tunnel_id(tunnel_id@) {
                rejection.is(STATUS_BAD_REQUEST, "invalid tunnel name"@)
            } else {
                &&& !names_version(header_bytes(version))
                &&& rejection.is(
                    STATUS_UPGRADE_REQUIRED,
                    "unsupported or missing tunnel protocol version"@,
                )
            },
        },
{
    if is_shutdown {
        return Err(Rejection { status: STATUS_SERVICE_UNAVAILABLE, body: "" });
    }
    let tunnel_id = match TunnelId::new(tunnel_id) {
        Ok(id) => id,
        Err(_) => {
            return Err(Rejection { status: STATUS_BAD_REQUEST, body: "invalid tunnel name" });
        },
    };
    if !protocol_version_supported(version) {
        return Err(
            Rejection {
                status: STATUS_UPGRADE_REQUIRED,
                body: "unsupported or missing tunnel protocol version",
            },
        );
    }
    Ok(tunnel_id)
}

/// The headers of a successful answer to a registration.
#[derive(Debug)]
pub struct TunnelHeaders {
    /// `X-Tnl-Url`: the public URL of the tunnel.
    pub url: String,
    /// `X-Tnl-Control-Sessions`: how many sessions the node may open.
    pub control_sessions: String,
    /// `X-Tnl-Transport-Pool`: how many idle transports the node is to keep.
    pub transport_pool: String,
    /// The version of the protocol.
    pub protocol_version: &'static str,
}

/// The public URL of a tunnel under a domain.
pub open spec fn tunnel_url_of(id: Seq<char>, domain: Seq<char>) -> Seq<char> {
    "https://"@ + id + "."@ + domain
}

/// The public URL of a tunnel under a domain.
pub fn public_url(tunnel_id: &TunnelId, domain: &str) -> (result: String)
    ensures
        result@ == tunnel_url_of(tunnel_id@, domain@),
{
    let url = "https://".to_owned().concat(tunnel_id.as_str());
    let url = url.concat(".");
    url.concat(domain)
}

/// Answers a registration. There is no answer where the URL cannot be a header value.
pub fn open_tunnel(tunnel_id: &TunnelId, domain: &str) -> (result: Result<TunnelHeaders, u16>)
    ensures
        match result {
            Ok(headers) => {
                &&& is_header_value(tunnel_url_of(tunnel_id@, domain@))
                &&& headers.url@ == tunnel_url_of(tunnel_id@, domain@)
                &&& headers.control_sessions@ == digits_of(MAX_SESSIONS_PER_TUNNEL as nat)
                &&& headers.transport_pool@ == digits_of(
                    RECOMMENDED_IDLE_TRANSPORTS_PER_TUNNEL as nat,
                )
                &&& headers.protocol_version@ == PROTOCOL_VERSION@
            },
            Err(status) => {
                &&& !is_header_value(tunnel_url_of(tunnel_id@, domain@))
                &&& status == STATUS_INTERNAL_SERVER_ERROR
            },
        },
{
    let url = public_url(tunnel_id, domain);
    if !valid_header_value(&url) {
        return Err(STATUS_INTERNAL_SERVER_ERROR);
    }
    Ok(
        TunnelHeaders {
            url,
            control_sessions: number(MAX_SESSIONS_PER_TUNNEL as u64),
            transport_pool: number(RECOMMENDED_IDLE_TRANSPORTS_PER_TUNNEL as u64),
            protocol_version: PROTOCOL_VERSION,
        },
    )
}

/// A node that was registered, with the number of its session.
pub struct Registration {
    pub tunnel_id: TunnelId,
    pub session_id: u64,
}

/// Registers a node with a registry: the tunnel's name has to be one, and free.
pub fn register_node<S, D, F: Fn(&TunnelId) -> String>(
    registry: &mut TunnelRegistry<S, D, F>,
    tunnel_id: &str,
    client: &ClientIdentity,
    sender: S,
) -> (result: Result<Registration, Rejection>)
    requires
        old(registry).wf(),
    ensures
        final(registry).wf(),
        final(registry).url_rule() == old(registry).url_rule(),
        match result {
            Ok(registration) => {
                &&& is_tunnel_id(tunnel_id@)
                &&& old(registry)@.is_free(tunnel_id@)
                &&& registration.tunnel_id@ == tunnel_id@
                &&& final(registry)@ == old(registry)@.after_register(
                    tunnel_id@,
                    client.token_hash@,
                    registration.session_id,
                    sender,
                )
            },
            Err(rejection) => {
                &&& final(registry)@ == old(registry)@
                &&& if is_tunnel_id(tunnel_id@) {
                    &&& !old(registry)@.is_free(tunnel_id@)
                    &&& rejection.is(STATUS_CONFLICT, "tunnel name is already in use"@)
                } else {
                    rejection.is(STATUS_BAD_REQUEST, "invalid tunnel name"@)
                }
            },
        },
{
    let tunnel_id = match TunnelId::new(tunnel_id) {
        Ok(id) => id,
        Err(_) => {
            return Err(Rejection { status: STATUS_BAD_REQUEST, body: "invalid tunnel name" });
        },
    };
    match registry.register(&tunnel_id, &client.token_hash, sender) {
        Some(session_id) => Ok(Registration { tunnel_id, session_id }),
        None => Err(Rejection { status: STATUS_CONFLICT, body: "tunnel name is already in use" }),
    }
}

/// Takes a connection that the client was asked for.
pub fn take_connection<S, D, F: Fn(&TunnelId) -> String>(
    registry: &mut TunnelRegistry<S, D, F>,
    connection_id: &str,
    client: &ClientIdentity,
) -> (result: Result<D, u16>)
    requires
        old(registry).wf(),
    ensures
        final(registry).wf(),
        final(registry).url_rule() == old(registry).url_rule(),
        if old(registry)@.awaits(connection_id@, client.token_hash@) {
            &&& result == Ok::<D, u16>(old(registry)@.pending[connection_id@].sender)
            &&& final(registry)@ == old(registry)@.after_cancel(connection_id@)
        } else {
            &&& result == Err::<D, u16>(STATUS_NOT_FOUND)
            &&& final(registry)@ == old(registry)@
        },
{
    match registry.attach(connection_id, &client.token_hash) {
        Some(sender) => Ok(sender),
        None => Err(STATUS_NOT_FOUND),
    }
}

/// A request without the header, or with another version in it, is never accepted.
pub proof fn law_other_versions_are_refused(header: Option<Seq<u8>>)
    ensures
        header is None ==> !names_version(header),
        header matches Some(value) ==> value != seq![50u8] ==> !names_version(header),
        names_version(Some(seq![50u8])),
{
    reveal_strlit("2");
    let two = seq![50u8];
    assert(two.map_values(|byte: u8| byte as char) =~= PROTOCOL_VERSION@);
    if let Some(value) = header {
        if header_text_of(value) == Some(PROTOCOL_VERSION@) {
            let text = value.map_values(|byte: u8| byte as char);
            assert(text.len() == value.len());
            assert(text[0] == value[0] as char);
            assert(text[0] == '2');
            assert(value =~= two);
        }
    }
}

/// The value of an `Authorization` header with a token.
pub open spec fn bearer_header(token: Seq<char>) -> Seq<u8> {
    ("Bearer "@ + token).map_values(|c: char| c as u8)
}

/// A client that was given a token is let in with it.
pub proof fn law_enrolled_client_is_let_in(
    clients: Seq<(Seq<char>, Seq<char>)>,
    name: Seq<char>,
    token: Seq<char>,
)
    requires
        forall|i: int| 0 <= i < token.len() ==> is_base64_char(#[trigger] token[i]),
    ensures
        authentication_error(
            Some(bearer_header(token)),
            Some(enrolled(clients, name, token_hash_of(token))),
        ) is None,
{
    reveal_strlit("Bearer ");
    let text = "Bearer "@ + token;
    let value = bearer_header(token);
    assert forall|i: int| 0 <= i < value.len() implies is_text_byte(#[trigger] value[i])
        && value[i] as char == text[i] by {
        if i >= 7 {
            assert(is_base64_char(token[i - 7]));
            assert(text[i] == token[i - 7]);
        }
    }
    assert(value.map_values(|byte: u8| byte as char) =~= text);
    assert("Bearer "@.is_prefix_of(text)) by {
        assert(text.subrange(0, 7) =~= "Bearer "@);
    }
    assert(text.skip(7) =~= token);
    law_enrolled_client_is_known(clients, name, token_hash_of(token));
}

/// A header value is text exactly where all its bytes are visible ASCII characters, spaces or tabs,
/// and then it is the text of those characters.
pub proof fn law_header_text_is_ascii(value: &[u8], text: Option<String>)
    requires
        call_ensures(header_text, (value,), text),
    ensures
        text is Some <==> forall|i: int|
            0 <= i < value@.len() ==> #[trigger] value@[i] == 9 || 32 <= value@[i] <= 126,
        text matches Some(text) ==> {
            &&& text@.len() == value@.len()
            &&& forall|i: int| 0 <= i < value@.len() ==> #[trigger] text@[i] as u32 == value@[i]
        },
{
    if text is Some {
        assert forall|i: int| 0 <= i < value@.len() implies #[trigger] value@[i] == 9 || 32
            <= value@[i] <= 126 by {
            assert(is_text_byte(value@[i]));
        }
    }
}

/// The token in a header is what follows the word that introduces it, and a header without that
/// word has none.
pub proof fn law_bearer_token_follows_its_word(
    value: &[u8],
    token: Seq<char>,
    absent: Option<String>,
    found: Option<String>,
)
    requires
        call_ensures(bearer_token, (None::<&[u8]>,), absent),
        call_ensures(bearer_token, (Some(value),), found),
    ensures
        absent is None,
        ({
            let visible = forall|i: int|
                0 <= i < token.len() ==> #[trigger] token[i] == '\t' || ' ' <= token[i] <= '~';
            visible && value@ == seq![66u8, 101, 97, 114, 101, 114, 32] + token.map_values(
                |c: char| c as u8,
            ) ==> (found matches Some(text) && text@ == token)
        }),
        found matches Some(text) ==> {
            &&& value@.len() == text@.len() + 7
            &&& value@.take(7) == seq![66u8, 101, 97, 114, 101, 114, 32]
            &&& forall|i: int| 0 <= i < text@.len() ==> #[trigger] text@[i] as u32 == value@[i + 7]
        },
{
    reveal_strlit("Bearer ");
    let word = seq![66u8, 101, 97, 114, 101, 114, 32];
    let bytes = token.map_values(|c: char| c as u8);
    let visible = forall|i: int|
        0 <= i < token.len() ==> #[trigger] token[i] == '\t' || ' ' <= token[i] <= '~';
    if visible && value@ == word + bytes {
        let text = "Bearer "@ + token;
        assert forall|i: int| 0 <= i < value@.len() implies is_text_byte(#[trigger] value@[i])
            && value@[i] as char == text[i] by {
            if i >= 7 {
                assert(value@[i] == bytes[i - 7]);
                assert(token[i - 7] == '\t' || ' ' <= token[i - 7] <= '~');
                assert(text[i] == token[i - 7]);
            }
        }
        assert(value@.map_values(|byte: u8| byte as char) =~= text);
        assert("Bearer "@.is_prefix_of(text)) by {
            assert(text.subrange(0, 7) =~= "Bearer "@);
        }
        assert(text.skip(7) =~= token);
    }
    if let Some(text) = found {
        let whole = value@.map_values(|byte: u8| byte as char);
        assert("Bearer "@.is_prefix_of(whole));
        assert forall|i: int| 0 <= i < 7 implies value@[i] == word[i] by {
            assert(is_text_byte(value@[i]));
            assert(whole.subrange(0, 7)[i] == whole[i]);
            assert("Bearer "@[i] == whole[i]);
        }
        assert(value@.take(7) =~= word);
        assert forall|i: int| 0 <= i < text@.len() implies #[trigger] text@[i] as u32 == value@[i
            + 7] by {
            assert(text@[i] == whole[i + 7]);
        }
    }
}

/// A request is let in exactly where it has a token whose hash one of the clients has; it is then
/// known by that hash. Without a token it is refused, and without the clients nobody can tell.
pub proof fn law_known_clients_are_let_in(
    value: &[u8],
    clients: &Vec<Client>,
    token: Option<String>,
    result: Result<ClientIdentity, u16>,
    unreadable: Result<ClientIdentity, u16>,
    anonymous: Result<ClientIdentity, u16>,
)
    requires
        call_ensures(bearer_token, (Some(value),), token),
        call_ensures(authenticate, (Some(value), Some(clients)), result),
        call_ensures(authenticate, (Some(value), None::<&Vec<Client>>), unreadable),
        call_ensures(authenticate, (None::<&[u8]>, Some(clients)), anonymous),
    ensures
        anonymous == Err::<ClientIdentity, u16>(401),
        token is None ==> result == Err::<ClientIdentity, u16>(401) && unreadable == Err::<
            ClientIdentity,
            u16,
        >(401),
        token matches Some(token) ==> {
            let hash = hex_of(sha256_of(encode_utf8(token@)));
            &&& unreadable == Err::<ClientIdentity, u16>(500)
            &&& result is Ok <==> exists|i: int|
                0 <= i < clients@.len() && (#[trigger] clients@[i]).token_hash@ == hash
            &&& result matches Ok(identity) ==> identity.token_hash@ == hash
            &&& result is Err ==> result == Err::<ClientIdentity, u16>(401)
        },
{
    if let Some(token) = token {
        let hash = token_hash_of(token@);
        let list = client_list(clients@);
        if exists|i: int| 0 <= i < clients@.len() && (#[trigger] clients@[i]).token_hash@ == hash {
            let i = choose|i: int|
                0 <= i < clients@.len() && (#[trigger] clients@[i]).token_hash@ == hash;
            assert(list[i].1 == hash);
        }
        if knows(list, hash) {
            let i = choose|i: int| 0 <= i < list.len() && (#[trigger] list[i]).1 == hash;
            assert(clients@[i].token_hash@ == hash);
        }
    }
}

/// The version of a request is supported exactly where its header is the one byte of the version.
pub proof fn law_version_is_the_one_spoken(
    value: &[u8],
    missing: bool,
    supported: bool,
)
    requires
        call_ensures(protocol_version_supported, (None::<&[u8]>,), missing),
        call_ensures(protocol_version_supported, (Some(value),), supported),
    ensures
        !missing,
        supported <==> value@ == seq![50u8],
{
    law_other_versions_are_refused(Some(value@));
    law_other_versions_are_refused(None);
}

/// A request for a tunnel is accepted exactly where the server runs, the name is a tunnel name and
/// the version is the one that is spoken; it is refused for the first of these that fails.
pub proof fn law_tunnel_requests_are_validated(
    is_shutdown: bool,
    tunnel_id: &str,
    value: &[u8],
    result: Result<TunnelId, Rejection>,
    without: Result<TunnelId, Rejection>,
)
    requires
        call_ensures(validate_tunnel_request, (is_shutdown, tunnel_id, Some(value)), result),
        call_ensures(validate_tunnel_request, (is_shutdown, tunnel_id, None::<&[u8]>), without),
    ensures
        without is Err,
        result is Ok <==> !is_shutdown && is_tunnel_id(tunnel_id@) && value@ == seq![50u8],
        result matches Ok(id) ==> id@ == tunnel_id@,
        result matches Err(rejection) ==> rejection.status == if is_shutdown {
            503u16
        } else if !is_tunnel_id(tunnel_id@) {
            400u16
        } else {
            426u16
        },
        without matches Err(rejection) ==> rejection.status == if is_shutdown {
            503u16
        } else if !is_tunnel_id(tunnel_id@) {
            400u16
        } else {
            426u16
        },
{
    law_other_versions_are_refused(Some(value@));
    law_other_versions_are_refused(None);
}

/// The public URL of a tunnel is that of the host which leads to the tunnel.
pub proof fn law_public_url_leads_to_the_tunnel(
    id: &TunnelId,
    domain: &str,
    url: String,
    answer: Result<TunnelHeaders, u16>,
)
    requires
        call_ensures(public_url, (id, domain), url),
        call_ensures(open_tunnel, (id, domain), answer),
        is_tunnel_id(id@),
    ensures
        url@ == "https://"@ + (id@ + seq!['.'] + domain@),
        route_of(id@ + seq!['.'] + domain@, domain@) == Route::Tunnel(id@),
        answer matches Ok(headers) ==> {
            &&& headers.url@ == url@
            &&& headers.control_sessions@ == digits_of(8)
            &&& headers.transport_pool@ == digits_of(32)
            &&& headers.protocol_version@ == "2"@
        },
        answer matches Err(status) ==> status == 500,
        (forall|i: int| 0 <= i < domain@.len() ==> ' ' <= #[trigger] domain@[i] <= '~')
            ==> answer is Ok,
{
    reveal_strlit(".");
    reveal_strlit("https://");
    assert(url@ =~= "https://"@ + (id@ + seq!['.'] + domain@));
    law_tunnel_host_leads_to_the_tunnel(id@, domain@);
    if forall|i: int| 0 <= i < domain@.len() ==> ' ' <= #[trigger] domain@[i] <= '~' {
        let n = id@.len();
        assert forall|i: int| 0 <= i < url@.len() implies ' ' <= #[trigger] url@[i] <= '~' by {
            if i < 8 {
                assert(url@[i] == "https://"@[i]);
            } else if i < 8 + n {
                assert(url@[i] == id@[i - 8]);
                assert(is_tunnel_id_char(id@[i - 8]));
            } else if i == 8 + n {
            } else {
                assert(url@[i] == domain@[i - 9 - n]);
            }
        }
        lemma_ascii_is_a_header_value(url@);
    }
}

proof fn lemma_ascii_is_a_header_value(text: Seq<char>)
    requires
        forall|i: int| 0 <= i < text.len() ==> ' ' <= #[trigger] text[i] <= '~',
    ensures
        is_header_value(text),
{
    assert(is_ascii_chars(text));
    is_ascii_chars_encode_utf8(text);
}

/// A node is registered exactly where the name is a tunnel name that is free, and a connection is
/// taken exactly where it was asked for, from that client.
pub proof fn law_nodes_and_connections_are_answered<S, D, F: Fn(&TunnelId) -> String>(
    registering: &mut TunnelRegistry<S, D, F>,
    taking: &mut TunnelRegistry<S, D, F>,
    tunnel_id: &str,
    connection_id: &str,
    client: &ClientIdentity,
    sender: S,
    registered: Result<Registration, Rejection>,
    taken: Result<D, u16>,
)
    requires
        old(registering).wf(),
        old(taking).wf(),
        call_ensures(
            register_node::<S, D, F>,
            (registering, tunnel_id, client, sender),
            registered,
        ),
        call_ensures(take_connection::<S, D, F>, (taking, connection_id, client), taken),
    ensures
        ({
            let before = old(registering)@;
            let free = !before.shutdown && !before.tunnels.contains_key(tunnel_id@);
            &&& registered is Ok <==> is_tunnel_id(tunnel_id@) && free
            &&& registered matches Err(rejection) ==> rejection.status == if is_tunnel_id(
                tunnel_id@,
            ) {
                409u16
            } else {
                400u16
            }
            &&& registered is Err ==> final(registering)@ == before
            &&& registered is Ok ==> {
                let after = final(registering)@;
                after.tunnels.contains_key(tunnel_id@) && after.tunnels[tunnel_id@].owner
                    == client.token_hash@
            }
        }),
        ({
            let before = old(taking)@;
            let asked = before.pending.contains_key(connection_id@)
                && before.pending[connection_id@].owner == client.token_hash@;
            &&& taken is Ok <==> asked
            &&& asked ==> taken == Ok::<D, u16>(before.pending[connection_id@].sender)
            &&& !asked ==> taken == Err::<D, u16>(404)
        }),
{
}

/// A text can be a header value exactly where its UTF-8 bytes are tabs or control nothing; a
/// tunnel is answered exactly where its public URL can be one.
pub proof fn law_header_values_control_nothing(
    text: &str,
    valid: bool,
    id: &TunnelId,
    domain: &str,
    url: String,
    answer: Result<TunnelHeaders, u16>,
)
    requires
        call_ensures(valid_header_value, (text,), valid),
        call_ensures(public_url, (id, domain), url),
        call_ensures(open_tunnel, (id, domain), answer),
        text@ == url@,
    ensures
        valid <==> forall|i: int|
            0 <= i < encode_utf8(text@).len() ==> {
                let byte = #[trigger] encode_utf8(text@)[i];
                byte == 9 || (32 <= byte && byte != 127)
            },
        answer is Ok <==> valid,
{
}

} // verus!
