//! Tokens, and the texts with which they are handed out.

use vstd::prelude::*;
use vstd::string::*;
use vstd::utf8::encode_utf8;

use crate::client::http::{is_token, valid_token};
use crate::config::{client_list, enroll, enrolled, knows, knows_token,
    law_enrolled_client_is_known, Client, Config};
use crate::external::{base64_bytes, base64_decode, base64_encode, base64_of, is_base64_char,
    parse_url, random_token_bytes, sha256, sha256_of, string_from_chars, url_parts, UrlParts};
use crate::net::local_text;
use crate::text::{after_prefix, chars_of, is_control_char, is_space,
    law_trimming_takes_white_space_off, same_text, trim, trimmed};

verus! {

/// What a login blob starts with.
pub const LOGIN_BLOB_PREFIX: &'static str = "tnl-login-v1.";

/// What a login blob of a server of the first generation starts with.
pub const LEGACY_LOGIN_BLOB_PREFIX: &'static str = "tunnel-login-v1.";

/// What the server's own machine is called as a client.
pub const LOCAL_CLIENT_NAME: &'static str = "tnld-local";

/// A digit of a hexadecimal number.
pub open spec fn hex_digit_of(n: int) -> char {
    if n < 10 {
        ((48 + n) as u8) as char
    } else {
        ((87 + n) as u8) as char
    }
}

/// Bytes in hexadecimal, two digits for each.
pub open spec fn hex_of(bytes: Seq<u8>) -> Seq<char> {
    Seq::new(
        2 * bytes.len(),
        |i: int|
            hex_digit_of(
                if i % 2 == 0 {
                    bytes[i / 2] as int / 16
                } else {
                    bytes[i / 2] as int % 16
                },
            ),
    )
}

fn hex_digit(n: u8) -> (result: char)
    requires
        n < 16,
    ensures
        result == hex_digit_of(n as int),
{
    if n < 10 {
        (48 + n) as char
    } else {
        (87 + n) as char
    }
}

/// Bytes in hexadecimal, two digits for each.
pub fn hex(bytes: &[u8]) -> (result: String)
    ensures
        result@ == hex_of(bytes@),
{
    let mut text: Vec<char> = Vec::new();
    let mut i: usize = 0;
    while i < bytes.len()
        invariant
            i <= bytes@.len(),
            text@ == hex_of(bytes@.take(i as int)),
        decreases bytes@.len() - i,
    {
        text.push(hex_digit(bytes[i] / 16));
        text.push(hex_digit(bytes[i] % 16));
        i += 1;
        assert(text@ =~= hex_of(bytes@.take(i as int)));
    }
    assert(bytes@.take(i as int) =~= bytes@);
    string_from_chars(&text)
}

/// Hexadecimal tells bytes apart.
pub proof fn law_hex_is_unambiguous(a: Seq<u8>, b: Seq<u8>)
    requires
        hex_of(a) == hex_of(b),
    ensures
        a == b,
{
    assert(hex_of(a).len() == 2 * a.len());
    assert(hex_of(b).len() == 2 * b.len());
    assert forall|i: int| 0 <= i < a.len() implies a[i] == b[i] by {
        assert(hex_of(a)[2 * i] == hex_of(b)[2 * i]);
        assert(hex_of(a)[2 * i + 1] == hex_of(b)[2 * i + 1]);
        assert((2 * i) % 2 == 0 && (2 * i) / 2 == i);
        assert((2 * i + 1) % 2 == 1 && (2 * i + 1) / 2 == i);
        assert(hex_of(a)[2 * i] == hex_digit_of(a[i] as int / 16));
        assert(hex_of(b)[2 * i] == hex_digit_of(b[i] as int / 16));
        assert(hex_of(a)[2 * i + 1] == hex_digit_of(a[i] as int % 16));
        assert(hex_of(b)[2 * i + 1] == hex_digit_of(b[i] as int % 16));
        lemma_hex_digit(a[i] as int / 16, b[i] as int / 16);
        lemma_hex_digit(a[i] as int % 16, b[i] as int % 16);
    }
    assert(a =~= b);
}

proof fn lemma_hex_digit(m: int, n: int)
    requires
        0 <= m < 16,
        0 <= n < 16,
        hex_digit_of(m) == hex_digit_of(n),
    ensures
        m == n,
{
}

/// The hash that a token is known by.
pub open spec fn token_hash_of(token: Seq<char>) -> Seq<char> {
    hex_of(sha256_of(encode_utf8(token)))
}

/// The hash that a token is known by.
pub fn hash_token(token: &str) -> (result: String)
    ensures
        result@ == token_hash_of(token@),
{
    hex(&sha256(token.as_bytes()))
}

/// A token, and the hash that it is known by.
#[derive(Debug)]
pub struct IssuedToken {
    pub token: String,
    pub token_hash: String,
}

/// How many random bytes a token is made of.
pub const TOKEN_LENGTH: usize = 32;

/// Whether a token can have been issued: it stands for as many bytes as a token is made of.
pub open spec fn is_issued(token: Seq<char>) -> bool {
    exists|bytes: Seq<u8>| bytes.len() == TOKEN_LENGTH && token == #[trigger] base64_of(bytes)
}

proof fn lemma_base64_text_is_a_token(text: Seq<char>)
    requires
        text.len() > 0,
        forall|i: int| 0 <= i < text.len() ==> is_base64_char(#[trigger] text[i]),
    ensures
        is_token(text),
{
    assert forall|i: int| 0 <= i < text.len() implies !is_control_char(#[trigger] text[i]) by {
        assert(is_base64_char(text[i]));
    }
}

/// The token made of bytes. With at least one byte, it is a token that a login accepts.
pub fn token_from(bytes: &[u8]) -> (result: IssuedToken)
    requires
        bytes@.len() <= usize::MAX / 4,
    ensures
        bytes@.len() > 0 ==> is_token(result.token@),
        result.token@ == base64_of(bytes@),
        result.token_hash@ == token_hash_of(base64_of(bytes@)),
        forall|i: int| 0 <= i < result.token@.len() ==> is_base64_char(#[trigger] result.token@[i]),
{
    let token = base64_encode(bytes);
    proof {
        if bytes@.len() > 0 {
            lemma_base64_text_is_a_token(token@);
        }
    }
    let token_hash = hash_token(&token);
    IssuedToken { token, token_hash }
}

/// Makes a token at random. Which one is left open: that is chance.
pub fn issue_token() -> (result: IssuedToken)
    ensures
        is_issued(result.token@),
        is_token(result.token@),
        result.token_hash@ == token_hash_of(result.token@),
        forall|i: int| 0 <= i < result.token@.len() ==> is_base64_char(#[trigger] result.token@[i]),
{
    let bytes = random_token_bytes();
    token_from(&bytes)
}

/// Why a login blob, or what it holds, is not accepted.
#[derive(Clone, Copy, Debug, PartialEq, Eq, Structural)]
pub enum LoginError {
    InvalidBlob,
    InvalidUrl,
    NotHttps,
    InvalidToken,
}

impl LoginError {
    /// The words that the error is reported with.
    pub open spec fn text(self, prefix: Seq<char>) -> Seq<char> {
        match self {
            LoginError::InvalidBlob => "not a valid "@ + prefix + "* login blob"@,
            LoginError::InvalidUrl => "login blob contains an invalid API URL"@,
            LoginError::NotHttps => "login blob API URL must be an HTTPS URL with a host"@,
            LoginError::InvalidToken => "login blob contains an invalid token"@,
        }
    }

    /// The words that the error is reported with.
    pub fn message(self, prefix: &str) -> (result: String)
        ensures
            result@ == self.text(prefix@),
    {
        match self {
            LoginError::InvalidBlob => {
                let text = "not a valid ".to_owned().concat(prefix);
                text.concat("* login blob")
            },
            LoginError::InvalidUrl => "login blob contains an invalid API URL".to_owned(),
            LoginError::NotHttps => "login blob API URL must be an HTTPS URL with a host".to_owned(),
            LoginError::InvalidToken => "login blob contains an invalid token".to_owned(),
        }
    }
}

/// What is left of a text after a prefix.
pub open spec fn rest_of(text: Seq<char>, prefix: Seq<char>) -> Option<Seq<char>> {
    if text.len() >= prefix.len() && text.take(prefix.len() as int) == prefix {
        Some(text.skip(prefix.len() as int))
    } else {
        None
    }
}

/// The bytes in a login blob, if it is one.
pub open spec fn blob_bytes(prefix: Seq<char>, blob: Seq<char>) -> Option<Seq<u8>> {
    match rest_of(trimmed(blob), prefix) {
        Some(encoded) => base64_bytes(encoded),
        None => None,
    }
}

/// The Base64 part of a login blob, if it has the prefix of one.
pub fn encoded_part(prefix: &str, blob: &str) -> (result: Option<String>)
    ensures
        match result {
            Some(encoded) => rest_of(trimmed(blob@), prefix@) == Some(encoded@),
            None => rest_of(trimmed(blob@), prefix@) is None,
        },
{
    match after_prefix(&trim(&chars_of(blob)), &chars_of(prefix)) {
        Some(encoded) => Some(string_from_chars(&encoded)),
        None => None,
    }
}

/// Takes the bytes out of a login blob.
pub fn open_login_blob(prefix: &str, blob: &str) -> (result: Result<Vec<u8>, LoginError>)
    ensures
        match result {
            Ok(bytes) => blob_bytes(prefix@, blob@) == Some(bytes@),
            Err(error) => blob_bytes(prefix@, blob@) is None && error == LoginError::InvalidBlob,
        },
{
    match encoded_part(prefix, blob) {
        None => Err(LoginError::InvalidBlob),
        Some(encoded) => match base64_decode(&encoded) {
            None => Err(LoginError::InvalidBlob),
            Some(bytes) => Ok(bytes),
        },
    }
}

/// Whether a text can stand at the start of a login blob: white space is at neither end of it.
pub open spec fn is_blob_prefix(prefix: Seq<char>) -> bool {
    prefix.len() > 0 && !is_space(prefix[0]) && !is_space(prefix.last())
}

/// The two prefixes that there are can stand at the start of a login blob.
pub proof fn law_prefixes_can_start_a_blob()
    ensures
        is_blob_prefix(LOGIN_BLOB_PREFIX@),
        is_blob_prefix(LEGACY_LOGIN_BLOB_PREFIX@),
{
    reveal_strlit("tnl-login-v1.");
    reveal_strlit("tunnel-login-v1.");
}

proof fn lemma_trimmed(text: Seq<char>)
    requires
        text.len() > 0,
        !is_space(text[0]),
        !is_space(text.last()),
    ensures
        trimmed(text) == text,
{
    assert(text.skip(0) =~= text);
}

/// Makes a login blob that holds the bytes. Opening it gives them back.
pub fn login_blob(prefix: &str, bytes: &[u8]) -> (result: String)
    requires
        bytes@.len() <= usize::MAX / 4,
    ensures
        result@ == prefix@ + base64_of(bytes@),
        is_blob_prefix(prefix@) ==> blob_bytes(prefix@, result@) == Some(bytes@),
{
    let encoded = base64_encode(bytes);
    let blob = prefix.to_owned().concat(&encoded);
    proof {
        if is_blob_prefix(prefix@) {
            if encoded@.len() > 0 {
                assert(is_base64_char(encoded@[encoded@.len() - 1]));
                assert(blob@.last() == encoded@.last());
            } else {
                assert(blob@.last() == prefix@.last());
            }
            lemma_trimmed(blob@);
            assert(blob@.take(prefix@.len() as int) =~= prefix@);
            assert(blob@.skip(prefix@.len() as int) =~= encoded@);
        }
    }
    blob
}

/// Why what a login blob holds is not accepted, if it is not.
pub open spec fn login_error(
    parts: Option<(Seq<char>, Option<Seq<char>>, Option<Seq<char>>, Option<u16>)>,
    token: Seq<char>,
) -> Option<LoginError> {
    match parts {
        None => Some(LoginError::InvalidUrl),
        Some((scheme, host, _, _)) => if scheme != "https"@ || host is None {
            Some(LoginError::NotHttps)
        } else if !is_token(token) {
            Some(LoginError::InvalidToken)
        } else {
            None
        },
    }
}

/// Accepts what a login blob holds, where its URL has these parts.
pub fn check_login_parts(parts: Option<UrlParts>, token: &str) -> (result: Result<(), LoginError>)
    ensures
        ({
            let view = match parts {
                Some(parts) => Some(parts@),
                None => None,
            };
            match result {
                Ok(_) => login_error(view, token@) is None,
                Err(error) => login_error(view, token@) == Some(error),
            }
        }),
{
    match &parts {
        None => Err(LoginError::InvalidUrl),
        Some(parts) => {
            if !same_text(&parts.scheme, "https") || parts.host.is_none() {
                Err(LoginError::NotHttps)
            } else if !valid_token(token) {
                Err(LoginError::InvalidToken)
            } else {
                Ok(())
            }
        },
    }
}

/// Accepts what a login blob holds.
pub fn check_login(api_url: &str, token: &str) -> (result: Result<(), LoginError>)
    ensures
        match result {
            Ok(_) => login_error(url_parts(api_url@), token@) is None,
            Err(error) => login_error(url_parts(api_url@), token@) == Some(error),
        },
{
    check_login_parts(parse_url(api_url), token)
}

/// What an invited client logs in with.
#[derive(Debug)]
pub struct LoginPayload {
    pub api_url: String,
    pub token: String,
}

/// What a login blob holds, by the characters.
pub open spec fn payload_text(payload: Option<LoginPayload>) -> Option<(Seq<char>, Seq<char>)> {
    match payload {
        Some(payload) => Some((payload.api_url@, payload.token@)),
        None => None,
    }
}

/// What a login with a payload that was found in a blob comes to.
pub open spec fn login_with(fields: Option<(Seq<char>, Seq<char>)>) -> Result<
    (Seq<char>, Seq<char>),
    LoginError,
> {
    match fields {
        None => Err(LoginError::InvalidBlob),
        Some((api_url, token)) => match login_error(url_parts(api_url), token) {
            Some(error) => Err(error),
            None => Ok((api_url, token)),
        },
    }
}

/// What a login with a blob comes to, where `fields` says what URL and token bytes hold, if they
/// hold any: the URL and the token to be saved, or an error and nothing to be saved.
pub open spec fn login_of(
    prefix: Seq<char>,
    blob: Seq<char>,
    fields: spec_fn(Seq<u8>) -> Option<(Seq<char>, Seq<char>)>,
) -> Result<(Seq<char>, Seq<char>), LoginError> {
    match blob_bytes(prefix, blob) {
        None => Err(LoginError::InvalidBlob),
        Some(bytes) => login_with(fields(bytes)),
    }
}

/// A login by the characters.
pub open spec fn login_text(result: Result<LoginPayload, LoginError>) -> Result<
    (Seq<char>, Seq<char>),
    LoginError,
> {
    match result {
        Ok(payload) => Ok((payload.api_url@, payload.token@)),
        Err(error) => Err(error),
    }
}

/// Logs in with a payload that was found in a blob, or not: returns what is to be saved.
pub fn accept_payload(payload: Option<LoginPayload>) -> (result: Result<LoginPayload, LoginError>)
    ensures
        login_text(result) == login_with(payload_text(payload)),
{
    match payload {
        None => Err(LoginError::InvalidBlob),
        Some(payload) => match check_login(&payload.api_url, &payload.token) {
            Err(error) => Err(error),
            Ok(()) => Ok(payload),
        },
    }
}

/// Logs in with a blob, in which `parse` finds a payload or not: returns what is to be saved.
pub fn login<F>(prefix: &str, blob: &str, parse: F) -> (result: Result<LoginPayload, LoginError>)
    where F: Fn(Vec<u8>) -> Option<LoginPayload>
    requires
        forall|bytes: Vec<u8>| #[trigger] call_requires(parse, (bytes,)),
    ensures
        match blob_bytes(prefix@, blob@) {
            None => result == Err::<LoginPayload, LoginError>(LoginError::InvalidBlob),
            Some(bytes) => exists|input: Vec<u8>, payload: Option<LoginPayload>|
                {
                    &&& input@ == bytes
                    &&& #[trigger] call_ensures(parse, (input,), payload)
                    &&& login_text(result) == login_with(payload_text(payload))
                },
        },
        forall|fields: spec_fn(Seq<u8>) -> Option<(Seq<char>, Seq<char>)>|
            #![trigger login_of(prefix@, blob@, fields)]
            (forall|input: Vec<u8>, payload: Option<LoginPayload>| #[trigger]
                call_ensures(parse, (input,), payload) ==> payload_text(payload) == fields(input@))
                ==> login_text(result) == login_of(prefix@, blob@, fields),
{
    match open_login_blob(prefix, blob) {
        Err(error) => Err(error),
        Ok(bytes) => accept_payload(parse(bytes)),
    }
}

/// A login succeeds exactly on a blob that is, but for white space around it, the prefix followed
/// by the Base64 text of bytes that hold a URL and a token, where the URL is an HTTPS URL with a
/// host and the token is not empty and controls nothing. What is saved is that URL and that token.
pub proof fn law_login_accepts_exactly_good_blobs(
    prefix: Seq<char>,
    blob: Seq<char>,
    fields: spec_fn(Seq<u8>) -> Option<(Seq<char>, Seq<char>)>,
    api_url: Seq<char>,
    token: Seq<char>,
)
    ensures
        login_of(prefix, blob, fields) == Ok::<(Seq<char>, Seq<char>), LoginError>((api_url, token))
            <==> exists|encoded: Seq<char>|
            {
                &&& trimmed(blob) == prefix + encoded
                &&& #[trigger] base64_bytes(encoded) matches Some(bytes)
                &&& fields(bytes) == Some((api_url, token))
                &&& url_parts(api_url) matches Some((scheme, Some(_), _, _))
                &&& scheme == "https"@
                &&& is_token(token)
            },
{
    let text = trimmed(blob);
    let n = prefix.len() as int;
    if login_of(prefix, blob, fields) == Ok::<(Seq<char>, Seq<char>), LoginError>(
        (api_url, token),
    ) {
        let encoded = rest_of(text, prefix)->0;
        assert(text =~= prefix + encoded);
        assert(base64_bytes(encoded) is Some);
    }
    assert forall|encoded: Seq<char>| #[trigger] base64_bytes(encoded) is Some && text == prefix
        + encoded implies rest_of(text, prefix) == Some(encoded) by {
        assert((prefix + encoded).take(n) =~= prefix);
        assert((prefix + encoded).skip(n) =~= encoded);
    }
}

/// A client that was invited can log in with the blob that it was handed, where the server's URL
/// has a host and the blob holds what it was made for.
pub proof fn law_invited_client_can_log_in(
    prefix: Seq<char>,
    blob: Seq<char>,
    bytes: Seq<u8>,
    fields: spec_fn(Seq<u8>) -> Option<(Seq<char>, Seq<char>)>,
    api_url: Seq<char>,
    token: Seq<char>,
)
    requires
        blob_bytes(prefix, blob) == Some(bytes),
        fields(bytes) == Some((api_url, token)),
        url_parts(api_url) matches Some((scheme, Some(_), _, _)) && scheme == "https"@,
        is_token(token),
    ensures
        login_of(prefix, blob, fields) == Ok::<(Seq<char>, Seq<char>), LoginError>(
            (api_url, token),
        ),
{
}

/// The client configuration that a server finds on its own machine.
#[derive(Debug)]
pub struct ClientConfig {
    pub api_url: String,
    pub token: String,
    pub connect_addr: String,
}

/// Whether a client configuration leads to a server: to its URL, by its address, and with a token
/// that it knows.
pub open spec fn config_works(
    found: ClientConfig,
    api_url: Seq<char>,
    connect_addr: Seq<char>,
    clients: Seq<(Seq<char>, Seq<char>)>,
) -> bool {
    &&& found.api_url@ == api_url
    &&& found.connect_addr@ == connect_addr
    &&& knows(clients, token_hash_of(found.token@))
}

/// Whether the client configuration that a server finds on its own machine leads to the server.
pub fn existing_config_works(
    found: Option<&ClientConfig>,
    api_url: &str,
    connect_addr: &str,
    clients: &[Client],
) -> (result: bool)
    ensures
        result == (found matches Some(found) && config_works(
            *found,
            api_url@,
            connect_addr@,
            client_list(clients@),
        )),
{
    match found {
        None => false,
        Some(found) => same_text(&found.api_url, api_url) && same_text(
            &found.connect_addr,
            connect_addr,
        ) && knows_token(clients, &hash_token(&found.token)),
    }
}

/// Makes sure that the server's own machine is a client, with this token if it needs one: returns
/// what the client is to be configured with, or nothing where the configuration that was found
/// leads to the server already.
pub fn adopt_local_client(
    config: &mut Config,
    found: Option<&ClientConfig>,
    issued: IssuedToken,
) -> (result: Option<ClientConfig>)
    ensures
        ({
            let before = *old(config);
            let after = *final(config);
            let connect_addr = local_text(before.public_ip.v4(), before.listen_port);
            let works = found matches Some(found) && config_works(
                *found,
                before.url(),
                connect_addr,
                client_list(before.clients@),
            );
            match result {
                None => works && after == before,
                Some(client) => {
                    &&& !works
                    &&& client.api_url@ == before.url()
                    &&& client.connect_addr@ == connect_addr
                    &&& client.token == issued.token
                    &&& client_list(after.clients@) == enrolled(
                        client_list(before.clients@),
                        LOCAL_CLIENT_NAME@,
                        issued.token_hash@,
                    )
                    &&& after.same_server(before)
                },
            }
        }),
{
    let api_url = config.api_url();
    let connect_addr = config.local_api_text();
    if existing_config_works(found, &api_url, &connect_addr, &config.clients) {
        return None;
    }
    enroll(&mut config.clients, LOCAL_CLIENT_NAME, issued.token_hash);
    Some(ClientConfig { api_url, token: issued.token, connect_addr })
}

/// Makes sure that the server's own machine is a client: returns what the client is to be
/// configured with, or nothing where the configuration that was found leads to the server
/// already.
pub fn ensure_local_client(config: &mut Config, found: Option<&ClientConfig>) -> (result: Option<
    ClientConfig,
>)
    ensures
        ({
            let before = *old(config);
            let after = *final(config);
            let connect_addr = local_text(before.public_ip.v4(), before.listen_port);
            let works = found matches Some(found) && config_works(
                *found,
                before.url(),
                connect_addr,
                client_list(before.clients@),
            );
            match result {
                None => works && after == before,
                Some(client) => {
                    &&& !works
                    &&& is_issued(client.token@)
                    &&& is_token(client.token@)
                    &&& config_works(client, after.url(), connect_addr, client_list(after.clients@))
                    &&& client_list(after.clients@) == enrolled(
                        client_list(before.clients@),
                        LOCAL_CLIENT_NAME@,
                        token_hash_of(client.token@),
                    )
                    &&& after.same_server(before)
                },
            }
        }),
{
    let issued = issue_token();
    proof {
        law_enrolled_client_is_known(
            client_list(config.clients@),
            LOCAL_CLIENT_NAME@,
            issued.token_hash@,
        );
    }
    adopt_local_client(config, found, issued)
}

/// The name of a client to invite, without white space around it. There has to be one.
pub fn client_name(name: &str) -> (result: Option<String>)
    ensures
        match result {
            Some(text) => text@ == trimmed(name@) && text@.len() > 0,
            None => trimmed(name@).len() == 0,
        },
{
    let text = trim(&chars_of(name));
    if text.len() == 0 {
        None
    } else {
        Some(string_from_chars(&text))
    }
}

/// Invites a client with this token: returns what it logs in with, or nothing where it has no
/// name.
pub fn invite_with(config: &mut Config, name: &str, issued: IssuedToken) -> (result: Option<
    LoginPayload,
>)
    ensures
        match result {
            None => trimmed(name@).len() == 0 && *final(config) == *old(config),
            Some(payload) => {
                &&& trimmed(name@).len() > 0
                &&& payload.api_url@ == old(config).url()
                &&& payload.token == issued.token
                &&& client_list(final(config).clients@) == enrolled(
                    client_list(old(config).clients@),
                    trimmed(name@),
                    issued.token_hash@,
                )
                &&& final(config).same_server(*old(config))
            },
        },
{
    match client_name(name) {
        None => None,
        Some(name) => {
            enroll(&mut config.clients, &name, issued.token_hash);
            Some(LoginPayload { api_url: config.api_url(), token: issued.token })
        },
    }
}

/// Invites a client: returns what it logs in with, or nothing where it has no name.
pub fn invite(config: &mut Config, name: &str) -> (result: Option<LoginPayload>)
    ensures
        match result {
            None => trimmed(name@).len() == 0 && *final(config) == *old(config),
            Some(payload) => {
                &&& trimmed(name@).len() > 0
                &&& payload.api_url@ == old(config).url()
                &&& is_issued(payload.token@)
                &&& is_token(payload.token@)
                &&& forall|i: int|
                    0 <= i < payload.token@.len() ==> is_base64_char(#[trigger] payload.token@[i])
                &&& client_list(final(config).clients@) == enrolled(
                    client_list(old(config).clients@),
                    trimmed(name@),
                    token_hash_of(payload.token@),
                )
                &&& final(config).same_server(*old(config))
            },
        },
{
    invite_with(config, name, issue_token())
}

/// Bytes in hexadecimal: two lowercase digits for each byte, the higher first, and those of the
/// bytes one after the other.
pub proof fn law_hex_is_two_digits_for_each_byte(
    bytes: &[u8],
    a: Seq<u8>,
    b: Seq<u8>,
    byte: u8,
    text: String,
)
    requires
        call_ensures(hex, (bytes,), text),
    ensures
        bytes@ == seq![byte] ==> text@ == seq![
            "0123456789abcdef"@[byte as int / 16],
            "0123456789abcdef"@[byte as int % 16],
        ],
        bytes@ == a + b ==> text@ == hex_of(a) + hex_of(b),
        bytes@.len() == 0 ==> text@.len() == 0,
        hex_of(a) + hex_of(b) == hex_of(a + b),
{
    reveal_strlit("0123456789abcdef");
    assert forall|n: int| 0 <= n < 16 implies #[trigger] hex_digit_of(n) == "0123456789abcdef"@[n] by {}
    if bytes@ == seq![byte] {
        assert(text@.len() == 2);
        assert(text@[0] == hex_digit_of(byte as int / 16));
        assert(text@[1] == hex_digit_of(byte as int % 16));
        assert(text@ =~= seq![
            "0123456789abcdef"@[byte as int / 16],
            "0123456789abcdef"@[byte as int % 16],
        ]);
    }
    let all = a + b;
    assert forall|i: int| 0 <= i < 2 * all.len() implies #[trigger] hex_of(all)[i] == (hex_of(a)
        + hex_of(b))[i] by {
        if i < 2 * a.len() {
            assert(all[i / 2] == a[i / 2]);
        } else {
            let k = i - 2 * a.len();
            assert(i / 2 == a.len() + k / 2);
            assert(i % 2 == k % 2);
            assert(all[i / 2] == b[k / 2]);
        }
    }
    assert(hex_of(all) =~= hex_of(a) + hex_of(b));
}

/// A token is known by the SHA-256 digest of its UTF-8 bytes, in hexadecimal.
pub proof fn law_tokens_are_known_by_their_digest(token: &str, hash: String)
    requires
        call_ensures(hash_token, (token,), hash),
    ensures
        hash@ == hex_of(sha256_of(encode_utf8(token@))),
{
}

/// A token is the Base64 text of the bytes that it was made of, and comes with its hash.
pub proof fn law_token_is_base64(
    bytes: &[u8],
    issued: IssuedToken,
    random: IssuedToken,
    hash: String,
    token: &str,
)
    requires
        call_ensures(token_from, (bytes,), issued),
        call_ensures(issue_token, (), random),
        token@ == issued.token@,
        call_ensures(hash_token, (token,), hash),
    ensures
        issued.token@ == base64_of(bytes@),
        issued.token_hash@ == hash@,
        exists|bytes: Seq<u8>| bytes.len() == 32 && random.token@ == #[trigger] base64_of(bytes),
        random.token_hash@ == hex_of(sha256_of(encode_utf8(random.token@))),
{
}

/// A blob is opened by its prefix: what follows it, without white space around the whole, is
/// decoded. A text without the prefix is no blob.
pub proof fn law_blobs_are_opened_by_their_prefix(
    prefix: &str,
    blob: &str,
    before: Seq<char>,
    encoded: Seq<char>,
    after: Seq<char>,
    part: Option<String>,
    bytes: Result<Vec<u8>, LoginError>,
)
    requires
        call_ensures(encoded_part, (prefix, blob), part),
        call_ensures(open_login_blob, (prefix, blob), bytes),
    ensures
        ({
            let text = prefix@ + encoded;
            &&& (forall|i: int| 0 <= i < before.len() ==> is_space(#[trigger] before[i]))
            &&& (forall|i: int| 0 <= i < after.len() ==> is_space(#[trigger] after[i]))
            &&& text.len() > 0 ==> !is_space(text[0]) && !is_space(text.last())
            &&& blob@ == before + text + after
        }) ==> {
            &&& part matches Some(part)
            &&& part@ == encoded
            &&& match base64_bytes(encoded) {
                Some(decoded) => bytes matches Ok(bytes) && bytes@ == decoded,
                None => bytes == Err::<Vec<u8>, LoginError>(LoginError::InvalidBlob),
            }
        },
        part is None ==> bytes == Err::<Vec<u8>, LoginError>(LoginError::InvalidBlob),
        part is Some ==> prefix@.is_prefix_of(trimmed(blob@)),
{
    let text = prefix@ + encoded;
    if {
        &&& (forall|i: int| 0 <= i < before.len() ==> is_space(#[trigger] before[i]))
        &&& (forall|i: int| 0 <= i < after.len() ==> is_space(#[trigger] after[i]))
        &&& text.len() > 0 ==> !is_space(text[0]) && !is_space(text.last())
        &&& blob@ == before + text + after
    } {
        law_trimming_takes_white_space_off(before, text, after);
        let n = prefix@.len() as int;
        assert(text.take(n) =~= prefix@);
        assert(text.skip(n) =~= encoded);
    }
    if part is Some {
        let t = trimmed(blob@);
        assert(t.take(prefix@.len() as int) =~= t.subrange(0, prefix@.len() as int));
    }
}

/// A login is accepted exactly where the URL is an HTTPS URL with a host and the token is not empty
/// and controls nothing.
pub proof fn law_logins_need_a_secure_host_and_a_token(
    api_url: &str,
    token: &str,
    parts: UrlParts,
    result: Result<(), LoginError>,
    by_parts: Result<(), LoginError>,
    without: Result<(), LoginError>,
)
    requires
        url_parts(api_url@) == Some(parts@),
        call_ensures(check_login, (api_url, token), result),
        call_ensures(check_login_parts, (Some(parts), token), by_parts),
        call_ensures(check_login_parts, (None::<UrlParts>, token), without),
    ensures
        without == Err::<(), LoginError>(LoginError::InvalidUrl),
        ({
            let secure = parts.scheme@ == "https"@ && parts.host is Some;
            let good = token@.len() > 0 && forall|i: int|
                0 <= i < token@.len() ==> !(#[trigger] token@[i] <= '\u{1f}') && !('\u{7f}'
                    <= token@[i] <= '\u{9f}');
            &&& result is Ok <==> secure && good
            &&& by_parts is Ok <==> secure && good
            &&& !secure ==> result == Err::<(), LoginError>(LoginError::NotHttps)
            &&& secure && !good ==> result == Err::<(), LoginError>(LoginError::InvalidToken)
        }),
{
}

/// A configuration that is found works exactly where it names the server's URL and address, and
/// its token is that of one of the clients.
pub proof fn law_found_configuration_works(
    found: &ClientConfig,
    api_url: &str,
    connect_addr: &str,
    clients: &[Client],
    works: bool,
    without: bool,
)
    requires
        call_ensures(existing_config_works, (Some(found), api_url, connect_addr, clients), works),
        call_ensures(
            existing_config_works,
            (None::<&ClientConfig>, api_url, connect_addr, clients),
            without,
        ),
    ensures
        !without,
        works <==> found.api_url@ == api_url@ && found.connect_addr@ == connect_addr@ && exists|
            i: int,
        |
            0 <= i < clients@.len() && (#[trigger] clients@[i]).token_hash@ == hex_of(
                sha256_of(encode_utf8(found.token@)),
            ),
{
    let hash = token_hash_of(found.token@);
    let list = client_list(clients@);
    if exists|i: int| 0 <= i < clients@.len() && (#[trigger] clients@[i]).token_hash@ == hash {
        let i = choose|i: int|
            0 <= i < clients@.len() && (#[trigger] clients@[i]).token_hash@ == hash;
        assert(list[i].1 == hash);
    }
    if knows(list, hash) {
        let i = choose|i: int| 0 <= i < list.len() && (#[trigger] list[i]).1 == hash;
        assert(clients@[i].token_hash@ == hash);
    }
}

/// An invited client can be let in: the token that it is handed is one whose hash the
/// configuration then holds, and the URL is the server's. A client without a name is not invited.
pub proof fn law_invited_clients_are_enrolled(
    config: &mut Config,
    name: &str,
    result: Option<LoginPayload>,
)
    requires
        call_ensures(invite, (config, name), result),
    ensures
        result is Some <==> trimmed(name@).len() > 0,
        result is None ==> *final(config) == *old(config),
        result matches Some(payload) ==> {
            &&& exists|i: int|
                0 <= i < final(config).clients@.len() && (
                #[trigger] final(config).clients@[i]).token_hash@ == hex_of(
                    sha256_of(encode_utf8(payload.token@)),
                )
            &&& payload.token@.len() > 0
            &&& payload.api_url@ == old(config).url()
            &&& final(config).domain == old(config).domain
            &&& final(config).listen_port == old(config).listen_port
        },
{
    if let Some(payload) = result {
        let hash = token_hash_of(payload.token@);
        law_enrolled_client_is_known(client_list(old(config).clients@), trimmed(name@), hash);
        let list = client_list(final(config).clients@);
        let i = choose|i: int| 0 <= i < list.len() && (#[trigger] list[i]).1 == hash;
        assert(final(config).clients@[i].token_hash@ == hash);
    }
}

/// After the local client was made sure of, a configuration that leads to the server is there: the
/// one that was found, or the one that is returned. The one that was found is kept where it works.
pub proof fn law_local_client_is_made_sure_of(
    config: &mut Config,
    found: &ClientConfig,
    result: Option<ClientConfig>,
)
    requires
        call_ensures(ensure_local_client, (config, Some(found)), result),
    ensures
        ({
            let hash = hex_of(
                sha256_of(
                    encode_utf8(
                        match result {
                            Some(client) => client.token@,
                            None => found.token@,
                        },
                    ),
                ),
            );
            exists|i: int|
                0 <= i < final(config).clients@.len() && (
                #[trigger] final(config).clients@[i]).token_hash@ == hash
        }),
        result is None ==> *final(config) == *old(config) && found.api_url@ == old(config).url(),
        result matches Some(client) ==> client.api_url@ == final(config).url(),
{
    let token = match result {
        Some(client) => client.token@,
        None => found.token@,
    };
    let hash = token_hash_of(token);
    let list = client_list(final(config).clients@);
    let i = choose|i: int| 0 <= i < list.len() && (#[trigger] list[i]).1 == hash;
    assert(final(config).clients@[i].token_hash@ == hash);
}

/// What is put into a blob comes out of it.
pub proof fn law_blobs_come_back(
    prefix: &str,
    bytes: &[u8],
    blob: String,
    text: &str,
    opened: Result<Vec<u8>, LoginError>,
)
    requires
        bytes@.len() <= usize::MAX / 4,
        prefix@.len() > 0,
        !is_space(prefix@[0]),
        !is_space(prefix@.last()),
        call_ensures(login_blob, (prefix, bytes), blob),
        text@ == blob@,
        call_ensures(open_login_blob, (prefix, text), opened),
    ensures
        prefix@.is_prefix_of(blob@),
        opened matches Ok(out) && out@ == bytes@,
{
    assert(blob@.subrange(0, prefix@.len() as int) =~= prefix@);
}

/// A payload is saved as it was found where a login accepts it, and not at all elsewhere.
pub proof fn law_payloads_are_saved_as_found(
    payload: LoginPayload,
    result: Result<LoginPayload, LoginError>,
    api_url: &str,
    token: &str,
    checked: Result<(), LoginError>,
    without: Result<LoginPayload, LoginError>,
)
    requires
        call_ensures(accept_payload, (Some(payload),), result),
        api_url@ == payload.api_url@,
        token@ == payload.token@,
        call_ensures(check_login, (api_url, token), checked),
        call_ensures(accept_payload, (None::<LoginPayload>,), without),
    ensures
        result is Ok <==> checked is Ok,
        result matches Ok(saved) ==> saved.api_url@ == payload.api_url@ && saved.token@
            == payload.token@,
        result matches Err(error) ==> checked == Err::<(), LoginError>(error),
        without matches Err(error) && error == LoginError::InvalidBlob,
{
}

/// A client is invited by its name without the white space around it. It is handed the token and
/// the server's URL, and is enrolled by that name with the token's hash.
pub proof fn law_clients_are_invited_by_name(
    config: &mut Config,
    name: &str,
    before: Seq<char>,
    inner: Seq<char>,
    after: Seq<char>,
    issued: IssuedToken,
    result: Option<LoginPayload>,
    shown: Option<String>,
)
    requires
        forall|i: int| 0 <= i < before.len() ==> is_space(#[trigger] before[i]),
        forall|i: int| 0 <= i < after.len() ==> is_space(#[trigger] after[i]),
        inner.len() > 0 ==> !is_space(inner[0]) && !is_space(inner.last()),
        name@ == before + inner + after,
        call_ensures(invite_with, (config, name, issued), result),
        call_ensures(client_name, (name,), shown),
    ensures
        inner.len() == 0 ==> shown is None && result is None && *final(config) == *old(config),
        inner.len() > 0 ==> (shown matches Some(text) && text@ == inner),
        inner.len() > 0 ==> (result matches Some(payload) && payload.token@ == issued.token@
            && payload.api_url@ == old(config).url()),
        inner.len() > 0 ==> exists|i: int|
            0 <= i < final(config).clients@.len() && (#[trigger] final(config).clients@[i]).name@
                == inner && final(config).clients@[i].token_hash@ == issued.token_hash@,
{
    law_trimming_takes_white_space_off(before, inner, after);
    if inner.len() > 0 {
        lemma_enrolled_by_name(*old(config), *final(config), inner, issued.token_hash@);
    }
}

/// The server's own machine is enrolled as `tnld-local`, with the hash of the token that it is
/// configured with.
pub proof fn law_local_client_has_its_name(
    config: &mut Config,
    issued: IssuedToken,
    result: Option<ClientConfig>,
)
    requires
        call_ensures(adopt_local_client, (config, None::<&ClientConfig>, issued), result),
    ensures
        result matches Some(client) && {
            &&& client.token@ == issued.token@
            &&& client.api_url@ == old(config).url()
        },
        exists|i: int|
            0 <= i < final(config).clients@.len() && (#[trigger] final(config).clients@[i]).name@
                == seq!['t', 'n', 'l', 'd', '-', 'l', 'o', 'c', 'a', 'l']
                && final(config).clients@[i].token_hash@ == issued.token_hash@,
{
    reveal_strlit("tnld-local");
    let name = seq!['t', 'n', 'l', 'd', '-', 'l', 'o', 'c', 'a', 'l'];
    assert(LOCAL_CLIENT_NAME@ =~= name);
    lemma_enrolled_by_name(*old(config), *final(config), name, issued.token_hash@);
}

proof fn lemma_enrolled_by_name(
    before: Config,
    after: Config,
    name: Seq<char>,
    hash: Seq<char>,
)
    requires
        client_list(after.clients@) == enrolled(client_list(before.clients@), name, hash),
    ensures
        exists|i: int|
            0 <= i < after.clients@.len() && (#[trigger] after.clients@[i]).name@ == name
                && after.clients@[i].token_hash@ == hash,
{
    lemma_enrolled_pair(client_list(before.clients@), name, hash);
    let list = client_list(after.clients@);
    let i = choose|i: int| 0 <= i < list.len() && #[trigger] list[i] == (name, hash);
    assert(list[i] == (name, hash));
    assert(after.clients@[i].name@ == name);
}

proof fn lemma_enrolled_pair(clients: Seq<(Seq<char>, Seq<char>)>, name: Seq<char>, hash: Seq<char>)
    ensures
        exists|i: int|
            0 <= i < enrolled(clients, name, hash).len() && #[trigger] enrolled(
                clients,
                name,
                hash,
            )[i] == (name, hash),
    decreases clients.len(),
{
    let after = enrolled(clients, name, hash);
    if clients.len() == 0 || clients[0].0 == name {
        assert(after[0] == (name, hash));
    } else {
        let rest = enrolled(clients.drop_first(), name, hash);
        lemma_enrolled_pair(clients.drop_first(), name, hash);
        let i = choose|i: int| 0 <= i < rest.len() && #[trigger] rest[i] == (name, hash);
        assert(after[i + 1] == rest[i]);
    }
}

/// A login that is refused is refused in words that say why; for a text that is no blob they name
/// the prefix that one starts with.
pub proof fn law_refused_logins_say_why(error: LoginError, prefix: &str, text: String)
    requires
        call_ensures(LoginError::message, (error, prefix), text),
    ensures
        error is InvalidBlob ==> text@ == "not a valid "@ + prefix@ + "* login blob"@,
        error is InvalidUrl ==> text@ == "login blob contains an invalid API URL"@,
        error is NotHttps ==> text@ == "login blob API URL must be an HTTPS URL with a host"@,
        error is InvalidToken ==> text@ == "login blob contains an invalid token"@,
{
}

} // verus!
