//! The HTTP exchange with which a node opens a connection through the server's API.

use vstd::prelude::*;
use vstd::string::*;
use vstd::utf8::*;

use crate::external::{parse_url, string_from_chars, string_from_utf8, url_parts, UrlParts};
use crate::protocol::TunnelId;
use crate::text::{chars_of, digits_of, is_control, is_control_char, is_space, law_decimal_round_trip,
    law_lines_are_what_line_endings_end, law_split_gives_the_text_back, law_split_is_at_the_first,
    law_words_are_what_white_space_parts, lines, lines_of, lower, number, number_in, parse_number,
    same_chars, same_text, split_at_first, split_once, texts, to_lower, trim, trimmed, words,
    words_of};
use crate::{PROTOCOL_VERSION, PROTOCOL_VERSION_HEADER};

verus! {

/// The longest response header that is read.
pub const MAX_HTTP_RESPONSE_HEADER_LENGTH: usize = 16384;

/// An answer of the server other than success.
#[derive(Debug)]
pub struct ApiRejection {
    pub status: u16,
    pub status_line: String,
}

impl ApiRejection {
    /// The words that the error is reported with.
    pub fn message(&self) -> (result: String)
        ensures
            result@ == "tunnel server rejected the connection ("@ + self.status_line@ + ")"@,
    {
        let text = "tunnel server rejected the connection (".to_owned().concat(&self.status_line);
        text.concat(")")
    }
}

/// Why a connection through the API could not be opened.
#[derive(Debug)]
pub enum ApiError {
    InvalidUrl,
    NotHttps,
    InvalidToken,
    NoHost,
    NoPort,
    HeaderTooLarge,
    HeaderNotUtf8,
    EmptyResponse,
    InvalidStatus,
    Rejected(ApiRejection),
    MissingUrl,
}

/// An error by what it says.
pub ghost enum ApiErrorText {
    Plain(Seq<char>),
    /// An answer other than success, with its status line.
    Rejected(u16, Seq<char>),
}

impl ApiError {
    pub open spec fn text(self) -> ApiErrorText {
        match self {
            ApiError::InvalidUrl => ApiErrorText::Plain("config contains an invalid API URL"@),
            ApiError::NotHttps => ApiErrorText::Plain("config API URL must use HTTPS"@),
            ApiError::InvalidToken => ApiErrorText::Plain("config contains an invalid token"@),
            ApiError::NoHost => ApiErrorText::Plain("API URL does not contain a host"@),
            ApiError::NoPort => ApiErrorText::Plain("API URL does not contain a port"@),
            ApiError::HeaderTooLarge => ApiErrorText::Plain(
                "tunnel server HTTP response header is too large"@,
            ),
            ApiError::HeaderNotUtf8 => ApiErrorText::Plain(
                "tunnel server returned a non-UTF-8 HTTP response"@,
            ),
            ApiError::EmptyResponse => ApiErrorText::Plain(
                "tunnel server returned an empty HTTP response"@,
            ),
            ApiError::InvalidStatus => ApiErrorText::Plain(
                "tunnel server returned an invalid HTTP status"@,
            ),
            ApiError::Rejected(rejection) => ApiErrorText::Rejected(
                rejection.status,
                rejection.status_line@,
            ),
            ApiError::MissingUrl => ApiErrorText::Plain(
                "tunnel server response did not include X-Tnl-Url"@,
            ),
        }
    }

    /// The words that the error is reported with.
    pub fn message(&self) -> (result: String)
        ensures
            match self.text() {
                ApiErrorText::Plain(text) => result@ == text,
                ApiErrorText::Rejected(_, line) => result@
                    == "tunnel server rejected the connection ("@ + line + ")"@,
            },
    {
        match self {
            ApiError::InvalidUrl => "config contains an invalid API URL".to_owned(),
            ApiError::NotHttps => "config API URL must use HTTPS".to_owned(),
            ApiError::InvalidToken => "config contains an invalid token".to_owned(),
            ApiError::NoHost => "API URL does not contain a host".to_owned(),
            ApiError::NoPort => "API URL does not contain a port".to_owned(),
            ApiError::HeaderTooLarge => "tunnel server HTTP response header is too large".to_owned(),
            ApiError::HeaderNotUtf8 => "tunnel server returned a non-UTF-8 HTTP response".to_owned(),
            ApiError::EmptyResponse => "tunnel server returned an empty HTTP response".to_owned(),
            ApiError::InvalidStatus => "tunnel server returned an invalid HTTP status".to_owned(),
            ApiError::Rejected(rejection) => rejection.message(),
            ApiError::MissingUrl => "tunnel server response did not include X-Tnl-Url".to_owned(),
        }
    }
}

/// Whether a text can stand in a header as a token: it holds something, and nothing that controls.
pub open spec fn is_token(token: Seq<char>) -> bool {
    token.len() > 0 && forall|i: int| 0 <= i < token.len() ==> !is_control_char(#[trigger] token[i])
}

/// Accepts exactly the texts that can stand in a header as a token.
pub fn valid_token(token: &str) -> (result: bool)
    ensures
        result == is_token(token@),
{
    let text = chars_of(token);
    let mut i: usize = 0;
    while i < text.len()
        invariant
            i <= text@.len(),
            text@ == token@,
            forall|k: int| 0 <= k < i ==> !is_control_char(#[trigger] text@[k]),
        decreases text@.len() - i,
    {
        if is_control(text[i]) {
            return false;
        }
        i += 1;
    }
    text.len() > 0
}

/// Where the API is and how a node identifies itself to it.
#[derive(Debug)]
pub struct ApiEndpoint {
    /// The host to connect to.
    pub host: String,
    pub port: u16,
    /// What the `Host` header says.
    pub host_header: String,
    /// What the `Authorization` header says.
    pub authorization: String,
}

/// The `Host` header for a URL with a host and a port.
pub open spec fn host_header_of(host: Seq<char>, ipv6: Option<Seq<char>>, port: u16) -> Seq<char> {
    match ipv6 {
        Some(address) => "["@ + address + "]:"@ + digits_of(port as nat),
        None => host + ":"@ + digits_of(port as nat),
    }
}

/// Why a URL with these parts, and a token, do not lead to the API, if they do not.
pub open spec fn endpoint_error(
    parts: Option<(Seq<char>, Option<Seq<char>>, Option<Seq<char>>, Option<u16>)>,
    token: Seq<char>,
) -> Option<ApiError> {
    match parts {
        None => Some(ApiError::InvalidUrl),
        Some((scheme, host, _, port)) => if scheme != "https"@ {
            Some(ApiError::NotHttps)
        } else if !is_token(token) {
            Some(ApiError::InvalidToken)
        } else if host is None {
            Some(ApiError::NoHost)
        } else if port is None {
            Some(ApiError::NoPort)
        } else {
            None
        },
    }
}

/// Where a URL with these parts, and a token, lead to.
pub open spec fn is_endpoint(
    endpoint: ApiEndpoint,
    parts: Option<(Seq<char>, Option<Seq<char>>, Option<Seq<char>>, Option<u16>)>,
    token: Seq<char>,
) -> bool {
    parts matches Some((_, Some(host), ipv6, Some(port))) && {
        &&& endpoint.host@ == host
        &&& endpoint.port == port
        &&& endpoint.host_header@ == host_header_of(host, ipv6, port)
        &&& endpoint.authorization@ == "Bearer "@ + token
    }
}

/// Finds the API from the parts of its URL.
pub fn endpoint_at(parts: Option<UrlParts>, token: &str) -> (result: Result<ApiEndpoint, ApiError>)
    ensures
        ({
            let view = match parts {
                Some(parts) => Some(parts@),
                None => None,
            };
            match result {
                Ok(endpoint) => endpoint_error(view, token@) is None && is_endpoint(
                    endpoint,
                    view,
                    token@,
                ),
                Err(error) => endpoint_error(view, token@) == Some(error),
            }
        }),
{
    let parts = match parts {
        Some(parts) => parts,
        None => return Err(ApiError::InvalidUrl),
    };
    if !same_text(&parts.scheme, "https") {
        return Err(ApiError::NotHttps);
    }
    if !valid_token(token) {
        return Err(ApiError::InvalidToken);
    }
    let host = match parts.host {
        Some(host) => host,
        None => return Err(ApiError::NoHost),
    };
    let port = match parts.port {
        Some(port) => port,
        None => return Err(ApiError::NoPort),
    };
    let host_header = match &parts.ipv6 {
        Some(address) => {
            let text = "[".to_owned().concat(address.as_str());
            let text = text.concat("]:");
            text.concat(&number(port as u64))
        },
        None => {
            let text = host.clone().concat(":");
            text.concat(&number(port as u64))
        },
    };
    let authorization = "Bearer ".to_owned().concat(token);
    Ok(ApiEndpoint { host, port, host_header, authorization })
}

/// Finds the API by its URL.
pub fn find_endpoint(api_url: &str, token: &str) -> (result: Result<ApiEndpoint, ApiError>)
    ensures
        match result {
            Ok(endpoint) => {
                &&& endpoint_error(url_parts(api_url@), token@) is None
                &&& is_endpoint(endpoint, url_parts(api_url@), token@)
            },
            Err(error) => endpoint_error(url_parts(api_url@), token@) == Some(error),
        },
{
    endpoint_at(parse_url(api_url), token)
}

/// The request with which a node asks for a connection.
pub open spec fn connect_request_of(
    path: Seq<char>,
    host_header: Seq<char>,
    authorization: Seq<char>,
) -> Seq<char> {
    "CONNECT "@ + path + " HTTP/1.1\r\nHost: "@ + host_header + "\r\nAuthorization: "@
        + authorization + "\r\n\r\n"@
}

impl ApiEndpoint {
    /// The request with which a node asks for a connection.
    pub fn connect_request(&self, path: &str) -> (result: String)
        ensures
            result@ == connect_request_of(path@, self.host_header@, self.authorization@),
    {
        let text = "CONNECT ".to_owned().concat(path);
        let text = text.concat(" HTTP/1.1\r\nHost: ");
        let text = text.concat(&self.host_header);
        let text = text.concat("\r\nAuthorization: ");
        let text = text.concat(&self.authorization);
        text.concat("\r\n\r\n")
    }

    /// The request with which a node registers a tunnel.
    pub fn open_tunnel_request(&self, tunnel_id: &TunnelId) -> (result: String)
        ensures
            result@ == connect_request_of(
                "/v1/tunnels/"@ + tunnel_id@,
                self.host_header@,
                self.authorization@,
            ),
    {
        self.connect_request(&"/v1/tunnels/".to_owned().concat(tunnel_id.as_str()))
    }

    /// The request with which a node registers a tunnel with a server that asks for the version of
    /// the protocol.
    pub fn open_versioned_tunnel_request(&self, tunnel_id: &TunnelId) -> (result: String)
        ensures
            result@ == connect_request_of(
                "/v1/tunnels/"@ + tunnel_id@,
                self.host_header@,
                self.authorization@ + "\r\n"@ + PROTOCOL_VERSION_HEADER@ + ": "@
                    + PROTOCOL_VERSION@,
            ),
    {
        let text = self.authorization.clone().concat("\r\n");
        let text = text.concat(PROTOCOL_VERSION_HEADER);
        let text = text.concat(": ");
        let authorization = text.concat(PROTOCOL_VERSION);
        let versioned = ApiEndpoint {
            host: self.host.clone(),
            port: self.port,
            host_header: self.host_header.clone(),
            authorization,
        };
        versioned.open_tunnel_request(tunnel_id)
    }

    /// The request with which a node takes a connection that it was asked for.
    pub fn open_connection_request(&self, connection_id: &str) -> (result: String)
        ensures
            result@ == connect_request_of(
                "/v1/connections/"@ + connection_id@,
                self.host_header@,
                self.authorization@,
            ),
    {
        self.connect_request(&"/v1/connections/".to_owned().concat(connection_id))
    }
}

/// What ends a response header: a blank line.
pub const HEADER_END: [u8; 4] = [13, 10, 13, 10];

pub open spec fn ends_header(bytes: Seq<u8>) -> bool {
    bytes.len() >= 4 && bytes.skip(bytes.len() - 4) == HEADER_END@
}

/// How the reading of a response header stands.
#[derive(Clone, Copy, Debug, PartialEq, Eq, Structural)]
pub enum HeaderProgress {
    /// One more byte is to be read.
    Reading,
    /// The header is complete.
    Complete,
    /// The header is longer than any that is read.
    TooLarge,
}

/// A response header, read byte by byte so that nothing after it is taken from the connection.
pub struct HeaderReader {
    bytes: Vec<u8>,
}

impl View for HeaderReader {
    type V = Seq<u8>;

    closed spec fn view(&self) -> Seq<u8> {
        self.bytes@
    }
}

/// How the reading of a response header stands after these bytes.
pub open spec fn header_progress(bytes: Seq<u8>) -> HeaderProgress {
    if ends_header(bytes) {
        HeaderProgress::Complete
    } else if bytes.len() >= MAX_HTTP_RESPONSE_HEADER_LENGTH {
        HeaderProgress::TooLarge
    } else {
        HeaderProgress::Reading
    }
}

/// Whether the bytes were read one by one: nothing was read after the reading was over.
pub open spec fn is_header_part(bytes: Seq<u8>) -> bool {
    forall|n: int|
        0 <= n < bytes.len() ==> header_progress(#[trigger] bytes.take(n))
            == HeaderProgress::Reading
}

impl HeaderReader {
    pub open spec fn wf(self) -> bool {
        is_header_part(self@)
    }

    pub fn new() -> (result: Self)
        ensures
            result.wf(),
            result@ == Seq::<u8>::empty(),
    {
        HeaderReader { bytes: Vec::new() }
    }

    /// Says whether a byte is to be read.
    pub fn progress(&self) -> (result: HeaderProgress)
        ensures
            result == header_progress(self@),
    {
        let length = self.bytes.len();
        if length >= 4 {
            let mut i: usize = 0;
            while i < 4 && self.bytes[length - 4 + i] == HEADER_END[i]
                invariant
                    i <= 4 <= length == self.bytes@.len(),
                    forall|k: int|
                        0 <= k < i ==> #[trigger] self.bytes@[length - 4 + k] == HEADER_END@[k],
                decreases 4 - i,
            {
                i += 1;
            }
            if i == 4 {
                assert(self.bytes@.skip(length - 4) =~= HEADER_END@) by {
                    assert forall|k: int| 0 <= k < 4 implies self.bytes@.skip(length - 4)[k]
                        == HEADER_END@[k] by {
                        assert(self.bytes@[length - 4 + k] == HEADER_END@[k]);
                    }
                }
                return HeaderProgress::Complete;
            }
            assert(self.bytes@.skip(length - 4)[i as int] != HEADER_END@[i as int]);
        }
        if length >= MAX_HTTP_RESPONSE_HEADER_LENGTH {
            HeaderProgress::TooLarge
        } else {
            HeaderProgress::Reading
        }
    }

    /// Takes the next byte.
    pub fn push(&mut self, byte: u8)
        requires
            old(self).wf(),
            header_progress(old(self)@) == HeaderProgress::Reading,
        ensures
            final(self).wf(),
            final(self)@ == old(self)@.push(byte),
    {
        let ghost before = self@;
        self.bytes.push(byte);
        proof {
            assert forall|n: int| 0 <= n < self@.len() implies header_progress(
                #[trigger] self@.take(n),
            ) == HeaderProgress::Reading by {
                if n < before.len() {
                    assert(self@.take(n) =~= before.take(n));
                } else {
                    assert(self@.take(n) =~= before);
                }
            }
        }
    }

    /// The header as text, once its reading is over.
    pub fn finish(self) -> (result: Result<String, ApiError>)
        requires
            header_progress(self@) != HeaderProgress::Reading,
        ensures
            match result {
                Ok(text) => {
                    &&& ends_header(self@)
                    &&& valid_utf8(self@)
                    &&& text@ == decode_utf8(self@)
                },
                Err(error) => if ends_header(self@) {
                    error == ApiError::HeaderNotUtf8 && !valid_utf8(self@)
                } else {
                    error == ApiError::HeaderTooLarge
                },
            },
    {
        match self.progress() {
            HeaderProgress::Complete => {},
            _ => return Err(ApiError::HeaderTooLarge),
        }
        match string_from_utf8(self.bytes) {
            Some(text) => Ok(text),
            None => Err(ApiError::HeaderNotUtf8),
        }
    }
}

/// A response header is read up to its first blank line and no further: whatever follows in the
/// stream, the reading is over at the same byte.
pub proof fn law_header_is_not_overread(stream: Seq<u8>, m: int, n: int)
    requires
        0 <= m <= stream.len(),
        0 <= n <= stream.len(),
        is_header_part(stream.take(m)),
        is_header_part(stream.take(n)),
        header_progress(stream.take(m)) != HeaderProgress::Reading,
        header_progress(stream.take(n)) != HeaderProgress::Reading,
    ensures
        m == n,
{
    if m < n {
        assert(stream.take(n).take(m) =~= stream.take(m));
    } else if n < m {
        assert(stream.take(m).take(n) =~= stream.take(n));
    }
}

/// No more than the longest header is read.
pub proof fn law_header_is_bounded(bytes: Seq<u8>)
    requires
        is_header_part(bytes),
    ensures
        bytes.len() <= MAX_HTTP_RESPONSE_HEADER_LENGTH,
{
    if bytes.len() > MAX_HTTP_RESPONSE_HEADER_LENGTH {
        let n = MAX_HTTP_RESPONSE_HEADER_LENGTH as int;
        assert(header_progress(bytes.take(n)) == HeaderProgress::Reading);
    }
}

/// The status in a status line: its second word, as a number.
pub open spec fn status_in(line: Seq<char>) -> Option<nat> {
    if words_of(line).len() < 2 {
        None
    } else {
        number_in(words_of(line)[1], 65535)
    }
}

pub open spec fn is_success(status: nat) -> bool {
    200 <= status < 300
}

/// What a response header says of success.
pub open spec fn response_error(header: Seq<char>) -> Option<ApiErrorText> {
    let all = lines_of(header);
    if all.len() == 0 {
        Some(ApiError::EmptyResponse.text())
    } else if status_in(all[0]) is None {
        Some(ApiError::InvalidStatus.text())
    } else if !is_success(status_in(all[0])->0) {
        Some(ApiErrorText::Rejected(status_in(all[0])->0 as u16, all[0]))
    } else {
        None
    }
}

/// Accepts exactly the responses that report success.
pub fn check_response(header: &str) -> (result: Result<(), ApiError>)
    ensures
        match result {
            Ok(_) => response_error(header@) is None,
            Err(error) => response_error(header@) == Some(error.text()),
        },
{
    let text = chars_of(header);
    let all = lines(&text);
    proof {
        assert(texts(all@).len() == all@.len());
    }
    if all.len() == 0 {
        return Err(ApiError::EmptyResponse);
    }
    let line = &all[0];
    assert(lines_of(header@)[0] == line@);
    let parts = words(line);
    assert(texts(parts@).len() == parts@.len());
    if parts.len() < 2 {
        return Err(ApiError::InvalidStatus);
    }
    assert(words_of(line@)[1] == parts@[1]@);
    match parse_number(&parts[1], 65535) {
        None => Err(ApiError::InvalidStatus),
        Some(status) => {
            if status < 200 || status >= 300 {
                let status_line = string_from_chars(line);
                Err(ApiError::Rejected(ApiRejection { status: status as u16, status_line }))
            } else {
                Ok(())
            }
        },
    }
}

/// The value of the first header field with a name, which is given in lowercase.
pub open spec fn field_in(all: Seq<Seq<char>>, name: Seq<char>) -> Option<Seq<char>>
    decreases all.len(),
{
    if all.len() == 0 {
        None
    } else {
        match split_at_first(all[0], ':') {
            Some((key, value)) => if lower(key) == name {
                Some(trimmed(value))
            } else {
                field_in(all.drop_first(), name)
            },
            None => field_in(all.drop_first(), name),
        }
    }
}

/// Looks up a header field by its name, which is given in lowercase.
pub fn find_field(header: &str, name: &str) -> (result: Option<String>)
    ensures
        match result {
            Some(value) => field_in(lines_of(header@), name@) == Some(value@),
            None => field_in(lines_of(header@), name@) is None,
        },
{
    let text = chars_of(header);
    let wanted = chars_of(name);
    let all = lines(&text);
    let mut i: usize = 0;
    let ghost list = texts(all@);
    proof {
        assert(list.len() == all@.len());
        assert(list.skip(0) =~= list);
    }
    while i < all.len()
        invariant
            i <= all@.len() == list.len(),
            list == texts(all@),
            list == lines_of(header@),
            wanted@ == name@,
            field_in(list, name@) == field_in(list.skip(i as int), name@),
        decreases all@.len() - i,
    {
        proof {
            assert(list.skip(i as int)[0] == all@[i as int]@);
            assert(list.skip(i as int).drop_first() =~= list.skip(i + 1));
        }
        if let Some((key, value)) = split_once(&all[i], ':') {
            if same_chars(&to_lower(&key), &wanted) {
                return Some(string_from_chars(&trim(&value)));
            }
        }
        i += 1;
    }
    None
}

/// The public URL that a response header names.
pub open spec fn url_in(header: Seq<char>) -> Option<Seq<char>> {
    match field_in(lines_of(header), "x-tnl-url"@) {
        Some(value) => if value.len() > 0 {
            Some(value)
        } else {
            None
        },
        None => None,
    }
}

/// The public URL of a tunnel, from the response to its registration.
pub fn tunnel_url(header: &str) -> (result: Result<String, ApiError>)
    ensures
        match result {
            Ok(url) => response_error(header@) is None && url_in(header@) == Some(url@),
            Err(error) => match response_error(header@) {
                Some(text) => error.text() == text,
                None => url_in(header@) is None && error == ApiError::MissingUrl,
            },
        },
{
    if let Err(error) = check_response(header) {
        return Err(error);
    }
    match find_field(header, "x-tnl-url") {
        Some(value) => {
            if chars_of(&value).len() > 0 {
                Ok(value)
            } else {
                Err(ApiError::MissingUrl)
            }
        },
        None => Err(ApiError::MissingUrl),
    }
}

/// Whether a refused registration is not tried again: the server found fault with the request,
/// and not only because the last session of this node still holds the tunnel.
pub open spec fn is_fatal(error: ApiErrorText, has_registered: bool) -> bool {
    error matches ApiErrorText::Rejected(status, _) && 400 <= status < 500 && !(status == 409
        && has_registered)
}

/// Whether a failed registration is not tried again.
pub fn registration_error_is_fatal(error: &ApiError, has_registered: bool) -> (result: bool)
    ensures
        result == is_fatal(error.text(), has_registered),
{
    match error {
        ApiError::Rejected(rejection) => 400 <= rejection.status && rejection.status < 500 && !(
        rejection.status == 409 && has_registered),
        _ => false,
    }
}

/// A URL and a token lead to the API exactly where the URL is an HTTPS URL with a host and a port,
/// and the token is not empty and holds nothing that controls. They lead to that host and that
/// port, with the token behind the word that introduces it.
pub proof fn law_endpoint_is_where_the_url_points(
    api_url: &str,
    token: &str,
    parts: UrlParts,
    result: Result<ApiEndpoint, ApiError>,
    found: Result<ApiEndpoint, ApiError>,
    without: Result<ApiEndpoint, ApiError>,
)
    requires
        url_parts(api_url@) == Some(parts@),
        call_ensures(endpoint_at, (None::<UrlParts>, token), without),
        call_ensures(endpoint_at, (Some(parts), token), result),
        call_ensures(find_endpoint, (api_url, token), found),
    ensures
        ({
            let good = {
                &&& parts.scheme@ == "https"@
                &&& token@.len() > 0
                &&& forall|i: int|
                    0 <= i < token@.len() ==> !(#[trigger] token@[i] <= '\u{1f}') && !('\u{7f}'
                        <= token@[i] <= '\u{9f}')
                &&& parts.host is Some
                &&& parts.port is Some
            };
            &&& result is Ok <==> good
            &&& found is Ok <==> good
        }),
        without == Err::<ApiEndpoint, ApiError>(ApiError::InvalidUrl),
        ({
            let plain = token@.len() > 0 && forall|i: int|
                0 <= i < token@.len() ==> !(#[trigger] token@[i] <= '\u{1f}') && !('\u{7f}'
                    <= token@[i] <= '\u{9f}');
            result matches Err(error) ==> {
                &&& error is NotHttps <==> parts.scheme@ != "https"@
                &&& error is InvalidToken <==> parts.scheme@ == "https"@ && !plain
                &&& error is NoHost <==> parts.scheme@ == "https"@ && plain && parts.host is None
                &&& error is NoPort <==> parts.scheme@ == "https"@ && plain && parts.host is Some
                &&& found == Err::<ApiEndpoint, ApiError>(error)
            }
        }),
        result matches Ok(endpoint) ==> {
            &&& endpoint.host@ == parts.host->0@
            &&& endpoint.port == parts.port->0
            &&& endpoint.authorization@ == "Bearer "@ + token@
            &&& parts.ipv6 is None ==> endpoint.host_header@ == parts.host->0@ + ":"@ + digits_of(
                parts.port->0 as nat,
            )
            &&& parts.ipv6 matches Some(address) ==> endpoint.host_header@ == "["@ + address@
                + "]:"@ + digits_of(parts.port->0 as nat)
        },
        found matches Ok(endpoint) ==> {
            &&& endpoint.host@ == parts.host->0@
            &&& endpoint.port == parts.port->0
            &&& endpoint.authorization@ == "Bearer "@ + token@
            &&& parts.ipv6 is None ==> endpoint.host_header@ == parts.host->0@ + ":"@ + digits_of(
                parts.port->0 as nat,
            )
            &&& parts.ipv6 matches Some(address) ==> endpoint.host_header@ == "["@ + address@
                + "]:"@ + digits_of(parts.port->0 as nat)
        },
{
}

pub open spec fn is_one_line(text: Seq<char>) -> bool {
    forall|i: int| 0 <= i < text.len() ==> #[trigger] text[i] != '\n'
}

/// Lines, each with the ending that HTTP gives it.
pub open spec fn crlf_text(all: Seq<Seq<char>>) -> Seq<char>
    decreases all.len(),
{
    if all.len() == 0 {
        seq![]
    } else {
        all[0] + seq!['\r', '\n'] + crlf_text(all.drop_first())
    }
}

/// The lines of a text that was made of lines are those lines.
pub proof fn law_lines_of_http_text(all: Seq<Seq<char>>)
    requires
        forall|i: int| 0 <= i < all.len() ==> is_one_line(#[trigger] all[i]),
    ensures
        lines_of(crlf_text(all)) == all,
    decreases all.len(),
{
    if all.len() == 0 {
        assert(lines_of(crlf_text(all)) =~= all);
    } else {
        let rest = all.drop_first();
        assert forall|i: int| 0 <= i < rest.len() implies is_one_line(#[trigger] rest[i]) by {
            assert(rest[i] == all[i + 1]);
        }
        law_lines_of_http_text(rest);
        assert(is_one_line(all[0]));
        law_lines_are_what_line_endings_end(all[0], crlf_text(rest));
        assert(all =~= seq![all[0]] + rest);
    }
}

proof fn lemma_request(path: Seq<char>, host_header: Seq<char>, authorization: Seq<char>)
    ensures
        connect_request_of(path, host_header, authorization) == crlf_text(
            seq![
                "CONNECT "@ + path + " HTTP/1.1"@,
                "Host: "@ + host_header,
                "Authorization: "@ + authorization,
                Seq::<char>::empty(),
            ],
        ),
{
    reveal_strlit("CONNECT ");
    reveal_strlit(" HTTP/1.1\r\nHost: ");
    reveal_strlit("\r\nAuthorization: ");
    reveal_strlit("\r\n\r\n");
    reveal_strlit(" HTTP/1.1");
    reveal_strlit("Host: ");
    reveal_strlit("Authorization: ");
    let a = "CONNECT "@ + path + " HTTP/1.1"@;
    let b = "Host: "@ + host_header;
    let c = "Authorization: "@ + authorization;
    let e = Seq::<char>::empty();
    reveal_with_fuel(crlf_text, 5);
    assert(seq![a, b, c, e].drop_first() =~= seq![b, c, e]);
    assert(seq![b, c, e].drop_first() =~= seq![c, e]);
    assert(seq![c, e].drop_first() =~= seq![e]);
    assert(seq![e].drop_first() =~= Seq::<Seq<char>>::empty());
    assert(connect_request_of(path, host_header, authorization) =~= crlf_text(seq![a, b, c, e]));
}

/// A request is four lines, each with the ending that HTTP gives it: what is asked for, the host,
/// the authorization, and a blank one.
pub proof fn law_request_is_its_lines(
    endpoint: &ApiEndpoint,
    path: &str,
    tunnel_id: &TunnelId,
    connection_id: &str,
    request: String,
    tunnel_request: String,
    connection_request: String,
)
    requires
        call_ensures(ApiEndpoint::connect_request, (endpoint, path), request),
        call_ensures(ApiEndpoint::open_tunnel_request, (endpoint, tunnel_id), tunnel_request),
        call_ensures(
            ApiEndpoint::open_connection_request,
            (endpoint, connection_id),
            connection_request,
        ),
    ensures
        request@ == crlf_text(
            seq![
                "CONNECT "@ + path@ + " HTTP/1.1"@,
                "Host: "@ + endpoint.host_header@,
                "Authorization: "@ + endpoint.authorization@,
                Seq::<char>::empty(),
            ],
        ),
        tunnel_request@ == crlf_text(
            seq![
                "CONNECT "@ + ("/v1/tunnels/"@ + tunnel_id@) + " HTTP/1.1"@,
                "Host: "@ + endpoint.host_header@,
                "Authorization: "@ + endpoint.authorization@,
                Seq::<char>::empty(),
            ],
        ),
        connection_request@ == crlf_text(
            seq![
                "CONNECT "@ + ("/v1/connections/"@ + connection_id@) + " HTTP/1.1"@,
                "Host: "@ + endpoint.host_header@,
                "Authorization: "@ + endpoint.authorization@,
                Seq::<char>::empty(),
            ],
        ),
{
    let h = endpoint.host_header@;
    let a = endpoint.authorization@;
    lemma_request(path@, h, a);
    lemma_request("/v1/tunnels/"@ + tunnel_id@, h, a);
    lemma_request("/v1/connections/"@ + connection_id@, h, a);
}

/// Whether a line is a field of this name, which is given in lowercase: what stands before its
/// first colon is the name, in whatever case.
pub open spec fn is_field_line(line: Seq<char>, name: Seq<char>) -> bool {
    exists|key: Seq<char>, value: Seq<char>|
        {
            &&& line == #[trigger] (key + seq![':'] + value)
            &&& !key.contains(':')
            &&& lower(key) == name
        }
}

proof fn lemma_not_field_line(line: Seq<char>, name: Seq<char>)
    requires
        !is_field_line(line, name),
    ensures
        split_at_first(line, ':') matches Some((key, _)) ==> lower(key) != name,
{
    law_split_gives_the_text_back(line, ':');
    if let Some((key, value)) = split_at_first(line, ':') {
        assert(line == key + seq![':'] + value);
    }
}

proof fn lemma_field_in(
    before: Seq<Seq<char>>,
    key: Seq<char>,
    value: Seq<char>,
    after: Seq<Seq<char>>,
    name: Seq<char>,
)
    requires
        !key.contains(':'),
        lower(key) == name,
        forall|i: int| 0 <= i < before.len() ==> !is_field_line(#[trigger] before[i], name),
    ensures
        field_in(before + seq![key + seq![':'] + value] + after, name) == Some(trimmed(value)),
        field_in(before, name) is None,
    decreases before.len(),
{
    let line = key + seq![':'] + value;
    let all = before + seq![line] + after;
    if before.len() == 0 {
        assert(all[0] == line);
        law_split_is_at_the_first(key, ':', value);
    } else {
        assert(all[0] == before[0]);
        assert(all.drop_first() =~= before.drop_first() + seq![line] + after);
        lemma_not_field_line(before[0], name);
        assert forall|i: int| 0 <= i < before.drop_first().len() implies !is_field_line(
            #[trigger] before.drop_first()[i],
            name,
        ) by {
            assert(before.drop_first()[i] == before[i + 1]);
        }
        lemma_field_in(before.drop_first(), key, value, after, name);
    }
}

/// The value of a field is what follows the colon in the first line with the field's name, without
/// white space around it, wherever that line stands and whatever lines follow. Without such a line
/// there is no value.
pub proof fn law_first_field_is_found(
    header: &str,
    name: &str,
    before: Seq<Seq<char>>,
    key: Seq<char>,
    value: Seq<char>,
    after: Seq<Seq<char>>,
    found: Option<String>,
)
    requires
        call_ensures(find_field, (header, name), found),
        forall|i: int| 0 <= i < before.len() ==> !is_field_line(#[trigger] before[i], name@),
    ensures
        lines_of(header@) == before + seq![key + seq![':'] + value] + after && !key.contains(':')
            && lower(key) == name@ ==> (found matches Some(text) && text@ == trimmed(value)),
        lines_of(header@) == before ==> found is None,
{
    if !key.contains(':') && lower(key) == name@ {
        lemma_field_in(before, key, value, after, name@);
    }
    lemma_no_field(before, name@);
}

proof fn lemma_no_field(all: Seq<Seq<char>>, name: Seq<char>)
    requires
        forall|i: int| 0 <= i < all.len() ==> !is_field_line(#[trigger] all[i], name),
    ensures
        field_in(all, name) is None,
    decreases all.len(),
{
    if all.len() > 0 {
        lemma_not_field_line(all[0], name);
        assert forall|i: int| 0 <= i < all.drop_first().len() implies !is_field_line(
            #[trigger] all.drop_first()[i],
            name,
        ) by {
            assert(all.drop_first()[i] == all[i + 1]);
        }
        lemma_no_field(all.drop_first(), name);
    }
}

/// Whether a line is a status line with this status: a word, the status in decimal, and whatever
/// follows behind a space.
pub open spec fn is_status_line(line: Seq<char>, status: nat) -> bool {
    exists|word: Seq<char>, rest: Seq<char>|
        {
            &&& line == #[trigger] (word + seq![' '] + digits_of(status) + rest)
            &&& word.len() > 0
            &&& forall|i: int| 0 <= i < word.len() ==> !is_space(#[trigger] word[i])
            &&& rest.len() > 0 ==> rest[0] == ' '
        }
}

proof fn lemma_status(line: Seq<char>, status: nat)
    requires
        is_status_line(line, status),
        status <= 65535,
    ensures
        status_in(line) == Some(status),
        is_one_line(line) ==> line.len() > 0,
{
    let (word, rest) = choose|word: Seq<char>, rest: Seq<char>|
        {
            &&& line == #[trigger] (word + seq![' '] + digits_of(status) + rest)
            &&& word.len() > 0
            &&& forall|i: int| 0 <= i < word.len() ==> !is_space(#[trigger] word[i])
            &&& rest.len() > 0 ==> rest[0] == ' '
        };
    let empty = Seq::<char>::empty();
    let digits = digits_of(status);
    law_decimal_round_trip(status, 65535);
    assert(is_spaceless(digits)) by {
        lemma_digits_have_no_space(status);
    }
    let tail = seq![' '] + digits + rest;
    assert(line =~= empty + word + tail);
    law_words_are_what_white_space_parts(empty, word, tail);
    assert(tail =~= seq![' '] + digits + rest);
    law_words_are_what_white_space_parts(seq![' '], digits, rest);
    let all = words_of(line);
    assert(all =~= seq![word] + (seq![digits] + words_of(rest)));
    assert(all[1] == digits);
}

spec fn is_spaceless(digits: Seq<char>) -> bool {
    digits.len() > 0 && forall|i: int| 0 <= i < digits.len() ==> !is_space(#[trigger] digits[i])
}

proof fn lemma_digits_have_no_space(n: nat)
    ensures
        is_spaceless(digits_of(n)),
    decreases n,
{
    if n >= 10 {
        lemma_digits_have_no_space(n / 10);
    }
}

/// An answer of the server is judged by the status in its first line: success is a status from 200
/// to 299, and any other is reported with that line.
pub proof fn law_answer_is_judged_by_its_status(
    header: &str,
    line: Seq<char>,
    status: nat,
    fields: Seq<Seq<char>>,
    result: Result<(), ApiError>,
)
    requires
        is_status_line(line, status),
        status <= 65535,
        lines_of(header@) == seq![line] + fields,
        call_ensures(check_response, (header,), result),
    ensures
        result is Ok <==> 200 <= status <= 299,
        result matches Err(error) ==> {
            &&& error matches ApiError::Rejected(rejection)
            &&& rejection.status == status
            &&& rejection.status_line@ == line
        },
{
    lemma_status(line, status);
    assert((seq![line] + fields)[0] == line);
}

/// A registration that succeeded gives the tunnel's public URL: the value of the first field
/// called `X-Tnl-Url`, in whatever case, wherever it stands in the answer. Where there is none, or
/// it is empty, or the status is not one of success, there is no URL.
pub proof fn law_answer_names_the_public_url(
    header: &str,
    line: Seq<char>,
    status: nat,
    before: Seq<Seq<char>>,
    key: Seq<char>,
    value: Seq<char>,
    after: Seq<Seq<char>>,
    result: Result<String, ApiError>,
)
    requires
        is_status_line(line, status),
        status <= 65535,
        !is_field_line(line, "x-tnl-url"@),
        forall|i: int| 0 <= i < before.len() ==> !is_field_line(#[trigger] before[i], "x-tnl-url"@),
        !key.contains(':'),
        lower(key) == "x-tnl-url"@,
        lines_of(header@) == seq![line] + before + seq![key + seq![':'] + value] + after,
        call_ensures(tunnel_url, (header,), result),
    ensures
        200 <= status <= 299 && trimmed(value).len() > 0 ==> (result matches Ok(url) && url@
            == trimmed(value)),
        200 <= status <= 299 && trimmed(value).len() == 0 ==> result == Err::<String, ApiError>(
            ApiError::MissingUrl,
        ),
        !(200 <= status <= 299) ==> (result matches Err(ApiError::Rejected(rejection))
            && rejection.status == status && rejection.status_line@ == line),
{
    lemma_status(line, status);
    let all = lines_of(header@);
    let first = seq![line] + before;
    assert(all[0] == line);
    assert forall|i: int| 0 <= i < first.len() implies !is_field_line(
        #[trigger] first[i],
        "x-tnl-url"@,
    ) by {
        if i > 0 {
            assert(first[i] == before[i - 1]);
        }
    }
    lemma_field_in(first, key, value, after, "x-tnl-url"@);
}

/// An answer without a field called `X-Tnl-Url` gives no URL, and that is what is wrong with it
/// where nothing else is.
pub proof fn law_answer_without_a_url(
    header: &str,
    result: Result<String, ApiError>,
    checked: Result<(), ApiError>,
)
    requires
        call_ensures(check_response, (header,), checked),
        forall|i: int|
            0 <= i < lines_of(header@).len() ==> !is_field_line(
                #[trigger] lines_of(header@)[i],
                "x-tnl-url"@,
            ),
        call_ensures(tunnel_url, (header,), result),
    ensures
        result is Err,
        checked is Ok ==> result == Err::<String, ApiError>(ApiError::MissingUrl),
        checked matches Err(error) ==> result->Err_0.text() == error.text(),
{
    lemma_no_field(lines_of(header@), "x-tnl-url"@);
}

/// A header is complete exactly when it ends with a blank line, too long when it has 16384 bytes
/// without one, and read on otherwise.
pub proof fn law_header_ends_with_a_blank_line(
    reader: &HeaderReader,
    start: Seq<u8>,
    progress: HeaderProgress,
)
    requires
        call_ensures(HeaderReader::progress, (reader,), progress),
    ensures
        reader@ == start + seq![13u8, 10, 13, 10] ==> progress == HeaderProgress::Complete,
        progress == HeaderProgress::Complete ==> {
            let n = reader@.len() as int;
            n >= 4 && reader@[n - 4] == 13 && reader@[n - 3] == 10 && reader@[n - 2] == 13
                && reader@[n - 1] == 10
        },
        progress == HeaderProgress::TooLarge ==> reader@.len() >= 16384,
        progress == HeaderProgress::Reading ==> reader@.len() < 16384,
{
    let n = reader@.len() as int;
    if reader@ == start + seq![13u8, 10, 13, 10] {
        assert(reader@.skip(n - 4) =~= HEADER_END@);
    }
    if ends_header(reader@) {
        let tail = reader@.skip(n - 4);
        assert(tail[0] == 13 && tail[1] == 10 && tail[2] == 13 && tail[3] == 10);
    }
}

/// A header that is complete and is text is that text. One that is complete and no text is refused
/// for that, and one that is not complete for its length.
pub proof fn law_complete_header_is_its_text(
    reader: HeaderReader,
    text: Seq<char>,
    result: Result<String, ApiError>,
    progress: HeaderProgress,
)
    requires
        call_ensures(HeaderReader::finish, (reader,), result),
        call_ensures(HeaderReader::progress, (&reader,), progress),
        !(progress is Reading),
    ensures
        progress is Complete && reader@ == encode_utf8(text) ==> (result matches Ok(read) && read@
            == text),
        progress is Complete && !valid_utf8(reader@) <==> (result matches Err(
            ApiError::HeaderNotUtf8,
        )),
        progress is TooLarge <==> (result matches Err(ApiError::HeaderTooLarge)),
{
    encode_utf8_valid_utf8(text);
    encode_utf8_decode_utf8(text);
}

/// An answer without a line is empty. One whose first line has fewer than two words, or a second
/// word that is no number up to 65535, has no valid status.
pub proof fn law_answers_without_a_status(
    header: &str,
    line: Seq<char>,
    fields: Seq<Seq<char>>,
    result: Result<(), ApiError>,
)
    requires
        call_ensures(check_response, (header,), result),
    ensures
        header@.len() == 0 <==> (result matches Err(ApiError::EmptyResponse)),
        lines_of(header@) == seq![line] + fields ==> {
            let parts = words_of(line);
            (parts.len() < 2 || number_in(parts[1], 65535) is None) <==> (result matches Err(
                ApiError::InvalidStatus,
            ))
        },
{
    if lines_of(header@) == seq![line] + fields {
        assert((seq![line] + fields)[0] == line);
    }
    reveal_strlit("tunnel server returned an empty HTTP response");
    reveal_strlit("tunnel server returned an invalid HTTP status");
    reveal_strlit("config contains an invalid API URL");
    reveal_strlit("config API URL must use HTTPS");
    reveal_strlit("config contains an invalid token");
    reveal_strlit("API URL does not contain a host");
    reveal_strlit("API URL does not contain a port");
    reveal_strlit("tunnel server HTTP response header is too large");
    reveal_strlit("tunnel server returned a non-UTF-8 HTTP response");
    reveal_strlit("tunnel server response did not include X-Tnl-Url");
    assert("tunnel server returned an empty HTTP response"@.len() == 45);
    assert("tunnel server returned an invalid HTTP status"@.len() == 45);
    assert("config contains an invalid API URL"@.len() == 34);
    assert("config API URL must use HTTPS"@.len() == 29);
    assert("config contains an invalid token"@.len() == 32);
    assert("API URL does not contain a host"@.len() == 31);
    assert("API URL does not contain a port"@.len() == 31);
    assert("tunnel server HTTP response header is too large"@.len() == 47);
    assert("tunnel server returned a non-UTF-8 HTTP response"@.len() == 48);
    assert("tunnel server response did not include X-Tnl-Url"@.len() == 48);
    assert("tunnel server returned an empty HTTP response"@[26] == 'e');
    assert("tunnel server returned an invalid HTTP status"@[26] == 'i');
    assert("API URL does not contain a host"@[27] == 'h');
    assert("API URL does not contain a port"@[27] == 'p');
    assert("tunnel server returned a non-UTF-8 HTTP response"@[16] == 't');
    assert("tunnel server response did not include X-Tnl-Url"@[16] == 's');
}

/// A refused registration is given up exactly where the server found fault with the request, and
/// that was not a conflict after this node has registered before.
pub proof fn law_refusals_are_fatal(error: &ApiError, has_registered: bool, fatal: bool)
    requires
        call_ensures(registration_error_is_fatal, (error, has_registered), fatal),
    ensures
        match error {
            ApiError::Rejected(rejection) => {
                let status = rejection.status;
                &&& status < 400 || status > 499 ==> !fatal
                &&& 400 <= status <= 499 && status != 409 ==> fatal
                &&& status == 409 ==> fatal == !has_registered
            },
            _ => !fatal,
        },
{
}

/// A request that names the version of the protocol has one more line, which names it.
pub proof fn law_versioned_request_names_the_version(
    endpoint: &ApiEndpoint,
    tunnel_id: &TunnelId,
    request: String,
)
    requires
        call_ensures(
            ApiEndpoint::open_versioned_tunnel_request,
            (endpoint, tunnel_id),
            request,
        ),
    ensures
        request@ == crlf_text(
            seq![
                "CONNECT "@ + ("/v1/tunnels/"@ + tunnel_id@) + " HTTP/1.1"@,
                "Host: "@ + endpoint.host_header@,
                "Authorization: "@ + endpoint.authorization@,
                "X-Tnl-Protocol-Version: 2"@,
                Seq::<char>::empty(),
            ],
        ),
{
    reveal_strlit("CONNECT ");
    reveal_strlit(" HTTP/1.1\r\nHost: ");
    reveal_strlit("\r\nAuthorization: ");
    reveal_strlit("\r\n\r\n");
    reveal_strlit("\r\n");
    reveal_strlit(": ");
    reveal_strlit("2");
    reveal_strlit("X-Tnl-Protocol-Version");
    reveal_strlit("X-Tnl-Protocol-Version: 2");
    reveal_strlit(" HTTP/1.1");
    reveal_strlit("Host: ");
    reveal_strlit("Authorization: ");
    let a = "CONNECT "@ + ("/v1/tunnels/"@ + tunnel_id@) + " HTTP/1.1"@;
    let b = "Host: "@ + endpoint.host_header@;
    let c = "Authorization: "@ + endpoint.authorization@;
    let d = "X-Tnl-Protocol-Version: 2"@;
    let e = Seq::<char>::empty();
    assert(d =~= "X-Tnl-Protocol-Version"@ + ": "@ + "2"@);
    reveal_with_fuel(crlf_text, 6);
    assert(seq![a, b, c, d, e].drop_first() =~= seq![b, c, d, e]);
    assert(seq![b, c, d, e].drop_first() =~= seq![c, d, e]);
    assert(seq![c, d, e].drop_first() =~= seq![d, e]);
    assert(seq![d, e].drop_first() =~= seq![e]);
    assert(seq![e].drop_first() =~= Seq::<Seq<char>>::empty());
    assert(request@ =~= crlf_text(seq![a, b, c, d, e]));
}

} // verus!
