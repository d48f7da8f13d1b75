use tnl::auth::{
    adopt_local_client, check_login, check_login_parts, client_name, ensure_local_client,
    existing_config_works, hash_token, hex, invite, invite_with, issue_token, login, login_blob, open_login_blob, token_from, ClientConfig, LoginError, LoginPayload,
    LEGACY_LOGIN_BLOB_PREFIX, LOCAL_CLIENT_NAME, LOGIN_BLOB_PREFIX,
};
use tnl::config::{enroll, knows_token, port_suffix, Client, Config};
use tnl::external::UrlParts;
use tnl::net::{IpAddr, SocketAddr};
use tnl::process::{background, parse_pid, pid_record, Background};
use tnl::setup::{
    domain_answer, listen_address, new_config, port_answer, summary, tunnel_domain, DomainAnswer,
};
use tnl::text::{
    chars_of, is_control, is_whitespace, lines, parse_number, to_lower_char, trim, words,
};

const LOCALHOST_V4: IpAddr = IpAddr::V4([127, 0, 0, 1]);
const LOCALHOST_V6: IpAddr = IpAddr::V6([0, 0, 0, 0, 0, 0, 0, 1]);

#[test]
fn builds_public_url_and_local_connection_address() {
    let ipv4 = Config {
        domain: "tnl.example.com".to_owned(),
        public_ip: IpAddr::V4([203, 0, 113, 1]),
        listen_port: 443,
        clients: Vec::new(),
    };
    assert_eq!(ipv4.api_url(), "https://tnl.example.com");
    assert_eq!(ipv4.local_api_address(), SocketAddr { ip: LOCALHOST_V4, port: 443 });
    assert_eq!(ipv4.local_api_text(), "127.0.0.1:443");

    let ipv6 = Config { public_ip: LOCALHOST_V6, listen_port: 8443, ..ipv4 };
    assert_eq!(ipv6.api_url(), "https://tnl.example.com:8443");
    assert_eq!(ipv6.local_api_address(), SocketAddr { ip: LOCALHOST_V6, port: 8443 });
    assert_eq!(ipv6.local_api_text(), "[::1]:8443");
    assert_eq!(port_suffix(443), "");
    assert_eq!(port_suffix(444), ":444");
}

#[test]
fn tokens_are_known_by_their_hash() {
    assert_eq!(hex(&[0, 1, 0xab, 0xff]), "0001abff");
    assert_eq!(
        hash_token("abc"),
        "ba7816bf8f01cfea414140de5dae2223b00361a396177a9cb410ff61f20015ad"
    );
    let token = token_from(&[0xfb, 0xff]);
    assert_eq!(token.token, "-_8");
    assert_eq!(token.token_hash, hash_token("-_8"));
}

#[test]
fn issued_tokens_differ() {
    let tokens: Vec<_> = (0..4).map(|_| issue_token()).collect();
    for token in &tokens {
        assert_eq!(token.token.len(), 43);
        assert_eq!(token.token_hash, hash_token(&token.token));
    }
    assert_ne!(tokens[0].token, tokens[1].token);
}

#[test]
fn enrolling_replaces_the_token_of_a_client() {
    let mut clients = Vec::new();
    enroll(&mut clients, "a", "1".to_owned());
    enroll(&mut clients, "b", "2".to_owned());
    enroll(&mut clients, "a", "3".to_owned());
    let list: Vec<(&str, &str)> =
        clients.iter().map(|client| (client.name.as_str(), client.token_hash.as_str())).collect();
    assert_eq!(list, [("a", "3"), ("b", "2")]);
    assert!(knows_token(&clients, "3") && knows_token(&clients, "2"));
    assert!(!knows_token(&clients, "1"));
}

#[test]
fn login_blobs_give_back_what_they_hold() {
    for prefix in [LOGIN_BLOB_PREFIX, LEGACY_LOGIN_BLOB_PREFIX] {
        let blob = login_blob(prefix, b"{\"a\":1}");
        assert_eq!(blob, format!("{prefix}eyJhIjoxfQ"));
        assert_eq!(open_login_blob(prefix, &format!(" {blob}\n")).unwrap(), b"{\"a\":1}");
    }
    for blob in ["", "tunnel-login-v1.eyJhIjoxfQ", "tnl-login-v1.e+Jh", "tnl-login-v1.eyJhIjoxfQ=="]
    {
        let error = open_login_blob(LOGIN_BLOB_PREFIX, blob).unwrap_err();
        assert_eq!(error.message(LOGIN_BLOB_PREFIX), "not a valid tnl-login-v1.* login blob");
    }
}

#[test]
fn logins_are_checked() {
    assert_eq!(check_login("https://tnl.example.com", "t"), Ok(()));
    assert_eq!(check_login("nonsense", "t"), Err(LoginError::InvalidUrl));
    assert_eq!(check_login("http://tnl.example.com", "t"), Err(LoginError::NotHttps));
    assert_eq!(check_login("https://tnl.example.com", ""), Err(LoginError::InvalidToken));
    assert_eq!(check_login("https://tnl.example.com", "\u{7f}"), Err(LoginError::InvalidToken));
    let hostless = UrlParts { scheme: "https".to_owned(), host: None, ipv6: None, port: None };
    assert_eq!(check_login_parts(Some(hostless), "t"), Err(LoginError::NotHttps));
    assert_eq!(
        LoginError::NotHttps.message(""),
        "login blob API URL must be an HTTPS URL with a host"
    );
}

/// Finds a URL and a token in bytes, one on each line.
fn two_lines(bytes: Vec<u8>) -> Option<LoginPayload> {
    let text = String::from_utf8(bytes).ok()?;
    let (api_url, token) = text.split_once('\n')?;
    Some(LoginPayload { api_url: api_url.to_owned(), token: token.to_owned() })
}

#[test]
fn logins_go_from_the_blob_to_what_is_saved() {
    let log_in = |bytes: &[u8]| {
        let blob = format!("\t{} ", login_blob(LOGIN_BLOB_PREFIX, bytes));
        login(LOGIN_BLOB_PREFIX, &blob, two_lines)
    };
    let saved = log_in(b"https://tnl.example.com\nsecret").unwrap();
    assert_eq!((saved.api_url.as_str(), saved.token.as_str()), ("https://tnl.example.com", "secret"));
    assert_eq!(log_in(b"no payload").err(), Some(LoginError::InvalidBlob));
    assert_eq!(log_in(b"http://tnl.example.com\nsecret").err(), Some(LoginError::NotHttps));
    assert_eq!(log_in(b"tnl.example.com\nsecret").err(), Some(LoginError::InvalidUrl));
    assert_eq!(log_in(b"https://tnl.example.com\n").err(), Some(LoginError::InvalidToken));
    let other = login(LOGIN_BLOB_PREFIX, "tunnel-login-v1.YQ", two_lines);
    assert_eq!(other.err(), Some(LoginError::InvalidBlob));
}

#[test]
fn an_invited_client_can_log_in() {
    let mut config = server_config();
    let payload = invite(&mut config, "laptop").unwrap();
    let bytes = format!("{}\n{}", payload.api_url, payload.token);
    let blob = login_blob(LOGIN_BLOB_PREFIX, bytes.as_bytes());
    let saved = login(LOGIN_BLOB_PREFIX, &blob, two_lines).unwrap();
    assert_eq!(saved.token, payload.token);
    assert_eq!(saved.token.len(), 43);
    assert!(knows_token(&config.clients, &hash_token(&saved.token)));
}

#[test]
fn setup_gives_a_configuration_without_clients() {
    let ip = IpAddr::V4([203, 0, 113, 7]);
    let config = new_config(ip, "nip.io", 8443);
    assert_eq!(config.domain, "tnl-203-0-113-7.nip.io");
    assert_eq!((config.public_ip, config.listen_port), (ip, 8443));
    assert!(config.clients.is_empty());
    assert_eq!(new_config(LOCALHOST_V6, "example.com", 443).domain, "example.com");
}

#[test]
fn an_existing_configuration_has_to_lead_here() {
    let mut clients: Vec<Client> = Vec::new();
    let found = |token: &str| ClientConfig {
        api_url: "https://h".to_owned(),
        token: token.to_owned(),
        connect_addr: "127.0.0.1:443".to_owned(),
    };
    let works = |config: Option<&ClientConfig>, clients: &[Client]| {
        existing_config_works(config, "https://h", "127.0.0.1:443", clients)
    };
    assert!(!works(Some(&found("t")), &clients));
    enroll(&mut clients, LOCAL_CLIENT_NAME, hash_token("t"));
    assert!(works(Some(&found("t")), &clients));
    assert!(!works(Some(&found("u")), &clients));
    assert!(!works(None, &clients));
    assert!(!existing_config_works(Some(&found("t")), "https://i", "127.0.0.1:443", &clients));
    assert!(!existing_config_works(Some(&found("t")), "https://h", "127.0.0.1:444", &clients));
}

#[test]
fn clients_have_names() {
    assert_eq!(client_name("  my laptop\n").unwrap(), "my laptop");
    assert!(client_name(" \t").is_none());
}

#[test]
fn domains_are_judged() {
    let v4 = IpAddr::V4([203, 0, 113, 7]);
    let domain = |answer: &str, ip: IpAddr| match domain_answer(answer, ip) {
        DomainAnswer::Domain(domain) => domain,
        other => format!("{other:?}"),
    };
    assert_eq!(domain("", v4), "nip.io");
    assert_eq!(domain("example.com..", v4), "example.com");
    assert_eq!(domain("", LOCALHOST_V6), "NeedsIpv4");
    assert_eq!(domain("nip.io.", LOCALHOST_V6), "NeedsIpv4");
    for answer in ["localhost", "*.example.com", "a b.c", "."] {
        assert_eq!(domain(answer, v4), "Invalid", "{answer}");
    }
    assert_eq!(tunnel_domain("nip.io", v4), "tnl-203-0-113-7.nip.io");
    assert_eq!(tunnel_domain("example.com", LOCALHOST_V6), "example.com");
}

#[test]
fn ports_are_judged() {
    assert_eq!(port_answer(""), Some(443));
    assert_eq!(port_answer("8443"), Some(8443));
    assert_eq!(port_answer("+1"), Some(1));
    for answer in ["0", "65536", "-1", "x", "4 4"] {
        assert_eq!(port_answer(answer), None, "{answer}");
    }
    assert_eq!(listen_address(IpAddr::V4([1, 2, 3, 4]), 80), "0.0.0.0:80");
    assert_eq!(listen_address(LOCALHOST_V6, 80), "[::]:80");
}

#[test]
fn operators_are_told_what_to_do() {
    let lines = summary("nip.io", IpAddr::V4([203, 0, 113, 7]), "203.0.113.7", 443);
    assert_eq!(
        lines,
        [
            "",
            "Browser URL: https://<tunnel-id>.tnl-203-0-113-7.nip.io",
            "Listen address: 0.0.0.0:443",
            "",
            "DNS records: none",
            "nip.io resolves *.tnl-203-0-113-7.nip.io to 203.0.113.7 automatically.",
            "",
            "Make sure TCP port 443 is publicly accessible.",
            "Make sure DNS proxying is disabled. If a proxy terminates TLS, the tunnel will not be end-to-end encrypted.",
        ]
    );
    let lines = summary("example.com", LOCALHOST_V6, "::1", 8443);
    assert_eq!(
        lines[1..14],
        [
            "Browser URL: https://<tunnel-id>.example.com:8443",
            "Listen address: [::]:8443",
            "",
            "DNS records to add:",
            "Type:  AAAA",
            "Name:  example.com",
            "Value: ::1",
            "",
            "Type:  CNAME",
            "Name:  *.example.com",
            "Value: example.com",
            "",
            "Make sure TCP port 443 is publicly accessible and correctly forwards to port 8443.",
        ]
    );
}

#[test]
fn a_record_names_its_process() {
    assert_eq!(pid_record(4711), "4711\n");
    for pid in [0, 1, 4711, u32::MAX] {
        assert_eq!(parse_pid(&pid_record(pid)), Some(pid));
    }
    assert_eq!(parse_pid("x"), None);
    assert_eq!(parse_pid("4294967296"), None);
    assert_eq!(background(None, true), Background::Absent);
    assert_eq!(background(Some("12\n"), true), Background::Running(12));
    assert_eq!(background(Some("12\n"), false), Background::Stale);
    assert_eq!(background(Some(""), false), Background::Invalid);
}

fn pieces(list: Vec<Vec<char>>) -> Vec<String> {
    list.into_iter().map(|piece| piece.into_iter().collect()).collect()
}

#[test]
fn texts_are_cut_as_std_cuts_them() {
    for text in ["", "a", "a\n", "a\r\nb", "\n\n", "a\r", "x \u{a0}y\tz\u{2003}", "  "] {
        let expected: Vec<String> = text.lines().map(str::to_owned).collect();
        assert_eq!(pieces(lines(&chars_of(text))), expected, "{text:?}");
        let expected: Vec<String> = text.split_whitespace().map(str::to_owned).collect();
        assert_eq!(pieces(words(&chars_of(text))), expected, "{text:?}");
    }
    for text in ["", "+", "0", "00012", "65535", "65536", "+7", "-7", "7 ", "99999999999999999999"] {
        let expected = text.parse::<u16>().ok().map(u32::from);
        assert_eq!(parse_number(&chars_of(text), 65535), expected, "{text}");
    }
}

fn server_config() -> Config {
    Config {
        domain: "tnl.example.com".to_owned(),
        public_ip: IpAddr::V4([203, 0, 113, 1]),
        listen_port: 8443,
        clients: Vec::new(),
    }
}

#[test]
fn the_local_client_is_set_up_once() {
    let mut config = server_config();
    let client = ensure_local_client(&mut config, None).unwrap();
    assert_eq!(client.api_url, "https://tnl.example.com:8443");
    assert_eq!(client.connect_addr, "127.0.0.1:8443");
    assert_eq!(config.clients.len(), 1);
    assert_eq!(config.clients[0].name, "tnld-local");
    assert_eq!(config.clients[0].token_hash, hash_token(&client.token));
    assert!(ensure_local_client(&mut config, Some(&client)).is_none());
    config.listen_port = 443;
    let issued = token_from(b"x");
    let client = adopt_local_client(&mut config, Some(&client), issued).unwrap();
    assert_eq!(client.token, "eA");
    assert_eq!(config.clients.len(), 1);
    assert_eq!(config.clients[0].token_hash, hash_token("eA"));
}

#[test]
fn invitations_have_a_name_and_a_token() {
    let mut config = server_config();
    assert!(invite(&mut config, "  ").is_none());
    assert!(config.clients.is_empty());
    let payload = invite(&mut config, " laptop ").unwrap();
    assert_eq!(payload.api_url, "https://tnl.example.com:8443");
    assert_eq!(config.clients[0].name, "laptop");
    assert!(knows_token(&config.clients, &hash_token(&payload.token)));
    let payload = invite_with(&mut config, "laptop", token_from(b"x")).unwrap();
    assert_eq!(payload.token, "eA");
    assert_eq!(config.clients.len(), 1);
}

#[test]
fn characters_are_classed_as_std_classes_them() {
    for c in '\0'..=char::MAX {
        assert_eq!(is_whitespace(c), c.is_whitespace(), "{c:?}");
        assert_eq!(is_control(c), c.is_control(), "{c:?}");
        assert_eq!(to_lower_char(c), c.to_ascii_lowercase(), "{c:?}");
    }
    for text in ["", " ", " a ", "\u{3000}a b\u{85}", "a"] {
        let trimmed: String = trim(&chars_of(text)).into_iter().collect();
        assert_eq!(trimmed, text.trim(), "{text:?}");
    }
}
