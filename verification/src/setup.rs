//! What the operator of a server is asked, and told.

use vstd::prelude::*;
use vstd::string::*;

use crate::config::{port_suffix, port_suffix_of, Config, HTTPS_PORT};
use crate::external::string_from_chars;
use crate::net::{ipv4_text, write_ipv4, IpAddr};
use crate::text::{chars_of, digits_of, drop_trailing, has_char, is_space, is_whitespace,
    law_decimal_round_trip, law_numbers_are_read, law_only_numbers_are_read,
    law_trailing_characters_are_dropped, number, number_in, parse_number, same_text, spelled,
    without_trailing};

verus! {

/// The domain under which every IPv4 address has a name.
pub const NIP_IO: &'static str = "nip.io";

/// What an answer to the question for a domain is good for.
#[derive(Debug)]
pub enum DomainAnswer {
    /// It is a domain.
    Domain(String),
    /// The address has no name there.
    NeedsIpv4,
    /// It is no domain.
    Invalid,
}

/// The domain that is meant by an answer.
pub open spec fn domain_meant(answer: Seq<char>) -> Seq<char> {
    if answer.len() == 0 {
        NIP_IO@
    } else {
        without_trailing(answer, '.')
    }
}

/// Whether a text can be a base domain: it has a dot, and neither white space nor a star.
pub open spec fn is_base_domain(text: Seq<char>) -> bool {
    &&& forall|i: int| 0 <= i < text.len() ==> !is_space(#[trigger] text[i])
    &&& !text.contains('*')
    &&& text.contains('.')
}

fn has_space(text: &[char]) -> (result: bool)
    ensures
        result == exists|i: int| 0 <= i < text@.len() && is_space(#[trigger] text@[i]),
{
    let mut i: usize = 0;
    while i < text.len()
        invariant
            i <= text@.len(),
            forall|k: int| 0 <= k < i ==> !is_space(#[trigger] text@[k]),
        decreases text@.len() - i,
    {
        if is_whitespace(text[i]) {
            return true;
        }
        i += 1;
    }
    false
}

/// Judges an answer to the question for a domain, which has no white space around it.
pub fn domain_answer(answer: &str, public_ip: IpAddr) -> (result: DomainAnswer)
    ensures
        ({
            let domain = domain_meant(answer@);
            if domain == NIP_IO@ && !public_ip.v4() {
                result is NeedsIpv4
            } else if !is_base_domain(domain) {
                result is Invalid
            } else {
                result matches DomainAnswer::Domain(text) && text@ == domain
            }
        }),
{
    let given = chars_of(answer);
    let domain = if given.len() == 0 {
        NIP_IO.to_owned()
    } else {
        string_from_chars(&drop_trailing(&given, '.'))
    };
    let text = chars_of(&domain);
    if same_text(&domain, NIP_IO) && !public_ip.is_ipv4() {
        DomainAnswer::NeedsIpv4
    } else if has_space(&text) || has_char(&text, '*') || !has_char(&text, '.') {
        DomainAnswer::Invalid
    } else {
        DomainAnswer::Domain(domain)
    }
}

/// The port that is meant by an answer, if it is one: a number from 1 to 65535, or nothing for
/// that of HTTPS.
pub open spec fn port_meant(answer: Seq<char>) -> Option<nat> {
    if answer.len() == 0 {
        Some(HTTPS_PORT as nat)
    } else {
        match number_in(answer, 65535) {
            Some(port) => if port == 0 {
                None
            } else {
                Some(port)
            },
            None => None,
        }
    }
}

/// Judges an answer to the question for a port, which has no white space around it.
pub fn port_answer(answer: &str) -> (result: Option<u16>)
    ensures
        match result {
            Some(port) => port_meant(answer@) == Some(port as nat),
            None => port_meant(answer@) is None,
        },
{
    let text = chars_of(answer);
    if text.len() == 0 {
        return Some(HTTPS_PORT);
    }
    match parse_number(&text, 65535) {
        Some(port) => {
            if port == 0 {
                None
            } else {
                Some(port as u16)
            }
        },
        None => None,
    }
}

/// The domain of a server's tunnels: under nip.io, the name that it has for the address.
pub open spec fn tunnel_domain_of(domain: Seq<char>, public_ip: IpAddr) -> Seq<char> {
    match public_ip {
        IpAddr::V4(bytes) => if domain == NIP_IO@ {
            "tnl-"@ + ipv4_text(bytes@, "-"@) + ".nip.io"@
        } else {
            domain
        },
        IpAddr::V6(_) => domain,
    }
}

/// The domain of a server's tunnels. An address that has no name under nip.io has to have been
/// refused before.
pub fn tunnel_domain(domain: &str, public_ip: IpAddr) -> (result: String)
    requires
        domain@ == NIP_IO@ ==> public_ip.v4(),
    ensures
        result@ == tunnel_domain_of(domain@, public_ip),
{
    match public_ip {
        IpAddr::V4(bytes) => {
            if same_text(domain, NIP_IO) {
                let text = "tnl-".to_owned().concat(&write_ipv4(bytes, "-"));
                text.concat(".nip.io")
            } else {
                domain.to_owned()
            }
        },
        IpAddr::V6(_) => domain.to_owned(),
    }
}

/// Where a server listens, in the family of its public address.
pub open spec fn listen_address_of(public_ip: IpAddr, port: u16) -> Seq<char> {
    if public_ip.v4() {
        "0.0.0.0:"@ + digits_of(port as nat)
    } else {
        "[::]:"@ + digits_of(port as nat)
    }
}

/// Where a server listens, in the family of its public address.
pub fn listen_address(public_ip: IpAddr, port: u16) -> (result: String)
    ensures
        result@ == listen_address_of(public_ip, port),
{
    if public_ip.is_ipv4() {
        "0.0.0.0:".to_owned().concat(&number(port as u64))
    } else {
        "[::]:".to_owned().concat(&number(port as u64))
    }
}

/// The configuration of a server that was set up with these answers. It has no clients yet.
pub fn new_config(public_ip: IpAddr, domain: &str, listen_port: u16) -> (result: Config)
    requires
        domain@ == NIP_IO@ ==> public_ip.v4(),
    ensures
        result.domain@ == tunnel_domain_of(domain@, public_ip),
        result.public_ip == public_ip,
        result.listen_port == listen_port,
        result.clients@.len() == 0,
{
    Config {
        domain: tunnel_domain(domain, public_ip),
        public_ip,
        listen_port,
        clients: Vec::new(),
    }
}

fn joined(a: &str, b: &str) -> (result: String)
    ensures
        result@ == a@ + b@,
{
    a.to_owned().concat(b)
}

/// The lines that tell the operator what was set up.
pub open spec fn summary_of(
    domain: Seq<char>,
    public_ip: IpAddr,
    ip_text: Seq<char>,
    port: u16,
) -> Seq<Seq<char>> {
    let tunnels = tunnel_domain_of(domain, public_ip);
    let head = seq![
        ""@,
        "Browser URL: https://<tunnel-id>."@ + tunnels + port_suffix_of(port),
        "Listen address: "@ + listen_address_of(public_ip, port),
        ""@,
    ];
    let records = if domain == NIP_IO@ {
        seq![
            "DNS records: none"@,
            "nip.io resolves *."@ + tunnels + " to "@ + ip_text + " automatically."@,
        ]
    } else {
        seq![
            "DNS records to add:"@,
            "Type:  "@ + if public_ip.v4() {
                "A"@
            } else {
                "AAAA"@
            },
            "Name:  "@ + tunnels,
            "Value: "@ + ip_text,
            ""@,
            "Type:  CNAME"@,
            "Name:  *."@ + tunnels,
            "Value: "@ + tunnels,
        ]
    };
    let tail = seq![
        ""@,
        if port == HTTPS_PORT {
            "Make sure TCP port 443 is publicly accessible."@
        } else {
            "Make sure TCP port 443 is publicly accessible and correctly forwards to port "@
                + digits_of(port as nat) + "."@
        },
        "Make sure DNS proxying is disabled. If a proxy terminates TLS, the tunnel will not be end-to-end encrypted."@,
    ];
    head + records + tail
}

/// The lines of a list, each by its characters.
pub open spec fn line_texts(lines: Seq<String>) -> Seq<Seq<char>> {
    lines.map_values(|line: String| line@)
}

fn add_line(lines: &mut Vec<String>, line: String)
    ensures
        line_texts(final(lines)@) == line_texts(old(lines)@).push(line@),
{
    let ghost before = lines@;
    lines.push(line);
    assert(line_texts(lines@) =~= line_texts(before).push(line@));
}

/// The lines that tell the operator what was set up. `ip_text` is the public address as text.
pub fn summary(domain: &str, public_ip: IpAddr, ip_text: &str, port: u16) -> (result: Vec<String>)
    requires
        domain@ == NIP_IO@ ==> public_ip.v4(),
    ensures
        line_texts(result@) == summary_of(domain@, public_ip, ip_text@, port),
{
    let tunnels = tunnel_domain(domain, public_ip);
    let mut lines: Vec<String> = Vec::new();
    add_line(&mut lines, "".to_owned());
    let url = joined("Browser URL: https://<tunnel-id>.", &tunnels);
    add_line(&mut lines, url.concat(&port_suffix(port)));
    add_line(&mut lines, joined("Listen address: ", &listen_address(public_ip, port)));
    add_line(&mut lines, "".to_owned());
    if same_text(domain, NIP_IO) {
        add_line(&mut lines, "DNS records: none".to_owned());
        let line = joined("nip.io resolves *.", &tunnels).concat(" to ");
        let line = line.concat(ip_text);
        add_line(&mut lines, line.concat(" automatically."));
    } else {
        add_line(&mut lines, "DNS records to add:".to_owned());
        let record_type = if public_ip.is_ipv4() {
            "A"
        } else {
            "AAAA"
        };
        add_line(&mut lines, joined("Type:  ", record_type));
        add_line(&mut lines, joined("Name:  ", &tunnels));
        add_line(&mut lines, joined("Value: ", ip_text));
        add_line(&mut lines, "".to_owned());
        add_line(&mut lines, "Type:  CNAME".to_owned());
        add_line(&mut lines, joined("Name:  *.", &tunnels));
        add_line(&mut lines, joined("Value: ", &tunnels));
    }
    add_line(&mut lines, "".to_owned());
    if port == HTTPS_PORT {
        add_line(&mut lines, "Make sure TCP port 443 is publicly accessible.".to_owned());
    } else {
        let line = joined(
            "Make sure TCP port 443 is publicly accessible and correctly forwards to port ",
            &number(port as u64),
        );
        add_line(&mut lines, line.concat("."));
    }
    add_line(
        &mut lines,
        "Make sure DNS proxying is disabled. If a proxy terminates TLS, the tunnel will not be end-to-end encrypted.".to_owned(),
    );
    assert(line_texts(lines@) =~= summary_of(domain@, public_ip, ip_text@, port));
    lines
}

/// A base domain that was accepted, and the domain of its tunnels, have a dot: a tunnel's host is
/// never a name of one label.
pub proof fn law_accepted_domain_has_a_dot(answer: Seq<char>, public_ip: IpAddr)
    requires
        is_base_domain(domain_meant(answer)),
    ensures
        tunnel_domain_of(domain_meant(answer), public_ip).contains('.'),
{
    let domain = domain_meant(answer);
    let tunnels = tunnel_domain_of(domain, public_ip);
    if public_ip is V4 && domain == NIP_IO@ {
        reveal_strlit(".nip.io");
        let tail = ".nip.io"@;
        let n = tunnels.len() - tail.len();
        assert(tunnels[n] == tail[0]);
    }
}

/// An operator's own domain is the domain of the tunnels and of the configuration, whatever the
/// public address is. Under nip.io the domain is the name of the address there, with hyphens
/// between its bytes.
pub proof fn law_own_domain_is_kept(
    domain: &str,
    public_ip: IpAddr,
    port: u16,
    tunnels: String,
    config: Config,
)
    requires
        domain@ == "nip.io"@ ==> public_ip is V4,
        call_ensures(tunnel_domain, (domain, public_ip), tunnels),
        call_ensures(new_config, (public_ip, domain, port), config),
    ensures
        domain@ != "nip.io"@ ==> tunnels@ == domain@ && config.domain@ == domain@,
        domain@ == "nip.io"@ ==> {
            let b = public_ip->V4_0;
            let name = "tnl-"@ + digits_of(b[0] as nat) + "-"@ + digits_of(b[1] as nat) + "-"@
                + digits_of(b[2] as nat) + "-"@ + digits_of(b[3] as nat) + ".nip.io"@;
            tunnels@ == name && config.domain@ == name
        },
        config.public_ip == public_ip,
        config.listen_port == port,
        config.clients@ == Seq::<crate::config::Client>::empty(),
{
    assert(config.clients@ =~= Seq::empty());
    if domain@ == "nip.io"@ {
        let b = public_ip->V4_0;
        assert(tunnels@ =~= "tnl-"@ + digits_of(b[0] as nat) + "-"@ + digits_of(b[1] as nat) + "-"@
            + digits_of(b[2] as nat) + "-"@ + digits_of(b[3] as nat) + ".nip.io"@);
        assert(config.domain@ =~= tunnels@);
    }
}

/// An answer is a domain, but for dots at its end, exactly where it has a dot and neither white
/// space nor a star; an empty answer is nip.io, which is refused for an address that has no name
/// there.
pub proof fn law_domain_answers(
    answer: &str,
    meant: Seq<char>,
    dots: nat,
    public_ip: IpAddr,
    result: DomainAnswer,
)
    requires
        call_ensures(domain_answer, (answer, public_ip), result),
        answer@.len() == 0 ==> meant == "nip.io"@,
        answer@.len() > 0 ==> {
            &&& meant.len() > 0 ==> meant.last() != '.'
            &&& answer@ == meant + Seq::new(dots, |i: int| '.')
        },
    ensures
        ({
            let good = {
                &&& exists|i: int| 0 <= i < meant.len() && #[trigger] meant[i] == '.'
                &&& forall|i: int|
                    0 <= i < meant.len() ==> #[trigger] meant[i] != '*' && !is_space(meant[i])
            };
            if meant == "nip.io"@ && public_ip is V6 {
                result is NeedsIpv4
            } else if good {
                result matches DomainAnswer::Domain(text) && text@ == meant
            } else {
                result is Invalid
            }
        }),
{
    if answer@.len() > 0 {
        law_trailing_characters_are_dropped(meant, '.', dots);
    }
    assert(domain_meant(answer@) == meant);
    assert(meant.contains('.') <==> exists|i: int| 0 <= i < meant.len() && #[trigger] meant[i] == '.');
    assert(meant.contains('*') <==> exists|i: int| 0 <= i < meant.len() && #[trigger] meant[i] == '*');
}

/// The ports from 1 to 65535 are accepted as they are written, an empty answer means the port of
/// HTTPS, and nothing else is accepted.
pub proof fn law_port_answers(answer: &str, port: u16, zeros: nat, result: Option<u16>)
    requires
        call_ensures(port_answer, (answer,), result),
    ensures
        answer@.len() == 0 ==> result == Some(443u16),
        answer@ == spelled(zeros, port as nat) || answer@ == seq!['+'] + spelled(zeros, port as nat)
            ==> result == if port == 0 {
            None
        } else {
            Some(port)
        },
        result matches Some(port) ==> port > 0 && (answer@.len() > 0 ==> exists|zeros: nat|
            answer@ == #[trigger] spelled(zeros, port as nat) || answer@ == seq!['+'] + spelled(
                zeros,
                port as nat,
            )),
{
    law_numbers_are_read(zeros, port as nat, 65535);
    law_only_numbers_are_read(answer@, 65535);
    law_decimal_round_trip(port as nat, 65535);
    assert(digits_of(port as nat).len() > 0);
}

/// The operator is told the public URL, the listen address, the records to add and the port to
/// open. The records are of the kind of the address, and none are needed under nip.io.
pub proof fn law_summary_tells_what_to_do(
    domain: &str,
    public_ip: IpAddr,
    ip_text: &str,
    port: u16,
    lines: Vec<String>,
)
    requires
        domain@ == "nip.io"@ ==> public_ip is V4,
        call_ensures(summary, (domain, public_ip, ip_text, port), lines),
    ensures
        ({
            let told = line_texts(lines@);
            let suffix = if port == 443 {
                Seq::<char>::empty()
            } else {
                ":"@ + digits_of(port as nat)
            };
            &&& told[2] == if public_ip is V4 {
                "Listen address: "@ + ("0.0.0.0:"@ + digits_of(port as nat))
            } else {
                "Listen address: "@ + ("[::]:"@ + digits_of(port as nat))
            }
            &&& domain@ != "nip.io"@ ==> {
                &&& told.len() == 15
                &&& told[1] == "Browser URL: https://<tunnel-id>."@ + domain@ + suffix
                &&& told[4] == "DNS records to add:"@
                &&& told[5] == if public_ip is V4 {
                    "Type:  "@ + "A"@
                } else {
                    "Type:  "@ + "AAAA"@
                }
                &&& told[6] == "Name:  "@ + domain@
                &&& told[7] == "Value: "@ + ip_text@
                &&& told[9] == "Type:  CNAME"@
                &&& told[10] == "Name:  *."@ + domain@
                &&& told[11] == "Value: "@ + domain@
            }
            &&& domain@ == "nip.io"@ ==> {
                &&& told.len() == 9
                &&& told[4] == "DNS records: none"@
            }
            &&& told[told.len() - 2] == if port == 443 {
                "Make sure TCP port 443 is publicly accessible."@
            } else {
                "Make sure TCP port 443 is publicly accessible and correctly forwards to port "@
                    + digits_of(port as nat) + "."@
            }
        }),
{
    reveal_strlit("");
    assert(""@ =~= Seq::<char>::empty());
}

/// A server listens on every address of the family of its public address.
pub proof fn law_listen_address(public_ip: IpAddr, port: u16, address: String)
    requires
        call_ensures(listen_address, (public_ip, port), address),
    ensures
        public_ip is V4 ==> address@ == "0.0.0.0:"@ + digits_of(port as nat),
        public_ip is V6 ==> address@ == "[::]:"@ + digits_of(port as nat),
{
}

} // verus!
