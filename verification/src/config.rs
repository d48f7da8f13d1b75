//! What a server is configured with.

use vstd::prelude::*;
use vstd::string::*;

use crate::net::{local_text, localhost, write_local, IpAddr, SocketAddr, LOCALHOST_V4,
    LOCALHOST_V6};
use crate::text::{digits_of, number, same_text};

verus! {

/// The port that HTTPS has without being asked for one.
pub const HTTPS_PORT: u16 = 443;

/// A client of the server: what it is called, and the hash of its token.
#[derive(Debug)]
pub struct Client {
    pub name: String,
    pub token_hash: String,
}

/// What a server is configured with.
#[derive(Debug)]
pub struct Config {
    pub domain: String,
    pub public_ip: IpAddr,
    pub listen_port: u16,
    pub clients: Vec<Client>,
}

/// What stands for a port at the end of a host: nothing for that of HTTPS.
pub open spec fn port_suffix_of(port: u16) -> Seq<char> {
    if port == HTTPS_PORT {
        ""@
    } else {
        ":"@ + digits_of(port as nat)
    }
}

/// What stands for a port at the end of a host: nothing for that of HTTPS.
pub fn port_suffix(port: u16) -> (result: String)
    ensures
        result@ == port_suffix_of(port),
{
    if port == HTTPS_PORT {
        "".to_owned()
    } else {
        ":".to_owned().concat(&number(port as u64))
    }
}

impl Config {
    /// Whether two configurations differ in their clients at most.
    pub open spec fn same_server(self, other: Self) -> bool {
        &&& self.domain == other.domain
        &&& self.public_ip == other.public_ip
        &&& self.listen_port == other.listen_port
    }

    /// The URL of the server's API.
    pub open spec fn url(self) -> Seq<char> {
        "https://"@ + self.domain@ + port_suffix_of(self.listen_port)
    }

    /// The URL of the server's API.
    pub fn api_url(&self) -> (result: String)
        ensures
            result@ == self.url(),
    {
        let text = "https://".to_owned().concat(&self.domain);
        text.concat(&port_suffix(self.listen_port))
    }

    /// Where the server's API is reached from the machine itself.
    pub fn local_api_address(&self) -> (result: SocketAddr)
        ensures
            result.ip == localhost(self.public_ip.v4()),
            result.port == self.listen_port,
    {
        let ip = if self.public_ip.is_ipv4() {
            IpAddr::V4(LOCALHOST_V4)
        } else {
            IpAddr::V6(LOCALHOST_V6)
        };
        SocketAddr { ip, port: self.listen_port }
    }

    /// Where the server's API is reached from the machine itself, as text.
    pub fn local_api_text(&self) -> (result: String)
        ensures
            result@ == local_text(self.public_ip.v4(), self.listen_port),
    {
        write_local(self.public_ip.is_ipv4(), self.listen_port)
    }
}

/// The clients of a list, each by its name and the hash of its token.
pub open spec fn client_list(clients: Seq<Client>) -> Seq<(Seq<char>, Seq<char>)> {
    clients.map_values(|client: Client| (client.name@, client.token_hash@))
}

/// Whether one of the clients has a token with this hash.
pub open spec fn knows(clients: Seq<(Seq<char>, Seq<char>)>, token_hash: Seq<char>) -> bool {
    exists|i: int| 0 <= i < clients.len() && (#[trigger] clients[i]).1 == token_hash
}

/// Whether one of the clients has a token with this hash.
pub fn knows_token(clients: &[Client], token_hash: &str) -> (result: bool)
    ensures
        result == knows(client_list(clients@), token_hash@),
{
    let ghost list = client_list(clients@);
    let mut i: usize = 0;
    while i < clients.len()
        invariant
            i <= clients@.len() == list.len(),
            list == client_list(clients@),
            forall|k: int| 0 <= k < i ==> (#[trigger] list[k]).1 != token_hash@,
        decreases clients@.len() - i,
    {
        assert(list[i as int] == (clients@[i as int].name@, clients@[i as int].token_hash@));
        if same_text(&clients[i].token_hash, token_hash) {
            return true;
        }
        i += 1;
    }
    false
}

/// The clients after the first one of a name was given a token, or, where there was none, such a
/// client was added.
pub open spec fn enrolled(
    clients: Seq<(Seq<char>, Seq<char>)>,
    name: Seq<char>,
    token_hash: Seq<char>,
) -> Seq<(Seq<char>, Seq<char>)>
    decreases clients.len(),
{
    if clients.len() == 0 {
        seq![(name, token_hash)]
    } else if clients[0].0 == name {
        clients.update(0, (name, token_hash))
    } else {
        seq![clients[0]] + enrolled(clients.drop_first(), name, token_hash)
    }
}

proof fn lemma_enrolled(
    clients: Seq<(Seq<char>, Seq<char>)>,
    name: Seq<char>,
    token_hash: Seq<char>,
    at: int,
)
    requires
        0 <= at <= clients.len(),
        forall|i: int| 0 <= i < at ==> (#[trigger] clients[i]).0 != name,
        at < clients.len() ==> clients[at].0 == name,
    ensures
        enrolled(clients, name, token_hash) == if at < clients.len() {
            clients.update(at, (name, token_hash))
        } else {
            clients.push((name, token_hash))
        },
    decreases clients.len(),
{
    if clients.len() == 0 {
        assert(clients.push((name, token_hash)) =~= seq![(name, token_hash)]);
    } else if at > 0 {
        lemma_enrolled(clients.drop_first(), name, token_hash, at - 1);
        if at < clients.len() {
            assert(seq![clients[0]] + clients.drop_first().update(at - 1, (name, token_hash))
                =~= clients.update(at, (name, token_hash)));
        } else {
            assert(seq![clients[0]] + clients.drop_first().push((name, token_hash))
                =~= clients.push((name, token_hash)));
        }
    }
}

/// Gives a client a token: the first one of the name, or a new one.
pub fn enroll(clients: &mut Vec<Client>, name: &str, token_hash: String)
    ensures
        client_list(final(clients)@) == enrolled(client_list(old(clients)@), name@, token_hash@),
{
    let ghost before = client_list(clients@);
    let mut i: usize = 0;
    while i < clients.len() && !same_text(&clients[i].name, name)
        invariant
            i <= clients@.len() == before.len(),
            before == client_list(clients@),
            *clients == *old(clients),
            forall|k: int| 0 <= k < i ==> (#[trigger] before[k]).0 != name@,
        decreases clients@.len() - i,
    {
        assert(before[i as int] == (clients@[i as int].name@, clients@[i as int].token_hash@));
        i += 1;
    }
    proof {
        if i < clients@.len() {
            assert(before[i as int] == (clients@[i as int].name@, clients@[i as int].token_hash@));
        }
        lemma_enrolled(before, name@, token_hash@, i as int);
    }
    let ghost hash = token_hash@;
    if i < clients.len() {
        clients[i] = Client { name: name.to_owned(), token_hash };
        assert(client_list(clients@) =~= before.update(i as int, (name@, hash)));
    } else {
        clients.push(Client { name: name.to_owned(), token_hash });
        assert(client_list(clients@) =~= before.push((name@, hash)));
    }
}

/// A client that was given a token is known by it.
pub proof fn law_enrolled_client_is_known(
    clients: Seq<(Seq<char>, Seq<char>)>,
    name: Seq<char>,
    token_hash: Seq<char>,
)
    ensures
        knows(enrolled(clients, name, token_hash), token_hash),
    decreases clients.len(),
{
    let after = enrolled(clients, name, token_hash);
    if clients.len() == 0 || clients[0].0 == name {
        assert(after[0].1 == token_hash);
    } else {
        law_enrolled_client_is_known(clients.drop_first(), name, token_hash);
        let rest = enrolled(clients.drop_first(), name, token_hash);
        let i = choose|i: int| 0 <= i < rest.len() && (#[trigger] rest[i]).1 == token_hash;
        assert(after[i + 1] == rest[i]);
    }
}

/// Giving a client a token leaves the other clients as they were.
pub proof fn law_other_clients_are_left_alone(
    clients: Seq<(Seq<char>, Seq<char>)>,
    name: Seq<char>,
    token_hash: Seq<char>,
    i: int,
)
    requires
        0 <= i < clients.len(),
        clients[i].0 != name,
    ensures
        enrolled(clients, name, token_hash).len() >= clients.len(),
        enrolled(clients, name, token_hash)[i] == clients[i],
    decreases clients.len(),
{
    if clients[0].0 != name {
        if i > 0 {
            law_other_clients_are_left_alone(clients.drop_first(), name, token_hash, i - 1);
        } else {
            lemma_enrolled_length(clients.drop_first(), name, token_hash);
        }
    }
}

proof fn lemma_enrolled_length(
    clients: Seq<(Seq<char>, Seq<char>)>,
    name: Seq<char>,
    token_hash: Seq<char>,
)
    ensures
        enrolled(clients, name, token_hash).len() >= clients.len(),
    decreases clients.len(),
{
    if clients.len() > 0 && clients[0].0 != name {
        lemma_enrolled_length(clients.drop_first(), name, token_hash);
    }
}

/// A client's new token takes the place of its old one: the same client can be given a token any
/// number of times, and only the last one counts.
pub proof fn law_last_token_counts(
    clients: Seq<(Seq<char>, Seq<char>)>,
    name: Seq<char>,
    first: Seq<char>,
    second: Seq<char>,
)
    ensures
        enrolled(enrolled(clients, name, first), name, second) == enrolled(clients, name, second),
    decreases clients.len(),
{
    let once = enrolled(clients, name, first);
    if clients.len() == 0 {
        assert(once.update(0, (name, second)) =~= seq![(name, second)]);
    } else if clients[0].0 == name {
        assert(once.update(0, (name, second)) =~= clients.update(0, (name, second)));
    } else {
        law_last_token_counts(clients.drop_first(), name, first, second);
        assert(once[0] == clients[0]);
        assert(once.drop_first() =~= enrolled(clients.drop_first(), name, first));
    }
}

/// The URL of the API is the domain under HTTPS, with the port where it is not that of HTTPS.
pub proof fn law_api_url_is_the_domain(config: &Config, url: String)
    requires
        call_ensures(Config::api_url, (config,), url),
    ensures
        config.listen_port == 443 ==> url@ == "https://"@ + config.domain@,
        config.listen_port != 443 ==> url@ == "https://"@ + config.domain@ + ":"@ + digits_of(
            config.listen_port as nat,
        ),
{
    reveal_strlit("");
    if config.listen_port == 443 {
        assert(url@ =~= "https://"@ + config.domain@);
    } else {
        assert(url@ =~= "https://"@ + config.domain@ + ":"@ + digits_of(config.listen_port as nat));
    }
}

/// From the machine itself the API is reached at the machine's own address, in the family of the
/// public one, and at the port where the server listens.
pub proof fn law_local_address_is_the_machine(config: &Config, address: SocketAddr, text: String)
    requires
        call_ensures(Config::local_api_address, (config,), address),
        call_ensures(Config::local_api_text, (config,), text),
    ensures
        address.port == config.listen_port,
        config.public_ip is V4 ==> {
            &&& address.ip == IpAddr::V4([127, 0, 0, 1])
            &&& text@ == "127.0.0.1:"@ + digits_of(config.listen_port as nat)
        },
        config.public_ip is V6 ==> {
            &&& address.ip == IpAddr::V6([0, 0, 0, 0, 0, 0, 0, 1])
            &&& text@ == "[::1]:"@ + digits_of(config.listen_port as nat)
        },
{
}

/// A token is known exactly where one of the clients has its hash, and which one makes no
/// difference.
pub proof fn law_any_client_makes_a_token_known(
    a: Seq<(Seq<char>, Seq<char>)>,
    b: Seq<(Seq<char>, Seq<char>)>,
    client: (Seq<char>, Seq<char>),
    token_hash: Seq<char>,
)
    ensures
        knows(a + b, token_hash) == (knows(a, token_hash) || knows(b, token_hash)),
        knows(seq![client], token_hash) == (client.1 == token_hash),
        !knows(Seq::<(Seq<char>, Seq<char>)>::empty(), token_hash),
{
    let all = a + b;
    if knows(a, token_hash) {
        let i = choose|i: int| 0 <= i < a.len() && (#[trigger] a[i]).1 == token_hash;
        assert(all[i] == a[i]);
    }
    if knows(b, token_hash) {
        let i = choose|i: int| 0 <= i < b.len() && (#[trigger] b[i]).1 == token_hash;
        assert(all[a.len() + i] == b[i]);
    }
    if knows(all, token_hash) {
        let i = choose|i: int| 0 <= i < all.len() && (#[trigger] all[i]).1 == token_hash;
        if i < a.len() {
            assert(a[i] == all[i]);
        } else {
            assert(b[i - a.len()] == all[i]);
        }
    }
    assert(seq![client][0] == client);
}

/// Whether a token is known is asked of the clients' hashes.
pub proof fn law_known_tokens(clients: &[Client], token_hash: &str, known: bool)
    requires
        call_ensures(knows_token, (clients, token_hash), known),
    ensures
        known <==> exists|i: int|
            0 <= i < clients@.len() && (#[trigger] clients@[i]).token_hash@ == token_hash@,
{
    let list = client_list(clients@);
    if known {
        let i = choose|i: int| 0 <= i < list.len() && (#[trigger] list[i]).1 == token_hash@;
        assert(clients@[i].token_hash@ == token_hash@);
    }
    if exists|i: int|
        0 <= i < clients@.len() && (#[trigger] clients@[i]).token_hash@ == token_hash@ {
        let i = choose|i: int|
            0 <= i < clients@.len() && (#[trigger] clients@[i]).token_hash@ == token_hash@;
        assert(list[i].1 == token_hash@);
    }
}

/// A client's token takes the place of the one that the first client of its name had; a client
/// of a new name comes last. All others stay where they are and as they are.
pub proof fn law_enrolling_is_in_place(
    before: Seq<(Seq<char>, Seq<char>)>,
    name: Seq<char>,
    old_hash: Seq<char>,
    after: Seq<(Seq<char>, Seq<char>)>,
    new_hash: Seq<char>,
)
    requires
        forall|i: int| 0 <= i < before.len() ==> (#[trigger] before[i]).0 != name,
    ensures
        enrolled(before + seq![(name, old_hash)] + after, name, new_hash) == before + seq![
            (name, new_hash),
        ] + after,
        enrolled(before, name, new_hash) == before + seq![(name, new_hash)],
{
    let all = before + seq![(name, old_hash)] + after;
    let n = before.len() as int;
    assert forall|i: int| 0 <= i < n implies (#[trigger] all[i]).0 != name by {
        assert(all[i] == before[i]);
    }
    assert(all[n] == (name, old_hash));
    lemma_enrolled(all, name, new_hash, n);
    assert(all.update(n, (name, new_hash)) =~= before + seq![(name, new_hash)] + after);
    lemma_enrolled(before, name, new_hash, n);
    assert(before.push((name, new_hash)) =~= before + seq![(name, new_hash)]);
}

/// Enrolling changes the list of clients in this way.
pub proof fn law_enroll_enrolls(
    clients: &mut Vec<Client>,
    name: &str,
    token_hash: String,
    before: Seq<(Seq<char>, Seq<char>)>,
    old_hash: Seq<char>,
    after: Seq<(Seq<char>, Seq<char>)>,
)
    requires
        call_ensures(enroll, (clients, name, token_hash), ()),
        forall|i: int| 0 <= i < before.len() ==> (#[trigger] before[i]).0 != name@,
    ensures
        client_list(old(clients)@) == before + seq![(name@, old_hash)] + after ==> client_list(
            final(clients)@,
        ) == before + seq![(name@, token_hash@)] + after,
        client_list(old(clients)@) == before ==> client_list(final(clients)@) == before + seq![
            (name@, token_hash@),
        ],
{
    law_enrolling_is_in_place(before, name@, old_hash, after, token_hash@);
}

} // verus!
