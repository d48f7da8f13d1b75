//! Addresses.

use vstd::prelude::*;
use vstd::string::*;

use crate::text::{digits_of, number};

verus! {

/// An IP address, by its bytes or by its groups.
#[derive(Clone, Copy, Debug, PartialEq, Eq)]
pub enum IpAddr {
    V4([u8; 4]),
    V6([u16; 8]),
}

/// An IP address and a port.
#[derive(Clone, Copy, Debug, PartialEq, Eq)]
pub struct SocketAddr {
    pub ip: IpAddr,
    pub port: u16,
}

/// The address of the machine itself.
pub const LOCALHOST_V4: [u8; 4] = [127, 0, 0, 1];

/// The address of the machine itself.
pub const LOCALHOST_V6: [u16; 8] = [0, 0, 0, 0, 0, 0, 0, 1];

/// The bytes of an IPv4 address in decimal, with something between them.
pub open spec fn ipv4_text(bytes: Seq<u8>, between: Seq<char>) -> Seq<char> {
    digits_of(bytes[0] as nat) + between + digits_of(bytes[1] as nat) + between + digits_of(
        bytes[2] as nat,
    ) + between + digits_of(bytes[3] as nat)
}

/// Writes the bytes of an IPv4 address in decimal, with something between them.
pub fn write_ipv4(bytes: [u8; 4], between: &str) -> (result: String)
    ensures
        result@ == ipv4_text(bytes@, between@),
{
    let text = number(bytes[0] as u64).concat(between);
    let text = text.concat(&number(bytes[1] as u64));
    let text = text.concat(between);
    let text = text.concat(&number(bytes[2] as u64));
    let text = text.concat(between);
    text.concat(&number(bytes[3] as u64))
}

impl IpAddr {
    pub open spec fn v4(self) -> bool {
        self is V4
    }

    pub fn is_ipv4(&self) -> (result: bool)
        ensures
            result == self.v4(),
    {
        match self {
            IpAddr::V4(_) => true,
            IpAddr::V6(_) => false,
        }
    }
}

/// The address of the machine itself, in the given family.
pub open spec fn localhost(v4: bool) -> IpAddr {
    if v4 {
        IpAddr::V4(LOCALHOST_V4)
    } else {
        IpAddr::V6(LOCALHOST_V6)
    }
}

/// The text for a port on the machine itself.
pub open spec fn local_text(v4: bool, port: u16) -> Seq<char> {
    if v4 {
        "127.0.0.1:"@ + digits_of(port as nat)
    } else {
        "[::1]:"@ + digits_of(port as nat)
    }
}

/// The text for a port on the machine itself.
pub fn write_local(v4: bool, port: u16) -> (result: String)
    ensures
        result@ == local_text(v4, port),
{
    if v4 {
        "127.0.0.1:".to_owned().concat(&number(port as u64))
    } else {
        "[::1]:".to_owned().concat(&number(port as u64))
    }
}

/// The four bytes of an address stand in order, with the same text between two of them.
pub proof fn law_ipv4_text_is_its_bytes(bytes: [u8; 4], between: &str, text: String)
    requires
        call_ensures(write_ipv4, (bytes, between), text),
    ensures
        text@ == digits_of(bytes@[0] as nat) + between@ + digits_of(bytes@[1] as nat) + between@
            + digits_of(bytes@[2] as nat) + between@ + digits_of(bytes@[3] as nat),
{
}

/// The machine itself is written in its family, with the port after it.
pub proof fn law_local_text_names_the_machine(
    v4: bool,
    port: u16,
    text: String,
    address: &IpAddr,
    family: bool,
)
    requires
        call_ensures(write_local, (v4, port), text),
        call_ensures(IpAddr::is_ipv4, (address,), family),
    ensures
        v4 ==> text@ == seq!['1', '2', '7', '.', '0', '.', '0', '.', '1', ':'] + digits_of(
            port as nat,
        ),
        !v4 ==> text@ == seq!['[', ':', ':', '1', ']', ':'] + digits_of(port as nat),
        family <==> *address is V4,
{
    reveal_strlit("127.0.0.1:");
    reveal_strlit("[::1]:");
    assert("127.0.0.1:"@ =~= seq!['1', '2', '7', '.', '0', '.', '0', '.', '1', ':']);
    assert("[::1]:"@ =~= seq!['[', ':', ':', '1', ']', ':']);
}

} // verus!
