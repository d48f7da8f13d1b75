//! Tunnel names.

use vstd::prelude::*;
use vstd::string::*;

use crate::text::chars_of;

verus! {

/// The longest tunnel name: a tunnel name is one label of a host name.
pub const MAX_TUNNEL_ID_LENGTH: usize = 63;

pub open spec fn is_tunnel_id_char(c: char) -> bool {
    ('a' <= c <= 'z') || ('0' <= c <= '9') || c == '-'
}

/// The names that a tunnel can have: one to sixty-three lowercase letters, digits and hyphens,
/// the hyphens inside.
pub open spec fn is_tunnel_id(name: Seq<char>) -> bool {
    &&& 0 < name.len() <= MAX_TUNNEL_ID_LENGTH
    &&& name[0] != '-'
    &&& name.last() != '-'
    &&& forall|i: int| 0 <= i < name.len() ==> is_tunnel_id_char(#[trigger] name[i])
}

/// The name of a tunnel.
#[derive(Debug, Eq, Hash, PartialEq)]
pub struct TunnelId(String);

/// The given name is no tunnel name.
#[derive(Clone, Copy, Debug)]
pub struct InvalidTunnelId;

impl View for TunnelId {
    type V = Seq<char>;

    closed spec fn view(&self) -> Seq<char> {
        self.0@
    }
}

impl TunnelId {
    #[verifier::type_invariant]
    spec fn well_formed(self) -> bool {
        is_tunnel_id(self.0@)
    }

    /// Takes a name that is a tunnel name.
    pub fn new(value: &str) -> (result: Result<Self, InvalidTunnelId>)
        ensures
            result is Ok <==> is_tunnel_id(value@),
            result matches Ok(id) ==> id@ == value@,
    {
        match validate_tunnel_id(value) {
            Ok(()) => Ok(TunnelId(value.to_owned())),
            Err(error) => Err(error),
        }
    }

    pub fn as_str(&self) -> (result: &str)
        ensures
            result@ == self@,
            is_tunnel_id(result@),
    {
        proof {
            use_type_invariant(self);
        }
        self.0.as_str()
    }

    /// The name as a string of its own.
    pub fn to_string(&self) -> (result: String)
        ensures
            result@ == self@,
            is_tunnel_id(result@),
    {
        self.as_str().to_owned()
    }
}

impl Clone for TunnelId {
    fn clone(&self) -> (result: Self)
        ensures
            result@ == self@,
    {
        proof {
            use_type_invariant(self);
        }
        TunnelId(self.0.clone())
    }
}

impl InvalidTunnelId {
    /// The words that the error is reported with.
    pub fn message(self) -> (result: &'static str)
        ensures
            result@
                == "tunnel name must contain only lowercase letters, numbers, and internal hyphens"@,
    {
        "tunnel name must contain only lowercase letters, numbers, and internal hyphens"
    }
}

/// Accepts exactly the tunnel names.
pub fn validate_tunnel_id(value: &str) -> (result: Result<(), InvalidTunnelId>)
    ensures
        result is Ok <==> is_tunnel_id(value@),
{
    let name = chars_of(value);
    let length = name.len();
    if length == 0 || length > MAX_TUNNEL_ID_LENGTH || name[0] == '-' || name[length - 1] == '-' {
        return Err(InvalidTunnelId);
    }
    let mut i: usize = 0;
    while i < length
        invariant
            i <= length == name@.len(),
            name@ == value@,
            forall|k: int| 0 <= k < i ==> is_tunnel_id_char(#[trigger] name@[k]),
        decreases length - i,
    {
        let c = name[i];
        if !(('a' <= c && c <= 'z') || ('0' <= c && c <= '9') || c == '-') {
            return Err(InvalidTunnelId);
        }
        i += 1;
    }
    Ok(())
}

/// The texts that are tunnel names: one to sixty-three lowercase letters, digits and hyphens, of
/// which neither the first nor the last is a hyphen.
pub proof fn law_tunnel_ids_are_host_labels(
    value: &str,
    result: Result<TunnelId, InvalidTunnelId>,
    valid: Result<(), InvalidTunnelId>,
)
    requires
        call_ensures(TunnelId::new, (value,), result),
        call_ensures(validate_tunnel_id, (value,), valid),
    ensures
        ({
            let n = value@.len() as int;
            let good = {
                &&& 1 <= n <= 63
                &&& value@[0] != '-'
                &&& value@[n - 1] != '-'
                &&& forall|i: int|
                    0 <= i < n ==> ('a' <= #[trigger] value@[i] <= 'z') || ('0' <= value@[i] <= '9')
                        || value@[i] == '-'
            };
            &&& result is Ok <==> good
            &&& valid is Ok <==> good
        }),
        result matches Ok(id) ==> id@ == value@,
{
    if is_tunnel_id(value@) {
        assert forall|i: int| 0 <= i < value@.len() implies ('a' <= #[trigger] value@[i] <= 'z') || (
        '0' <= value@[i] <= '9') || value@[i] == '-' by {
            assert(is_tunnel_id_char(value@[i]));
        }
    }
}

} // verus!
