//! Values exchanged with the chat and HTTP frontends.

use vstd::prelude::*;
use vstd::string::StringSliceAdditionalSpecFns;

verus! {

/// Routing status of a client.
#[derive(Debug, Clone, Copy, PartialEq, Eq, Structural)]
pub struct Status {
    pub double_vpn: bool,
}

/// A request to change a client's routing.
#[derive(Debug, Clone, Copy, PartialEq, Eq, Structural)]
pub struct ChangeRouting {
    pub double_vpn: bool,
}

/// A request for a new client, with the client's own public key (base64) if
/// it has one.
#[derive(Debug, Clone)]
pub struct NewClient {
    pub key: Option<String>,
}

/// What the server tells clients about itself, borrowed from its settings.
#[derive(Debug, Clone, Copy)]
pub struct WireguardInfo<'a> {
    pub endpoint: &'a str,
    pub pub_key: &'a str,
}

/// Routing mode a client asks for.
#[derive(Debug, Clone, Copy, PartialEq, Eq, Structural)]
pub enum VpnMode {
    Double,
    Single,
}

/// Whether two byte strings are equal.
fn bytes_equal(a: &[u8], b: &[u8]) -> (r: bool)
    ensures
        r == (a@ == b@),
{
    if a.len() != b.len() {
        return false;
    }
    let mut i: usize = 0;
    while i < a.len()
        invariant
            a@.len() == b@.len(),
            i <= a@.len(),
            forall|j: int| 0 <= j < i ==> a@[j] == b@[j],
        decreases a@.len() - i,
    {
        if a[i] != b[i] {
            return false;
        }
        i = i + 1;
    }
    proof {
        assert(a@ =~= b@);
    }
    true
}

/// Strings with the same bytes are the same string.
proof fn lemma_same_bytes(s: &str, t: &str)
    requires
        s.spec_bytes() == t.spec_bytes(),
    ensures
        s@ == t@,
{
    vstd::utf8::encode_utf8_decode_utf8(s@);
    vstd::utf8::encode_utf8_decode_utf8(t@);
}

impl VpnMode {
    /// The mode named `double` or `single`.
    pub fn parse(s: &str) -> (r: Option<VpnMode>)
        ensures
            r == Some(VpnMode::Double) <==> s@ == "double"@,
            r == Some(VpnMode::Single) <==> s@ == "single"@,
            r.is_none() <==> s@ != "double"@ && s@ != "single"@,
    {
        proof {
            reveal_strlit("double");
            reveal_strlit("single");
        }
        if bytes_equal(s.as_bytes(), "double".as_bytes()) {
            proof {
                lemma_same_bytes(s, "double");
            }
            Some(VpnMode::Double)
        } else if bytes_equal(s.as_bytes(), "single".as_bytes()) {
            proof {
                lemma_same_bytes(s, "single");
                assert("double"@ != "single"@) by {
                    assert("double"@[0] != "single"@[0]);
                }
            }
            Some(VpnMode::Single)
        } else {
            None
        }
    }
}

impl std::str::FromStr for VpnMode {
    type Err = String;

    fn from_str(s: &str) -> (r: Result<VpnMode, String>)
        ensures
            r == Ok::<VpnMode, String>(VpnMode::Double) <==> s@ == "double"@,
            r == Ok::<VpnMode, String>(VpnMode::Single) <==> s@ == "single"@,
            r.is_err() <==> s@ != "double"@ && s@ != "single"@,
            r.is_err() ==> r.unwrap_err()@ == "unsupported"@,
    {
        match VpnMode::parse(s) {
            Some(m) => Ok(m),
            None => Err("unsupported".to_owned()),
        }
    }
}

} // verus!
