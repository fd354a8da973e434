//! Reading the public IPv4 address out of the public-ip service's reply.
use vstd::prelude::*;
use crate::ipv4::{is_ipv4_text, ipv4_text, parse_ipv4, ipv4_to_string};
use crate::text::{trim, trimmed};

verus! {

/// Why the service's reply gives no usable address.
#[derive(Clone, Debug)]
pub enum PublicIpError {
    /// The stated address is not a dotted-quad IPv4 address.
    NotIpv4(String),
}

/// The address text that a reply states: the `ip` field when the body is a
/// JSON object with one, else the whole body without surrounding white space.
pub open spec fn stated_address(json_ip: Option<String>, body: Seq<char>) -> Seq<char> {
    match json_ip {
        Some(ip) => ip@,
        None => trimmed(body),
    }
}

/// A JSON `ip` field is taken as it is, whatever the rest of the body; a
/// plain body is taken without its surrounding white space, so trimming it
/// first changes nothing.
pub proof fn law_stated_address(ip: String, body: Seq<char>, other_body: Seq<char>)
    ensures
        stated_address(Some(ip), body) == ip@,
        stated_address(Some(ip), body) == stated_address(Some(ip), other_body),
        stated_address(None, body) == trimmed(body),
        stated_address(None, body) == stated_address(None, trimmed(body)),
{
    crate::text::law_trim_idempotent(body);
}

/// The public address from the service's reply, in dotted-quad form.
///
/// `json_ip` is the `ip` field of the body read as a JSON object, where it
/// reads as one; otherwise the body itself is the address.
pub fn public_ip_from_reply(json_ip: Option<String>, body: &str) -> (r: Result<
    String,
    PublicIpError,
>)
    ensures
        r is Ok <==> is_ipv4_text(stated_address(json_ip, body@)),
        r matches Ok(ip) ==> ip@ == stated_address(json_ip, body@),
        r matches Err(PublicIpError::NotIpv4(s)) ==> s@ == stated_address(json_ip, body@),
{
    let ghost stated = stated_address(json_ip, body@);
    let candidate = match json_ip {
        Some(ip) => ip,
        None => String::from_str(trim(body)),
    };
    assert(candidate@ == stated);
    match parse_ipv4(candidate.as_str()) {
        Some(a) => {
            let ip = ipv4_to_string(a);
            assert(ipv4_text(a) == stated) by {
                assert(is_ipv4_text(stated));
            }
            Ok(ip)
        },
        None => Err(PublicIpError::NotIpv4(candidate)),
    }
}

} // verus!
