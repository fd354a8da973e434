//! The decision at the heart of the polling loop: after each successful
//! look-up of the public address, whether the records must be rewritten.
//!
//! The records are rewritten when the address differs from the last one seen
//! (or none has been seen yet); the new address is remembered whatever the
//! updates' outcome. A failed look-up changes nothing.
use vstd::prelude::*;

verus! {

/// The last public address seen, if any.
#[derive(Debug)]
pub struct IpTracker {
    last_ip: Option<String>,
}

impl View for IpTracker {
    type V = Option<Seq<char>>;

    closed spec fn view(&self) -> Option<Seq<char>> {
        match self.last_ip {
            Some(ip) => Some(ip@),
            None => None,
        }
    }
}

/// Whether an address differs from the last one seen.
pub open spec fn address_changed(last: Option<Seq<char>>, ip: Seq<char>) -> bool {
    last != Some(ip)
}

impl IpTracker {
    /// A tracker that has seen no address yet.
    pub fn new() -> (r: IpTracker)
        ensures
            r@ is None,
    {
        IpTracker { last_ip: None }
    }

    /// Takes note of a freshly looked-up address; returns whether the records
    /// must be rewritten, which is when it differs from the last one seen.
    pub fn observe(&mut self, ip: &str) -> (changed: bool)
        ensures
            changed == address_changed(old(self)@, ip@),
            final(self)@ == Some(ip@),
    {
        let fresh = String::from_str(ip);
        let changed = match &self.last_ip {
            Some(last) => !(*last == fresh),
            None => true,
        };
        self.last_ip = Some(fresh);
        changed
    }
}

/// The first address seen always calls for an update.
pub proof fn law_first_address_updates(ip: Seq<char>)
    ensures
        address_changed(None, ip),
{
}

/// Once an address has been taken note of, seeing it again calls for no
/// update, and seeing another one does.
pub proof fn law_same_address_updates_once(ip: Seq<char>, other: Seq<char>)
    ensures
        !address_changed(Some(ip), ip),
        other != ip ==> address_changed(Some(ip), other),
{
}

} // verus!
