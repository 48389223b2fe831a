//! Endpoints of nodes, clients and the load balancer.

use crate::text::{decimal, push_decimal};
use vstd::prelude::*;

verus! {

/// An endpoint: a host and a port.
#[derive(Debug)]
pub struct Address {
    pub ip: String,
    pub port: u16,
}

impl Address {
    /// The form `ip:port`, by which an endpoint is known on the wire.
    pub open spec fn rendered(&self) -> Seq<char> {
        self.ip@ + seq![':'] + decimal(self.port as nat)
    }

    /// The endpoint at `ip` and `port`.
    pub fn new(ip: &str, port: u16) -> (res: Self)
        ensures
            res.ip@ == ip@,
            res.port == port,
    {
        Address { ip: ip.to_owned(), port }
    }

    /// The endpoint written as `ip:port`.
    pub fn to_string(&self) -> (res: String)
        ensures
            res@ == self.rendered(),
    {
        proof {
            reveal_strlit(":");
        }
        let mut res = self.ip.clone();
        res.append(":");
        push_decimal(&mut res, self.port as u64);
        assert(res@ =~= self.rendered());
        res
    }
}

impl Clone for Address {
    fn clone(&self) -> (res: Self)
        ensures
            res.ip@ == self.ip@,
            res.port == self.port,
    {
        Address { ip: self.ip.clone(), port: self.port }
    }
}

impl PartialEq for Address {
    fn eq(&self, other: &Self) -> (res: bool) {
        self.ip == other.ip && self.port == other.port
    }
}

impl vstd::std_specs::cmp::PartialEqSpecImpl for Address {
    open spec fn obeys_eq_spec() -> bool {
        true
    }

    open spec fn eq_spec(&self, other: &Self) -> bool {
        self.ip@ == other.ip@ && self.port == other.port
    }
}

} // verus!
