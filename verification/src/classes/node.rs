//! A node of the cluster: its configuration, its place in the roster, and
//! the state that its handlers read and change.

use crate::base_libs::address::Address;
use crate::base_libs::paxos::PaxosState;
use crate::classes::erasure_coding::ECService;
use crate::classes::store::Store;
use crate::erasure_coding::valid_params;
use crate::text::{decimal, push_decimal};
use crate::types::strings_view;
use vstd::prelude::*;

verus! {

/// A node. It sends and receives nothing itself: its handlers say what is
/// to be sent, and the caller sends it.
pub struct Node {
    pub address: Address,
    pub running: bool,
    pub load_balancer_address: Address,
    pub leader_address: Address,
    /// The roster: the leader first, then the followers in the order in
    /// which they joined.
    pub cluster_list: Vec<String>,
    /// This node's position in the roster, `usize::MAX` until it has one.
    pub cluster_index: usize,
    pub state: PaxosState,
    pub request_id: u64,
    pub store: Store,
    pub ec: ECService,
    pub ec_active: bool,
}

impl Node {
    /// Whether the node's erasure code has valid shard counts.
    pub open spec fn well_formed(&self) -> bool {
        self.ec.well_formed()
    }

    /// The roster as texts.
    pub open spec fn roster(&self) -> Seq<Seq<char>> {
        strings_view(self.cluster_list@)
    }

    /// Whether `other` has the configuration of `self`: the addresses, the
    /// role, the erasure code and the running flag.
    pub open spec fn same_config(&self, other: &Node) -> bool {
        &&& self.address == other.address
        &&& self.leader_address == other.leader_address
        &&& self.load_balancer_address == other.load_balancer_address
        &&& self.state == other.state
        &&& self.ec == other.ec
        &&& self.ec_active == other.ec_active
        &&& self.running == other.running
    }

    /// Whether `other` is `self` with, at most, another store.
    pub open spec fn same_but_store(&self, other: &Node) -> bool {
        &&& self.same_config(other)
        &&& self.cluster_list == other.cluster_list
        &&& self.cluster_index == other.cluster_index
        &&& self.request_id == other.request_id
    }

    /// The path of the node's log: `./log/`, the host, two dots, the port.
    pub open spec fn log_path(&self) -> Seq<char> {
        "./log/"@ + self.address.ip@ + ".."@ + decimal(self.address.port as nat)
    }

    /// A node that has not started: no roster, no index, request id 0 and
    /// an empty store.
    pub fn new(
        address: Address,
        leader_address: Address,
        load_balancer_address: Address,
        state: PaxosState,
        shard_count: usize,
        parity_count: usize,
        ec_active: bool,
    ) -> (res: Self)
        requires
            valid_params(shard_count as nat, parity_count as nat),
        ensures
            res.well_formed(),
            res.address == address,
            res.leader_address == leader_address,
            res.load_balancer_address == load_balancer_address,
            res.state == state,
            res.ec.shard_count == shard_count,
            res.ec.parity_count == parity_count,
            res.ec_active == ec_active,
            !res.running,
            res.cluster_list@.len() == 0,
            res.cluster_index == usize::MAX,
            res.request_id == 0,
            res.store@ == Map::<Seq<char>, Seq<char>>::empty(),
    {
        Node {
            address,
            running: false,
            load_balancer_address,
            leader_address,
            cluster_list: Vec::new(),
            cluster_index: usize::MAX,
            state,
            request_id: 0,
            store: Store::new(),
            ec: ECService::new(shard_count, parity_count),
            ec_active,
        }
    }

    /// The lines that describe the node: its addresses, its role and
    /// whether it uses erasure coding.
    pub open spec fn info_text(&self) -> Seq<char> {
        "Node info:\nAddress: "@ + self.address.rendered() + "\nLeader: "@
            + self.leader_address.rendered() + "\nLoad Balancer: "@
            + self.load_balancer_address.rendered() + "\nState: "@ + self.state.name()
            + "\nErasure Coding: "@ + (if self.ec_active {
            "true"@
        } else {
            "false"@
        }) + "\n"@
    }

    /// The lines that describe the node.
    pub fn print_info(&self) -> (res: String)
        ensures
            res@ == self.info_text(),
    {
        let mut res = "Node info:\nAddress: ".to_owned();
        res.append(self.address.to_string().as_str());
        res.append("\nLeader: ");
        res.append(self.leader_address.to_string().as_str());
        res.append("\nLoad Balancer: ");
        res.append(self.load_balancer_address.to_string().as_str());
        res.append("\nState: ");
        res.append(self.state.to_string().as_str());
        res.append("\nErasure Coding: ");
        res.append(if self.ec_active {
            "true"
        } else {
            "false"
        });
        res.append("\n");
        res
    }

    /// The path of the node's log.
    pub fn wal_path(&self) -> (res: String)
        ensures
            res@ == self.log_path(),
    {
        let mut res = "./log/".to_owned();
        res.append(self.address.ip.as_str());
        res.append("..");
        push_decimal(&mut res, self.address.port as u64);
        res
    }
}

} // verus!
