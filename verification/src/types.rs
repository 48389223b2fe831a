//! The frames that nodes exchange, and the datagrams that a handler asks
//! its caller to send.

use crate::base_libs::operation::{Operation, OperationView};
use vstd::prelude::*;

verus! {

/// A follower's wish to join the cluster.
#[derive(Debug, PartialEq, Eq)]
pub struct FollowerRegistrationRequest {
    pub follower_addr: String,
}

/// The roster after a follower joined, and the index of that follower.
#[derive(Debug, PartialEq, Eq)]
pub struct FollowerRegistrationReply {
    pub follower_list: Vec<String>,
    pub index: usize,
}

/// A frame on the wire between nodes.
#[derive(Debug, PartialEq, Eq)]
pub enum PaxosMessage {
    /// Prepare: the leader announces the next request.
    LeaderRequest { request_id: u64 },
    /// Accept: the leader hands a node its part of the request.
    LeaderAccepted { request_id: u64, operation: Operation },
    /// A follower's acknowledgement of a prepare, an accept or a roster.
    FollowerAck { request_id: u64 },
    /// A follower asks to join.
    FollowerRegisterRequest(FollowerRegistrationRequest),
    /// The leader announces the roster.
    FollowerRegisterReply(FollowerRegistrationReply),
    /// A client command.
    ClientRequest { request_id: u64, payload: Vec<u8> },
    /// A node asks a peer for its shard of a key.
    RecoveryRequest { key: String },
    /// A peer's shard, with the peer's index in the roster.
    RecoveryReply { index: usize, payload: Vec<u8> },
}

/// Mathematical value of a [`PaxosMessage`].
pub ghost enum PaxosMessageView {
    LeaderRequest { request_id: u64 },
    LeaderAccepted { request_id: u64, operation: OperationView },
    FollowerAck { request_id: u64 },
    FollowerRegisterRequest { follower_addr: Seq<char> },
    FollowerRegisterReply { follower_list: Seq<Seq<char>>, index: usize },
    ClientRequest { request_id: u64, payload: Seq<u8> },
    RecoveryRequest { key: Seq<char> },
    RecoveryReply { index: usize, payload: Seq<u8> },
}

/// A datagram to send: a frame for a node, or a line of text for a client
/// or the load balancer.
#[derive(Debug, PartialEq, Eq)]
pub enum Outbound {
    Frame { to: String, message: PaxosMessage },
    Text { to: String, text: String },
}

/// Mathematical value of an [`Outbound`].
pub ghost enum OutboundView {
    Frame { to: Seq<char>, message: PaxosMessageView },
    Text { to: Seq<char>, text: Seq<char> },
}

/// The texts that a vector of strings holds.
pub open spec fn strings_view(strings: Seq<String>) -> Seq<Seq<char>> {
    Seq::new(strings.len(), |i: int| strings[i]@)
}

/// The datagrams that a vector holds.
pub open spec fn outbound_views(datagrams: Seq<Outbound>) -> Seq<OutboundView> {
    Seq::new(datagrams.len(), |i: int| datagrams[i]@)
}

impl View for FollowerRegistrationRequest {
    type V = Seq<char>;

    open spec fn view(&self) -> Seq<char> {
        self.follower_addr@
    }
}

impl View for FollowerRegistrationReply {
    type V = (Seq<Seq<char>>, usize);

    open spec fn view(&self) -> (Seq<Seq<char>>, usize) {
        (strings_view(self.follower_list@), self.index)
    }
}

impl View for PaxosMessage {
    type V = PaxosMessageView;

    open spec fn view(&self) -> PaxosMessageView {
        match self {
            PaxosMessage::LeaderRequest { request_id } => PaxosMessageView::LeaderRequest {
                request_id: *request_id,
            },
            PaxosMessage::LeaderAccepted {
                request_id,
                operation,
            } => PaxosMessageView::LeaderAccepted {
                request_id: *request_id,
                operation: operation@,
            },
            PaxosMessage::FollowerAck { request_id } => PaxosMessageView::FollowerAck {
                request_id: *request_id,
            },
            PaxosMessage::FollowerRegisterRequest(
                request,
            ) => PaxosMessageView::FollowerRegisterRequest { follower_addr: request.follower_addr@ },
            PaxosMessage::FollowerRegisterReply(reply) => PaxosMessageView::FollowerRegisterReply {
                follower_list: strings_view(reply.follower_list@),
                index: reply.index,
            },
            PaxosMessage::ClientRequest { request_id, payload } => PaxosMessageView::ClientRequest {
                request_id: *request_id,
                payload: payload@,
            },
            PaxosMessage::RecoveryRequest { key } => PaxosMessageView::RecoveryRequest { key: key@ },
            PaxosMessage::RecoveryReply { index, payload } => PaxosMessageView::RecoveryReply {
                index: *index,
                payload: payload@,
            },
        }
    }
}

impl View for Outbound {
    type V = OutboundView;

    open spec fn view(&self) -> OutboundView {
        match self {
            Outbound::Frame { to, message } => OutboundView::Frame { to: to@, message: message@ },
            Outbound::Text { to, text } => OutboundView::Text { to: to@, text: text@ },
        }
    }
}

/// A copy of `strings`.
pub fn clone_strings(strings: &Vec<String>) -> (res: Vec<String>)
    ensures
        strings_view(res@) == strings_view(strings@),
{
    let mut res: Vec<String> = Vec::new();
    let mut i: usize = 0;
    while i < strings.len()
        invariant
            i <= strings@.len(),
            res@.len() == i,
            forall|j: int| 0 <= j < i ==> (#[trigger] res@[j])@ == strings@[j]@,
        decreases strings@.len() - i,
    {
        res.push(strings[i].clone());
        i += 1;
    }
    assert(strings_view(res@) =~= strings_view(strings@));
    res
}

impl Clone for FollowerRegistrationRequest {
    fn clone(&self) -> (res: Self)
        ensures
            res@ == self@,
    {
        FollowerRegistrationRequest { follower_addr: self.follower_addr.clone() }
    }
}

impl Clone for FollowerRegistrationReply {
    fn clone(&self) -> (res: Self)
        ensures
            res@ == self@,
    {
        FollowerRegistrationReply {
            follower_list: clone_strings(&self.follower_list),
            index: self.index,
        }
    }
}

impl Clone for PaxosMessage {
    fn clone(&self) -> (res: Self)
        ensures
            res@ == self@,
    {
        match self {
            PaxosMessage::LeaderRequest { request_id } => PaxosMessage::LeaderRequest {
                request_id: *request_id,
            },
            PaxosMessage::LeaderAccepted { request_id, operation } => PaxosMessage::LeaderAccepted {
                request_id: *request_id,
                operation: operation.clone(),
            },
            PaxosMessage::FollowerAck { request_id } => PaxosMessage::FollowerAck {
                request_id: *request_id,
            },
            PaxosMessage::FollowerRegisterRequest(request) => PaxosMessage::FollowerRegisterRequest(
                request.clone(),
            ),
            PaxosMessage::FollowerRegisterReply(reply) => PaxosMessage::FollowerRegisterReply(
                reply.clone(),
            ),
            PaxosMessage::ClientRequest { request_id, payload } => PaxosMessage::ClientRequest {
                request_id: *request_id,
                payload: payload.clone(),
            },
            PaxosMessage::RecoveryRequest { key } => PaxosMessage::RecoveryRequest {
                key: key.clone(),
            },
            PaxosMessage::RecoveryReply { index, payload } => PaxosMessage::RecoveryReply {
                index: *index,
                payload: payload.clone(),
            },
        }
    }
}

} // verus!
