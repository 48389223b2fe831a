//! What a follower does with each frame that it receives.

use crate::base_libs::operation::{parse_command, Operation, OperationType, OperationView};
use crate::base_libs::paxos::{format_response, response_text, send_one, Step, StepView};
use crate::classes::node::Node;
use crate::leader::registration;
use crate::classes::store::reply;
use crate::types::{
    clone_strings, outbound_views, strings_view, FollowerRegistrationReply,
    FollowerRegistrationRequest, Outbound, OutboundView, PaxosMessage, PaxosMessageView,
};
use crate::wal::{record_bytes, wal_record};
use vstd::prelude::*;

verus! {

/// The line by which a node at `address` makes itself known to the load
/// balancer.
pub open spec fn registration_line(address: Seq<char>) -> Seq<char> {
    "register:"@ + address
}

/// The message of a reply that a follower gives by itself.
pub open spec fn handled_by_follower() -> Seq<char> {
    "Request is handled by follower"@
}

/// The index of a follower after the index `announced` reached it: the one
/// that it had, or the announced one where it had none.
pub open spec fn adopted_index(current: usize, announced: usize) -> usize {
    if current == usize::MAX {
        announced
    } else {
        current
    }
}

/// The index of a follower after the indices `announced` reached it, in
/// order.
pub open spec fn index_after(current: usize, announced: Seq<usize>) -> usize
    decreases announced.len(),
{
    if announced.len() == 0 {
        current
    } else {
        adopted_index(index_after(current, announced.drop_last()), announced.last())
    }
}

/// A follower keeps its index.
///
/// Once a follower has an index, no roster that is announced to it later
/// changes that index.
pub proof fn lemma_index_stable(current: usize, announced: Seq<usize>)
    requires
        current != usize::MAX,
    ensures
        index_after(current, announced) == current,
    decreases announced.len(),
{
    if announced.len() > 0 {
        lemma_index_stable(current, announced.drop_last());
    }
}

/// An acknowledgement of `request_id`, addressed to `to`.
pub open spec fn ack_to(to: Seq<char>, request_id: u64) -> OutboundView {
    OutboundView::Frame { to, message: PaxosMessageView::FollowerAck { request_id } }
}

impl Node {
    /// What a follower makes of a client's payload.
    ///
    /// A payload that is no command is dropped. A `SET` or a `DELETE` goes
    /// to the leader as it came. Any other command is answered from the
    /// store; where the store has nothing to answer with, the value is to
    /// be recovered from the cluster.
    pub open spec fn follower_client_step(
        &self,
        src_addr: Seq<char>,
        request_id: u64,
        payload: Seq<u8>,
    ) -> StepView {
        match parse_command(payload) {
            None => StepView::Idle,
            Some(op) => if op.op_type == OperationType::SET || op.op_type
                == OperationType::DELETE {
                StepView::Send(
                    seq![
                        OutboundView::Frame {
                            to: self.leader_address.rendered(),
                            message: PaxosMessageView::ClientRequest { request_id, payload },
                        },
                    ],
                )
            } else if reply(self.store@, op).len() == 0 {
                StepView::Recover { key: op.kv.key, reply_to: src_addr }
            } else {
                StepView::Send(
                    seq![
                        OutboundView::Text {
                            to: src_addr,
                            text: response_text(
                                self.request_id,
                                handled_by_follower(),
                                reply(self.store@, op),
                            ),
                        },
                    ],
                )
            },
        }
    }

    /// What a follower makes of a prepare from `src_addr`.
    pub open spec fn follower_prepare_step(&self, src_addr: Seq<char>, request_id: u64) -> StepView {
        if src_addr == self.leader_address.rendered() {
            StepView::Send(seq![ack_to(self.leader_address.rendered(), request_id)])
        } else {
            StepView::Idle
        }
    }

    /// Whether `after` and `step` are what a follower in the state `self`
    /// makes of an accept of `op` from `src_addr`.
    ///
    /// From any source but the leader the accept changes nothing and is
    /// not answered. From the leader the request id is adopted, a value
    /// cached under the key is dropped, the record of the operation, if it
    /// has one, is to be logged, and the accept is acknowledged.
    pub open spec fn follower_accepts(
        &self,
        after: &Node,
        src_addr: Seq<char>,
        request_id: u64,
        op: OperationView,
        step: StepView,
    ) -> bool {
        if src_addr != self.leader_address.rendered() {
            *after == *self && step == StepView::Idle
        } else {
            &&& after.same_config(self)
            &&& after.cluster_list == self.cluster_list
            &&& after.cluster_index == self.cluster_index
            &&& after.request_id == request_id
            &&& after.store@ == self.store@.remove(op.kv.key)
            &&& step == if op.op_type == OperationType::SET || op.op_type == OperationType::DELETE {
                StepView::Persist {
                    record: wal_record(op),
                    then: seq![ack_to(self.leader_address.rendered(), request_id)],
                }
            } else {
                StepView::Send(seq![ack_to(self.leader_address.rendered(), request_id)])
            }
        }
    }

    /// Whether `after` and `step` are what a follower in the state `self`
    /// makes of the announced roster `roster` and index `index`: it takes
    /// the roster, takes the index if it has none yet, and acknowledges
    /// with the index that it has.
    pub open spec fn follower_adopts(
        &self,
        after: &Node,
        roster: Seq<Seq<char>>,
        index: usize,
        step: StepView,
    ) -> bool {
        &&& after.same_config(self)
        &&& after.request_id == self.request_id
        &&& after.store == self.store
        &&& after.roster() == roster
        &&& after.cluster_index == adopted_index(self.cluster_index, index)
        &&& step == StepView::Send(
            seq![ack_to(self.leader_address.rendered(), after.cluster_index as u64)],
        )
    }

    /// The two datagrams by which a follower joins: its registration with
    /// the leader, and its line for the load balancer.
    pub fn follower_send_register(&self) -> (res: Vec<Outbound>)
        ensures
            outbound_views(res@) == seq![
                OutboundView::Frame {
                    to: self.leader_address.rendered(),
                    message: PaxosMessageView::FollowerRegisterRequest {
                        follower_addr: self.address.rendered(),
                    },
                },
                OutboundView::Text {
                    to: self.load_balancer_address.rendered(),
                    text: registration_line(self.address.rendered()),
                },
            ],
    {
        let own = self.address.to_string();
        let line = registration(own.as_str());
        let mut res: Vec<Outbound> = Vec::new();
        res.push(
            Outbound::Frame {
                to: self.leader_address.to_string(),
                message: PaxosMessage::FollowerRegisterRequest(
                    FollowerRegistrationRequest { follower_addr: own },
                ),
            },
        );
        res.push(Outbound::Text { to: self.load_balancer_address.to_string(), text: line });
        assert(outbound_views(res@) =~= seq![res@[0]@, res@[1]@]);
        res
    }

    /// A prepare is acknowledged where it comes from the leader, and
    /// ignored where it does not.
    pub fn follower_handle_leader_request(&self, src_addr: &String, request_id: u64) -> (res: Step)
        ensures
            res@ == self.follower_prepare_step(src_addr@, request_id),
    {
        let leader_addr = self.leader_address.to_string();
        if *src_addr != leader_addr {
            return Step::Idle;
        }
        send_one(Outbound::Frame { to: leader_addr, message: PaxosMessage::FollowerAck { request_id } })
    }

    /// An accept from the leader is taken: the request id is adopted, the
    /// operation is to be logged, a value cached under its key is dropped,
    /// and the accept is acknowledged. An accept from anyone else changes
    /// nothing and is not answered.
    pub fn follower_handle_leader_accepted(
        &mut self,
        src_addr: &String,
        request_id: u64,
        operation: &Operation,
    ) -> (res: Step)
        ensures
            old(self).follower_accepts(final(self), src_addr@, request_id, operation@, res@),
    {
        let leader_addr = self.leader_address.to_string();
        if *src_addr != leader_addr {
            return Step::Idle;
        }
        self.request_id = request_id;
        self.store.remove(operation.kv.key.as_str());
        let ack = Outbound::Frame {
            to: leader_addr,
            message: PaxosMessage::FollowerAck { request_id },
        };
        match operation.op_type {
            OperationType::SET | OperationType::DELETE => {
                let mut then: Vec<Outbound> = Vec::new();
                then.push(ack);
                assert(outbound_views(then@) =~= seq![ack@]);
                Step::Persist { record: record_bytes(operation), then }
            },
            _ => send_one(ack),
        }
    }

    /// What a follower does with a client's payload: see
    /// [`Node::follower_client_step`]. The node does not change.
    pub fn follower_handle_client_request(
        &mut self,
        src_addr: &String,
        request_id: u64,
        payload: &Vec<u8>,
    ) -> (res: Step)
        ensures
            res@ == old(self).follower_client_step(src_addr@, request_id, payload@),
            final(self).same_but_store(old(self)),
            final(self).store@ == old(self).store@,
    {
        let operation = match Operation::parse(payload) {
            Some(operation) => operation,
            None => {
                return Step::Idle;
            },
        };
        match operation.op_type {
            OperationType::SET | OperationType::DELETE => send_one(
                Outbound::Frame {
                    to: self.leader_address.to_string(),
                    message: PaxosMessage::ClientRequest { request_id, payload: payload.clone() },
                },
            ),
            _ => {
                let result = self.store.process_request(&operation);
                if result.as_str().is_empty() {
                    Step::Recover { key: operation.kv.key, reply_to: src_addr.clone() }
                } else {
                    send_one(
                        Outbound::Text {
                            to: src_addr.clone(),
                            text: format_response(
                                self.request_id,
                                "Request is handled by follower",
                                result.as_str(),
                            ),
                        },
                    )
                }
            },
        }
    }

    /// A follower replaces its roster by the one announced, takes the
    /// announced index if it has none yet, and acknowledges with the index
    /// that it has.
    pub fn follower_handle_follower_register_reply(
        &mut self,
        src_addr: &String,
        follower: &FollowerRegistrationReply,
    ) -> (res: Step)
        ensures
            old(self).follower_adopts(
                final(self),
                strings_view(follower.follower_list@),
                follower.index,
                res@,
            ),
    {
        self.cluster_list = clone_strings(&follower.follower_list);
        if self.cluster_index == usize::MAX {
            self.cluster_index = follower.index;
        }
        send_one(
            Outbound::Frame {
                to: self.leader_address.to_string(),
                message: PaxosMessage::FollowerAck { request_id: self.cluster_index as u64 },
            },
        )
    }

    /// A follower ignores an acknowledgement.
    pub fn follower_handle_follower_ack(&self, _src_addr: &String, _request_id: u64) -> (res: Step)
        ensures
            res@ == StepView::Idle,
    {
        Step::Idle
    }

    /// A follower ignores a join: joins are for the leader.
    pub fn follower_handle_follower_register_request(
        &self,
        _src_addr: &String,
        _follower: &FollowerRegistrationRequest,
    ) -> (res: Step)
        ensures
            res@ == StepView::Idle,
    {
        Step::Idle
    }
}

} // verus!
