//! What the leader does: the fan-outs of a write, the counting of
//! acknowledgements, and the handling of client requests and of joins.

use crate::base_libs::operation::{
    operation, parse_command, BinKV, Operation, OperationType, OperationView,
};
use crate::base_libs::paxos::{
    fan_out, format_response, frames_for, majority, response_text, send_one, Broadcast, Carried,
    Step, StepView,
};
use crate::classes::node::Node;
use crate::classes::store::{applied, reply};
use crate::erasure_coding::{encoded, shards_view};
use crate::types::{
    clone_strings, outbound_views, strings_view, FollowerRegistrationReply,
    FollowerRegistrationRequest, Outbound, OutboundView, PaxosMessage, PaxosMessageView,
};
use crate::wal::{record_bytes, wal_record};
use vstd::prelude::*;

verus! {

/// The message of a reply that the leader gives by itself.
pub open spec fn handled_by_leader() -> Seq<char> {
    "Request is handled by leader"@
}

/// The message of a write that every phase accepted.
pub open spec fn broadcast_succeeded() -> Seq<char> {
    "Leader broadcasted the message successfully"@
}

/// The message of a write whose accept phase fell short.
pub open spec fn accept_failed() -> Seq<char> {
    "Accept broadcast is not accepted by majority"@
}

/// The message of a write whose prepare phase fell short.
pub open spec fn prepare_failed() -> Seq<char> {
    "Request broadcast is not accepted by majority"@
}

/// The reply of a write that was not applied.
pub open spec fn request_failed() -> Seq<char> {
    "Request failed."@
}

/// Number of acknowledgements among the answers of a fan-out.
pub open spec fn ack_count(replies: Seq<Option<PaxosMessage>>) -> nat
    decreases replies.len(),
{
    if replies.len() == 0 {
        0
    } else {
        ack_count(replies.drop_last()) + match replies.last() {
            Some(PaxosMessage::FollowerAck { .. }) => 1nat,
            _ => 0nat,
        }
    }
}

/// Counts the acknowledgements among the answers of a fan-out. A frame of
/// any other kind, and a missing answer, count nothing.
pub fn count_acks(replies: &Vec<Option<PaxosMessage>>) -> (res: usize)
    ensures
        res == ack_count(replies@),
        res <= replies@.len(),
{
    let mut acks: usize = 0;
    let mut i: usize = 0;
    while i < replies.len()
        invariant
            i <= replies@.len(),
            acks == ack_count(replies@.take(i as int)),
            acks <= i,
        decreases replies@.len() - i,
    {
        proof {
            assert(replies@.take(i + 1).drop_last() =~= replies@.take(i as int));
            assert(replies@.take(i + 1).last() == replies@[i as int]);
        }
        match &replies[i] {
            Some(PaxosMessage::FollowerAck { .. }) => {
                acks += 1;
            },
            _ => {},
        }
        i += 1;
    }
    assert(replies@.take(i as int) =~= replies@);
    acks
}

/// The count of a round: the leader itself and every acknowledgement. A
/// round over an empty roster counts nothing.
pub open spec fn round_acks(roster_len: nat, replies: Seq<Option<PaxosMessage>>) -> nat {
    if roster_len == 0 {
        0
    } else {
        1 + ack_count(replies)
    }
}

/// The message that a write ends with. It names success only where the
/// prepare round reached a majority of the `n` members and the accept round
/// went beyond one.
pub open spec fn write_message(n: nat, prepare_acks: nat, accept_acks: nat) -> Seq<char> {
    if prepare_acks < majority(n) {
        prepare_failed()
    } else if accept_acks > majority(n) {
        broadcast_succeeded()
    } else {
        accept_failed()
    }
}

/// The request id after a prepare round: one more where the round reached a
/// majority, whatever the accept round brings.
pub open spec fn request_id_after(request_id: int, n: nat, prepare_acks: nat) -> int {
    if prepare_acks >= majority(n) {
        request_id + 1
    } else {
        request_id
    }
}

/// A write as the leader counted it: the size of the roster and the count
/// of its prepare round.
pub ghost struct Round {
    pub members: nat,
    pub prepare_acks: nat,
}

/// The request id under which the write at position `i` of `rounds` is
/// reported, where the first is reported under `start`.
pub open spec fn reported_id(start: int, rounds: Seq<Round>, i: int) -> int
    decreases i,
{
    if i <= 0 {
        start
    } else {
        request_id_after(
            reported_id(start, rounds, i - 1),
            rounds[i - 1].members,
            rounds[i - 1].prepare_acks,
        )
    }
}

/// Request ids never go back, and they go up with each successful prepare.
///
/// Of two writes of one leader, the later is reported under a request id
/// that is at least that of the earlier, and greater where the prepare
/// round of the earlier reached a majority. The first write is reported
/// under the id that the leader started with.
pub proof fn lemma_request_ids_increase(start: int, rounds: Seq<Round>, i: int, j: int)
    requires
        0 <= i < j <= rounds.len(),
    ensures
        reported_id(start, rounds, 0) == start,
        reported_id(start, rounds, i) <= reported_id(start, rounds, j),
        rounds[i].prepare_acks >= majority(rounds[i].members) ==> reported_id(start, rounds, i)
            < reported_id(start, rounds, j),
    decreases j - i,
{
    if i + 1 < j {
        lemma_request_ids_increase(start, rounds, i, j - 1);
    }
}

/// Success is reported only with a quorum.
///
/// A write ends with the message of success only where the count of its
/// prepare round was a majority of the roster and the count of its accept
/// round was more than that.
pub proof fn lemma_success_needs_quorum(n: nat, prepare_acks: nat, accept_acks: nat)
    ensures
        write_message(n, prepare_acks, accept_acks) == broadcast_succeeded() <==> prepare_acks
            >= majority(n) && accept_acks > majority(n),
{
    reveal_strlit("Leader broadcasted the message successfully");
    reveal_strlit("Accept broadcast is not accepted by majority");
    reveal_strlit("Request broadcast is not accepted by majority");
    assert(broadcast_succeeded().len() == 43);
    assert(accept_failed().len() == 44);
    assert(prepare_failed().len() == 45);
}

/// A join moves no member.
///
/// When the leader enrols a follower, every member of the roster keeps its
/// position, and the follower takes the next one, which is the index that
/// the leader announces for it.
pub proof fn lemma_join_keeps_positions(
    before: &Node,
    after: &Node,
    follower_addr: Seq<char>,
    frames: Seq<OutboundView>,
)
    requires
        before.leader_enrolls(after, follower_addr, frames),
    ensures
        after.roster().len() == before.roster().len() + 1,
        forall|i: int| 0 <= i < before.roster().len() ==> after.roster()[i] == before.roster()[i],
        after.roster()[before.roster().len() as int] == follower_addr,
        forall|j: int|
            0 <= j < frames.len() ==> announces(
                #[trigger] frames[j],
                after.roster(),
                before.roster().len() as usize,
            ),
{
    lemma_membership_frames(
        after.roster(),
        before.address.rendered(),
        after.roster(),
        before.cluster_list@.len() as usize,
    );
}

/// A follower that joins learns its place.
///
/// Let the leader enrol a follower that has no index yet, and let that
/// follower handle one of the frames that the leader sends out for the
/// join. Then the follower holds the leader's roster, and its index is the
/// position at which the roster holds its address.
pub proof fn lemma_join_agrees(
    leader: &Node,
    leader_after: &Node,
    follower: &Node,
    follower_after: &Node,
    follower_addr: Seq<char>,
    frames: Seq<OutboundView>,
    j: int,
    step: StepView,
)
    requires
        leader.leader_enrolls(leader_after, follower_addr, frames),
        0 <= j < frames.len(),
        follower.cluster_index == usize::MAX,
        leader.roster().len() < usize::MAX,
        frames[j] matches OutboundView::Frame {
            message: PaxosMessageView::FollowerRegisterReply { follower_list, index },
            ..
        } && follower.follower_adopts(follower_after, follower_list, index, step),
    ensures
        follower_after.roster() == leader_after.roster(),
        follower_after.cluster_index == leader.roster().len(),
        leader_after.roster()[follower_after.cluster_index as int] == follower_addr,
{
    lemma_join_keeps_positions(leader, leader_after, follower_addr, frames);
    assert(announces(frames[j], leader_after.roster(), leader.roster().len() as usize));
}

/// Whether `datagram` is a frame that announces `roster` and `index`.
pub open spec fn announces(datagram: OutboundView, roster: Seq<Seq<char>>, index: usize) -> bool {
    datagram matches OutboundView::Frame {
        message: PaxosMessageView::FollowerRegisterReply { follower_list, index: announced },
        ..
    } && follower_list == roster && announced == index
}

/// Every frame of a membership fan-out carries the roster and the index.
proof fn lemma_membership_frames(
    members: Seq<Seq<char>>,
    own: Seq<char>,
    roster: Seq<Seq<char>>,
    index: usize,
)
    ensures
        forall|j: int|
            0 <= j < fan_out(members, own, Broadcast::Membership { roster, index }).len()
                ==> announces(
                #[trigger] fan_out(members, own, Broadcast::Membership { roster, index })[j],
                roster,
                index,
            ),
    decreases members.len(),
{
    let what = Broadcast::Membership { roster, index };
    if members.len() > 0 {
        lemma_membership_frames(members.drop_last(), own, roster, index);
        let before = fan_out(members.drop_last(), own, what);
        let frames = fan_out(members, own, what);
        assert forall|j: int| 0 <= j < frames.len() implies announces(
            #[trigger] frames[j],
            roster,
            index,
        ) by {
            if j < before.len() {
                assert(frames[j] == before[j]);
            }
        }
    }
}

/// What the leader has decided once the prepare round is counted.
#[derive(Debug, PartialEq, Eq)]
pub enum PrepareOutcome {
    /// The round fell short: the answer for the load balancer.
    Rejected(Outbound),
    /// The round reached a majority and the operation is applied: append
    /// `record` to the log, unless it is empty, then send `frames` and
    /// await an acknowledgement of each.
    Accepted { request_id: u64, reply: String, record: Vec<u8>, frames: Vec<Outbound> },
}

/// Mathematical value of a [`PrepareOutcome`].
pub ghost enum PrepareOutcomeView {
    Rejected(OutboundView),
    Accepted { request_id: u64, reply: Seq<char>, record: Seq<u8>, frames: Seq<OutboundView> },
}

impl View for PrepareOutcome {
    type V = PrepareOutcomeView;

    open spec fn view(&self) -> PrepareOutcomeView {
        match self {
            PrepareOutcome::Rejected(answer) => PrepareOutcomeView::Rejected(answer@),
            PrepareOutcome::Accepted {
                request_id,
                reply,
                record,
                frames,
            } => PrepareOutcomeView::Accepted {
                request_id: *request_id,
                reply: reply@,
                record: record@,
                frames: outbound_views(frames@),
            },
        }
    }
}

impl Node {
    /// What the leader makes of a client's payload.
    ///
    /// A payload that is no command is dropped. `BAD`, `PING` and a `GET`
    /// that the store can answer are answered to the load balancer; a `GET`
    /// that it cannot answer is to be recovered from the cluster. A `SET`
    /// or a `DELETE` starts a write with its prepare round.
    pub open spec fn leader_client_step(&self, payload: Seq<u8>) -> StepView {
        match parse_command(payload) {
            None => StepView::Idle,
            Some(op) => if op.op_type == OperationType::SET || op.op_type
                == OperationType::DELETE {
                StepView::Prepare {
                    operation: op,
                    follower_list: self.roster(),
                    frames: fan_out(
                        self.roster(),
                        self.address.rendered(),
                        Broadcast::Prepare { request_id: self.request_id },
                    ),
                }
            } else if op.op_type == OperationType::GET && reply(self.store@, op).len() == 0 {
                StepView::Recover {
                    key: op.kv.key,
                    reply_to: self.load_balancer_address.rendered(),
                }
            } else {
                StepView::Send(
                    seq![
                        OutboundView::Text {
                            to: self.load_balancer_address.rendered(),
                            text: response_text(
                                self.request_id,
                                handled_by_leader(),
                                reply(self.store@, op),
                            ),
                        },
                    ],
                )
            },
        }
    }

    /// The operation that the member at position `i` accepts in place of
    /// `op`: with erasure coding the shard at position `i` of the encoded
    /// value, without it the value itself.
    pub open spec fn accepted_at(&self, op: OperationView, i: int) -> OperationView {
        if self.ec_active {
            operation(
                op.op_type,
                op.kv.key,
                encoded(
                    op.kv.value,
                    self.ec.shard_count as nat,
                    self.ec.parity_count as nat,
                )[i],
            )
        } else {
            op
        }
    }

    /// The accept round of `op` over `roster`.
    pub open spec fn accept_round(&self, roster: Seq<Seq<char>>, op: OperationView) -> Seq<
        OutboundView,
    > {
        fan_out(
            roster,
            self.address.rendered(),
            if self.ec_active {
                Broadcast::AcceptEc {
                    request_id: self.request_id,
                    operation: op,
                    shards: encoded(
                        op.kv.value,
                        self.ec.shard_count as nat,
                        self.ec.parity_count as nat,
                    ),
                }
            } else {
                Broadcast::AcceptReplication { request_id: self.request_id, operation: op }
            },
        )
    }

    /// Whether `after` and `frames` are what the leader in the state
    /// `self` makes of a follower at `follower_addr` that joins: the
    /// follower is put at the end of the roster, and the new roster goes to
    /// every member but the leader, with the index of the follower.
    pub open spec fn leader_enrolls(
        &self,
        after: &Node,
        follower_addr: Seq<char>,
        frames: Seq<OutboundView>,
    ) -> bool {
        &&& after.same_config(self)
        &&& after.cluster_index == self.cluster_index
        &&& after.request_id == self.request_id
        &&& after.store == self.store
        &&& after.roster() == self.roster().push(follower_addr)
        &&& frames == fan_out(
            after.roster(),
            self.address.rendered(),
            Broadcast::Membership {
                roster: after.roster(),
                index: self.cluster_list@.len() as usize,
            },
        )
    }

    /// The roster and the index `index`, for every member but this node.
    pub fn leader_broadcast_membership(&self, follower_list: &Vec<String>, index: usize) -> (res:
        Vec<Outbound>)
        ensures
            outbound_views(res@) == fan_out(
                strings_view(follower_list@),
                self.address.rendered(),
                Broadcast::Membership { roster: strings_view(follower_list@), index },
            ),
    {
        frames_for(&self.address.to_string(), follower_list, &Carried::Membership { index })
    }

    /// The prepare of the next request, for every member but this node.
    pub fn leader_broadcast_prepare(&self, follower_list: &Vec<String>) -> (res: Vec<Outbound>)
        ensures
            outbound_views(res@) == fan_out(
                strings_view(follower_list@),
                self.address.rendered(),
                Broadcast::Prepare { request_id: self.request_id },
            ),
    {
        frames_for(
            &self.address.to_string(),
            follower_list,
            &Carried::Prepare { request_id: self.request_id },
        )
    }

    /// The accept of `operation`, for every member but this node: the
    /// member at position `i` gets the operation with the shard at
    /// position `i` as its value.
    pub fn leader_broadcast_accept_ec(
        &self,
        follower_list: &Vec<String>,
        operation: &Operation,
        encoded_shard: &Vec<Vec<u8>>,
    ) -> (res: Vec<Outbound>)
        requires
            follower_list@.len() <= encoded_shard@.len(),
        ensures
            outbound_views(res@) == fan_out(
                strings_view(follower_list@),
                self.address.rendered(),
                Broadcast::AcceptEc {
                    request_id: self.request_id,
                    operation: operation@,
                    shards: shards_view(encoded_shard@),
                },
            ),
    {
        frames_for(
            &self.address.to_string(),
            follower_list,
            &Carried::AcceptEc { request_id: self.request_id, operation, shards: encoded_shard },
        )
    }

    /// The accept of `operation`, for every member but this node: each
    /// gets the operation as it is.
    pub fn leader_broadcast_accept_replication(
        &self,
        follower_list: &Vec<String>,
        operation: &Operation,
    ) -> (res: Vec<Outbound>)
        ensures
            outbound_views(res@) == fan_out(
                strings_view(follower_list@),
                self.address.rendered(),
                Broadcast::AcceptReplication { request_id: self.request_id, operation: operation@ },
            ),
    {
        frames_for(
            &self.address.to_string(),
            follower_list,
            &Carried::AcceptReplication { request_id: self.request_id, operation },
        )
    }

    /// Counts a round: `replies` holds, for each frame of the fan-out, the
    /// frame that came back in time, if one did.
    pub fn leader_count_acks(follower_list: &Vec<String>, replies: &Vec<Option<PaxosMessage>>) -> (res:
        usize)
        requires
            replies@.len() < usize::MAX,
        ensures
            res == round_acks(follower_list@.len(), replies@),
    {
        if follower_list.len() == 0 {
            return 0;
        }
        1 + count_acks(replies)
    }

    /// What the leader does with a client's payload: see
    /// [`Node::leader_client_step`]. The node does not change.
    pub fn leader_handle_client_request(
        &mut self,
        src_addr: &String,
        _request_id: u64,
        payload: &Vec<u8>,
    ) -> (res: Step)
        ensures
            res@ == old(self).leader_client_step(payload@),
            final(self).same_but_store(old(self)),
            final(self).store@ == old(self).store@,
    {
        let operation = match Operation::parse(payload) {
            Some(operation) => operation,
            None => {
                return Step::Idle;
            },
        };
        match operation.op_type {
            OperationType::SET | OperationType::DELETE => {
                let follower_list = clone_strings(&self.cluster_list);
                let frames = self.leader_broadcast_prepare(&follower_list);
                Step::Prepare { operation, follower_list, frames }
            },
            _ => {
                let result = self.store.process_request(&operation);
                if operation.op_type == OperationType::GET && result.as_str().is_empty() {
                    Step::Recover {
                        key: operation.kv.key,
                        reply_to: self.load_balancer_address.to_string(),
                    }
                } else {
                    send_one(
                        Outbound::Text {
                            to: self.load_balancer_address.to_string(),
                            text: format_response(
                                self.request_id,
                                "Request is handled by leader",
                                result.as_str(),
                            ),
                        },
                    )
                }
            },
        }
    }

    /// Goes on with a write once its prepare round is counted.
    ///
    /// With `acks` short of a majority of `follower_list` nothing changes
    /// and the load balancer is told so. With a majority the operation is
    /// applied to the store, the request id moves on, and the accept round
    /// is laid out under the request id of the write. With erasure coding
    /// the leader's own shard is to be logged first.
    pub fn leader_handle_prepare_acks(
        &mut self,
        operation: &Operation,
        follower_list: &Vec<String>,
        acks: usize,
    ) -> (res: PrepareOutcome)
        requires
            old(self).well_formed(),
            operation.well_formed(),
            old(self).request_id < u64::MAX,
            old(self).ec_active ==> old(self).cluster_index < old(self).ec.total()
                && follower_list@.len() <= old(self).ec.total(),
        ensures
            final(self).same_config(old(self)),
            final(self).cluster_list == old(self).cluster_list,
            final(self).cluster_index == old(self).cluster_index,
            final(self).request_id == request_id_after(
                old(self).request_id as int,
                follower_list@.len(),
                acks as nat,
            ),
            acks < majority(follower_list@.len()) ==> {
                &&& final(self).store@ == old(self).store@
                &&& res@ == PrepareOutcomeView::Rejected(
                    OutboundView::Text {
                        to: old(self).load_balancer_address.rendered(),
                        text: response_text(
                            old(self).request_id,
                            write_message(follower_list@.len(), acks as nat, 0),
                            request_failed(),
                        ),
                    },
                )
            },
            acks >= majority(follower_list@.len()) ==> {
                &&& final(self).store@ == applied(old(self).store@, operation@)
                &&& res@ == PrepareOutcomeView::Accepted {
                    request_id: old(self).request_id,
                    reply: reply(old(self).store@, operation@),
                    record: if old(self).ec_active {
                        wal_record(
                            old(self).accepted_at(operation@, old(self).cluster_index as int),
                        )
                    } else {
                        Seq::empty()
                    },
                    frames: old(self).accept_round(strings_view(follower_list@), operation@),
                }
            },
    {
        let request_id = self.request_id;
        let needed = follower_list.len() / 2 + 1;
        if acks < needed {
            return PrepareOutcome::Rejected(
                Outbound::Text {
                    to: self.load_balancer_address.to_string(),
                    text: format_response(
                        request_id,
                        "Request broadcast is not accepted by majority",
                        "Request failed.",
                    ),
                },
            );
        }
        let reply = self.store.process_request(operation);
        let record;
        let frames;
        if self.ec_active {
            let encoded_shard = self.ec.encode(&operation.kv.value);
            let own = Operation {
                op_type: operation.op_type,
                kv: BinKV {
                    key: operation.kv.key.clone(),
                    value: encoded_shard[self.cluster_index].clone(),
                },
            };
            record = record_bytes(&own);
            frames = self.leader_broadcast_accept_ec(follower_list, operation, &encoded_shard);
        } else {
            record = Vec::new();
            frames = self.leader_broadcast_accept_replication(follower_list, operation);
        }
        self.request_id = request_id + 1;
        PrepareOutcome::Accepted { request_id, reply, record, frames }
    }

    /// Ends a write once its accept round is counted: the answer for the
    /// load balancer, under the request id of the write.
    pub fn leader_handle_accept_acks(
        &self,
        request_id: u64,
        follower_count: usize,
        prepare_acks: usize,
        accept_acks: usize,
        reply: &String,
    ) -> (res: Outbound)
        ensures
            res@ == (OutboundView::Text {
                to: self.load_balancer_address.rendered(),
                text: response_text(
                    request_id,
                    write_message(follower_count as nat, prepare_acks as nat, accept_acks as nat),
                    reply@,
                ),
            }),
    {
        let needed = follower_count / 2 + 1;
        let message = if prepare_acks < needed {
            "Request broadcast is not accepted by majority"
        } else if accept_acks > needed {
            "Leader broadcasted the message successfully"
        } else {
            "Accept broadcast is not accepted by majority"
        };
        Outbound::Text {
            to: self.load_balancer_address.to_string(),
            text: format_response(request_id, message, reply.as_str()),
        }
    }

    /// A follower joins: it is put at the end of the roster, and the new
    /// roster goes to every member but the leader, with the index of the
    /// follower that joined.
    pub fn leader_handle_follower_register_request(
        &mut self,
        follower: &FollowerRegistrationRequest,
    ) -> (res: Vec<Outbound>)
        ensures
            old(self).leader_enrolls(final(self), follower.follower_addr@, outbound_views(res@)),
    {
        let index = self.cluster_list.len();
        self.cluster_list.push(follower.follower_addr.clone());
        assert(self.roster() =~= old(self).roster().push(follower.follower_addr@));
        self.leader_broadcast_membership(&self.cluster_list, index)
    }

    /// The leader ignores a prepare.
    pub fn leader_handle_leader_request(&self, _src_addr: &String, _request_id: u64) -> (res: Step)
        ensures
            res@ == StepView::Idle,
    {
        Step::Idle
    }

    /// The leader ignores an accept.
    pub fn leader_handle_leader_accepted(
        &self,
        _src_addr: &String,
        _request_id: u64,
        _operation: &Operation,
    ) -> (res: Step)
        ensures
            res@ == StepView::Idle,
    {
        Step::Idle
    }

    /// The leader ignores an acknowledgement that comes outside a round.
    pub fn leader_handle_follower_ack(&self, _src_addr: &String, _request_id: u64) -> (res: Step)
        ensures
            res@ == StepView::Idle,
    {
        Step::Idle
    }

    /// The leader ignores an announced roster: its own is the one that
    /// counts.
    pub fn leader_handle_follower_register_reply(
        &self,
        _src_addr: &String,
        _follower: &FollowerRegistrationReply,
    ) -> (res: Step)
        ensures
            res@ == StepView::Idle,
    {
        Step::Idle
    }
}

} // verus!
