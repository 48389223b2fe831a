//! Roles, quorum arithmetic, the reply sent for a client request, and the
//! steps that a handler asks its caller to take.

use crate::base_libs::operation::{BinKV, Operation, OperationView};
use crate::erasure_coding::shards_view;
use crate::text::{decimal, push_decimal};
use crate::classes::node::Node;
use crate::types::{
    clone_strings, outbound_views, strings_view, FollowerRegistrationReply,
    FollowerRegistrationRequest, Outbound, OutboundView, PaxosMessage, PaxosMessageView,
};
use vstd::prelude::*;

verus! {

/// The role of a node.
#[derive(Debug, Clone, Copy, PartialEq, Eq, Structural)]
pub enum PaxosState {
    Follower,
    Leader,
}

impl PaxosState {
    /// The name of the role.
    pub open spec fn name(self) -> Seq<char> {
        match self {
            PaxosState::Follower => "Follower"@,
            PaxosState::Leader => "Leader"@,
        }
    }

    /// The name of the role.
    pub fn to_string(&self) -> (res: String)
        ensures
            res@ == self.name(),
    {
        match self {
            PaxosState::Follower => "Follower".to_owned(),
            PaxosState::Leader => "Leader".to_owned(),
        }
    }
}

/// The number of acknowledgements that is a majority of `n` nodes.
pub open spec fn majority(n: nat) -> nat {
    n / 2 + 1
}

/// The three lines sent in answer to a client request.
pub open spec fn response_text(request_id: u64, message: Seq<char>, reply: Seq<char>) -> Seq<char> {
    "Request ID: "@ + decimal(request_id as nat) + "\nMessage: "@ + message + "\nReply: "@ + reply
        + "."@
}

/// Writes the three lines sent in answer to a client request.
pub fn format_response(request_id: u64, message: &str, reply: &str) -> (res: String)
    ensures
        res@ == response_text(request_id, message@, reply@),
{
    let mut res = "Request ID: ".to_owned();
    push_decimal(&mut res, request_id);
    res.append("\nMessage: ");
    res.append(message);
    res.append("\nReply: ");
    res.append(reply);
    res.append(".");
    res
}

/// What the caller of a handler does next.
#[derive(Debug, PartialEq, Eq)]
pub enum Step {
    /// Nothing.
    Idle,
    /// Send the datagrams; no answer is awaited.
    Send(Vec<Outbound>),
    /// Send the roster to the members and await an acknowledgement of
    /// each.
    Announce(Vec<Outbound>),
    /// Append `record` to the log and, once that is done, send `then`.
    Persist { record: Vec<u8>, then: Vec<Outbound> },
    /// Recover the value of `key` from the log and the cluster, and answer
    /// `reply_to` with what was found.
    Recover { key: String, reply_to: String },
    /// Send the prepare frames, await an acknowledgement of each, and go on
    /// with the number of acknowledgements.
    Prepare { operation: Operation, follower_list: Vec<String>, frames: Vec<Outbound> },
    /// Read the log and hand `to` this node's shard of `key`.
    ServeShard { to: String, key: String },
}

/// Mathematical value of a [`Step`].
pub ghost enum StepView {
    Idle,
    Send(Seq<OutboundView>),
    Announce(Seq<OutboundView>),
    Persist { record: Seq<u8>, then: Seq<OutboundView> },
    Recover { key: Seq<char>, reply_to: Seq<char> },
    Prepare { operation: OperationView, follower_list: Seq<Seq<char>>, frames: Seq<OutboundView> },
    ServeShard { to: Seq<char>, key: Seq<char> },
}

impl View for Step {
    type V = StepView;

    open spec fn view(&self) -> StepView {
        match self {
            Step::Idle => StepView::Idle,
            Step::Send(datagrams) => StepView::Send(outbound_views(datagrams@)),
            Step::Announce(frames) => StepView::Announce(outbound_views(frames@)),
            Step::Persist { record, then } => StepView::Persist {
                record: record@,
                then: outbound_views(then@),
            },
            Step::Recover { key, reply_to } => StepView::Recover { key: key@, reply_to: reply_to@ },
            Step::Prepare { operation, follower_list, frames } => StepView::Prepare {
                operation: operation@,
                follower_list: strings_view(follower_list@),
                frames: outbound_views(frames@),
            },
            Step::ServeShard { to, key } => StepView::ServeShard { to: to@, key: key@ },
        }
    }
}

/// The single datagram `datagram` as a step.
pub fn send_one(datagram: Outbound) -> (res: Step)
    ensures
        res@ == StepView::Send(seq![datagram@]),
{
    let mut datagrams: Vec<Outbound> = Vec::new();
    datagrams.push(datagram);
    assert(outbound_views(datagrams@) =~= seq![datagram@]);
    Step::Send(datagrams)
}

/// What a fan-out carries to each member of the roster.
pub ghost enum Broadcast {
    /// The roster, and the index of the member that joined last.
    Membership { roster: Seq<Seq<char>>, index: usize },
    /// The prepare of a request.
    Prepare { request_id: u64 },
    /// The accept of a request, each member getting the shard at its own
    /// position.
    AcceptEc { request_id: u64, operation: OperationView, shards: Seq<Seq<u8>> },
    /// The accept of a request, each member getting the whole value.
    AcceptReplication { request_id: u64, operation: OperationView },
    /// The wish for each member's shard of a key.
    Recovery { key: Seq<char> },
}

impl Broadcast {
    /// The frame for the member at position `i` of the roster.
    pub open spec fn message_for(self, i: int) -> PaxosMessageView {
        match self {
            Broadcast::Membership { roster, index } => PaxosMessageView::FollowerRegisterReply {
                follower_list: roster,
                index,
            },
            Broadcast::Prepare { request_id } => PaxosMessageView::LeaderRequest { request_id },
            Broadcast::AcceptEc { request_id, operation, shards } => PaxosMessageView::LeaderAccepted {
                request_id,
                operation: crate::base_libs::operation::operation(
                    operation.op_type,
                    operation.kv.key,
                    shards[i],
                ),
            },
            Broadcast::AcceptReplication {
                request_id,
                operation,
            } => PaxosMessageView::LeaderAccepted { request_id, operation },
            Broadcast::Recovery { key } => PaxosMessageView::RecoveryRequest { key },
        }
    }
}

/// The frames of a fan-out: one for each member of the roster but `own`,
/// in the order of the roster.
pub open spec fn fan_out(roster: Seq<Seq<char>>, own: Seq<char>, what: Broadcast) -> Seq<
    OutboundView,
>
    decreases roster.len(),
{
    if roster.len() == 0 {
        Seq::empty()
    } else {
        let before = fan_out(roster.drop_last(), own, what);
        if roster.last() == own {
            before
        } else {
            before.push(
                OutboundView::Frame {
                    to: roster.last(),
                    message: what.message_for(roster.len() - 1),
                },
            )
        }
    }
}

/// The address that a datagram goes to.
pub open spec fn recipient(datagram: OutboundView) -> Seq<char> {
    match datagram {
        OutboundView::Frame { to, .. } => to,
        OutboundView::Text { to, .. } => to,
    }
}

/// A fan-out reaches each member once.
///
/// The frames of a fan-out are no more than the members of the roster, each
/// goes to a member other than `own`, and where no member occurs twice in
/// the roster, no two frames go to the same member.
pub proof fn lemma_fan_out_distinct(roster: Seq<Seq<char>>, own: Seq<char>, what: Broadcast)
    ensures
        fan_out(roster, own, what).len() <= roster.len(),
        forall|j: int|
            0 <= j < fan_out(roster, own, what).len() ==> {
                &&& recipient(#[trigger] fan_out(roster, own, what)[j]) != own
                &&& roster.contains(recipient(fan_out(roster, own, what)[j]))
            },
        roster.no_duplicates() ==> forall|i: int, j: int|
            0 <= i < j < fan_out(roster, own, what).len() ==> recipient(
                #[trigger] fan_out(roster, own, what)[i],
            ) != recipient(#[trigger] fan_out(roster, own, what)[j]),
    decreases roster.len(),
{
    if roster.len() > 0 {
        let init = roster.drop_last();
        let before = fan_out(init, own, what);
        let frames = fan_out(roster, own, what);
        lemma_fan_out_distinct(init, own, what);
        assert forall|j: int| 0 <= j < frames.len() implies {
            &&& recipient(#[trigger] frames[j]) != own
            &&& roster.contains(recipient(frames[j]))
        } by {
            if j < before.len() {
                assert(frames[j] == before[j]);
                let at = choose|at: int| 0 <= at < init.len() && init[at] == recipient(before[j]);
                assert(roster[at] == recipient(frames[j]));
            } else {
                assert(roster[roster.len() - 1] == recipient(frames[j]));
            }
        }
        if roster.no_duplicates() {
            assert(init.no_duplicates()) by {
                assert forall|a: int, b: int| 0 <= a < init.len() && 0 <= b < init.len() && a
                    != b implies init[a] != init[b] by {
                    assert(init[a] == roster[a] && init[b] == roster[b]);
                }
            }
            assert forall|i: int, j: int| 0 <= i < j < frames.len() implies recipient(
                #[trigger] frames[i],
            ) != recipient(#[trigger] frames[j]) by {
                assert(frames[i] == before[i]);
                if j < before.len() {
                    assert(frames[j] == before[j]);
                } else {
                    let at = choose|at: int|
                        0 <= at < init.len() && init[at] == recipient(before[i]);
                    assert(roster[at] == recipient(frames[i]));
                    assert(roster[roster.len() - 1] == recipient(frames[j]));
                }
            }
        }
    }
}

/// Whether `datagram` is the frame of a fan-out for the member at position
/// `i` of the roster.
pub open spec fn frame_at(
    datagram: OutboundView,
    roster: Seq<Seq<char>>,
    what: Broadcast,
    i: int,
) -> bool {
    0 <= i < roster.len() && datagram == (OutboundView::Frame {
        to: roster[i],
        message: what.message_for(i),
    })
}

/// Whether `datagram` is the frame of a fan-out for a member of the roster
/// other than `own`.
pub open spec fn frame_of_member(
    datagram: OutboundView,
    roster: Seq<Seq<char>>,
    own: Seq<char>,
    what: Broadcast,
) -> bool {
    exists|i: int| roster[i] != own && #[trigger] frame_at(datagram, roster, what, i)
}

/// Whether one of `frames` is the frame for the member at position `i`.
pub open spec fn reaches(
    frames: Seq<OutboundView>,
    roster: Seq<Seq<char>>,
    what: Broadcast,
    i: int,
) -> bool {
    exists|j: int| 0 <= j < frames.len() && #[trigger] frame_at(frames[j], roster, what, i)
}

/// Each member gets what is meant for its position.
///
/// Every frame of a fan-out goes to the member at some position of the
/// roster, other than `own`, and carries what the fan-out holds for that
/// position; and every member other than `own` gets such a frame.
pub proof fn lemma_fan_out_positions(roster: Seq<Seq<char>>, own: Seq<char>, what: Broadcast)
    ensures
        forall|j: int|
            0 <= j < fan_out(roster, own, what).len() ==> frame_of_member(
                #[trigger] fan_out(roster, own, what)[j],
                roster,
                own,
                what,
            ),
        forall|i: int|
            0 <= i < roster.len() && roster[i] != own ==> #[trigger] reaches(
                fan_out(roster, own, what),
                roster,
                what,
                i,
            ),
    decreases roster.len(),
{
    if roster.len() > 0 {
        let init = roster.drop_last();
        let before = fan_out(init, own, what);
        let frames = fan_out(roster, own, what);
        let last = roster.len() - 1;
        lemma_fan_out_positions(init, own, what);
        assert forall|j: int| 0 <= j < frames.len() implies frame_of_member(
            #[trigger] frames[j],
            roster,
            own,
            what,
        ) by {
            if j < before.len() {
                assert(frames[j] == before[j]);
                assert(frame_of_member(before[j], init, own, what));
                let i = choose|i: int| init[i] != own && #[trigger] frame_at(before[j], init, what, i);
                assert(roster[i] == init[i]);
                assert(frame_at(frames[j], roster, what, i));
            } else {
                assert(frame_at(frames[j], roster, what, last));
            }
        }
        assert forall|i: int| 0 <= i < roster.len() && roster[i] != own implies #[trigger] reaches(
            frames,
            roster,
            what,
            i,
        ) by {
            if i < last {
                assert(init[i] == roster[i]);
                assert(reaches(before, init, what, i));
                let j = choose|j: int|
                    0 <= j < before.len() && #[trigger] frame_at(before[j], init, what, i);
                assert(frames[j] == before[j]);
                assert(frame_at(frames[j], roster, what, i));
            } else {
                assert(frame_at(frames[frames.len() - 1], roster, what, i));
            }
        }
    }
}

/// What a fan-out carries, as the handlers hold it.
pub(crate) enum Carried<'a> {
    Membership { index: usize },
    Prepare { request_id: u64 },
    AcceptEc { request_id: u64, operation: &'a Operation, shards: &'a Vec<Vec<u8>> },
    AcceptReplication { request_id: u64, operation: &'a Operation },
    Recovery { key: &'a str },
}

impl<'a> Carried<'a> {
    /// What is carried over the roster `roster`.
    pub(crate) open spec fn over(&self, roster: Seq<Seq<char>>) -> Broadcast {
        match self {
            Carried::Membership { index } => Broadcast::Membership { roster, index: *index },
            Carried::Prepare { request_id } => Broadcast::Prepare { request_id: *request_id },
            Carried::AcceptEc { request_id, operation, shards } => Broadcast::AcceptEc {
                request_id: *request_id,
                operation: operation@,
                shards: shards_view(shards@),
            },
            Carried::AcceptReplication { request_id, operation } => Broadcast::AcceptReplication {
                request_id: *request_id,
                operation: operation@,
            },
            Carried::Recovery { key } => Broadcast::Recovery { key: key@ },
        }
    }

    /// Whether there is something to carry to each of `count` members.
    pub(crate) open spec fn covers(&self, count: nat) -> bool {
        match self {
            Carried::AcceptEc { shards, .. } => count <= shards@.len(),
            _ => true,
        }
    }
}

/// The frame for the member at position `i` of `follower_list`.
fn frame_for(follower_list: &Vec<String>, i: usize, what: &Carried) -> (res: Outbound)
    requires
        i < follower_list@.len(),
        what.covers(follower_list@.len()),
    ensures
        res@ == (OutboundView::Frame {
            to: follower_list@[i as int]@,
            message: what.over(strings_view(follower_list@)).message_for(i as int),
        }),
{
    let message = match what {
        Carried::Membership { index } => PaxosMessage::FollowerRegisterReply(
            FollowerRegistrationReply {
                follower_list: clone_strings(follower_list),
                index: *index,
            },
        ),
        Carried::Prepare { request_id } => PaxosMessage::LeaderRequest { request_id: *request_id },
        Carried::AcceptEc { request_id, operation, shards } => PaxosMessage::LeaderAccepted {
            request_id: *request_id,
            operation: Operation {
                op_type: operation.op_type,
                kv: BinKV { key: operation.kv.key.clone(), value: shards[i].clone() },
            },
        },
        Carried::AcceptReplication { request_id, operation } => PaxosMessage::LeaderAccepted {
            request_id: *request_id,
            operation: (*operation).clone(),
        },
        Carried::Recovery { key } => PaxosMessage::RecoveryRequest { key: (*key).to_owned() },
    };
    Outbound::Frame { to: follower_list[i].clone(), message }
}

/// The frames of a fan-out over `follower_list`, skipping `own`.
pub(crate) fn frames_for(own: &String, follower_list: &Vec<String>, what: &Carried) -> (res: Vec<Outbound>)
    requires
        what.covers(follower_list@.len()),
    ensures
        outbound_views(res@) == fan_out(
            strings_view(follower_list@),
            own@,
            what.over(strings_view(follower_list@)),
        ),
{
    let ghost roster = strings_view(follower_list@);
    let ghost carried = what.over(roster);
    let mut res: Vec<Outbound> = Vec::new();
    let mut i: usize = 0;
    assert(outbound_views(res@) =~= fan_out(roster.take(0), own@, carried));
    while i < follower_list.len()
        invariant
            i <= follower_list@.len(),
            roster == strings_view(follower_list@),
            carried == what.over(roster),
            what.covers(follower_list@.len()),
            outbound_views(res@) == fan_out(roster.take(i as int), own@, carried),
        decreases follower_list@.len() - i,
    {
        proof {
            assert(roster.take(i + 1).drop_last() =~= roster.take(i as int));
            assert(roster.take(i + 1).last() == follower_list@[i as int]@);
        }
        if follower_list[i] != *own {
            let frame = frame_for(follower_list, i, what);
            let ghost before = outbound_views(res@);
            res.push(frame);
            assert(outbound_views(res@) =~= before.push(frame@));
        }
        i += 1;
    }
    assert(roster.take(i as int) =~= roster);
    res
}

/// No frame moves a node that has its place.
///
/// Whatever frame a node handles, from whomever: its configuration stays,
/// an index that it has stays, and on the leader the request id stays too,
/// which moves only when a prepare round is counted.
pub proof fn lemma_frames_keep_place(
    before: &Node,
    after: &Node,
    src_addr: Seq<char>,
    message: PaxosMessageView,
    step: StepView,
)
    requires
        before.handles(after, src_addr, message, step),
    ensures
        after.same_config(before),
        before.cluster_index != usize::MAX ==> after.cluster_index == before.cluster_index,
        before.state == PaxosState::Leader ==> after.request_id == before.request_id,
{
}

impl Node {
    /// Whether `after` and `step` are what the node in the state `self`
    /// makes of the frame `message` from `src_addr`.
    ///
    /// Prepares, accepts and rosters are for followers, joins for the
    /// leader, client requests for both. A request for a shard is answered
    /// from the log, which the caller reads. Acknowledgements and shards
    /// that come outside a round are ignored.
    pub open spec fn handles(
        &self,
        after: &Node,
        src_addr: Seq<char>,
        message: PaxosMessageView,
        step: StepView,
    ) -> bool {
        match message {
            PaxosMessageView::LeaderRequest { request_id } => {
                &&& *after == *self
                &&& step == match self.state {
                    PaxosState::Follower => self.follower_prepare_step(src_addr, request_id),
                    PaxosState::Leader => StepView::Idle,
                }
            },
            PaxosMessageView::LeaderAccepted { request_id, operation } => match self.state {
                PaxosState::Follower => self.follower_accepts(
                    after,
                    src_addr,
                    request_id,
                    operation,
                    step,
                ),
                PaxosState::Leader => *after == *self && step == StepView::Idle,
            },
            PaxosMessageView::ClientRequest { request_id, payload } => {
                &&& after.same_but_store(self)
                &&& after.store@ == self.store@
                &&& step == match self.state {
                    PaxosState::Follower => self.follower_client_step(src_addr, request_id, payload),
                    PaxosState::Leader => self.leader_client_step(payload),
                }
            },
            PaxosMessageView::FollowerRegisterRequest { follower_addr } => match self.state {
                PaxosState::Follower => *after == *self && step == StepView::Idle,
                PaxosState::Leader => match step {
                    StepView::Announce(frames) => self.leader_enrolls(after, follower_addr, frames),
                    _ => false,
                },
            },
            PaxosMessageView::FollowerRegisterReply { follower_list, index } => match self.state {
                PaxosState::Follower => self.follower_adopts(after, follower_list, index, step),
                PaxosState::Leader => *after == *self && step == StepView::Idle,
            },
            PaxosMessageView::RecoveryRequest { key } => {
                &&& *after == *self
                &&& step == StepView::ServeShard { to: src_addr, key }
            },
            PaxosMessageView::FollowerAck { .. } => *after == *self && step == StepView::Idle,
            PaxosMessageView::RecoveryReply { .. } => *after == *self && step == StepView::Idle,
        }
    }

    /// Starts the node. A follower asks the leader to let it join and makes
    /// itself known to the load balancer; the leader takes the first place
    /// in the roster.
    pub fn start(&mut self) -> (res: Vec<Outbound>)
        ensures
            final(self).running,
            final(self).address == old(self).address,
            final(self).leader_address == old(self).leader_address,
            final(self).load_balancer_address == old(self).load_balancer_address,
            final(self).state == old(self).state,
            final(self).ec == old(self).ec,
            final(self).ec_active == old(self).ec_active,
            final(self).request_id == old(self).request_id,
            final(self).store == old(self).store,
            match old(self).state {
                PaxosState::Follower => {
                    &&& final(self).cluster_list == old(self).cluster_list
                    &&& final(self).cluster_index == old(self).cluster_index
                    &&& outbound_views(res@) == seq![
                        OutboundView::Frame {
                            to: old(self).leader_address.rendered(),
                            message: PaxosMessageView::FollowerRegisterRequest {
                                follower_addr: old(self).address.rendered(),
                            },
                        },
                        OutboundView::Text {
                            to: old(self).load_balancer_address.rendered(),
                            text: crate::base_libs::paxos_follower::registration_line(
                                old(self).address.rendered(),
                            ),
                        },
                    ]
                },
                PaxosState::Leader => {
                    &&& final(self).roster() == old(self).roster().push(old(self).address.rendered())
                    &&& final(self).cluster_index == 0
                    &&& res@.len() == 0
                },
            },
    {
        self.running = true;
        match self.state {
            PaxosState::Follower => self.follower_send_register(),
            PaxosState::Leader => {
                self.cluster_list.push(self.address.to_string());
                self.cluster_index = 0;
                assert(self.roster() =~= old(self).roster().push(old(self).address.rendered()));
                Vec::new()
            },
        }
    }

    /// Handles a prepare: a follower's part, nothing for the leader.
    pub fn handle_leader_request(&self, src_addr: &String, request_id: u64) -> (res: Step)
        ensures
            self.handles(self, src_addr@, PaxosMessageView::LeaderRequest { request_id }, res@),
    {
        match self.state {
            PaxosState::Follower => self.follower_handle_leader_request(src_addr, request_id),
            PaxosState::Leader => self.leader_handle_leader_request(src_addr, request_id),
        }
    }

    /// Handles an accept: a follower's part, nothing for the leader.
    pub fn handle_leader_accepted(
        &mut self,
        src_addr: &String,
        request_id: u64,
        operation: &Operation,
    ) -> (res: Step)
        ensures
            old(self).handles(
                final(self),
                src_addr@,
                PaxosMessageView::LeaderAccepted { request_id, operation: operation@ },
                res@,
            ),
    {
        match self.state {
            PaxosState::Follower => self.follower_handle_leader_accepted(
                src_addr,
                request_id,
                operation,
            ),
            PaxosState::Leader => self.leader_handle_leader_accepted(src_addr, request_id, operation),
        }
    }

    /// Handles an acknowledgement that comes outside a round: it is
    /// ignored.
    pub fn handle_follower_ack(&self, src_addr: &String, request_id: u64) -> (res: Step)
        ensures
            self.handles(self, src_addr@, PaxosMessageView::FollowerAck { request_id }, res@),
    {
        match self.state {
            PaxosState::Follower => self.follower_handle_follower_ack(src_addr, request_id),
            PaxosState::Leader => self.leader_handle_follower_ack(src_addr, request_id),
        }
    }

    /// Handles a client's payload as the role of the node asks.
    pub fn handle_client_request(&mut self, src_addr: &String, request_id: u64, payload: &Vec<u8>) -> (res:
        Step)
        ensures
            old(self).handles(
                final(self),
                src_addr@,
                PaxosMessageView::ClientRequest { request_id, payload: payload@ },
                res@,
            ),
    {
        match self.state {
            PaxosState::Follower => self.follower_handle_client_request(
                src_addr,
                request_id,
                payload,
            ),
            PaxosState::Leader => self.leader_handle_client_request(src_addr, request_id, payload),
        }
    }

    /// Handles a join: the leader's part, nothing for a follower.
    pub fn handle_follower_register(
        &mut self,
        src_addr: &String,
        follower: &FollowerRegistrationRequest,
    ) -> (res: Step)
        ensures
            old(self).handles(
                final(self),
                src_addr@,
                PaxosMessageView::FollowerRegisterRequest { follower_addr: follower.follower_addr@ },
                res@,
            ),
    {
        match self.state {
            PaxosState::Follower => self.follower_handle_follower_register_request(
                src_addr,
                follower,
            ),
            PaxosState::Leader => {
                let frames = self.leader_handle_follower_register_request(follower);
                assert(old(self).leader_enrolls(
                    self,
                    follower.follower_addr@,
                    outbound_views(frames@),
                ));
                Step::Announce(frames)
            },
        }
    }

    /// Handles an announced roster: a follower's part, nothing for the
    /// leader.
    pub fn handle_follower_register_reply(
        &mut self,
        src_addr: &String,
        follower: &FollowerRegistrationReply,
    ) -> (res: Step)
        ensures
            old(self).handles(
                final(self),
                src_addr@,
                PaxosMessageView::FollowerRegisterReply {
                    follower_list: strings_view(follower.follower_list@),
                    index: follower.index,
                },
                res@,
            ),
    {
        match self.state {
            PaxosState::Follower => self.follower_handle_follower_register_reply(src_addr, follower),
            PaxosState::Leader => self.leader_handle_follower_register_reply(src_addr, follower),
        }
    }

    /// Handles one frame that the node received from `src_addr`.
    pub fn handle_message(&mut self, src_addr: &String, message: &PaxosMessage) -> (res: Step)
        ensures
            old(self).handles(final(self), src_addr@, message@, res@),
    {
        match message {
            PaxosMessage::LeaderRequest { request_id } => self.handle_leader_request(
                src_addr,
                *request_id,
            ),
            PaxosMessage::LeaderAccepted { request_id, operation } => self.handle_leader_accepted(
                src_addr,
                *request_id,
                operation,
            ),
            PaxosMessage::ClientRequest { request_id, payload } => self.handle_client_request(
                src_addr,
                *request_id,
                payload,
            ),
            PaxosMessage::FollowerAck { request_id } => self.handle_follower_ack(
                src_addr,
                *request_id,
            ),
            PaxosMessage::FollowerRegisterRequest(follower) => self.handle_follower_register(
                src_addr,
                follower,
            ),
            PaxosMessage::FollowerRegisterReply(follower) => self.handle_follower_register_reply(
                src_addr,
                follower,
            ),
            PaxosMessage::RecoveryRequest { key } => Step::ServeShard {
                to: src_addr.clone(),
                key: key.clone(),
            },
            PaxosMessage::RecoveryReply { .. } => Step::Idle,
        }
    }
}

} // verus!
