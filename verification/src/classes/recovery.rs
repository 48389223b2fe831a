//! Recovery of a value from the shards that the nodes of the cluster hold.
//!
//! A node that has no value cached for a key takes its own shard from its
//! log, asks every other member of the roster for theirs, puts each answer
//! into the slot of the member that sent it, and reconstructs the value as
//! soon as enough slots are filled.

use crate::base_libs::paxos::{
    fan_out, format_response, frames_for, response_text, send_one, Broadcast, Carried, PaxosState,
    Step, StepView,
};
use crate::base_libs::paxos_follower::handled_by_follower;
use crate::base_libs::paxos_leader::{handled_by_leader, request_failed};
use crate::classes::node::Node;
use crate::erasure_coding::{
    agrees, all_present, count_present, encodes, lemma_reconstruct_inverts_encode,
    reconstruct_error, restores, rs_restored, slots_view, valid_params, EcError,
};
use crate::text::decode_text;
use crate::types::{
    outbound_views, strings_view, Outbound, OutboundView, PaxosMessage, PaxosMessageView,
};
use crate::wal::wal_lookup;
use vstd::prelude::*;
use vstd::utf8::*;

verus! {

/// Why a value could not be recovered.
#[derive(Debug, Clone, Copy, PartialEq, Eq, Structural)]
pub enum RecoveryError {
    /// The shards at hand cannot be reconstructed.
    Erasure(EcError),
    /// A data shard is not UTF-8 text.
    InvalidUtf8,
}

/// `n` slots, empty but for `own` at position `index`.
pub open spec fn own_slots(n: nat, index: int, own: Option<Seq<u8>>) -> Seq<Option<Seq<u8>>> {
    Seq::new(
        n,
        |i: int|
            if i == index {
                own
            } else {
                None
            },
    )
}

/// The slots after an answer came in: the shard of a recovery reply fills
/// the slot at the sender's index, where the roster of `roster_len` members
/// and the slots have that position. Any other frame changes nothing.
pub open spec fn placed(
    slots: Seq<Option<Seq<u8>>>,
    roster_len: nat,
    message: PaxosMessageView,
) -> Seq<Option<Seq<u8>>> {
    match message {
        PaxosMessageView::RecoveryReply { index, payload } => if index < roster_len && index
            < slots.len() {
            slots.update(index as int, Some(payload))
        } else {
            slots
        },
        _ => slots,
    }
}

/// The slots after the answers `replies` came in, in order.
pub open spec fn collected(
    slots: Seq<Option<Seq<u8>>>,
    roster_len: nat,
    replies: Seq<PaxosMessage>,
) -> Seq<Option<Seq<u8>>>
    decreases replies.len(),
{
    if replies.len() == 0 {
        slots
    } else {
        placed(collected(slots, roster_len, replies.drop_last()), roster_len, replies.last()@)
    }
}

/// The first `k` shards, each read as UTF-8, one after the other; `None`
/// where one of them is missing or is not UTF-8.
pub open spec fn joined_text(slots: Seq<Option<Seq<u8>>>, k: nat) -> Option<Seq<char>>
    decreases k,
{
    if k == 0 {
        Some(Seq::empty())
    } else {
        match (joined_text(slots, (k - 1) as nat), slots[k - 1]) {
            (Some(text), Some(shard)) => if valid_utf8(shard) {
                Some(text + decode_utf8(shard))
            } else {
                None
            },
            _ => None,
        }
    }
}

/// What recovery makes of the slots: the text of the data shards after
/// reconstruction, or the reason why there is none.
pub open spec fn recovery_outcome(slots: Seq<Option<Seq<u8>>>, k: nat, m: nat) -> Result<
    Seq<char>,
    RecoveryError,
> {
    match reconstruct_error(slots, k, m) {
        Some(e) => Err(RecoveryError::Erasure(e)),
        None => match joined_text(rs_restored(k, m, slots), k) {
            Some(text) => Ok(text),
            None => Err(RecoveryError::InvalidUtf8),
        },
    }
}

/// Enough shards are enough.
///
/// Let `shards` be the encoding of a payload that is not empty, and let the
/// slots hold at least `k` of those shards, each at its own position. Then
/// recovery does not fail for want of shards: it gives the text of the data
/// shards of the payload, and fails only where one of these is not UTF-8.
pub proof fn lemma_recovery_sufficient(
    payload: Seq<u8>,
    k: nat,
    m: nat,
    shards: Seq<Seq<u8>>,
    slots: Seq<Option<Seq<u8>>>,
)
    requires
        valid_params(k, m),
        payload.len() > 0,
        encodes(shards, payload, k, m),
        agrees(slots, shards),
        count_present(slots) >= k,
        restores(slots, rs_restored(k, m, slots), k, m),
    ensures
        recovery_outcome(slots, k, m) == match joined_text(all_present(shards), k) {
            Some(text) => Ok::<Seq<char>, RecoveryError>(text),
            None => Err::<Seq<char>, RecoveryError>(RecoveryError::InvalidUtf8),
        },
{
    lemma_reconstruct_inverts_encode(payload, k, m, shards, slots, rs_restored(k, m, slots));
}

/// Whether every shard among the answers is the shard of `shards` at the
/// index that the answer names.
pub open spec fn answers_hold(replies: Seq<PaxosMessage>, shards: Seq<Seq<u8>>) -> bool {
    forall|j: int|
        0 <= j < replies.len() ==> match (#[trigger] replies[j])@ {
            PaxosMessageView::RecoveryReply { index, payload } => index < shards.len()
                ==> payload == shards[index as int],
            _ => true,
        }
}

/// Answers that hold shards of one encoding fill the slots with shards of
/// that encoding.
///
/// Let the reader's own shard be the one at its index, and let every
/// answer carry the shard at the index that it names. Then each filled slot
/// holds the shard of its position, in whatever order the answers came.
pub proof fn lemma_collected_agrees(
    shards: Seq<Seq<u8>>,
    index: int,
    roster_len: nat,
    replies: Seq<PaxosMessage>,
)
    requires
        0 <= index < shards.len(),
        answers_hold(replies, shards),
    ensures
        agrees(
            collected(own_slots(shards.len(), index, Some(shards[index])), roster_len, replies),
            shards,
        ),
        count_present(
            collected(own_slots(shards.len(), index, Some(shards[index])), roster_len, replies),
        ) >= 1,
    decreases replies.len(),
{
    let start = own_slots(shards.len(), index, Some(shards[index]));
    if replies.len() == 0 {
        lemma_count_one(start, index);
    } else {
        let init = replies.drop_last();
        assert forall|j: int| 0 <= j < init.len() implies match (#[trigger] init[j])@ {
            PaxosMessageView::RecoveryReply { index, payload } => index < shards.len()
                ==> payload == shards[index as int],
            _ => true,
        } by {
            assert(init[j] == replies[j]);
        }
        lemma_collected_agrees(shards, index, roster_len, init);
        let before = collected(start, roster_len, init);
        let last = replies[replies.len() - 1];
        assert(replies.last() == last);
        match last@ {
            PaxosMessageView::RecoveryReply { index: at, payload } => {
                if at < roster_len && at < before.len() {
                    lemma_count_update(before, at as int, payload);
                }
            },
            _ => {},
        }
    }
}

/// Slots of which one is filled count at least one.
proof fn lemma_count_one(slots: Seq<Option<Seq<u8>>>, at: int)
    requires
        0 <= at < slots.len(),
        slots[at] is Some,
    ensures
        count_present(slots) >= 1,
    decreases slots.len(),
{
    if at < slots.len() - 1 {
        lemma_count_one(slots.drop_last(), at);
    }
}

/// Filling a slot takes no filled slot away.
proof fn lemma_count_update(slots: Seq<Option<Seq<u8>>>, at: int, shard: Seq<u8>)
    requires
        0 <= at < slots.len(),
    ensures
        count_present(slots.update(at, Some(shard))) >= count_present(slots),
    decreases slots.len(),
{
    let filled = slots.update(at, Some(shard));
    if at < slots.len() - 1 {
        lemma_count_update(slots.drop_last(), at, shard);
        assert(filled.drop_last() =~= slots.drop_last().update(at, Some(shard)));
    } else {
        assert(filled.drop_last() =~= slots.drop_last());
    }
}

impl Node {
    /// The message of a reply that this node gives by itself.
    pub open spec fn handled_by(&self) -> Seq<char> {
        match self.state {
            PaxosState::Leader => handled_by_leader(),
            PaxosState::Follower => handled_by_follower(),
        }
    }

    /// Starts a recovery: the slots, with this node's own shard in its
    /// place, and the request for every other member of the roster.
    pub fn broadcast_get_value(
        &self,
        follower_list: &Vec<String>,
        own_shard: &Option<Vec<u8>>,
        key: &str,
    ) -> (res: (Vec<Option<Vec<u8>>>, Vec<Outbound>))
        requires
            self.well_formed(),
            self.cluster_index < self.ec.total(),
        ensures
            slots_view(res.0@) == own_slots(
                self.ec.total(),
                self.cluster_index as int,
                match own_shard {
                    Some(shard) => Some(shard@),
                    None => None,
                },
            ),
            outbound_views(res.1@) == fan_out(
                strings_view(follower_list@),
                self.address.rendered(),
                Broadcast::Recovery { key: key@ },
            ),
    {
        let total = self.ec.shard_count + self.ec.parity_count;
        let mut slots: Vec<Option<Vec<u8>>> = Vec::new();
        let mut i: usize = 0;
        while i < total
            invariant
                i <= total,
                slots@.len() == i,
                forall|j: int| 0 <= j < i ==> (#[trigger] slots@[j]) is None,
            decreases total - i,
        {
            slots.push(None);
            i += 1;
        }
        slots.set(self.cluster_index, own_shard.clone());
        assert(slots_view(slots@) =~= own_slots(
            self.ec.total(),
            self.cluster_index as int,
            match own_shard {
                Some(shard) => Some(shard@),
                None => None,
            },
        ));
        let frames = frames_for(&self.address.to_string(), follower_list, &Carried::Recovery { key });
        (slots, frames)
    }

    /// Takes one answer of a recovery into the slots.
    pub fn collect_recovery_reply(
        slots: &mut Vec<Option<Vec<u8>>>,
        roster_len: usize,
        reply: &PaxosMessage,
    )
        ensures
            slots_view(final(slots)@) == placed(slots_view(old(slots)@), roster_len as nat, reply@),
    {
        match reply {
            PaxosMessage::RecoveryReply { index, payload } => {
                if *index < roster_len && *index < slots.len() {
                    slots.set(*index, Some(payload.clone()));
                    assert(slots_view(slots@) =~= slots_view(old(slots)@).update(
                        *index as int,
                        Some(payload@),
                    ));
                }
            },
            _ => {},
        }
    }

    /// Whether enough slots are filled to reconstruct the value.
    pub fn recovery_complete(&self, slots: &Vec<Option<Vec<u8>>>) -> (res: bool)
        ensures
            res == (count_present(slots_view(slots@)) >= self.ec.shard_count),
    {
        let ghost view = slots_view(slots@);
        let mut present: usize = 0;
        let mut i: usize = 0;
        while i < slots.len()
            invariant
                i <= slots@.len(),
                view == slots_view(slots@),
                present == count_present(view.take(i as int)),
                present <= i,
            decreases slots@.len() - i,
        {
            proof {
                assert(view.take(i + 1).drop_last() =~= view.take(i as int));
                assert(view.take(i + 1).last() == view[i as int]);
            }
            if slots[i].is_some() {
                present += 1;
            }
            i += 1;
        }
        assert(view.take(i as int) =~= view);
        present >= self.ec.shard_count
    }

    /// Ends a recovery: reconstructs the shards, reads the data shards as
    /// text, and caches the text under `key`. Where this fails the store is
    /// left as it is.
    #[verifier::loop_isolation(false)]
    pub fn recover_value(&mut self, key: &str, slots: Vec<Option<Vec<u8>>>) -> (res: Result<
        String,
        RecoveryError,
    >)
        requires
            old(self).well_formed(),
        ensures
            final(self).same_but_store(old(self)),
            match res {
                Ok(text) => {
                    &&& recovery_outcome(
                        slots_view(slots@),
                        old(self).ec.shard_count as nat,
                        old(self).ec.parity_count as nat,
                    ) == Ok::<Seq<char>, RecoveryError>(text@)
                    &&& final(self).store@ == old(self).store@.insert(key@, text@)
                },
                Err(e) => {
                    &&& recovery_outcome(
                        slots_view(slots@),
                        old(self).ec.shard_count as nat,
                        old(self).ec.parity_count as nat,
                    ) == Err::<Seq<char>, RecoveryError>(e)
                    &&& final(self).store@ == old(self).store@
                },
            },
            reconstruct_error(
                slots_view(slots@),
                old(self).ec.shard_count as nat,
                old(self).ec.parity_count as nat,
            ) is None ==> restores(
                slots_view(slots@),
                rs_restored(
                    old(self).ec.shard_count as nat,
                    old(self).ec.parity_count as nat,
                    slots_view(slots@),
                ),
                old(self).ec.shard_count as nat,
                old(self).ec.parity_count as nat,
            ),
    {
        let mut slots = slots;
        let ghost before = slots_view(slots@);
        let ghost k = self.ec.shard_count as nat;
        let ghost m = self.ec.parity_count as nat;
        match self.ec.reconstruct(&mut slots) {
            Err(e) => {
                return Err(RecoveryError::Erasure(e));
            },
            Ok(()) => {},
        }
        let ghost after = slots_view(slots@);
        assert(after == rs_restored(k, m, before));
        let mut text = String::new();
        let mut i: usize = 0;
        while i < self.ec.shard_count
            invariant
                i <= self.ec.shard_count,
                self.ec.shard_count <= slots@.len(),
                after == slots_view(slots@),
                joined_text(after, i as nat) == Some(text@),
            decreases self.ec.shard_count - i,
        {
            assert(after[i as int] == slots_view(slots@)[i as int]);
            let part = match &slots[i] {
                Some(shard) => decode_text(shard),
                None => None,
            };
            match part {
                Some(part) => {
                    text.append(part.as_str());
                },
                None => {
                    assert(joined_text(after, (i + 1) as nat) is None);
                    proof {
                        lemma_joined_text_fails(after, (i + 1) as nat, k);
                    }
                    return Err(RecoveryError::InvalidUtf8);
                },
            }
            i += 1;
        }
        self.store.set(key, text.as_str());
        Ok(text)
    }

    /// The value of `key` as the log image `wal` and the answers `replies`
    /// of the other members give it.
    ///
    /// Where the log holds no shard for the key there is nothing to
    /// recover: the result is the empty text. Otherwise the shard of the
    /// log and the shards of the answers are reconstructed as
    /// [`recovery_outcome`] says, and the text is cached.
    pub fn get_from_cluster(&mut self, wal: &Vec<u8>, key: &String, replies: &Vec<PaxosMessage>) -> (res:
        Result<String, RecoveryError>)
        requires
            old(self).well_formed(),
            old(self).cluster_index < old(self).ec.total(),
        ensures
            final(self).same_but_store(old(self)),
            match wal_lookup(wal@, key@) {
                None => {
                    &&& res matches Ok(text) && text@.len() == 0
                    &&& final(self).store@ == old(self).store@
                },
                Some(own) => {
                    let slots = collected(
                        own_slots(old(self).ec.total(), old(self).cluster_index as int, Some(own)),
                        old(self).cluster_list@.len(),
                        replies@,
                    );
                    let outcome = recovery_outcome(
                        slots,
                        old(self).ec.shard_count as nat,
                        old(self).ec.parity_count as nat,
                    );
                    match res {
                        Ok(text) => {
                            &&& outcome == Ok::<Seq<char>, RecoveryError>(text@)
                            &&& final(self).store@ == old(self).store@.insert(key@, text@)
                        },
                        Err(e) => {
                            &&& outcome == Err::<Seq<char>, RecoveryError>(e)
                            &&& final(self).store@ == old(self).store@
                        },
                    }
                },
            },
    {
        let own = match self.store.get_from_wal(wal, key.as_str()) {
            Some(own) => Some(own),
            None => {
                return Ok(String::new());
            },
        };
        let (mut slots, _) = self.broadcast_get_value(&self.cluster_list, &own, key.as_str());
        let ghost start = slots_view(slots@);
        let roster_len = self.cluster_list.len();
        let mut i: usize = 0;
        while i < replies.len()
            invariant
                i <= replies@.len(),
                slots_view(slots@) == collected(start, roster_len as nat, replies@.take(i as int)),
            decreases replies@.len() - i,
        {
            proof {
                assert(replies@.take(i + 1).drop_last() =~= replies@.take(i as int));
                assert(replies@.take(i + 1).last() == replies@[i as int]);
            }
            Node::collect_recovery_reply(&mut slots, roster_len, &replies[i]);
            i += 1;
        }
        assert(replies@.take(i as int) =~= replies@);
        self.recover_value(key.as_str(), slots)
    }

    /// Answers a peer that asks for this node's shard of `key`: the shard
    /// that the log image `wal` holds, with this node's index. Where the
    /// log holds none, nothing is sent.
    pub fn handle_recovery_request(&self, src_addr: &String, wal: &Vec<u8>, key: &str) -> (res: Step)
        ensures
            res@ == match wal_lookup(wal@, key@) {
                Some(shard) => StepView::Send(
                    seq![
                        OutboundView::Frame {
                            to: src_addr@,
                            message: PaxosMessageView::RecoveryReply {
                                index: self.cluster_index,
                                payload: shard,
                            },
                        },
                    ],
                ),
                None => StepView::Idle,
            },
    {
        match self.store.get_from_wal(wal, key) {
            Some(value) => send_one(
                Outbound::Frame {
                    to: src_addr.clone(),
                    message: PaxosMessage::RecoveryReply { index: self.cluster_index, payload: value },
                },
            ),
            None => Step::Idle,
        }
    }

    /// The answer to a `GET` that went through recovery: the recovered
    /// text, or the word that the request failed.
    pub fn reply_after_recovery(&self, reply_to: &String, outcome: &Result<String, RecoveryError>) -> (res:
        Outbound)
        ensures
            res@ == (OutboundView::Text {
                to: reply_to@,
                text: match outcome {
                    Ok(text) => response_text(self.request_id, self.handled_by(), text@),
                    Err(_) => response_text(self.request_id, request_failed(), Seq::empty()),
                },
            }),
    {
        let text = match outcome {
            Ok(text) => {
                let message = match self.state {
                    PaxosState::Leader => "Request is handled by leader",
                    PaxosState::Follower => "Request is handled by follower",
                };
                format_response(self.request_id, message, text.as_str())
            },
            Err(_) => {
                proof {
                    reveal_strlit("");
                }
                assert(""@ =~= Seq::<char>::empty());
                format_response(self.request_id, "Request failed.", "")
            },
        };
        Outbound::Text { to: reply_to.clone(), text }
    }
}

/// Once a shard cannot be read, no longer prefix can.
proof fn lemma_joined_text_fails(slots: Seq<Option<Seq<u8>>>, i: nat, k: nat)
    requires
        i <= k,
        joined_text(slots, i) is None,
    ensures
        joined_text(slots, k) is None,
    decreases k - i,
{
    if i < k {
        lemma_joined_text_fails(slots, i + 1, k);
    }
}

} // verus!
