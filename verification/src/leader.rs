//! The plain leader: it keeps the set of followers that registered, and
//! reports to the load balancer whether a request was acknowledged.

use crate::base_libs::paxos::majority;
use crate::base_libs::paxos_follower::registration_line;
use crate::erasure_coding::shards_view;
use crate::text::{decimal, decode_text, push_decimal};
use crate::types::{
    clone_strings, outbound_views, strings_view, Outbound, OutboundView, PaxosMessage,
    PaxosMessageView,
};
use vstd::prelude::*;
use vstd::slice::{slice_subrange, slice_to_vec};
use vstd::utf8::*;

verus! {

/// The followers that registered, each once, in the order in which they
/// came.
pub struct FollowerSet {
    members: Vec<String>,
}

impl View for FollowerSet {
    type V = Seq<Seq<char>>;

    closed spec fn view(&self) -> Seq<Seq<char>> {
        strings_view(self.members@)
    }
}

/// The report on a request whose prepare round ended.
pub open spec fn prepare_report_text(request_id: u64, enough: bool) -> Seq<char> {
    if enough {
        "Request ID: "@ + decimal(request_id as nat) + "\nMessage received enough acknowledgements.\n"@
    } else {
        "Request ID: "@ + decimal(request_id as nat) + "\nNot enough acknowledgments to proceed."@
    }
}

impl FollowerSet {
    /// Whether no follower occurs twice.
    pub open spec fn well_formed(&self) -> bool {
        self@.no_duplicates()
    }

    /// The empty set.
    pub fn new() -> (res: Self)
        ensures
            res@.len() == 0,
            res.well_formed(),
    {
        FollowerSet { members: Vec::new() }
    }

    /// Whether `addr` registered.
    pub fn contains(&self, addr: &String) -> (res: bool)
        ensures
            res == self@.contains(addr@),
    {
        let mut i: usize = 0;
        while i < self.members.len()
            invariant
                i <= self.members@.len(),
                forall|j: int| 0 <= j < i ==> self@[j] != addr@,
            decreases self.members@.len() - i,
        {
            if self.members[i] == *addr {
                assert(self@[i as int] == addr@);
                return true;
            }
            i += 1;
        }
        false
    }

    /// Registers `addr`. Returns whether it was new; one that registered
    /// before is not added again.
    pub fn insert(&mut self, addr: String) -> (res: bool)
        requires
            old(self).well_formed(),
        ensures
            final(self).well_formed(),
            res == !old(self)@.contains(addr@),
            final(self)@ == if res {
                old(self)@.push(addr@)
            } else {
                old(self)@
            },
    {
        if self.contains(&addr) {
            return false;
        }
        self.members.push(addr);
        assert(self@ =~= old(self)@.push(addr@));
        true
    }

    /// The followers, in the order in which they registered.
    pub fn to_list(&self) -> (res: Vec<String>)
        ensures
            strings_view(res@) == self@,
    {
        clone_strings(&self.members)
    }
}

/// The line by which a node at `addr` makes itself known to the load
/// balancer.
pub fn registration(addr: &str) -> (res: String)
    ensures
        res@ == registration_line(addr@),
{
    let mut res = "register:".to_owned();
    res.append(addr);
    res
}

/// The report for the load balancer on a request whose prepare round
/// ended with or without enough acknowledgements.
pub fn prepare_report(request_id: u64, enough: bool) -> (res: String)
    ensures
        res@ == prepare_report_text(request_id, enough),
{
    let mut res = "Request ID: ".to_owned();
    push_decimal(&mut res, request_id);
    if enough {
        res.append("\nMessage received enough acknowledgements.\n");
    } else {
        res.append("\nNot enough acknowledgments to proceed.");
    }
    res
}

/// The address that a registration line names: what follows `register:`,
/// read as UTF-8. Any other datagram names none.
pub open spec fn registered(payload: Seq<u8>) -> Option<Seq<char>> {
    let prefix = encode_utf8("register:"@);
    if payload.len() >= prefix.len() && payload.take(prefix.len() as int) == prefix && valid_utf8(
        payload.skip(prefix.len() as int),
    ) {
        Some(decode_utf8(payload.skip(prefix.len() as int)))
    } else {
        None
    }
}

/// A registration line names the address that it was written for.
pub proof fn lemma_registration_names_address(address: Seq<char>)
    ensures
        registered(encode_utf8(registration_line(address))) == Some(address),
{
    let prefix = encode_utf8("register:"@);
    let rest = encode_utf8(address);
    lemma_encode_concat("register:"@, address);
    assert((prefix + rest).take(prefix.len() as int) =~= prefix);
    assert((prefix + rest).skip(prefix.len() as int) =~= rest);
    encode_utf8_valid_utf8(address);
    encode_utf8_decode_utf8(address);
}

/// The encoding of two texts, one after the other, is the encoding of the
/// first followed by the encoding of the second.
proof fn lemma_encode_concat(a: Seq<char>, b: Seq<char>)
    ensures
        encode_utf8(a + b) == encode_utf8(a) + encode_utf8(b),
    decreases a.len(),
{
    if a.len() == 0 {
        assert(a + b =~= b);
        assert(encode_utf8(a) + encode_utf8(b) =~= encode_utf8(b));
    } else {
        lemma_encode_concat(a.drop_first(), b);
        assert((a + b).drop_first() =~= a.drop_first() + b);
        assert((a + b)[0] == a[0]);
        assert(encode_utf8(a + b) =~= encode_utf8(a) + encode_utf8(b));
    }
}

/// The address that the datagram `payload` registers, if it is a
/// registration line.
pub fn registered_address(payload: &Vec<u8>) -> (res: Option<String>)
    ensures
        match res {
            Some(address) => registered(payload@) == Some(address@),
            None => registered(payload@) is None,
        },
{
    let prefix = "register:".as_bytes_vec();
    if payload.len() < prefix.len() {
        return None;
    }
    let mut i: usize = 0;
    while i < prefix.len()
        invariant
            i <= prefix@.len() <= payload@.len(),
            prefix@ == encode_utf8("register:"@),
            payload@.take(i as int) == prefix@.take(i as int),
        decreases prefix@.len() - i,
    {
        if payload[i] != prefix[i] {
            assert(payload@.take(prefix@.len() as int)[i as int] != prefix@[i as int]);
            return None;
        }
        assert(payload@.take(i + 1) =~= payload@.take(i as int).push(payload@[i as int]));
        assert(prefix@.take(i + 1) =~= prefix@.take(i as int).push(prefix@[i as int]));
        i += 1;
    }
    assert(prefix@.take(i as int) =~= prefix@);
    let rest = slice_to_vec(slice_subrange(payload.as_slice(), prefix.len(), payload.len()));
    assert(rest@ =~= payload@.skip(prefix@.len() as int));
    decode_text(&rest)
}

/// Whether `acks` acknowledgements are a majority of `members` followers.
/// Of no followers nothing is a majority.
pub fn has_majority(members: usize, acks: usize) -> (res: bool)
    ensures
        res == (members > 0 && acks >= majority(members as nat)),
{
    members > 0 && acks >= members / 2 + 1
}

/// The prepare of the request `request_id`, one frame for each follower.
pub fn plain_prepare(followers: &Vec<String>, request_id: u64) -> (res: Vec<Outbound>)
    ensures
        outbound_views(res@) == Seq::new(
            followers@.len(),
            |i: int|
                OutboundView::Frame {
                    to: followers@[i]@,
                    message: PaxosMessageView::LeaderRequest { request_id },
                },
        ),
{
    let mut res: Vec<Outbound> = Vec::new();
    let mut i: usize = 0;
    while i < followers.len()
        invariant
            i <= followers@.len(),
            res@.len() == i,
            forall|j: int|
                0 <= j < i ==> (#[trigger] res@[j])@ == (OutboundView::Frame {
                    to: followers@[j]@,
                    message: PaxosMessageView::LeaderRequest { request_id },
                }),
        decreases followers@.len() - i,
    {
        res.push(
            Outbound::Frame {
                to: followers[i].clone(),
                message: PaxosMessage::LeaderRequest { request_id },
            },
        );
        i += 1;
    }
    assert(outbound_views(res@) =~= Seq::new(
        followers@.len(),
        |i: int|
            OutboundView::Frame {
                to: followers@[i]@,
                message: PaxosMessageView::LeaderRequest { request_id },
            },
    ));
    res
}

/// The accept of the request `request_id`: the follower at position `i`
/// gets the shard at position `i` as the payload of a client request.
pub fn plain_accept(followers: &Vec<String>, request_id: u64, shards: &Vec<Vec<u8>>) -> (res: Vec<
    Outbound,
>)
    requires
        followers@.len() <= shards@.len(),
    ensures
        outbound_views(res@) == Seq::new(
            followers@.len(),
            |i: int|
                OutboundView::Frame {
                    to: followers@[i]@,
                    message: PaxosMessageView::ClientRequest {
                        request_id,
                        payload: shards_view(shards@)[i],
                    },
                },
        ),
{
    let mut res: Vec<Outbound> = Vec::new();
    let mut i: usize = 0;
    while i < followers.len()
        invariant
            i <= followers@.len() <= shards@.len(),
            res@.len() == i,
            forall|j: int|
                0 <= j < i ==> (#[trigger] res@[j])@ == (OutboundView::Frame {
                    to: followers@[j]@,
                    message: PaxosMessageView::ClientRequest {
                        request_id,
                        payload: shards_view(shards@)[j],
                    },
                }),
        decreases followers@.len() - i,
    {
        res.push(
            Outbound::Frame {
                to: followers[i].clone(),
                message: PaxosMessage::ClientRequest { request_id, payload: shards[i].clone() },
            },
        );
        i += 1;
    }
    assert(outbound_views(res@) =~= Seq::new(
        followers@.len(),
        |i: int|
            OutboundView::Frame {
                to: followers@[i]@,
                message: PaxosMessageView::ClientRequest {
                    request_id,
                    payload: shards_view(shards@)[i],
                },
            },
    ));
    res
}

} // verus!
