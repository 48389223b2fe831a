use ec_kv_store::base_libs::address::Address;
use ec_kv_store::base_libs::operation::{BinKV, Operation, OperationType};
use ec_kv_store::base_libs::paxos::{PaxosState, Step};
use ec_kv_store::base_libs::paxos_leader::{count_acks, PrepareOutcome};
use ec_kv_store::classes::node::Node;
use ec_kv_store::classes::recovery::RecoveryError;
use ec_kv_store::erasure_coding::{encode, EcError};
use ec_kv_store::types::{
    FollowerRegistrationReply, FollowerRegistrationRequest, Outbound, PaxosMessage,
};
use ec_kv_store::wal::{lookup, record_bytes};

const LEADER: &str = "127.0.0.1:8000";
const LB: &str = "127.0.0.1:9000";
const CLIENT: &str = "127.0.0.1:50000";

fn node_with(port: u16, state: PaxosState, k: usize, m: usize, ec_active: bool) -> Node {
    Node::new(
        Address::new("127.0.0.1", port),
        Address::new("127.0.0.1", 8000),
        Address::new("127.0.0.1", 9000),
        state,
        k,
        m,
        ec_active,
    )
}

fn node(port: u16, state: PaxosState, ec_active: bool) -> Node {
    node_with(port, state, 2, 1, ec_active)
}

fn leader() -> Node {
    let mut l = node(8000, PaxosState::Leader, true);
    assert!(l.start().is_empty());
    l
}

fn text(to: &str, text: &str) -> Outbound {
    Outbound::Text { to: to.to_string(), text: text.to_string() }
}

fn frame(to: &str, message: PaxosMessage) -> Outbound {
    Outbound::Frame { to: to.to_string(), message }
}

fn ack(request_id: u64) -> PaxosMessage {
    PaxosMessage::FollowerAck { request_id }
}

fn client(payload: &str) -> PaxosMessage {
    PaxosMessage::ClientRequest { request_id: 0, payload: payload.as_bytes().to_vec() }
}

fn op(op_type: OperationType, key: &str, value: &[u8]) -> Operation {
    Operation { op_type, kv: BinKV { key: key.to_string(), value: value.to_vec() } }
}

/// A cluster in memory: the nodes, the log of each, and which of them answer.
struct Cluster {
    nodes: Vec<Node>,
    logs: Vec<Vec<u8>>,
    online: Vec<bool>,
}

impl Cluster {
    fn new(followers: u16, ec_active: bool) -> Cluster {
        Cluster::with_code(followers, 2, 1, ec_active)
    }

    fn with_code(followers: u16, k: usize, m: usize, ec_active: bool) -> Cluster {
        let mut l = node_with(8000, PaxosState::Leader, k, m, ec_active);
        assert!(l.start().is_empty());
        let mut cluster = Cluster { nodes: vec![l], logs: vec![Vec::new()], online: vec![true] };
        for i in 0..followers {
            let mut f = node_with(8001 + i, PaxosState::Follower, k, m, ec_active);
            let sent = f.start();
            assert_eq!(sent.len(), 2);
            cluster.nodes.push(f);
            cluster.logs.push(Vec::new());
            cluster.online.push(true);
            let from = cluster.nodes.last().unwrap().address.to_string();
            match &sent[0] {
                Outbound::Frame { to, message } => {
                    assert_eq!(to, LEADER);
                    let step = cluster.nodes[0].handle_message(&from, message);
                    match step {
                        Step::Announce(frames) => {
                            let roster = cluster.nodes[0].cluster_list.clone();
                            let replies = cluster.deliver(frames);
                            assert_eq!(
                                Node::leader_count_acks(&roster, &replies),
                                roster.len()
                            );
                        }
                        other => panic!("{:?}", other),
                    }
                }
                other => panic!("{:?}", other),
            }
        }
        cluster
    }

    fn position(&self, addr: &str) -> usize {
        self.nodes.iter().position(|n| n.address.to_string() == addr).unwrap()
    }

    /// Hands each frame to its node and returns what came back, one entry for each frame.
    fn deliver(&mut self, frames: Vec<Outbound>) -> Vec<Option<PaxosMessage>> {
        let mut replies = Vec::new();
        for datagram in frames {
            let (to, message) = match datagram {
                Outbound::Frame { to, message } => (to, message),
                other => panic!("{:?}", other),
            };
            let at = self.position(&to);
            if !self.online[at] {
                replies.push(None);
                continue;
            }
            let from = LEADER.to_string();
            let step = match &message {
                PaxosMessage::RecoveryRequest { key } => {
                    self.nodes[at].handle_recovery_request(&from, &self.logs[at], key)
                }
                other => self.nodes[at].handle_message(&from, other),
            };
            let sent = match step {
                Step::Idle => Vec::new(),
                Step::Send(sent) => sent,
                Step::Persist { record, then } => {
                    self.logs[at].extend_from_slice(&record);
                    then
                }
                other => panic!("{:?}", other),
            };
            assert!(sent.len() <= 1);
            replies.push(sent.into_iter().next().map(|d| match d {
                Outbound::Frame { to, message } => {
                    assert_eq!(to, from);
                    message
                }
                other => panic!("{:?}", other),
            }));
        }
        replies
    }

    /// Runs a client request on the leader to its end and returns the answer for the load balancer.
    fn request(&mut self, payload: &str) -> Outbound {
        let step = self.nodes[0].handle_message(&LB.to_string(), &client(payload));
        match step {
            Step::Send(mut sent) => {
                assert_eq!(sent.len(), 1);
                sent.remove(0)
            }
            Step::Recover { key, reply_to } => {
                assert_eq!(reply_to, LB);
                let outcome = self.recover(0, &key);
                self.nodes[0].reply_after_recovery(&reply_to, &outcome)
            }
            Step::Prepare { operation, follower_list, frames } => {
                let replies = self.deliver(frames);
                let prepared = Node::leader_count_acks(&follower_list, &replies);
                match self.nodes[0].leader_handle_prepare_acks(&operation, &follower_list, prepared) {
                    PrepareOutcome::Rejected(answer) => answer,
                    PrepareOutcome::Accepted { request_id, reply, record, frames } => {
                        self.logs[0].extend_from_slice(&record);
                        let replies = self.deliver(frames);
                        let accepted = Node::leader_count_acks(&follower_list, &replies);
                        self.nodes[0].leader_handle_accept_acks(
                            request_id,
                            follower_list.len(),
                            prepared,
                            accepted,
                            &reply,
                        )
                    }
                }
            }
            other => panic!("{:?}", other),
        }
    }

    fn recover(&mut self, at: usize, key: &String) -> Result<String, RecoveryError> {
        let own = lookup(&self.logs[at], key);
        let roster = self.nodes[at].cluster_list.clone();
        let (_, frames) = self.nodes[at].broadcast_get_value(&roster, &own, key);
        let replies: Vec<PaxosMessage> = self
            .deliver_from(at, frames)
            .into_iter()
            .flatten()
            .collect();
        let log = self.logs[at].clone();
        self.nodes[at].get_from_cluster(&log, key, &replies)
    }

    fn deliver_from(&mut self, at: usize, frames: Vec<Outbound>) -> Vec<Option<PaxosMessage>> {
        let from = self.nodes[at].address.to_string();
        let mut replies = Vec::new();
        for datagram in frames {
            let (to, message) = match datagram {
                Outbound::Frame { to, message } => (to, message),
                other => panic!("{:?}", other),
            };
            let peer = self.position(&to);
            if !self.online[peer] {
                replies.push(None);
                continue;
            }
            let key = match &message {
                PaxosMessage::RecoveryRequest { key } => key.clone(),
                other => panic!("{:?}", other),
            };
            match self.nodes[peer].handle_recovery_request(&from, &self.logs[peer], &key) {
                Step::Idle => replies.push(None),
                Step::Send(mut sent) => match sent.remove(0) {
                    Outbound::Frame { to, message } => {
                        assert_eq!(to, from);
                        replies.push(Some(message));
                    }
                    other => panic!("{:?}", other),
                },
                other => panic!("{:?}", other),
            }
        }
        replies
    }
}

#[test]
fn new_node_has_not_started() {
    let n = node(8001, PaxosState::Follower, true);
    assert!(!n.running);
    assert!(n.cluster_list.is_empty());
    assert_eq!(n.cluster_index, usize::MAX);
    assert_eq!(n.request_id, 0);
    assert_eq!(n.ec.shard_count, 2);
    assert_eq!(n.ec.parity_count, 1);
    assert!(n.ec_active);
    assert_eq!(n.store.get("k"), "");
    assert_eq!(n.wal_path(), "./log/127.0.0.1..8001");
}

#[test]
fn leader_start_takes_first_place() {
    let l = leader();
    assert!(l.running);
    assert_eq!(l.cluster_list, vec![LEADER.to_string()]);
    assert_eq!(l.cluster_index, 0);
}

#[test]
fn follower_start_registers() {
    let mut f = node(8001, PaxosState::Follower, true);
    let sent = f.start();
    assert!(f.running);
    assert_eq!(f.cluster_index, usize::MAX);
    assert_eq!(
        sent,
        vec![
            frame(
                LEADER,
                PaxosMessage::FollowerRegisterRequest(FollowerRegistrationRequest {
                    follower_addr: "127.0.0.1:8001".to_string(),
                }),
            ),
            text(LB, "register:127.0.0.1:8001"),
        ]
    );
    assert_eq!(f.follower_send_register(), sent);
}

#[test]
fn single_node_set_then_get() {
    let mut cluster = Cluster::new(0, true);
    let answer = cluster.request("SET foo hello");
    assert_eq!(
        answer,
        text(
            LB,
            "Request ID: 0\nMessage: Accept broadcast is not accepted by majority\nReply: OK\n."
        )
    );
    assert_eq!(cluster.nodes[0].request_id, 1);
    assert_eq!(cluster.logs[0], record_bytes(&op(OperationType::SET, "foo", b"hel")));
    let answer = cluster.request("GET foo");
    assert_eq!(
        answer,
        text(LB, "Request ID: 1\nMessage: Request is handled by leader\nReply: hello\n.")
    );
    assert_eq!(cluster.nodes[0].request_id, 1);
}

#[test]
fn three_node_write_spreads_shards() {
    let mut cluster = Cluster::new(2, true);
    let answer = cluster.request("SET bar world");
    assert_eq!(
        answer,
        text(
            LB,
            "Request ID: 0\nMessage: Leader broadcasted the message successfully\nReply: OK\n."
        )
    );
    let shards = encode(&b"world".to_vec(), 2, 1);
    assert_eq!(shards[0], b"wor".to_vec());
    assert_eq!(shards[1], b"ld\0".to_vec());
    assert_eq!(shards[2].len(), 3);
    for i in 0..3 {
        assert_eq!(cluster.logs[i], record_bytes(&op(OperationType::SET, "bar", &shards[i])));
        assert_eq!(lookup(&cluster.logs[i], "bar"), Some(shards[i].clone()));
        assert_eq!(cluster.nodes[i].cluster_index, i);
    }
    assert_eq!(cluster.nodes[0].request_id, 1);
    assert_eq!(cluster.nodes[1].request_id, 0);
    assert_eq!(cluster.nodes[0].store.get("bar"), "world");
    assert_eq!(cluster.nodes[1].store.get("bar"), "");
}

#[test]
fn recovery_from_two_shards() {
    let mut cluster = Cluster::new(2, true);
    cluster.request("SET bar world");
    cluster.nodes[0].store.remove("bar");
    cluster.online[2] = false;
    let answer = cluster.request("GET bar");
    assert_eq!(
        answer,
        text(LB, "Request ID: 1\nMessage: Request is handled by leader\nReply: world\0.")
    );
    assert_eq!(cluster.nodes[0].store.get("bar"), "world\0");
}

#[test]
fn recovery_on_a_follower() {
    let mut cluster = Cluster::new(2, true);
    cluster.request("SET bar world");
    cluster.online[0] = false;
    let step = cluster.nodes[1].handle_message(&CLIENT.to_string(), &client("GET bar"));
    assert_eq!(step, Step::Recover { key: "bar".to_string(), reply_to: CLIENT.to_string() });
    let outcome = cluster.recover(1, &"bar".to_string());
    assert_eq!(outcome, Ok("world\0".to_string()));
    assert_eq!(
        cluster.nodes[1].reply_after_recovery(&CLIENT.to_string(), &outcome),
        text(CLIENT, "Request ID: 0\nMessage: Request is handled by follower\nReply: world\0.")
    );
    assert_eq!(cluster.nodes[1].store.get("bar"), "world\0");
}

#[test]
fn recovery_with_too_few_shards_fails() {
    let mut cluster = Cluster::new(2, true);
    cluster.request("SET bar world");
    cluster.nodes[0].store.remove("bar");
    cluster.online[1] = false;
    cluster.online[2] = false;
    let outcome = cluster.recover(0, &"bar".to_string());
    assert_eq!(outcome, Err(RecoveryError::Erasure(EcError::InsufficientShards)));
    assert_eq!(cluster.nodes[0].store.get("bar"), "");
    assert_eq!(
        cluster.nodes[0].reply_after_recovery(&LB.to_string(), &outcome),
        text(LB, "Request ID: 1\nMessage: Request failed.\nReply: .")
    );
}

#[test]
fn recovery_of_unknown_key_is_empty() {
    let mut cluster = Cluster::new(2, true);
    let answer = cluster.request("GET nothing");
    assert_eq!(
        answer,
        text(LB, "Request ID: 0\nMessage: Request is handled by leader\nReply: .")
    );
    assert_eq!(cluster.nodes[0].store.get("nothing"), "");
}

#[test]
fn recovery_of_split_character_is_an_error() {
    let mut cluster = Cluster::new(2, true);
    cluster.request("SET k aéb");
    cluster.nodes[0].store.remove("k");
    let outcome = cluster.recover(0, &"k".to_string());
    assert_eq!(outcome, Err(RecoveryError::InvalidUtf8));
    assert_eq!(cluster.nodes[0].store.get("k"), "");
}

#[test]
fn quorum_failure_keeps_request_id() {
    let mut cluster = Cluster::with_code(4, 3, 2, true);
    cluster.online[2] = false;
    cluster.online[3] = false;
    cluster.online[4] = false;
    let answer = cluster.request("SET foo hello");
    assert_eq!(
        answer,
        text(
            LB,
            "Request ID: 0\nMessage: Request broadcast is not accepted by majority\nReply: Request failed.."
        )
    );
    assert_eq!(cluster.nodes[0].request_id, 0);
    assert_eq!(cluster.nodes[0].store.get("foo"), "");
    for log in cluster.logs.iter() {
        assert!(log.is_empty());
    }
}

#[test]
fn accept_needs_more_than_a_majority() {
    let mut cluster = Cluster::with_code(4, 3, 2, true);
    cluster.online[3] = false;
    cluster.online[4] = false;
    let answer = cluster.request("SET foo hello");
    assert_eq!(
        answer,
        text(
            LB,
            "Request ID: 0\nMessage: Accept broadcast is not accepted by majority\nReply: OK\n."
        )
    );
    assert_eq!(cluster.nodes[0].request_id, 1);
    cluster.online[3] = true;
    let answer = cluster.request("SET foo hello");
    assert_eq!(
        answer,
        text(
            LB,
            "Request ID: 1\nMessage: Leader broadcasted the message successfully\nReply: OK\n."
        )
    );
    assert_eq!(cluster.nodes[0].request_id, 2);
}

#[test]
fn request_ids_count_successful_prepares() {
    let mut cluster = Cluster::new(2, true);
    let mut reported = Vec::new();
    for round in 0..6 {
        cluster.online[1] = round % 3 != 1;
        cluster.online[2] = round % 3 != 1;
        let before = cluster.nodes[0].request_id;
        match cluster.request("SET k v") {
            Outbound::Text { text, .. } => {
                assert!(text.starts_with(&format!("Request ID: {}\n", before)));
                if !text.contains("Request broadcast is not accepted") {
                    reported.push(before);
                }
            }
            other => panic!("{:?}", other),
        }
    }
    assert_eq!(reported, vec![0, 1, 2, 3]);
}

#[test]
fn non_leader_accept_is_ignored() {
    let mut f = node(8001, PaxosState::Follower, true);
    f.store.set("foo", "cached");
    f.request_id = 4;
    let step = f.handle_message(
        &"127.0.0.1:8002".to_string(),
        &PaxosMessage::LeaderAccepted {
            request_id: 9,
            operation: op(OperationType::SET, "foo", b"hel"),
        },
    );
    assert_eq!(step, Step::Idle);
    assert_eq!(f.request_id, 4);
    assert_eq!(f.store.get("foo"), "cached");
}

#[test]
fn leader_accept_is_taken() {
    let mut f = node(8001, PaxosState::Follower, true);
    f.store.set("foo", "cached");
    let accepted = op(OperationType::SET, "foo", b"hel");
    let step = f.follower_handle_leader_accepted(&LEADER.to_string(), 9, &accepted);
    assert_eq!(
        step,
        Step::Persist { record: record_bytes(&accepted), then: vec![frame(LEADER, ack(9))] }
    );
    assert_eq!(f.request_id, 9);
    assert_eq!(f.store.get("foo"), "");
    f.store.set("foo", "");
    let step = f.follower_handle_leader_accepted(
        &LEADER.to_string(),
        10,
        &op(OperationType::GET, "foo", b""),
    );
    assert_eq!(step, Step::Send(vec![frame(LEADER, ack(10))]));
    assert_eq!(f.request_id, 10);
}

#[test]
fn prepare_is_acknowledged_to_the_leader_only() {
    let f = node(8001, PaxosState::Follower, true);
    assert_eq!(
        f.follower_handle_leader_request(&LEADER.to_string(), 3),
        Step::Send(vec![frame(LEADER, ack(3))])
    );
    assert_eq!(f.follower_handle_leader_request(&"127.0.0.1:8002".to_string(), 3), Step::Idle);
    assert_eq!(f.handle_leader_request(&LEADER.to_string(), 3), Step::Send(vec![frame(LEADER, ack(3))]));
    let l = leader();
    assert_eq!(l.handle_leader_request(&LEADER.to_string(), 3), Step::Idle);
}

#[test]
fn membership_fan_out() {
    let mut l = leader();
    let mut f1 = node(8001, PaxosState::Follower, true);
    let mut f2 = node(8002, PaxosState::Follower, true);
    let joins = f1.start();
    let first = match &joins[0] {
        Outbound::Frame { message, .. } => l.handle_message(&"127.0.0.1:8001".to_string(), message),
        other => panic!("{:?}", other),
    };
    let roster2 = vec![LEADER.to_string(), "127.0.0.1:8001".to_string()];
    assert_eq!(l.cluster_list, roster2);
    let announce = PaxosMessage::FollowerRegisterReply(FollowerRegistrationReply {
        follower_list: roster2.clone(),
        index: 1,
    });
    assert_eq!(first, Step::Announce(vec![frame("127.0.0.1:8001", announce)]));
    let reply = match first {
        Step::Announce(frames) => match &frames[0] {
            Outbound::Frame { message, .. } => f1.handle_message(&LEADER.to_string(), message),
            other => panic!("{:?}", other),
        },
        other => panic!("{:?}", other),
    };
    assert_eq!(reply, Step::Send(vec![frame(LEADER, ack(1))]));
    assert_eq!(f1.cluster_index, 1);
    assert_eq!(f1.cluster_list, roster2);

    let joins = f2.start();
    let second = match &joins[0] {
        Outbound::Frame { message, .. } => l.handle_message(&"127.0.0.1:8002".to_string(), message),
        other => panic!("{:?}", other),
    };
    let roster3 = vec![
        LEADER.to_string(),
        "127.0.0.1:8001".to_string(),
        "127.0.0.1:8002".to_string(),
    ];
    let announce = |index| {
        PaxosMessage::FollowerRegisterReply(FollowerRegistrationReply {
            follower_list: roster3.clone(),
            index,
        })
    };
    assert_eq!(
        second,
        Step::Announce(vec![frame("127.0.0.1:8001", announce(2)), frame("127.0.0.1:8002", announce(2))])
    );
    assert_eq!(f1.handle_message(&LEADER.to_string(), &announce(2)), Step::Send(vec![frame(LEADER, ack(1))]));
    assert_eq!(f1.cluster_index, 1);
    assert_eq!(f1.cluster_list, roster3);
    assert_eq!(f2.handle_message(&LEADER.to_string(), &announce(2)), Step::Send(vec![frame(LEADER, ack(2))]));
    assert_eq!(f2.cluster_index, 2);
    assert_eq!(l.cluster_index, 0);
}

#[test]
fn follower_forwards_writes() {
    let mut f = node(8001, PaxosState::Follower, true);
    for payload in ["SET a b", "DEL a"] {
        let step = f.follower_handle_client_request(
            &CLIENT.to_string(),
            5,
            &payload.as_bytes().to_vec(),
        );
        assert_eq!(
            step,
            Step::Send(vec![frame(
                LEADER,
                PaxosMessage::ClientRequest { request_id: 5, payload: payload.as_bytes().to_vec() },
            )])
        );
    }
    assert_eq!(f.store.get("a"), "");
}

#[test]
fn follower_answers_reads() {
    let mut f = node(8001, PaxosState::Follower, true);
    f.store.set("a", "1");
    f.request_id = 3;
    let from = CLIENT.to_string();
    assert_eq!(
        f.handle_message(&from, &client("PING")),
        Step::Send(vec![text(
            CLIENT,
            "Request ID: 3\nMessage: Request is handled by follower\nReply: PONG\n."
        )])
    );
    assert_eq!(
        f.handle_message(&from, &client("GET a")),
        Step::Send(vec![text(
            CLIENT,
            "Request ID: 3\nMessage: Request is handled by follower\nReply: 1\n."
        )])
    );
    assert_eq!(
        f.handle_message(&from, &client("NOPE")),
        Step::Send(vec![text(
            CLIENT,
            "Request ID: 3\nMessage: Request is handled by follower\nReply: Bad command received\n."
        )])
    );
    assert_eq!(
        f.handle_message(&from, &client("GET b")),
        Step::Recover { key: "b".to_string(), reply_to: CLIENT.to_string() }
    );
    assert_eq!(f.handle_message(&from, &PaxosMessage::ClientRequest { request_id: 1, payload: vec![0xff] }), Step::Idle);
}

#[test]
fn leader_answers_reads_to_the_load_balancer() {
    let mut l = leader();
    let from = CLIENT.to_string();
    assert_eq!(
        l.handle_message(&from, &client("PING")),
        Step::Send(vec![text(LB, "Request ID: 0\nMessage: Request is handled by leader\nReply: PONG\n.")])
    );
    assert_eq!(
        l.handle_message(&from, &client("what")),
        Step::Send(vec![text(
            LB,
            "Request ID: 0\nMessage: Request is handled by leader\nReply: Bad command received\n."
        )])
    );
    assert_eq!(
        l.handle_message(&from, &client("GET a")),
        Step::Recover { key: "a".to_string(), reply_to: LB.to_string() }
    );
    assert_eq!(l.handle_message(&from, &client("")), Step::Idle);
}

#[test]
fn leader_write_starts_with_prepare() {
    let mut cluster = Cluster::new(2, true);
    cluster.nodes[0].request_id = 5;
    let step = cluster.nodes[0].handle_message(&LB.to_string(), &client("DEL k"));
    let roster = cluster.nodes[0].cluster_list.clone();
    let request = || PaxosMessage::LeaderRequest { request_id: 5 };
    assert_eq!(
        step,
        Step::Prepare {
            operation: op(OperationType::DELETE, "k", &[0]),
            follower_list: roster.clone(),
            frames: vec![frame("127.0.0.1:8001", request()), frame("127.0.0.1:8002", request())],
        }
    );
    assert_eq!(cluster.nodes[0].leader_broadcast_prepare(&roster).len(), 2);
    assert!(cluster.nodes[0].leader_broadcast_prepare(&Vec::new()).is_empty());
}

#[test]
fn accept_frames_carry_each_members_shard() {
    let cluster = Cluster::new(2, true);
    let l = &cluster.nodes[0];
    let set = op(OperationType::SET, "bar", b"world");
    let shards = encode(&b"world".to_vec(), 2, 1);
    let frames = l.leader_broadcast_accept_ec(&l.cluster_list, &set, &shards);
    let accepted = |i: usize| PaxosMessage::LeaderAccepted {
        request_id: 0,
        operation: op(OperationType::SET, "bar", &shards[i]),
    };
    assert_eq!(
        frames,
        vec![frame("127.0.0.1:8001", accepted(1)), frame("127.0.0.1:8002", accepted(2))]
    );
    let whole = l.leader_broadcast_accept_replication(&l.cluster_list, &set);
    let same = || PaxosMessage::LeaderAccepted { request_id: 0, operation: op(OperationType::SET, "bar", b"world") };
    assert_eq!(whole, vec![frame("127.0.0.1:8001", same()), frame("127.0.0.1:8002", same())]);
}

#[test]
fn replication_mode_sends_whole_values() {
    let mut cluster = Cluster::new(2, false);
    let answer = cluster.request("SET bar world");
    assert_eq!(
        answer,
        text(
            LB,
            "Request ID: 0\nMessage: Leader broadcasted the message successfully\nReply: OK\n."
        )
    );
    assert!(cluster.logs[0].is_empty());
    assert_eq!(lookup(&cluster.logs[1], "bar"), Some(b"world".to_vec()));
    assert_eq!(lookup(&cluster.logs[2], "bar"), Some(b"world".to_vec()));
}

#[test]
fn acks_are_counted_by_variant() {
    let roster = vec![LEADER.to_string(), "a".to_string(), "b".to_string(), "c".to_string()];
    let replies = vec![
        Some(ack(0)),
        None,
        Some(PaxosMessage::LeaderRequest { request_id: 0 }),
        Some(ack(77)),
    ];
    assert_eq!(Node::leader_count_acks(&roster, &replies), 3);
    assert_eq!(count_acks(&replies), 2);
    assert_eq!(count_acks(&Vec::new()), 0);
    assert_eq!(Node::leader_count_acks(&roster, &Vec::new()), 1);
    assert_eq!(Node::leader_count_acks(&Vec::new(), &replies), 0);
}

#[test]
fn write_message_by_counts() {
    let l = leader();
    let reply = "OK\n".to_string();
    let message = |prepared, accepted| match l.leader_handle_accept_acks(3, 5, prepared, accepted, &reply) {
        Outbound::Text { to, text } => {
            assert_eq!(to, LB);
            text
        }
        other => panic!("{:?}", other),
    };
    assert_eq!(message(3, 4), "Request ID: 3\nMessage: Leader broadcasted the message successfully\nReply: OK\n.");
    assert_eq!(message(5, 5), "Request ID: 3\nMessage: Leader broadcasted the message successfully\nReply: OK\n.");
    assert_eq!(message(3, 3), "Request ID: 3\nMessage: Accept broadcast is not accepted by majority\nReply: OK\n.");
    assert_eq!(message(2, 5), "Request ID: 3\nMessage: Request broadcast is not accepted by majority\nReply: OK\n.");
}

#[test]
fn recovery_slots_and_requests() {
    let cluster = Cluster::new(2, true);
    let f1 = &cluster.nodes[1];
    let (slots, frames) = f1.broadcast_get_value(&f1.cluster_list, &Some(vec![1, 2]), "k");
    assert_eq!(slots, vec![None, Some(vec![1, 2]), None]);
    let request = || PaxosMessage::RecoveryRequest { key: "k".to_string() };
    assert_eq!(frames, vec![frame(LEADER, request()), frame("127.0.0.1:8002", request())]);
}

#[test]
fn recovery_replies_fill_their_slots() {
    let l = leader();
    let mut slots = vec![Some(vec![1u8]), None, None];
    assert!(!l.recovery_complete(&slots));
    Node::collect_recovery_reply(&mut slots, 3, &ack(1));
    assert_eq!(slots, vec![Some(vec![1u8]), None, None]);
    Node::collect_recovery_reply(&mut slots, 3, &PaxosMessage::RecoveryReply { index: 3, payload: vec![9] });
    Node::collect_recovery_reply(&mut slots, 2, &PaxosMessage::RecoveryReply { index: 2, payload: vec![9] });
    assert_eq!(slots, vec![Some(vec![1u8]), None, None]);
    Node::collect_recovery_reply(&mut slots, 3, &PaxosMessage::RecoveryReply { index: 2, payload: vec![7] });
    assert_eq!(slots, vec![Some(vec![1u8]), None, Some(vec![7u8])]);
    assert!(l.recovery_complete(&slots));
}

#[test]
fn shard_requests_are_served_from_the_log() {
    let mut cluster = Cluster::new(2, true);
    cluster.request("SET bar world");
    let from = "127.0.0.1:8002".to_string();
    assert_eq!(
        cluster.nodes[1].handle_message(&from, &PaxosMessage::RecoveryRequest { key: "bar".to_string() }),
        Step::ServeShard { to: from.clone(), key: "bar".to_string() }
    );
    assert_eq!(
        cluster.nodes[1].handle_recovery_request(&from, &cluster.logs[1], "bar"),
        Step::Send(vec![frame(&from, PaxosMessage::RecoveryReply { index: 1, payload: b"ld\0".to_vec() })])
    );
    assert_eq!(cluster.nodes[1].handle_recovery_request(&from, &cluster.logs[1], "baz"), Step::Idle);
}

#[test]
fn stray_frames_are_ignored() {
    let mut l = leader();
    let mut f = node(8001, PaxosState::Follower, true);
    let from = "127.0.0.1:8002".to_string();
    assert_eq!(l.handle_message(&from, &ack(0)), Step::Idle);
    assert_eq!(f.handle_message(&from, &ack(0)), Step::Idle);
    assert_eq!(l.handle_message(&from, &PaxosMessage::RecoveryReply { index: 0, payload: vec![1] }), Step::Idle);
    let join = PaxosMessage::FollowerRegisterRequest(FollowerRegistrationRequest { follower_addr: from.clone() });
    assert_eq!(f.handle_message(&from, &join), Step::Idle);
    assert!(f.cluster_list.is_empty());
    let roster = PaxosMessage::FollowerRegisterReply(FollowerRegistrationReply { follower_list: vec![from.clone()], index: 5 });
    assert_eq!(l.handle_message(&from, &roster), Step::Idle);
    assert_eq!(l.cluster_index, 0);
    assert_eq!(l.cluster_list, vec![LEADER.to_string()]);
    assert_eq!(
        l.handle_message(&from, &PaxosMessage::LeaderAccepted { request_id: 3, operation: op(OperationType::SET, "k", b"v") }),
        Step::Idle
    );
    assert_eq!(l.request_id, 0);
}

#[test]
fn node_info_lines() {
    let l = leader();
    assert_eq!(
        l.print_info(),
        "Node info:\nAddress: 127.0.0.1:8000\nLeader: 127.0.0.1:8000\nLoad Balancer: 127.0.0.1:9000\nState: Leader\nErasure Coding: true\n"
    );
    let f = node(8001, PaxosState::Follower, false);
    assert_eq!(
        f.print_info(),
        "Node info:\nAddress: 127.0.0.1:8001\nLeader: 127.0.0.1:8000\nLoad Balancer: 127.0.0.1:9000\nState: Follower\nErasure Coding: false\n"
    );
}

#[test]
fn roles_ignore_what_is_not_theirs() {
    let l = leader();
    let f = node(8001, PaxosState::Follower, true);
    let from = LEADER.to_string();
    let set = op(OperationType::SET, "k", b"v");
    let join = FollowerRegistrationRequest { follower_addr: from.clone() };
    let roster = FollowerRegistrationReply { follower_list: vec![from.clone()], index: 1 };
    assert_eq!(l.leader_handle_leader_request(&from, 1), Step::Idle);
    assert_eq!(l.leader_handle_leader_accepted(&from, 1, &set), Step::Idle);
    assert_eq!(l.leader_handle_follower_ack(&from, 1), Step::Idle);
    assert_eq!(l.leader_handle_follower_register_reply(&from, &roster), Step::Idle);
    assert_eq!(f.follower_handle_follower_ack(&from, 1), Step::Idle);
    assert_eq!(f.follower_handle_follower_register_request(&from, &join), Step::Idle);
    assert_eq!(l.handle_follower_ack(&from, 1), Step::Idle);
    assert_eq!(f.handle_follower_ack(&from, 1), Step::Idle);
}

#[test]
fn rejoining_follower_keeps_its_index() {
    let mut f = node(8001, PaxosState::Follower, true);
    let from = LEADER.to_string();
    let roster = |index| FollowerRegistrationReply {
        follower_list: vec![LEADER.to_string(), "127.0.0.1:8001".to_string()],
        index,
    };
    assert_eq!(
        f.follower_handle_follower_register_reply(&from, &roster(1)),
        Step::Send(vec![frame(LEADER, ack(1))])
    );
    for later in [2usize, 7, 0, usize::MAX] {
        assert_eq!(
            f.follower_handle_follower_register_reply(&from, &roster(later)),
            Step::Send(vec![frame(LEADER, ack(1))])
        );
        assert_eq!(f.cluster_index, 1);
    }
}

#[test]
fn recover_value_reads_the_data_shards() {
    let mut l = leader();
    let shards = encode(&b"hello world".to_vec(), 2, 1);
    let slots = vec![None, Some(shards[1].clone()), Some(shards[2].clone())];
    assert_eq!(l.recover_value("k", slots), Ok("hello world\0".to_string()));
    assert_eq!(l.store.get("k"), "hello world\0");
    let few = vec![None, None, Some(shards[2].clone())];
    assert_eq!(l.recover_value("j", few), Err(RecoveryError::Erasure(EcError::InsufficientShards)));
    assert_eq!(l.recover_value("j", vec![None]), Err(RecoveryError::Erasure(EcError::TooFewShards)));
    assert_eq!(l.store.get("j"), "");
}
