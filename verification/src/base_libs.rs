pub mod address;
pub mod operation;
pub mod paxos;
pub mod paxos_follower;
pub mod paxos_leader;
pub mod request;
