//! The decisions of a network agent: which swarm it starts, how it reads addresses and keys, what
//! the events of the swarm mean for its routing table, and what it answers to its group.
pub mod address;
pub mod behavior;
pub mod identity;
pub mod legacy;
pub mod network;
pub mod node;
pub mod psk;
pub mod startup;
