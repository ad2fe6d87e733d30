//! Core logic of a decentralized compute fabric: an intent queue, a
//! replicated last-writer-wins state store, a build/placement engine,
//! an authoritative DNS view and an SNI reverse-proxy route table.
pub mod cli;
pub mod codec;
pub mod crdt;
pub mod dns;
pub mod events;
pub mod ids;
pub mod metrics;
pub mod netstate;
pub mod pack;
pub mod peers;
pub mod proxy;
pub mod queue;
pub mod sni;
pub mod strutil;
pub mod vmconfig;

