//! Decision logic of a distributed-validator operator node: where the node
//! listens, which peers it knows, and what it does when a validator is
//! started or stopped on its committee.

pub mod net;
pub mod peers;
pub mod contract;
pub mod keys;
pub mod names;
pub mod bytes;
pub mod plan;
pub mod node;
pub mod laws;
