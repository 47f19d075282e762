//! Content addressing and the remote-execution protocol driver of a build
//! load generator: digests, the wire form of trees, commands and actions,
//! the upload/execute/stream state machine and a bounded pool of executions.
pub mod digest;
pub mod wire;
pub mod tree;
pub mod action;
pub mod protocol;
pub mod harness;
