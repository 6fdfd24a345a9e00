//! Bridge between a BFT consensus engine and an execution node.
//!
//! * [`wire`]: the protobuf wire primitives and their mathematical model.
//! * [`codec`]: encode/decode of the consensus messages.
//! * [`bridge`]: the payload bridge service as a state machine over
//!   bounded, drop-oldest subscriber channels.
//! * [`node`]: the node's component recipe and the built payload.

pub mod bridge;
pub mod channel;
pub mod codec;
pub mod node;
pub mod wire;
