//! A relay between a message-framed client transport and a backend that
//! speaks length-prefixed binary frames over a plain stream.
//!
//! The library holds the decisions of the relay: the two-byte length header,
//! the incremental frame reader, the per-connection bridge step, and the
//! start/stop control. The I/O that drives them lives outside.

pub mod bridge;
pub mod control;
pub mod frame;
pub mod length;

pub use bridge::{Bridge, BridgeAction, BridgeEvent};
pub use control::{keeps_accepting, AcceptEvent, ProxyState};
pub use frame::{FrameReader, ReadOutcome};
pub use length::{decode_length, encode_length, MAX_FRAME_LEN};
