//! Gateway library for persistent flap-display devices: the binary wire
//! codec, the text-to-display-code encoder, the device session registry,
//! the per-connection supervisor state machine, and the dispatch bridge
//! that pushes a text command to a registered device.
pub mod codec;
pub mod dispatch;
pub mod flaps;
pub mod query;
pub mod registry;
pub mod supervisor;
pub mod text;
