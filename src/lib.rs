//! A reachability probe for a voice-chat service: a small binary ping
//! protocol over UDP, address selection, and a bounded retry controller.
pub mod bytes;
pub mod codec;
pub mod resolve;
pub mod probe;
pub mod clock;
pub mod target;
