//! A verified core for a "server list ping" responder: the binary wire codec
//! (variable-length integers, fixed-width integers, length-prefixed strings),
//! the length-prefixed packet framer, the typed request and response messages,
//! and the per-connection protocol state machine.
//!
//! All byte-level behaviour is specified against mathematical byte sequences;
//! socket handling, the configuration store and process bootstrap live outside
//! this crate and talk to it through plain values.

pub mod data_types;
pub mod error;
pub mod external;
pub mod packet;
pub mod json;
pub mod machine;
pub mod profile;
pub mod request;
pub mod response;
