//! The outbound messages: each composes its payload, wraps it as a packet and
//! says exactly which bytes leave the machine.

pub mod login_failure;
pub mod pong;
pub mod status;
