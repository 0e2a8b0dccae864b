//! The inbound messages: each decodes its own field list from a packet frame
//! and never looks beyond it.

pub mod handshake;
pub mod login;
pub mod ping;
pub mod slp_history;
