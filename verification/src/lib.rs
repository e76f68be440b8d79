//! A gateway core that bridges plain UDP payload traffic and GTP-U
//! encapsulated traffic: the header codec, the tunnel registry and the
//! decisions of the forwarding loops.

pub mod address;
pub mod forwarder;
pub mod gtp_v1;
pub mod registry;
