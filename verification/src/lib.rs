//! Core logic of a transparent TCP/UDP redirector: endpoints, the synthesized
//! UDP-in-IPv4 packet, the UDP NAT table, the per-peer dispatcher and the
//! HTTP CONNECT handshake, each with a machine-checked contract.

pub mod connect;
pub mod endpoint;
pub mod net;
pub mod redir;
pub mod startup;
pub mod utils;
pub mod udp_relay;
