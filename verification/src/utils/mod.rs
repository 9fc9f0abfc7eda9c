//! Building blocks shared by the relays.

pub mod expiry_map;
pub mod raw_socket;
pub mod socks;
