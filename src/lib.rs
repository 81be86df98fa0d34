//! Wake-on-LAN magic packets and the byte layouts of a link-layer reachability probe.
pub mod checksum;
pub mod codec;
pub mod interface;
pub mod listener;
pub mod magic;

pub use magic::{MagicError, MagicPacket};
