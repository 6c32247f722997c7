//! Packet handler and session core of an overlay-VPN rendezvous server:
//! frame envelope, per-group virtual IP allocation with epochs, session
//! tables, request routing, and the gateway's ICMP echo, with their
//! contracts proved by Verus.
pub mod allocator;
pub mod checksum;
pub mod directory;
pub mod dispatch;
pub mod entity;
pub mod envelope;
pub mod handle;
pub mod handlers;
pub mod icmp;
pub mod laws;
pub mod server;
pub mod sessions;
