//! Authoritative-server replication core for a small multiplayer simulation:
//! a binary wire protocol for entity/component messages, a slot-based
//! inventory allocator, a per-connection replication lifecycle, the server's
//! tick systems, and the client-side mirror (identity translation and
//! position reconciliation). All positions and extents are fixed-point
//! integers in milliunits (1000 per world unit).

pub mod art;
pub mod client;
pub mod codec;
pub mod controls;
pub mod dead;
pub mod geom;
pub mod item;
pub mod lifecycle;
pub mod msg;
pub mod server;
pub mod translator;
