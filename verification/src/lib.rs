//! A verified DHT state slice.
//!
//! This crate models the piece of an agent-centric distributed runtime that
//! tracks a node's local view of a shared, content-addressed data graph: a
//! handle to content-addressable storage, an entity-attribute-value index
//! used to encode typed, tagged edges ("links") between addresses, and an
//! action-outcome cache that makes link mutations idempotent under a
//! reducer-driven dispatch loop.

pub mod actions;
pub mod eav;
pub mod error;
pub mod laws;
pub mod link;
pub mod store;

pub use crate::actions::ActionWrapper;
pub use crate::actions::OutcomeCache;
pub use crate::eav::EavStorage;
pub use crate::eav::EntityAttributeValue;
pub use crate::error::DhtError;
pub use crate::link::Address;
pub use crate::link::Link;
pub use crate::store::ContentStorage;
pub use crate::store::DhtStore;
