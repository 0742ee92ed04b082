//! Verified core of a federated content platform node.
//!
//! The crate covers the protocol mechanics that must hold for any activity
//! kind exchanged between independently operated servers: resolving an opaque
//! identifier to a typed entity, authenticating and applying inbound
//! activities exactly once despite redelivery, and scheduling outbound
//! deliveries with shared-inbox deduplication and bounded exponential
//! backoff. Network transports, cryptography, and the relational store are
//! collaborators: the functions here take their outcomes as plain values and
//! are verified for every outcome they can produce.

pub mod errors;
pub mod ids;
pub mod entity;
pub mod store;
pub mod resolver;
pub mod auth;
pub mod inbound;
pub mod delivery;
