//! Verified core of a SQL-over-Flight protocol gateway.
//!
//! The crate models the protocol state machine of the gateway: a
//! token-keyed session store, a handle-keyed prepared-statement registry,
//! an opaque type-tagged ticket codec, and the dispatcher logic for each
//! wire verb.  The surrounding gRPC transport, the SQL planner and the
//! execution engine are external collaborators: the dispatcher takes their
//! results as plain values and is verified for every value they may hand
//! back.

pub mod federated;
pub mod gateway;
pub mod handle;
pub mod laws;
pub mod schema;
pub mod table;
pub mod ticket;
