//! An in-memory service for social connections: a user issues a connection
//! request, another user accepts it, and either of them can list the
//! connections they take part in.
//!
//! The lifecycle of a request is `Pending -> Accepted`; a request is accepted
//! at most once, and each accepted request stands behind exactly one
//! connection. Every operation carries a contract over a mathematical model
//! of the stored records (see [`state::StoreState`]).

pub mod connection;
pub mod error;
pub mod ident;
pub mod laws;
pub mod memory;
pub mod models;
pub mod state;
pub mod store;
pub mod users;
