//! The data-handling core of a vault node in a content-addressed storage
//! network. An elder node coordinates immutable-data operations across a
//! quorum of holders and keeps the authoritative copies of mutable maps and
//! append-only sequences; an adult node stores immutable chunk replicas.
//! The routing overlay, identity cryptography and disk plumbing live outside
//! this crate; everything here is plain state and decisions.

pub mod chunk_store;
pub mod data_handler;
pub mod digest;
pub mod idata;
pub mod idata_handler;
pub mod idata_holder;
pub mod idata_op;
pub mod mdata;
pub mod mdata_handler;
pub mod rpc;
pub mod sequence;
pub mod sequence_storage;
pub mod types;
