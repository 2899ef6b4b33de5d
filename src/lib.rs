//! Quiz documents: their record layout in a document store, identifier
//! handling, and the decisions of each store operation, with the calls to
//! the store itself left to the caller.

pub mod document;
pub mod error;
pub mod gateway;
pub mod search;
pub mod id;
pub mod structs;
