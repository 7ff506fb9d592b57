//! An in-memory store of todo records: create, list, update and delete,
//! each operation specified and verified.

mod gen;
pub mod store;
pub mod todo;
