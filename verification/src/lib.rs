//! Witness construction for the initial-state component of a zkEVM circuit.
//!
//! A trace of account and storage accesses is turned into an ordered list of
//! subquery results. That list is assigned twice: once into an arena of
//! algebraic cells, where every entry is tied to a promise call answered by a
//! companion component, and once into the rows of a native lookup table. A
//! final pass re-imports the table cells into the arena and ties them, entry
//! by entry, to the algebraic cells.

pub mod field;
pub mod word;
pub mod common;
pub mod encoded;
pub mod init_state;
pub mod trace;
pub mod context;
pub mod layout;
pub mod promise;
pub mod consistency;
pub mod builder;
pub mod circuit;
