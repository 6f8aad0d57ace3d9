//! The initial state of a transaction: the account fields and storage slots
//! that its trace touches, each with the value to be authenticated.

pub mod account;
pub mod storage;
pub mod input;
pub mod table;

pub use input::InitState;
pub use table::InitStateTable;
