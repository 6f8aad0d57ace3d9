//! Read/write records of an execution trace, reduced to what the initial
//! state is built from.

use crate::word::Word256;
use vstd::prelude::*;

verus! {

/// One read/write record. A record of an account access carries an address
/// and a field tag; one of a storage access an address and a storage key.
#[derive(Clone, Copy, Debug, PartialEq, Eq, Structural)]
pub struct Rw {
    /// The accessed account, as the trace table holds it: in a full word.
    pub address: Option<Word256>,
    /// The raw tag of the accessed account field.
    pub field_tag: Option<u64>,
    /// The accessed storage slot.
    pub storage_key: Option<Word256>,
    /// The value after the access.
    pub value: Word256,
}

/// The part of a witness block that the initial state is extracted from.
#[derive(Clone, Debug)]
pub struct Block {
    /// The block number of each transaction, in order.
    pub tx_block_numbers: Vec<u64>,
    /// The records of account accesses, in trace order.
    pub account_rws: Vec<Rw>,
    /// The records of storage accesses, in trace order.
    pub storage_rws: Vec<Rw>,
}

/// Why a trace record cannot be turned into a subquery result.
#[derive(Clone, Copy, Debug, PartialEq, Eq, Structural)]
pub enum ExtractError {
    /// The record names no account.
    MissingAddress,
    /// The address does not fit in 160 bits.
    AddressTooWide,
    /// An account record carries no field tag.
    MissingFieldTag,
    /// A storage record carries no storage key.
    MissingStorageKey,
}

/// The block number that every extracted entry gets: that of the first
/// transaction, or zero where there is none.
pub open spec fn spec_block_number(tx_block_numbers: Seq<u64>) -> u64 {
    if tx_block_numbers.len() == 0 {
        0
    } else {
        tx_block_numbers[0]
    }
}

impl Block {
    /// The block number that every extracted entry gets.
    pub fn block_number(&self) -> (r: u64)
        ensures
            r == spec_block_number(self.tx_block_numbers@),
    {
        if self.tx_block_numbers.len() == 0 {
            0
        } else {
            self.tx_block_numbers[0]
        }
    }
}

} // verus!
