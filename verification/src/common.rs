//! Containers that hold one thing per part of an encoded 256-bit value.

use crate::context::Context;
use crate::field::Fe;
use crate::init_state::account::{
    AccountSubqueryResult, AxiomAccountPayload, Halo2AccountPayload,
};
use crate::init_state::storage::{
    AxiomStoragePayload, Halo2StoragePayload, StorageSubqueryResult,
};
use crate::init_state::table::{
    account_row, storage_row, InitStateTable, Layouter, RowValues,
};
use crate::trace::{ExtractError, Rw};
use vstd::prelude::*;

verus! {

/// An entry of the initial state: it comes from a trace record and is
/// assigned once to cells of the arena (`A`) and once to cells of the native
/// table (`H`).
pub trait Payload<A, H>: Sized {
    /// What a record contributes: an entry, nothing, or a failure.
    spec fn entry_of(rw: Rw, block_number: u64) -> Result<Option<Self>, ExtractError>;

    /// The number of arena cells that an entry takes.
    spec fn arena_cells() -> nat;

    /// The row of the native table that an entry fills.
    spec fn row(self, challenge: nat) -> RowValues;

    fn from_rw(rw: &Rw, block_number: u64) -> (r: Result<Option<Self>, ExtractError>)
        ensures
            r == Self::entry_of(*rw, block_number),
    ;

    /// Assigns the entry to new cells of the arena; no constraint is added.
    fn assign_axiom(&self, ctx: &mut Context) -> (r: A)
        requires
            old(ctx)@.wf(),
        ensures
            final(ctx)@.wf(),
            final(ctx)@.extends(old(ctx)@),
            final(ctx)@.cells.len() == old(ctx)@.cells.len() + Self::arena_cells(),
            final(ctx)@.equalities == old(ctx)@.equalities,
            final(ctx)@.copies == old(ctx)@.copies,
            final(ctx)@.satisfied() == old(ctx)@.satisfied(),
    ;

    /// Assigns the entry to the next row of the native table.
    fn assign_halo2(&self, config: &InitStateTable, layouter: &mut Layouter, randomness: Fe) -> (r: H)
        ensures
            final(layouter).rows@ == old(layouter).rows@.push(final(layouter).rows@.last()),
            final(layouter).rows@.len() == old(layouter).rows@.len() + 1,
            final(layouter).rows@.last()@ == self.row(randomness@),
    ;
}

impl Payload<AxiomAccountPayload, Halo2AccountPayload> for AccountSubqueryResult {
    open spec fn entry_of(rw: Rw, block_number: u64) -> Result<Option<Self>, ExtractError> {
        AccountSubqueryResult::spec_from_rw(rw, block_number)
    }

    open spec fn arena_cells() -> nat {
        6
    }

    open spec fn row(self, challenge: nat) -> RowValues {
        account_row(self, challenge)
    }

    fn from_rw(rw: &Rw, block_number: u64) -> (r: Result<Option<Self>, ExtractError>) {
        AccountSubqueryResult::from_rw(rw, block_number)
    }

    fn assign_axiom(&self, ctx: &mut Context) -> (r: AxiomAccountPayload) {
        AccountSubqueryResult::assign_axiom(self, ctx)
    }

    fn assign_halo2(&self, config: &InitStateTable, layouter: &mut Layouter, randomness: Fe) -> (r:
        Halo2AccountPayload) {
        AccountSubqueryResult::assign_halo2(self, config, layouter, randomness)
    }
}

impl Payload<AxiomStoragePayload, Halo2StoragePayload> for StorageSubqueryResult {
    open spec fn entry_of(rw: Rw, block_number: u64) -> Result<Option<Self>, ExtractError> {
        StorageSubqueryResult::spec_from_rw(rw, block_number)
    }

    open spec fn arena_cells() -> nat {
        8
    }

    open spec fn row(self, challenge: nat) -> RowValues {
        storage_row(self, challenge)
    }

    fn from_rw(rw: &Rw, block_number: u64) -> (r: Result<Option<Self>, ExtractError>) {
        StorageSubqueryResult::from_rw(rw, block_number)
    }

    fn assign_axiom(&self, ctx: &mut Context) -> (r: AxiomStoragePayload) {
        StorageSubqueryResult::assign_axiom(self, ctx)
    }

    fn assign_halo2(&self, config: &InitStateTable, layouter: &mut Layouter, randomness: Fe) -> (r:
        Halo2StoragePayload) {
        StorageSubqueryResult::assign_halo2(self, config, layouter, randomness)
    }
}

/// The high and low 128-bit halves of a value, or what stands for them
/// (columns, cells).
#[derive(Clone, Copy, Debug, PartialEq, Eq, Structural)]
pub struct HiLo<T> {
    pub hi: T,
    pub lo: T,
}

impl<T> HiLo<T> {
    pub fn from_hi_lo(hi: T, lo: T) -> (r: Self)
        ensures
            r.hi == hi,
            r.lo == lo,
    {
        HiLo { hi, lo }
    }

    pub fn hi(&self) -> (r: T) where T: Copy
        ensures
            r == self.hi,
    {
        self.hi
    }

    pub fn lo(&self) -> (r: T) where T: Copy
        ensures
            r == self.lo,
    {
        self.lo
    }
}

/// The two halves of a value together with its random linear combination.
#[derive(Clone, Copy, Debug, PartialEq, Eq, Structural)]
pub struct HiLoRlc<T> {
    pub hilo: HiLo<T>,
    pub rlc: T,
}

impl<T> HiLoRlc<T> {
    pub fn from(hi: T, lo: T, rlc: T) -> (r: Self)
        ensures
            r.hilo.hi == hi,
            r.hilo.lo == lo,
            r.rlc == rlc,
    {
        HiLoRlc { hilo: HiLo { hi, lo }, rlc }
    }

    pub fn hi(&self) -> (r: T) where T: Copy
        ensures
            r == self.hilo.hi,
    {
        self.hilo.hi
    }

    pub fn lo(&self) -> (r: T) where T: Copy
        ensures
            r == self.hilo.lo,
    {
        self.hilo.lo
    }

    pub fn rlc(&self) -> (r: T) where T: Copy
        ensures
            r == self.rlc,
    {
        self.rlc
    }
}

} // verus!
