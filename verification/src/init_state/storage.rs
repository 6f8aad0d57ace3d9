//! Storage subqueries: one slot of one account at one block.

use crate::common::{HiLo, HiLoRlc};
use crate::context::{AssignedValue, Context, ContextView};
use crate::encoded::{rlc_encode, rlc_value, split};
use crate::field::Fe;
use crate::init_state::account::{
    block_number_u32, record_address, spec_block_number_u32, spec_record_address, FieldTag,
};
use crate::init_state::table::{storage_row, InitStateTable, Layouter, TableRow};
use crate::layout::{Column, NativeCell};
use crate::trace::{ExtractError, Rw};
use crate::word::{Address, Word256};
use vstd::prelude::*;

verus! {

/// The question: which slot of which account at which block.
#[derive(Clone, Copy, Debug, PartialEq, Eq, Structural)]
pub struct StorageSubquery {
    pub block_number: u32,
    pub addr: Address,
    pub slot: Word256,
}

/// The question together with its answer.
#[derive(Clone, Copy, Debug, PartialEq, Eq, Structural)]
pub struct StorageSubqueryResult {
    pub subquery: StorageSubquery,
    pub value: Word256,
}

impl StorageSubqueryResult {
    /// What a storage record contributes to the initial state: always one
    /// entry. A record without a usable address or without a storage key is
    /// malformed.
    pub open spec fn spec_from_rw(rw: Rw, block_number: u64) -> Result<
        Option<StorageSubqueryResult>,
        ExtractError,
    > {
        match spec_record_address(rw) {
            Err(e) => Err(e),
            Ok(addr) => match rw.storage_key {
                None => Err(ExtractError::MissingStorageKey),
                Some(slot) => Ok(
                    Some(
                        StorageSubqueryResult {
                            subquery: StorageSubquery {
                                block_number: spec_block_number_u32(block_number),
                                addr,
                                slot,
                            },
                            value: rw.value,
                        },
                    ),
                ),
            },
        }
    }

    /// What a storage record contributes to the initial state.
    pub fn from_rw(rw: &Rw, block_number: u64) -> (r: Result<Option<Self>, ExtractError>)
        ensures
            r == Self::spec_from_rw(*rw, block_number),
    {
        match record_address(rw) {
            Err(e) => Err(e),
            Ok(addr) => match rw.storage_key {
                None => Err(ExtractError::MissingStorageKey),
                Some(slot) => Ok(
                    Some(
                        StorageSubqueryResult {
                            subquery: StorageSubquery {
                                block_number: block_number_u32(block_number),
                                addr,
                                slot,
                            },
                            value: rw.value,
                        },
                    ),
                ),
            },
        }
    }
}

/// One thing per part of a storage entry: block number, address, encoded
/// slot and encoded value.
#[derive(Clone, Copy, Debug, PartialEq, Eq, Structural)]
pub struct StoragePayload<AssignedType> {
    pub block_number: AssignedType,
    pub address: AssignedType,
    pub slot: HiLoRlc<AssignedType>,
    pub value: HiLoRlc<AssignedType>,
}

/// A storage entry as cells of the arena.
pub type AxiomStoragePayload = StoragePayload<AssignedValue>;

/// A storage entry as cells of the native table.
pub type Halo2StoragePayload = StoragePayload<NativeCell>;

/// The values of the field elements of a payload.
pub open spec fn storage_payload_values(p: StoragePayload<Fe>) -> StoragePayload<nat> {
    StoragePayload {
        block_number: p.block_number@,
        address: p.address@,
        slot: HiLoRlc { hilo: HiLo { hi: p.slot.hilo.hi@, lo: p.slot.hilo.lo@ }, rlc: p.slot.rlc@ },
        value: HiLoRlc { hilo: HiLo { hi: p.value.hilo.hi@, lo: p.value.hilo.lo@ }, rlc: p.value.rlc@ },
    }
}

/// The field elements that the cells of a payload hold in a context.
pub open spec fn axiom_storage_payload_in(ctx: ContextView, p: AxiomStoragePayload) -> StoragePayload<
    Fe,
> {
    StoragePayload {
        block_number: ctx.value(p.block_number),
        address: ctx.value(p.address),
        slot: HiLoRlc {
            hilo: HiLo { hi: ctx.value(p.slot.hilo.hi), lo: ctx.value(p.slot.hilo.lo) },
            rlc: ctx.value(p.slot.rlc),
        },
        value: HiLoRlc {
            hilo: HiLo { hi: ctx.value(p.value.hilo.hi), lo: ctx.value(p.value.hilo.lo) },
            rlc: ctx.value(p.value.rlc),
        },
    }
}

/// The handles of a storage entry whose eight cells start at cell `base`:
/// block number, address, then for the slot and for the value the low half,
/// the high half and the random linear combination.
pub open spec fn storage_handles(base: int) -> AxiomStoragePayload {
    StoragePayload {
        block_number: AssignedValue { index: base as usize },
        address: AssignedValue { index: (base + 1) as usize },
        slot: HiLoRlc {
            hilo: HiLo {
                hi: AssignedValue { index: (base + 3) as usize },
                lo: AssignedValue { index: (base + 2) as usize },
            },
            rlc: AssignedValue { index: (base + 4) as usize },
        },
        value: HiLoRlc {
            hilo: HiLo {
                hi: AssignedValue { index: (base + 6) as usize },
                lo: AssignedValue { index: (base + 5) as usize },
            },
            rlc: AssignedValue { index: (base + 7) as usize },
        },
    }
}

/// Every cell of the payload exists in the context.
pub open spec fn axiom_storage_payload_valid(ctx: ContextView, p: AxiomStoragePayload) -> bool {
    &&& ctx.has(p.block_number)
    &&& ctx.has(p.address)
    &&& ctx.has(p.slot.hilo.hi)
    &&& ctx.has(p.slot.hilo.lo)
    &&& ctx.has(p.slot.rlc)
    &&& ctx.has(p.value.hilo.hi)
    &&& ctx.has(p.value.hilo.lo)
    &&& ctx.has(p.value.rlc)
}

/// The field elements that the native cells of a payload hold.
pub open spec fn halo2_storage_payload_held(p: Halo2StoragePayload) -> StoragePayload<Fe> {
    StoragePayload {
        block_number: p.block_number.value,
        address: p.address.value,
        slot: HiLoRlc {
            hilo: HiLo { hi: p.slot.hilo.hi.value, lo: p.slot.hilo.lo.value },
            rlc: p.slot.rlc.value,
        },
        value: HiLoRlc {
            hilo: HiLo { hi: p.value.hilo.hi.value, lo: p.value.hilo.lo.value },
            rlc: p.value.rlc.value,
        },
    }
}

/// The three cells of an encoded value in row `row`.
pub open spec fn encoded_cells(columns: HiLoRlc<Column>, row: int, held: HiLoRlc<Fe>)
    -> HiLoRlc<NativeCell> {
    HiLoRlc {
        hilo: HiLo {
            hi: NativeCell { column: columns.hilo.hi, row: row as usize, value: held.hilo.hi },
            lo: NativeCell { column: columns.hilo.lo, row: row as usize, value: held.hilo.lo },
        },
        rlc: NativeCell { column: columns.rlc, row: row as usize, value: held.rlc },
    }
}

/// The cells of row `row` of the table that a storage entry fills, each in
/// its column and with the value that the row holds there.
pub open spec fn storage_cells(config: InitStateTable, row: int, held: TableRow)
    -> Halo2StoragePayload {
    StoragePayload {
        block_number: NativeCell {
            column: config.block_number,
            row: row as usize,
            value: held.block_number,
        },
        address: NativeCell { column: config.address, row: row as usize, value: held.address },
        slot: encoded_cells(config.storage_key, row, held.storage_key),
        value: encoded_cells(config.value, row, held.value),
    }
}

fn encoded_native_cells(columns: &HiLoRlc<Column>, row: usize, held: &HiLoRlc<Fe>) -> (r:
    HiLoRlc<NativeCell>)
    ensures
        r == encoded_cells(*columns, row as int, *held),
{
    HiLoRlc {
        hilo: HiLo {
            hi: NativeCell { column: columns.hilo.hi, row, value: held.hilo.hi },
            lo: NativeCell { column: columns.hilo.lo, row, value: held.hilo.lo },
        },
        rlc: NativeCell { column: columns.rlc, row, value: held.rlc },
    }
}

impl StorageSubqueryResult {
    /// The values that stand for the entry in the circuit, the random
    /// linear combinations taken under `challenge`.
    pub open spec fn spec_values(self, challenge: nat) -> StoragePayload<nat> {
        StoragePayload {
            block_number: self.subquery.block_number as nat,
            address: self.subquery.addr@,
            slot: HiLoRlc {
                hilo: HiLo { hi: self.subquery.slot.hi as nat, lo: self.subquery.slot.lo as nat },
                rlc: rlc_value(self.subquery.slot.spec_be_bytes(), challenge),
            },
            value: HiLoRlc {
                hilo: HiLo { hi: self.value.hi as nat, lo: self.value.lo as nat },
                rlc: rlc_value(self.value.spec_be_bytes(), challenge),
            },
        }
    }

    /// The field elements that stand for the entry.
    pub fn values(&self, challenge: Fe) -> (r: StoragePayload<Fe>)
        ensures
            storage_payload_values(r) == self.spec_values(challenge@),
    {
        let slot_halves = split(&self.subquery.slot);
        let slot_bytes = self.subquery.slot.to_be_bytes();
        let value_halves = split(&self.value);
        let value_bytes = self.value.to_be_bytes();
        StoragePayload {
            block_number: Fe::from_u64(self.subquery.block_number as u64),
            address: self.subquery.addr.to_scalar(),
            slot: HiLoRlc {
                hilo: HiLo { hi: slot_halves.hi, lo: slot_halves.lo },
                rlc: rlc_encode(slot_bytes.as_slice(), challenge),
            },
            value: HiLoRlc {
                hilo: HiLo { hi: value_halves.hi, lo: value_halves.lo },
                rlc: rlc_encode(value_bytes.as_slice(), challenge),
            },
        }
    }

    /// Assigns the entry to eight new cells of the arena: block number,
    /// address, then for the slot and for the value the low half, the high
    /// half and the random linear combination under the challenge of the
    /// context.
    pub fn assign_axiom(&self, ctx: &mut Context) -> (r: AxiomStoragePayload)
        requires
            old(ctx)@.wf(),
        ensures
            final(ctx)@.wf(),
            final(ctx)@.extends(old(ctx)@),
            final(ctx)@.cells.len() == old(ctx)@.cells.len() + 8,
            final(ctx)@.equalities == old(ctx)@.equalities,
            final(ctx)@.copies == old(ctx)@.copies,
            final(ctx)@.satisfied() == old(ctx)@.satisfied(),
            axiom_storage_payload_valid(final(ctx)@, r),
            storage_payload_values(axiom_storage_payload_in(final(ctx)@, r)) == self.spec_values(
                old(ctx)@.challenge@,
            ),
            r == storage_handles(old(ctx)@.cells.len() as int),
    {
        let v = self.values(ctx.challenge());
        let block_number = ctx.load_witness(v.block_number);
        let address = ctx.load_witness(v.address);
        let slot_lo = ctx.load_witness(v.slot.hilo.lo);
        let slot_hi = ctx.load_witness(v.slot.hilo.hi);
        let slot_rlc = ctx.load_witness(v.slot.rlc);
        let value_lo = ctx.load_witness(v.value.hilo.lo);
        let value_hi = ctx.load_witness(v.value.hilo.hi);
        let value_rlc = ctx.load_witness(v.value.rlc);
        StoragePayload {
            block_number,
            address,
            slot: HiLoRlc::from(slot_hi, slot_lo, slot_rlc),
            value: HiLoRlc::from(value_hi, value_lo, value_rlc),
        }
    }

    /// Assigns the entry to the next row of the native table and hands back
    /// the cells it filled. The field tag of the row is that of storage.
    pub fn assign_halo2(&self, config: &InitStateTable, layouter: &mut Layouter, randomness: Fe) -> (r:
        Halo2StoragePayload)
        ensures
            final(layouter).rows@.len() == old(layouter).rows@.len() + 1,
            final(layouter).rows@ == old(layouter).rows@.push(final(layouter).rows@.last()),
            final(layouter).rows@.last()@ == storage_row(*self, randomness@),
            r == storage_cells(
                *config,
                old(layouter).rows@.len() as int,
                final(layouter).rows@.last(),
            ),
    {
        let v = self.values(randomness);
        let row_index = layouter.rows.len();
        let row = TableRow {
            block_number: v.block_number,
            address: v.address,
            field_tag: Fe::from_u64(FieldTag::Storage.index()),
            storage_key: v.slot,
            value: v.value,
        };
        layouter.rows.push(row);
        StoragePayload {
            block_number: NativeCell {
                column: config.block_number,
                row: row_index,
                value: row.block_number,
            },
            address: NativeCell { column: config.address, row: row_index, value: row.address },
            slot: encoded_native_cells(&config.storage_key, row_index, &row.storage_key),
            value: encoded_native_cells(&config.value, row_index, &row.value),
        }
    }
}

} // verus!
