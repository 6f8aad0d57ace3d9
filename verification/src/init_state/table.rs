//! The initial-state lookup table in its native form: the columns it
//! occupies and the rows that an initial state fills.

use crate::common::{HiLo, HiLoRlc};
use crate::field::{lemma_view_injective, Fe};
use crate::init_state::account::{
    account_cells, AccountSubqueryResult, FieldTag, Halo2AccountPayload,
};
use crate::init_state::input::InitState;
use crate::init_state::storage::{storage_cells, Halo2StoragePayload, StorageSubqueryResult};
use crate::layout::{Column, ConstraintSystem, NativeCell};
use vstd::prelude::*;
use vstd::string::*;

verus! {

/// The values of one row, column by column.
pub struct RowValues {
    pub block_number: nat,
    pub address: nat,
    pub field_tag: nat,
    pub storage_key: HiLoRlc<nat>,
    pub value: HiLoRlc<nat>,
}

/// One row of the table.
#[derive(Clone, Copy, Debug, PartialEq, Eq, Structural)]
pub struct TableRow {
    pub block_number: Fe,
    pub address: Fe,
    pub field_tag: Fe,
    pub storage_key: HiLoRlc<Fe>,
    pub value: HiLoRlc<Fe>,
}

impl View for TableRow {
    type V = RowValues;

    open spec fn view(&self) -> RowValues {
        RowValues {
            block_number: self.block_number@,
            address: self.address@,
            field_tag: self.field_tag@,
            storage_key: HiLoRlc {
                hilo: HiLo { hi: self.storage_key.hilo.hi@, lo: self.storage_key.hilo.lo@ },
                rlc: self.storage_key.rlc@,
            },
            value: HiLoRlc {
                hilo: HiLo { hi: self.value.hilo.hi@, lo: self.value.hilo.lo@ },
                rlc: self.value.rlc@,
            },
        }
    }
}

/// The rows assigned so far, in order.
#[derive(Clone, Debug)]
pub struct Layouter {
    pub rows: Vec<TableRow>,
}

/// The row of all zeros.
pub open spec fn zero_row() -> RowValues {
    RowValues {
        block_number: 0,
        address: 0,
        field_tag: 0,
        storage_key: HiLoRlc { hilo: HiLo { hi: 0, lo: 0 }, rlc: 0 },
        value: HiLoRlc { hilo: HiLo { hi: 0, lo: 0 }, rlc: 0 },
    }
}

/// The row of an account entry: the columns of the storage key are zero.
pub open spec fn account_row(entry: AccountSubqueryResult, challenge: nat) -> RowValues {
    let v = entry.spec_values(challenge);
    RowValues {
        block_number: v.block_number,
        address: v.address,
        field_tag: v.field_idx,
        storage_key: HiLoRlc { hilo: HiLo { hi: 0, lo: 0 }, rlc: 0 },
        value: v.value,
    }
}

/// The columns of the table.
#[derive(Clone, Copy, Debug, PartialEq, Eq, Structural)]
pub struct InitStateTable {
    pub block_number: Column,
    pub address: Column,
    pub field_tag: Column,
    pub storage_key: HiLoRlc<Column>,
    pub value: HiLoRlc<Column>,
}

/// The row of a storage entry: its field tag is that of storage.
pub open spec fn storage_row(entry: StorageSubqueryResult, challenge: nat) -> RowValues {
    let v = entry.spec_values(challenge);
    RowValues {
        block_number: v.block_number,
        address: v.address,
        field_tag: FieldTag::Storage.index() as nat,
        storage_key: v.slot,
        value: v.value,
    }
}

/// The rows that an initial state fills: one row of zeros, then one row per
/// account entry, then one row per storage entry, each list in its order.
pub open spec fn table_rows(
    accounts: Seq<AccountSubqueryResult>,
    storages: Seq<StorageSubqueryResult>,
    challenge: nat,
) -> Seq<RowValues> {
    Seq::new(
        1 + accounts.len() + storages.len(),
        |i: int|
            if i == 0 {
                zero_row()
            } else if i <= accounts.len() {
                account_row(accounts[i - 1], challenge)
            } else {
                storage_row(storages[i - 1 - accounts.len()], challenge)
            },
    )
}

/// The values of a sequence of rows.
pub open spec fn rows_values(rows: Seq<TableRow>) -> Seq<RowValues> {
    Seq::new(rows.len(), |i: int| rows[i]@)
}

/// The rows are a function of the state and the challenge: two lists of
/// rows that both hold the values of the same state under the same
/// challenge are the same list, field element by field element.
pub proof fn lemma_rows_determined(
    first: Seq<TableRow>,
    second: Seq<TableRow>,
    accounts: Seq<AccountSubqueryResult>,
    storages: Seq<StorageSubqueryResult>,
    challenge: nat,
)
    requires
        rows_values(first) == table_rows(accounts, storages, challenge),
        rows_values(second) == table_rows(accounts, storages, challenge),
    ensures
        first == second,
{
    assert(first.len() == rows_values(first).len());
    assert(second.len() == rows_values(second).len());
    assert forall|i: int| 0 <= i < first.len() implies first[i] == second[i] by {
        assert(rows_values(first)[i] == first[i]@);
        assert(rows_values(second)[i] == second[i]@);
        lemma_row_view_injective(first[i], second[i]);
    }
    assert(first =~= second);
}

/// Rows with the same values are the same row.
pub proof fn lemma_row_view_injective(a: TableRow, b: TableRow)
    requires
        a@ == b@,
    ensures
        a == b,
{
    lemma_view_injective(a.block_number, b.block_number);
    lemma_view_injective(a.address, b.address);
    lemma_view_injective(a.field_tag, b.field_tag);
    lemma_view_injective(a.storage_key.hilo.hi, b.storage_key.hilo.hi);
    lemma_view_injective(a.storage_key.hilo.lo, b.storage_key.hilo.lo);
    lemma_view_injective(a.storage_key.rlc, b.storage_key.rlc);
    lemma_view_injective(a.value.hilo.hi, b.value.hilo.hi);
    lemma_view_injective(a.value.hilo.lo, b.value.hilo.lo);
    lemma_view_injective(a.value.rlc, b.value.rlc);
}

impl Layouter {
    pub fn new() -> (r: Layouter)
        ensures
            r.rows@.len() == 0,
    {
        Layouter { rows: Vec::new() }
    }
}

impl InitStateTable {
    /// The columns are nine in a row, starting at `first`: block number,
    /// address, field tag, then high half, low half and random linear
    /// combination of the storage key, then the same three of the value.
    pub open spec fn starts_at(self, first: int) -> bool {
        &&& self.block_number.index == first
        &&& self.address.index == first + 1
        &&& self.field_tag.index == first + 2
        &&& self.storage_key.hilo.hi.index == first + 3
        &&& self.storage_key.hilo.lo.index == first + 4
        &&& self.storage_key.rlc.index == first + 5
        &&& self.value.hilo.hi.index == first + 6
        &&& self.value.hilo.lo.index == first + 7
        &&& self.value.rlc.index == first + 8
    }

    /// Takes the next nine advice columns for the table.
    pub fn construct(meta: &mut ConstraintSystem) -> (r: Self)
        requires
            old(meta).num_advice_columns + 9 <= usize::MAX,
        ensures
            r.starts_at(old(meta).num_advice_columns as int),
            final(meta).num_advice_columns == old(meta).num_advice_columns + 9,
    {
        let block_number = meta.advice_column();
        let address = meta.advice_column();
        let field_tag = meta.advice_column();
        let key_hi = meta.advice_column();
        let key_lo = meta.advice_column();
        let key_rlc = meta.advice_column();
        let value_hi = meta.advice_column();
        let value_lo = meta.advice_column();
        let value_rlc = meta.advice_column();
        InitStateTable {
            block_number,
            address,
            field_tag,
            storage_key: HiLoRlc::from(key_hi, key_lo, key_rlc),
            value: HiLoRlc::from(value_hi, value_lo, value_rlc),
        }
    }

    /// The nine cells of row `index`, in the order of the columns, each
    /// with the value that `row` holds in its column.
    pub open spec fn spec_row_cells(self, index: int, row: TableRow) -> Seq<NativeCell> {
        seq![
            NativeCell { column: self.block_number, row: index as usize, value: row.block_number },
            NativeCell { column: self.address, row: index as usize, value: row.address },
            NativeCell { column: self.field_tag, row: index as usize, value: row.field_tag },
            NativeCell {
                column: self.storage_key.hilo.hi,
                row: index as usize,
                value: row.storage_key.hilo.hi,
            },
            NativeCell {
                column: self.storage_key.hilo.lo,
                row: index as usize,
                value: row.storage_key.hilo.lo,
            },
            NativeCell {
                column: self.storage_key.rlc,
                row: index as usize,
                value: row.storage_key.rlc,
            },
            NativeCell {
                column: self.value.hilo.hi,
                row: index as usize,
                value: row.value.hilo.hi,
            },
            NativeCell {
                column: self.value.hilo.lo,
                row: index as usize,
                value: row.value.hilo.lo,
            },
            NativeCell { column: self.value.rlc, row: index as usize, value: row.value.rlc },
        ]
    }

    /// The nine cells of row `index`, in the order of the columns.
    pub fn row_cells(&self, index: usize, row: &TableRow) -> (r: Vec<NativeCell>)
        ensures
            r@ == self.spec_row_cells(index as int, *row),
    {
        let mut v: Vec<NativeCell> = Vec::new();
        v.push(NativeCell { column: self.block_number, row: index, value: row.block_number });
        v.push(NativeCell { column: self.address, row: index, value: row.address });
        v.push(NativeCell { column: self.field_tag, row: index, value: row.field_tag });
        v.push(
            NativeCell { column: self.storage_key.hilo.hi, row: index, value: row.storage_key.hilo.hi },
        );
        v.push(
            NativeCell { column: self.storage_key.hilo.lo, row: index, value: row.storage_key.hilo.lo },
        );
        v.push(NativeCell { column: self.storage_key.rlc, row: index, value: row.storage_key.rlc });
        v.push(NativeCell { column: self.value.hilo.hi, row: index, value: row.value.hilo.hi });
        v.push(NativeCell { column: self.value.hilo.lo, row: index, value: row.value.hilo.lo });
        v.push(NativeCell { column: self.value.rlc, row: index, value: row.value.rlc });
        assert(v@ =~= self.spec_row_cells(index as int, *row));
        v
    }

    /// The columns that a lookup into the table reads: all but the block
    /// number.
    pub open spec fn spec_columns(self) -> Seq<Column> {
        seq![
            self.address,
            self.field_tag,
            self.storage_key.hilo.hi,
            self.storage_key.hilo.lo,
            self.storage_key.rlc,
            self.value.hilo.hi,
            self.value.hilo.lo,
            self.value.rlc,
        ]
    }

    /// The columns that a lookup into the table reads.
    pub fn columns(&self) -> (r: Vec<Column>)
        ensures
            r@ == self.spec_columns(),
    {
        let mut v: Vec<Column> = Vec::new();
        v.push(self.address);
        v.push(self.field_tag);
        v.push(self.storage_key.hi());
        v.push(self.storage_key.lo());
        v.push(self.storage_key.rlc());
        v.push(self.value.hi());
        v.push(self.value.lo());
        v.push(self.value.rlc());
        assert(v@ =~= self.spec_columns());
        v
    }

    /// The names of the columns that `columns` lists, in the same order.
    pub fn annotations(&self) -> (r: Vec<String>)
        ensures
            r@.len() == 8,
            r@[0]@ == "address"@,
            r@[1]@ == "field_tag"@,
            r@[2]@ == "storage_key_hi"@,
            r@[3]@ == "storage_key_lo"@,
            r@[4]@ == "storage_key_rlc"@,
            r@[5]@ == "value_hi"@,
            r@[6]@ == "value_lo"@,
            r@[7]@ == "value_rlc"@,
    {
        let mut v: Vec<String> = Vec::new();
        v.push(String::from_str("address"));
        v.push(String::from_str("field_tag"));
        v.push(String::from_str("storage_key_hi"));
        v.push(String::from_str("storage_key_lo"));
        v.push(String::from_str("storage_key_rlc"));
        v.push(String::from_str("value_hi"));
        v.push(String::from_str("value_lo"));
        v.push(String::from_str("value_rlc"));
        v
    }

    /// Fills the table: a row of zeros, then the account entries, then the
    /// storage entries, every random linear combination under the one
    /// `randomness`. Hands back, for each entry, the cells of its row.
    pub fn load(&self, input: &InitState, layouter: &mut Layouter, randomness: Fe) -> (r: (
        Vec<Halo2AccountPayload>,
        Vec<Halo2StoragePayload>,
    ))
        ensures
            final(layouter).rows@.len() == old(layouter).rows@.len() + 1 + input.accounts@.len()
                + input.storages@.len(),
            final(layouter).rows@.subrange(0, old(layouter).rows@.len() as int) == old(
                layouter,
            ).rows@,
            rows_values(
                final(layouter).rows@.subrange(
                    old(layouter).rows@.len() as int,
                    final(layouter).rows@.len() as int,
                ),
            ) == table_rows(input.accounts@, input.storages@, randomness@),
            r.0@.len() == input.accounts@.len(),
            r.1@.len() == input.storages@.len(),
            forall|i: int|
                0 <= i < input.accounts@.len() ==> #[trigger] r.0@[i] == account_cells(
                    *self,
                    old(layouter).rows@.len() + 1 + i,
                    final(layouter).rows@[old(layouter).rows@.len() + 1 + i],
                ),
            forall|i: int|
                0 <= i < input.storages@.len() ==> #[trigger] r.1@[i] == storage_cells(
                    *self,
                    old(layouter).rows@.len() + 1 + input.accounts@.len() + i,
                    final(layouter).rows@[old(layouter).rows@.len() + 1 + input.accounts@.len()
                        + i],
                ),
    {
        let ghost base = layouter.rows@.len() as int;
        let ghost before = layouter.rows@;
        let ghost expected = table_rows(input.accounts@, input.storages@, randomness@);
        let zero = Fe::zero();
        layouter.rows.push(
            TableRow {
                block_number: zero,
                address: zero,
                field_tag: zero,
                storage_key: HiLoRlc::from(zero, zero, zero),
                value: HiLoRlc::from(zero, zero, zero),
            },
        );
        let mut account_payloads: Vec<Halo2AccountPayload> = Vec::new();
        let mut i: usize = 0;
        while i < input.accounts.len()
            invariant
                i <= input.accounts.len(),
                base == before.len(),
                expected == table_rows(input.accounts@, input.storages@, randomness@),
                layouter.rows@.len() == base + 1 + i,
                layouter.rows@.subrange(0, base) == before,
                forall|k: int| 0 <= k < 1 + i ==> (#[trigger] layouter.rows@[base + k])@ == expected[k],
                account_payloads@.len() == i,
                forall|k: int|
                    0 <= k < i ==> #[trigger] account_payloads@[k] == account_cells(
                        *self,
                        base + 1 + k,
                        layouter.rows@[base + 1 + k],
                    ),
            decreases input.accounts.len() - i,
        {
            let ghost rows_before = layouter.rows@;
            let payload = input.accounts[i].assign_halo2(self, layouter, randomness);
            account_payloads.push(payload);
            proof {
                assert(layouter.rows@.subrange(0, base) =~= before);
                assert forall|k: int| 0 <= k < 1 + i + 1 implies (#[trigger] layouter.rows@[base
                    + k])@ == expected[k] by {
                    if k < 1 + i {
                        assert(layouter.rows@[base + k] == rows_before[base + k]);
                    }
                }
                assert forall|k: int| 0 <= k < i + 1 implies #[trigger] account_payloads@[k]
                    == account_cells(*self, base + 1 + k, layouter.rows@[base + 1 + k]) by {
                    if k < i {
                        assert(layouter.rows@[base + 1 + k] == rows_before[base + 1 + k]);
                    }
                }
            }
            i = i + 1;
        }
        let mut storage_payloads: Vec<Halo2StoragePayload> = Vec::new();
        let ghost na = input.accounts@.len() as int;
        let mut j: usize = 0;
        while j < input.storages.len()
            invariant
                j <= input.storages.len(),
                base == before.len(),
                na == input.accounts@.len(),
                expected == table_rows(input.accounts@, input.storages@, randomness@),
                layouter.rows@.len() == base + 1 + na + j,
                layouter.rows@.subrange(0, base) == before,
                forall|k: int|
                    0 <= k < 1 + na + j ==> (#[trigger] layouter.rows@[base + k])@ == expected[k],
                account_payloads@.len() == na,
                forall|k: int|
                    0 <= k < na ==> #[trigger] account_payloads@[k] == account_cells(
                        *self,
                        base + 1 + k,
                        layouter.rows@[base + 1 + k],
                    ),
                storage_payloads@.len() == j,
                forall|k: int|
                    0 <= k < j ==> #[trigger] storage_payloads@[k] == storage_cells(
                        *self,
                        base + 1 + na + k,
                        layouter.rows@[base + 1 + na + k],
                    ),
            decreases input.storages.len() - j,
        {
            let ghost rows_before = layouter.rows@;
            let payload = input.storages[j].assign_halo2(self, layouter, randomness);
            storage_payloads.push(payload);
            proof {
                assert(layouter.rows@.subrange(0, base) =~= before);
                assert forall|k: int| 0 <= k < 1 + na + j + 1 implies (#[trigger] layouter.rows@[base
                    + k])@ == expected[k] by {
                    if k < 1 + na + j {
                        assert(layouter.rows@[base + k] == rows_before[base + k]);
                    }
                }
                assert forall|k: int| 0 <= k < na implies #[trigger] account_payloads@[k]
                    == account_cells(*self, base + 1 + k, layouter.rows@[base + 1 + k]) by {
                    assert(layouter.rows@[base + 1 + k] == rows_before[base + 1 + k]);
                }
                assert forall|k: int| 0 <= k < j + 1 implies #[trigger] storage_payloads@[k]
                    == storage_cells(*self, base + 1 + na + k, layouter.rows@[base + 1 + na + k]) by {
                    if k < j {
                        assert(layouter.rows@[base + 1 + na + k] == rows_before[base + 1 + na
                            + k]);
                    }
                }
            }
            j = j + 1;
        }
        proof {
            let added = layouter.rows@.subrange(base, layouter.rows@.len() as int);
            assert(rows_values(added) =~= expected) by {
                assert forall|k: int| 0 <= k < added.len() implies rows_values(added)[k]
                    == expected[k] by {
                    assert(added[k] == layouter.rows@[base + k]);
                }
            }
        }
        (account_payloads, storage_payloads)
    }
}

} // verus!
