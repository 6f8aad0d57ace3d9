//! Account subqueries: one field of one account at one block.

use crate::common::{HiLo, HiLoRlc};
use crate::context::{AssignedValue, Context, ContextView};
use crate::encoded::{rlc_encode, rlc_value, split};
use crate::field::Fe;
use crate::init_state::table::{account_row, InitStateTable, Layouter, TableRow};
use crate::layout::NativeCell;
use crate::trace::{ExtractError, Rw};
use crate::word::{lemma_halves_injective, pow256, Address, Word256};
use vstd::prelude::*;

verus! {

/// The tag that a row of the initial-state table carries in its field-tag
/// column.
#[derive(Clone, Copy, Debug, PartialEq, Eq, Structural)]
pub enum FieldTag {
    Storage,
    Nonce,
    Balance,
    CodeHash,
}

impl FieldTag {
    /// The number that stands for the tag in the circuit.
    pub open spec fn spec_index(self) -> u64 {
        match self {
            FieldTag::Storage => 0,
            FieldTag::Nonce => 1,
            FieldTag::Balance => 2,
            FieldTag::CodeHash => 3,
        }
    }

    #[verifier::when_used_as_spec(spec_index)]
    pub fn index(self) -> (r: u64)
        ensures
            r == self.spec_index(),
    {
        match self {
            FieldTag::Storage => 0,
            FieldTag::Nonce => 1,
            FieldTag::Balance => 2,
            FieldTag::CodeHash => 3,
        }
    }
}

/// The account fields that the initial state asks for.
#[derive(Clone, Copy, Debug, PartialEq, Eq, Structural)]
pub enum AccountFieldIdx {
    Nonce,
    Balance,
    CodeHash,
}

impl AccountFieldIdx {
    /// The field that a raw field tag of the trace selects, if the initial
    /// state covers it: nonce (0), balance (1), and the three tags that
    /// describe the code (2, 3, 4). Any other tag selects nothing.
    pub open spec fn spec_from_field_tag(tag: u64) -> Option<AccountFieldIdx> {
        if tag == 0 {
            Some(AccountFieldIdx::Nonce)
        } else if tag == 1 {
            Some(AccountFieldIdx::Balance)
        } else if 2 <= tag <= 4 {
            Some(AccountFieldIdx::CodeHash)
        } else {
            None
        }
    }

    /// The field that the raw field tag of an account record selects.
    pub fn from_field_tag(value: Option<u64>) -> (r: Option<Self>)
        requires
            value is Some,
        ensures
            r == Self::spec_from_field_tag(value->0),
    {
        match value {
            Some(0) => Some(AccountFieldIdx::Nonce),
            Some(1) => Some(AccountFieldIdx::Balance),
            Some(2) => Some(AccountFieldIdx::CodeHash),
            Some(3) => Some(AccountFieldIdx::CodeHash),
            Some(4) => Some(AccountFieldIdx::CodeHash),
            _ => None,
        }
    }

    /// The position of the field among the fields of an account: nonce,
    /// balance, storage root, code hash.
    pub open spec fn spec_index(self) -> u32 {
        match self {
            AccountFieldIdx::Nonce => 0,
            AccountFieldIdx::Balance => 1,
            AccountFieldIdx::CodeHash => 3,
        }
    }

    #[verifier::when_used_as_spec(spec_index)]
    pub fn index(self) -> (r: u32)
        ensures
            r == self.spec_index(),
    {
        match self {
            AccountFieldIdx::Nonce => 0,
            AccountFieldIdx::Balance => 1,
            AccountFieldIdx::CodeHash => 3,
        }
    }

    /// The tag of the field in the initial-state table.
    pub open spec fn spec_field_tag(self) -> FieldTag {
        match self {
            AccountFieldIdx::Nonce => FieldTag::Nonce,
            AccountFieldIdx::Balance => FieldTag::Balance,
            AccountFieldIdx::CodeHash => FieldTag::CodeHash,
        }
    }

    #[verifier::when_used_as_spec(spec_field_tag)]
    pub fn field_tag(self) -> (r: FieldTag)
        ensures
            r == self.spec_field_tag(),
    {
        match self {
            AccountFieldIdx::Nonce => FieldTag::Nonce,
            AccountFieldIdx::Balance => FieldTag::Balance,
            AccountFieldIdx::CodeHash => FieldTag::CodeHash,
        }
    }
}

/// The question: which field of which account at which block.
#[derive(Clone, Copy, Debug, PartialEq, Eq, Structural)]
pub struct AccountSubquery {
    pub block_number: u32,
    pub addr: Address,
    pub field_idx: AccountFieldIdx,
}

/// The question together with its answer.
#[derive(Clone, Copy, Debug, PartialEq, Eq, Structural)]
pub struct AccountSubqueryResult {
    pub subquery: AccountSubquery,
    pub value: Word256,
}

/// The address of a record, or why the record has none that can be used.
pub open spec fn spec_record_address(rw: Rw) -> Result<Address, ExtractError> {
    match rw.address {
        None => Err(ExtractError::MissingAddress),
        Some(w) => if w@ < pow256(20) {
            Ok(Address { hi: w.hi as u32, lo: w.lo })
        } else {
            Err(ExtractError::AddressTooWide)
        },
    }
}

/// The address of a record, or why the record has none that can be used.
pub fn record_address(rw: &Rw) -> (r: Result<Address, ExtractError>)
    ensures
        r == spec_record_address(*rw),
{
    match rw.address {
        None => Err(ExtractError::MissingAddress),
        Some(w) => match Address::from_word(&w) {
            Some(a) => {
                assert(a.hi == w.hi && a.lo == w.lo) by {
                    lemma_halves_injective(a.hi as u128, a.lo, w.hi, w.lo);
                }
                Ok(a)
            },
            None => Err(ExtractError::AddressTooWide),
        },
    }
}

/// The low 32 bits of a block number.
pub open spec fn spec_block_number_u32(block_number: u64) -> u32 {
    (block_number % 0x1_0000_0000) as u32
}

/// The low 32 bits of a block number.
pub fn block_number_u32(block_number: u64) -> (r: u32)
    ensures
        r == spec_block_number_u32(block_number),
{
    (block_number % 0x1_0000_0000) as u32
}

impl AccountSubqueryResult {
    /// What an account record contributes to the initial state: nothing
    /// where its field tag selects no covered field, else the field of the
    /// account with the record's value. A record without a field tag, or one
    /// with a covered field and without a usable address, is malformed.
    pub open spec fn spec_from_rw(rw: Rw, block_number: u64) -> Result<
        Option<AccountSubqueryResult>,
        ExtractError,
    > {
        match rw.field_tag {
            None => Err(ExtractError::MissingFieldTag),
            Some(tag) => match AccountFieldIdx::spec_from_field_tag(tag) {
                None => Ok(None),
                Some(field_idx) => match spec_record_address(rw) {
                    Err(e) => Err(e),
                    Ok(addr) => Ok(
                        Some(
                            AccountSubqueryResult {
                                subquery: AccountSubquery {
                                    block_number: spec_block_number_u32(block_number),
                                    addr,
                                    field_idx,
                                },
                                value: rw.value,
                            },
                        ),
                    ),
                },
            },
        }
    }

    /// What an account record contributes to the initial state.
    pub fn from_rw(rw: &Rw, block_number: u64) -> (r: Result<Option<Self>, ExtractError>)
        ensures
            r == Self::spec_from_rw(*rw, block_number),
    {
        if rw.field_tag.is_none() {
            return Err(ExtractError::MissingFieldTag);
        }
        match AccountFieldIdx::from_field_tag(rw.field_tag) {
            None => Ok(None),
            Some(field_idx) => match record_address(rw) {
                Err(e) => Err(e),
                Ok(addr) => Ok(
                    Some(
                        AccountSubqueryResult {
                            subquery: AccountSubquery {
                                block_number: block_number_u32(block_number),
                                addr,
                                field_idx,
                            },
                            value: rw.value,
                        },
                    ),
                ),
            },
        }
    }
}

/// One thing per part of an account entry: block number, address, field
/// tag and encoded value.
#[derive(Clone, Copy, Debug, PartialEq, Eq, Structural)]
pub struct AccountPayload<AssignedType> {
    pub block_number: AssignedType,
    pub address: AssignedType,
    pub field_idx: AssignedType,
    pub value: HiLoRlc<AssignedType>,
}

/// An account entry as cells of the arena.
pub type AxiomAccountPayload = AccountPayload<AssignedValue>;

/// An account entry as cells of the native table.
pub type Halo2AccountPayload = AccountPayload<NativeCell>;

/// The values of the field elements of a payload.
pub open spec fn account_payload_values(p: AccountPayload<Fe>) -> AccountPayload<nat> {
    AccountPayload {
        block_number: p.block_number@,
        address: p.address@,
        field_idx: p.field_idx@,
        value: HiLoRlc { hilo: HiLo { hi: p.value.hilo.hi@, lo: p.value.hilo.lo@ }, rlc: p.value.rlc@ },
    }
}

/// The field elements that the cells of a payload hold in a context.
pub open spec fn axiom_account_payload_in(ctx: ContextView, p: AxiomAccountPayload) -> AccountPayload<
    Fe,
> {
    AccountPayload {
        block_number: ctx.value(p.block_number),
        address: ctx.value(p.address),
        field_idx: ctx.value(p.field_idx),
        value: HiLoRlc {
            hilo: HiLo { hi: ctx.value(p.value.hilo.hi), lo: ctx.value(p.value.hilo.lo) },
            rlc: ctx.value(p.value.rlc),
        },
    }
}

/// The handles of an account entry whose six cells start at cell `base`:
/// block number, address, field tag, low half, high half, random linear
/// combination.
pub open spec fn account_handles(base: int) -> AxiomAccountPayload {
    AccountPayload {
        block_number: AssignedValue { index: base as usize },
        address: AssignedValue { index: (base + 1) as usize },
        field_idx: AssignedValue { index: (base + 2) as usize },
        value: HiLoRlc {
            hilo: HiLo {
                hi: AssignedValue { index: (base + 4) as usize },
                lo: AssignedValue { index: (base + 3) as usize },
            },
            rlc: AssignedValue { index: (base + 5) as usize },
        },
    }
}

/// Every cell of the payload exists in the context.
pub open spec fn axiom_account_payload_valid(ctx: ContextView, p: AxiomAccountPayload) -> bool {
    &&& ctx.has(p.block_number)
    &&& ctx.has(p.address)
    &&& ctx.has(p.field_idx)
    &&& ctx.has(p.value.hilo.hi)
    &&& ctx.has(p.value.hilo.lo)
    &&& ctx.has(p.value.rlc)
}

/// The field elements that the native cells of a payload hold.
pub open spec fn halo2_account_payload_held(p: Halo2AccountPayload) -> AccountPayload<Fe> {
    AccountPayload {
        block_number: p.block_number.value,
        address: p.address.value,
        field_idx: p.field_idx.value,
        value: HiLoRlc {
            hilo: HiLo { hi: p.value.hilo.hi.value, lo: p.value.hilo.lo.value },
            rlc: p.value.rlc.value,
        },
    }
}

/// The cells of row `row` of the table that an account entry fills, each in
/// its column and with the value that the row holds there.
pub open spec fn account_cells(config: InitStateTable, row: int, held: TableRow)
    -> Halo2AccountPayload {
    AccountPayload {
        block_number: NativeCell {
            column: config.block_number,
            row: row as usize,
            value: held.block_number,
        },
        address: NativeCell { column: config.address, row: row as usize, value: held.address },
        field_idx: NativeCell {
            column: config.field_tag,
            row: row as usize,
            value: held.field_tag,
        },
        value: HiLoRlc {
            hilo: HiLo {
                hi: NativeCell {
                    column: config.value.hilo.hi,
                    row: row as usize,
                    value: held.value.hilo.hi,
                },
                lo: NativeCell {
                    column: config.value.hilo.lo,
                    row: row as usize,
                    value: held.value.hilo.lo,
                },
            },
            rlc: NativeCell {
                column: config.value.rlc,
                row: row as usize,
                value: held.value.rlc,
            },
        },
    }
}

impl AccountSubqueryResult {
    /// The values that stand for the entry in the circuit, the random
    /// linear combination taken under `challenge`.
    pub open spec fn spec_values(self, challenge: nat) -> AccountPayload<nat> {
        AccountPayload {
            block_number: self.subquery.block_number as nat,
            address: self.subquery.addr@,
            field_idx: self.subquery.field_idx.field_tag().index() as nat,
            value: HiLoRlc {
                hilo: HiLo { hi: self.value.hi as nat, lo: self.value.lo as nat },
                rlc: rlc_value(self.value.spec_be_bytes(), challenge),
            },
        }
    }

    /// The field elements that stand for the entry.
    pub fn values(&self, challenge: Fe) -> (r: AccountPayload<Fe>)
        ensures
            account_payload_values(r) == self.spec_values(challenge@),
    {
        let halves = split(&self.value);
        let bytes = self.value.to_be_bytes();
        AccountPayload {
            block_number: Fe::from_u64(self.subquery.block_number as u64),
            address: self.subquery.addr.to_scalar(),
            field_idx: Fe::from_u64(self.subquery.field_idx.field_tag().index()),
            value: HiLoRlc {
                hilo: HiLo { hi: halves.hi, lo: halves.lo },
                rlc: rlc_encode(bytes.as_slice(), challenge),
            },
        }
    }

    /// Assigns the entry to six new cells of the arena: block number,
    /// address, field tag, low half, high half and random linear
    /// combination under the challenge of the context.
    pub fn assign_axiom(&self, ctx: &mut Context) -> (r: AxiomAccountPayload)
        requires
            old(ctx)@.wf(),
        ensures
            final(ctx)@.wf(),
            final(ctx)@.extends(old(ctx)@),
            final(ctx)@.cells.len() == old(ctx)@.cells.len() + 6,
            final(ctx)@.equalities == old(ctx)@.equalities,
            final(ctx)@.copies == old(ctx)@.copies,
            final(ctx)@.satisfied() == old(ctx)@.satisfied(),
            axiom_account_payload_valid(final(ctx)@, r),
            account_payload_values(axiom_account_payload_in(final(ctx)@, r)) == self.spec_values(
                old(ctx)@.challenge@,
            ),
            r == account_handles(old(ctx)@.cells.len() as int),
    {
        let v = self.values(ctx.challenge());
        let block_number = ctx.load_witness(v.block_number);
        let address = ctx.load_witness(v.address);
        let field_idx = ctx.load_witness(v.field_idx);
        let lo = ctx.load_witness(v.value.hilo.lo);
        let hi = ctx.load_witness(v.value.hilo.hi);
        let rlc = ctx.load_witness(v.value.rlc);
        AccountPayload { block_number, address, field_idx, value: HiLoRlc::from(hi, lo, rlc) }
    }

    /// Assigns the entry to the next row of the native table and hands back
    /// the cells it filled. The columns of the storage key stay zero.
    pub fn assign_halo2(&self, config: &InitStateTable, layouter: &mut Layouter, randomness: Fe) -> (r:
        Halo2AccountPayload)
        ensures
            final(layouter).rows@.len() == old(layouter).rows@.len() + 1,
            final(layouter).rows@ == old(layouter).rows@.push(final(layouter).rows@.last()),
            final(layouter).rows@.last()@ == account_row(
                *self,
                randomness@,
            ),
            r == account_cells(
                *config,
                old(layouter).rows@.len() as int,
                final(layouter).rows@.last(),
            ),
    {
        let v = self.values(randomness);
        let row_index = layouter.rows.len();
        let row = TableRow {
            block_number: v.block_number,
            address: v.address,
            field_tag: v.field_idx,
            storage_key: HiLoRlc::from(Fe::zero(), Fe::zero(), Fe::zero()),
            value: v.value,
        };
        layouter.rows.push(row);
        AccountPayload {
            block_number: NativeCell {
                column: config.block_number,
                row: row_index,
                value: row.block_number,
            },
            address: NativeCell { column: config.address, row: row_index, value: row.address },
            field_idx: NativeCell {
                column: config.field_tag,
                row: row_index,
                value: row.field_tag,
            },
            value: HiLoRlc {
                hilo: HiLo {
                    hi: NativeCell {
                        column: config.value.hilo.hi,
                        row: row_index,
                        value: row.value.hilo.hi,
                    },
                    lo: NativeCell {
                        column: config.value.hilo.lo,
                        row: row_index,
                        value: row.value.hilo.lo,
                    },
                },
                rlc: NativeCell {
                    column: config.value.rlc,
                    row: row_index,
                    value: row.value.rlc,
                },
            },
        }
    }
}

} // verus!
