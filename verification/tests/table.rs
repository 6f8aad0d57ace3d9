use zkevm_init_state::common::{HiLo, HiLoRlc, Payload};
use zkevm_init_state::context::Context;
use zkevm_init_state::trace::Rw;
use zkevm_init_state::encoded::rlc_encode;
use zkevm_init_state::field::Fe;
use zkevm_init_state::init_state::account::{
    AccountFieldIdx, AccountSubquery, AccountSubqueryResult,
};
use zkevm_init_state::init_state::input::InitState;
use zkevm_init_state::init_state::storage::{StorageSubquery, StorageSubqueryResult};
use zkevm_init_state::init_state::table::{InitStateTable, Layouter, TableRow};
use zkevm_init_state::layout::{Column, ConstraintSystem, NativeCell};
use zkevm_init_state::word::{Address, Word256};

const ALICE: Address = Address { hi: 0xaaaa_aaaa, lo: 0xaaaa_aaaa_aaaa_aaaa_aaaa_aaaa_aaaa_aaaa };

const BOB: Address = Address { hi: 0xbbbb_bbbb, lo: 0xbbbb_bbbb_bbbb_bbbb_bbbb_bbbb_bbbb_bbbb };

fn account(addr: Address, field_idx: AccountFieldIdx, value: Word256) -> AccountSubqueryResult {
    AccountSubqueryResult {
        subquery: AccountSubquery { block_number: 19211974, addr, field_idx },
        value,
    }
}

fn storage(addr: Address, slot: Word256, value: Word256) -> StorageSubqueryResult {
    StorageSubqueryResult {
        subquery: StorageSubquery { block_number: 19211974, addr, slot },
        value,
    }
}

fn sample_state() -> InitState {
    InitState {
        accounts: vec![
            account(ALICE, AccountFieldIdx::Nonce, Word256::from_u64(5)),
            account(BOB, AccountFieldIdx::Balance, Word256 { hi: 1, lo: 2 }),
            account(ALICE, AccountFieldIdx::CodeHash, Word256 { hi: u128::MAX, lo: 7 }),
        ],
        storages: vec![
            storage(ALICE, Word256::from_u64(0), Word256::from_u64(0)),
            storage(BOB, Word256 { hi: 3, lo: 4 }, Word256 { hi: 5, lo: 6 }),
        ],
    }
}

fn table() -> InitStateTable {
    let mut meta = ConstraintSystem::new();
    InitStateTable::construct(&mut meta)
}

fn encoded(word: Word256, challenge: Fe) -> HiLoRlc<Fe> {
    HiLoRlc::from(
        Fe::from_u128(word.hi),
        Fe::from_u128(word.lo),
        rlc_encode(&word.to_be_bytes(), challenge),
    )
}

fn zeros() -> HiLoRlc<Fe> {
    HiLoRlc::from(Fe::zero(), Fe::zero(), Fe::zero())
}

#[test]
fn construct_takes_nine_columns_in_order() {
    let mut meta = ConstraintSystem { num_advice_columns: 4 };
    let t = InitStateTable::construct(&mut meta);
    assert_eq!(meta.num_advice_columns, 13);
    assert_eq!(t.block_number, Column { index: 4 });
    assert_eq!(t.address, Column { index: 5 });
    assert_eq!(t.field_tag, Column { index: 6 });
    assert_eq!(t.storage_key.hi(), Column { index: 7 });
    assert_eq!(t.storage_key.lo(), Column { index: 8 });
    assert_eq!(t.storage_key.rlc(), Column { index: 9 });
    assert_eq!(t.value.hi(), Column { index: 10 });
    assert_eq!(t.value.lo(), Column { index: 11 });
    assert_eq!(t.value.rlc(), Column { index: 12 });
}

#[test]
fn lookup_columns_leave_out_the_block_number() {
    let t = table();
    let columns: Vec<usize> = t.columns().iter().map(|c| c.index).collect();
    assert_eq!(columns, vec![1, 2, 3, 4, 5, 6, 7, 8]);
    assert_eq!(
        t.annotations(),
        vec![
            "address",
            "field_tag",
            "storage_key_hi",
            "storage_key_lo",
            "storage_key_rlc",
            "value_hi",
            "value_lo",
            "value_rlc"
        ]
    );
}

#[test]
fn load_puts_a_zero_row_then_accounts_then_storages() {
    let state = sample_state();
    let challenge = Fe::from_u64(0x100);
    let mut layouter = Layouter::new();
    let _ = table().load(&state, &mut layouter, challenge);
    let block = Fe::from_u64(19211974);
    let expected = vec![
        TableRow {
            block_number: Fe::zero(),
            address: Fe::zero(),
            field_tag: Fe::zero(),
            storage_key: zeros(),
            value: zeros(),
        },
        TableRow {
            block_number: block,
            address: ALICE.to_scalar(),
            field_tag: Fe::from_u64(1),
            storage_key: zeros(),
            value: encoded(Word256::from_u64(5), challenge),
        },
        TableRow {
            block_number: block,
            address: BOB.to_scalar(),
            field_tag: Fe::from_u64(2),
            storage_key: zeros(),
            value: encoded(Word256 { hi: 1, lo: 2 }, challenge),
        },
        TableRow {
            block_number: block,
            address: ALICE.to_scalar(),
            field_tag: Fe::from_u64(3),
            storage_key: zeros(),
            value: encoded(Word256 { hi: u128::MAX, lo: 7 }, challenge),
        },
        TableRow {
            block_number: block,
            address: ALICE.to_scalar(),
            field_tag: Fe::from_u64(0),
            storage_key: encoded(Word256::from_u64(0), challenge),
            value: encoded(Word256::from_u64(0), challenge),
        },
        TableRow {
            block_number: block,
            address: BOB.to_scalar(),
            field_tag: Fe::from_u64(0),
            storage_key: encoded(Word256 { hi: 3, lo: 4 }, challenge),
            value: encoded(Word256 { hi: 5, lo: 6 }, challenge),
        },
    ];
    assert_eq!(layouter.rows, expected);
    assert_eq!(layouter.rows[1].value.rlc().to_limbs(), [0, 0, 0, 0x0500000000000000]);
}

#[test]
fn load_hands_back_the_cells_of_each_row() {
    let state = sample_state();
    let challenge = Fe::from_u64(3);
    let mut layouter = Layouter::new();
    let t = table();
    let (accounts, storages) = t.load(&state, &mut layouter, challenge);
    assert_eq!(accounts.len(), 3);
    assert_eq!(storages.len(), 2);
    for (i, cells) in accounts.iter().enumerate() {
        let row = layouter.rows[1 + i];
        assert_eq!(
            cells.block_number,
            NativeCell { column: t.block_number, row: 1 + i, value: row.block_number }
        );
        assert_eq!(
            cells.address,
            NativeCell { column: t.address, row: 1 + i, value: row.address }
        );
        assert_eq!(
            cells.field_idx,
            NativeCell { column: t.field_tag, row: 1 + i, value: row.field_tag }
        );
        assert_eq!(
            cells.value.hi(),
            NativeCell { column: t.value.hi(), row: 1 + i, value: row.value.hi() }
        );
        assert_eq!(
            cells.value.lo(),
            NativeCell { column: t.value.lo(), row: 1 + i, value: row.value.lo() }
        );
        assert_eq!(
            cells.value.rlc(),
            NativeCell { column: t.value.rlc(), row: 1 + i, value: row.value.rlc() }
        );
    }
    for (i, cells) in storages.iter().enumerate() {
        let row = layouter.rows[4 + i];
        assert_eq!(
            cells.block_number,
            NativeCell { column: t.block_number, row: 4 + i, value: row.block_number }
        );
        assert_eq!(
            cells.slot.lo(),
            NativeCell { column: t.storage_key.lo(), row: 4 + i, value: row.storage_key.lo() }
        );
        assert_eq!(
            cells.slot.rlc(),
            NativeCell { column: t.storage_key.rlc(), row: 4 + i, value: row.storage_key.rlc() }
        );
        assert_eq!(
            cells.value.hi(),
            NativeCell { column: t.value.hi(), row: 4 + i, value: row.value.hi() }
        );
    }
}

#[test]
fn load_is_deterministic() {
    let state = sample_state();
    let challenge = Fe::from_limbs([0x1111, 0x2222, 0x3333, 0x0444]).unwrap();
    let t = table();
    let mut first = Layouter::new();
    let first_cells = t.load(&state, &mut first, challenge);
    let mut second = Layouter::new();
    let second_cells = t.load(&state, &mut second, challenge);
    assert_eq!(first.rows, second.rows);
    assert_eq!(first_cells, second_cells);
}

#[test]
fn load_uses_one_challenge_for_every_row() {
    let state = sample_state();
    let mut one = Layouter::new();
    let _ = table().load(&state, &mut one, Fe::from_u64(2));
    let mut other = Layouter::new();
    let _ = table().load(&state, &mut other, Fe::from_u64(3));
    for i in 1..one.rows.len() {
        assert_eq!(one.rows[i].value.hilo, other.rows[i].value.hilo);
    }
    assert_ne!(one.rows[2].value.rlc(), other.rows[2].value.rlc());
    assert_eq!(one.rows[2].value.rlc().to_limbs(), [(1 << 15) + (2 << 31), 0, 0, 0]);
    assert_eq!(other.rows[2].value.rlc().to_limbs(), [1235346806916801, 0, 0, 0]);
}

#[test]
fn load_appends_to_the_rows_that_are_there() {
    let state = sample_state();
    let mut layouter = Layouter::new();
    let t = table();
    let _ = t.load(&state, &mut layouter, Fe::from_u64(2));
    let before = layouter.rows.clone();
    let (accounts, _) = t.load(&InitState::new(), &mut layouter, Fe::from_u64(2));
    assert!(accounts.is_empty());
    assert_eq!(layouter.rows.len(), before.len() + 1);
    assert_eq!(layouter.rows[..before.len()], before[..]);
    assert_eq!(layouter.rows[before.len()], before[0]);
}

#[test]
fn the_parts_of_a_triple_come_back_as_given() {
    let t = HiLoRlc::from(1u8, 2u8, 3u8);
    assert_eq!((t.hi(), t.lo(), t.rlc()), (1, 2, 3));
    assert_eq!(t.hilo, HiLo::from_hi_lo(1, 2));
    assert_eq!(HiLo::from_hi_lo(8u8, 9u8).hi(), 8);
    assert_eq!(HiLo::from_hi_lo(8u8, 9u8).lo(), 9);
}

#[test]
fn the_cells_of_a_row_come_in_the_order_of_the_columns() {
    let state = sample_state();
    let mut layouter = Layouter::new();
    let t = table();
    let (_, storages) = t.load(&state, &mut layouter, Fe::from_u64(2));
    let row = layouter.rows[5];
    let cells = t.row_cells(5, &row);
    let columns: Vec<usize> = cells.iter().map(|c| c.column.index).collect();
    assert_eq!(columns, vec![0, 1, 2, 3, 4, 5, 6, 7, 8]);
    assert!(cells.iter().all(|c| c.row == 5));
    assert_eq!(cells[0], storages[1].block_number);
    assert_eq!(cells[1], storages[1].address);
    assert_eq!(cells[2].value, Fe::zero());
    assert_eq!(cells[3], storages[1].slot.hi());
    assert_eq!(cells[4], storages[1].slot.lo());
    assert_eq!(cells[5], storages[1].slot.rlc());
    assert_eq!(cells[6], storages[1].value.hi());
    assert_eq!(cells[7], storages[1].value.lo());
    assert_eq!(cells[8], storages[1].value.rlc());
}

fn through_the_trait<A, H, P: Payload<A, H>>(
    rw: &Rw,
    ctx: &mut Context,
    rows: &mut Layouter,
) -> (P, A, H) {
    let entry = P::from_rw(rw, 7).unwrap().unwrap();
    let cells = entry.assign_axiom(ctx);
    let native = entry.assign_halo2(&table(), rows, Fe::from_u64(2));
    (entry, cells, native)
}

#[test]
fn both_kinds_of_entry_are_payloads() {
    let mut ctx = Context::new(Fe::from_u64(2));
    let mut rows = Layouter::new();
    let rw = Rw {
        address: Some(ALICE.to_word()),
        field_tag: Some(1),
        storage_key: Some(Word256::from_u64(4)),
        value: Word256::from_u64(9),
    };
    let (entry, cells, native): (AccountSubqueryResult, _, _) =
        through_the_trait(&rw, &mut ctx, &mut rows);
    assert_eq!(entry.subquery.field_idx, AccountFieldIdx::Balance);
    assert_eq!(entry.subquery.block_number, 7);
    assert_eq!(cells.value.rlc().index, 5);
    assert_eq!(native.value.lo().value, Fe::from_u64(9));
    assert_eq!(ctx.num_cells(), 6);
    let (entry, cells, native): (StorageSubqueryResult, _, _) =
        through_the_trait(&rw, &mut ctx, &mut rows);
    assert_eq!(entry.subquery.slot, Word256::from_u64(4));
    assert_eq!(cells.block_number.index, 6);
    assert_eq!(native.slot.lo().value, Fe::from_u64(4));
    assert_eq!(native.slot.lo().row, 1);
    assert_eq!(ctx.num_cells(), 14);
    assert_eq!(rows.rows.len(), 2);
    assert_eq!(rows.rows[0].field_tag, Fe::from_u64(2));
    assert_eq!(rows.rows[1].field_tag, Fe::zero());
}
