use zkevm_init_state::builder::{
    ConsistencyReport, ZkevmCircuitBuilder, ZkevmCircuitInput, ZkevmCircuitParams,
};
use zkevm_init_state::circuit::{new, CircuitError, Unsatisfied, ZkevmCircuit};
use zkevm_init_state::consistency::{reconcile_accounts, reconcile_storages};
use zkevm_init_state::context::{AssignedValue, Context};
use zkevm_init_state::field::Fe;
use zkevm_init_state::init_state::account::{
    AccountFieldIdx, AccountSubquery, AccountSubqueryResult, AxiomAccountPayload,
};
use zkevm_init_state::init_state::input::InitState;
use zkevm_init_state::init_state::storage::{
    AxiomStoragePayload, StorageSubquery, StorageSubqueryResult,
};
use zkevm_init_state::init_state::table::{InitStateTable, Layouter};
use zkevm_init_state::layout::ConstraintSystem;
use zkevm_init_state::promise::{
    PromiseCall, PromiseCaller, PromiseError, PromiseLoader, PromiseResult,
};
use zkevm_init_state::trace::{Block, ExtractError, Rw};
use zkevm_init_state::word::{Address, Word256};

const ALICE: Address = Address { hi: 0xaaaa_aaaa, lo: 0xaaaa_aaaa_aaaa_aaaa_aaaa_aaaa_aaaa_aaaa };

const BOB: Address = Address { hi: 0xbbbb_bbbb, lo: 0xbbbb_bbbb_bbbb_bbbb_bbbb_bbbb_bbbb_bbbb };

fn nonce_entry(addr: Address, value: u64) -> AccountSubqueryResult {
    AccountSubqueryResult {
        subquery: AccountSubquery {
            block_number: 19211974,
            addr,
            field_idx: AccountFieldIdx::Nonce,
        },
        value: Word256::from_u64(value),
    }
}

fn slot_entry(addr: Address, slot: u64, value: u64) -> StorageSubqueryResult {
    StorageSubqueryResult {
        subquery: StorageSubquery { block_number: 19211974, addr, slot: Word256::from_u64(slot) },
        value: Word256::from_u64(value),
    }
}

fn scenario_state() -> InitState {
    InitState { accounts: vec![nonce_entry(ALICE, 5)], storages: vec![slot_entry(ALICE, 0, 0)] }
}

fn account_result(entry: &AccountSubqueryResult, value: u64) -> PromiseResult {
    PromiseResult { call: PromiseCall::Account(entry.subquery), value: Word256::from_u64(value) }
}

fn storage_result(entry: &StorageSubqueryResult, value: u64) -> PromiseResult {
    PromiseResult { call: PromiseCall::Storage(entry.subquery), value: Word256::from_u64(value) }
}

fn circuit_with(state: InitState, capacity: usize) -> ZkevmCircuit {
    let mut circuit =
        ZkevmCircuit::new_from_params(ZkevmCircuitParams, Some(capacity), Some(capacity));
    circuit.feed_input(ZkevmCircuitInput { init_state: Some(state) });
    circuit
}

#[test]
fn matching_promise_results_give_a_satisfied_witness() {
    let state = scenario_state();
    let accounts = vec![account_result(&state.accounts[0], 5)];
    let storages = vec![storage_result(&state.storages[0], 0)];
    let mut circuit = circuit_with(state, 10);
    circuit.fulfill_promise_results(accounts.clone(), storages.clone()).unwrap();
    let witness = circuit.synthesize(Fe::from_u64(0x100)).unwrap();
    assert!(witness.is_satisfied());
    assert_eq!(witness.verify(), Ok(()));
    assert_eq!(witness.report, ConsistencyReport { account: None, storage: None });
    assert_eq!(witness.layouter.rows.len(), 3);
    assert_eq!(witness.layouter.rows[1].value.lo(), Fe::from_u64(5));
    assert_eq!(witness.layouter.rows[1].field_tag, Fe::from_u64(1));
    assert_eq!(witness.layouter.rows[2].field_tag, Fe::from_u64(0));
    assert_eq!(witness.account_rows, accounts);
    assert_eq!(witness.storage_rows, storages);
    assert!(circuit.get_public_instances().is_empty());
}

#[test]
fn a_promise_result_with_another_value_gives_an_unsatisfied_witness() {
    let state = scenario_state();
    let accounts = vec![account_result(&state.accounts[0], 6)];
    let storages = vec![storage_result(&state.storages[0], 0)];
    let mut circuit = circuit_with(state, 10);
    circuit.fulfill_promise_results(accounts, storages).unwrap();
    let witness = circuit.synthesize(Fe::from_u64(0x100)).unwrap();
    assert!(!witness.is_satisfied());
    assert_eq!(witness.verify(), Err(Unsatisfied));
    assert_eq!(witness.layouter.rows[1].value.lo(), Fe::from_u64(5));
    assert_eq!(witness.report, ConsistencyReport { account: None, storage: None });
    assert!(witness.ctx.first_violation().is_some());
}

#[test]
fn a_storage_result_with_another_value_gives_an_unsatisfied_witness() {
    let state = scenario_state();
    let accounts = vec![account_result(&state.accounts[0], 5)];
    let storages = vec![storage_result(&state.storages[0], 1)];
    let mut circuit = circuit_with(state, 10);
    circuit.fulfill_promise_results(accounts, storages).unwrap();
    let witness = circuit.synthesize(Fe::from_u64(0x100)).unwrap();
    assert!(!witness.is_satisfied());
}

#[test]
fn a_difference_in_the_high_half_alone_is_found() {
    let mut state = scenario_state();
    state.accounts[0].value = Word256 { hi: 1, lo: 5 };
    let accounts = vec![account_result(&state.accounts[0], 5)];
    let storages = vec![storage_result(&state.storages[0], 0)];
    let mut circuit = circuit_with(state, 10);
    circuit.fulfill_promise_results(accounts, storages).unwrap();
    let witness = circuit.synthesize(Fe::from_u64(0x100)).unwrap();
    assert!(!witness.is_satisfied());
}

#[test]
fn synthesis_without_input_fails() {
    let mut circuit = ZkevmCircuit::new_from_params(ZkevmCircuitParams, Some(1), Some(1));
    assert_eq!(circuit.synthesize(Fe::zero()).unwrap_err(), CircuitError::MissingInput);
    circuit.feed_input(ZkevmCircuitInput::dummy_from(ZkevmCircuitParams));
    assert!(ZkevmCircuitInput::default().init_state.is_none());
    assert_eq!(circuit.synthesize(Fe::zero()).unwrap_err(), CircuitError::MissingInput);
}

#[test]
fn an_entry_without_promise_result_ends_the_synthesis() {
    let state = scenario_state();
    let accounts = vec![account_result(&state.accounts[0], 5)];
    let mut circuit = circuit_with(state, 10);
    circuit.fulfill_promise_results(accounts, vec![]).unwrap();
    assert_eq!(
        circuit.synthesize(Fe::zero()).unwrap_err(),
        CircuitError::Promise(PromiseError::NotCovered)
    );
}

#[test]
fn a_state_with_as_many_distinct_entries_as_rows_is_synthesized() {
    let state = InitState {
        accounts: vec![nonce_entry(ALICE, 5), nonce_entry(BOB, 6), nonce_entry(ALICE, 5)],
        storages: vec![],
    };
    let accounts =
        vec![account_result(&state.accounts[0], 5), account_result(&state.accounts[1], 6)];
    let mut circuit = circuit_with(state, 2);
    circuit.fulfill_promise_results(accounts.clone(), vec![]).unwrap();
    let witness = circuit.synthesize(Fe::from_u64(7)).unwrap();
    assert!(witness.is_satisfied());
    assert_eq!(witness.account_rows, accounts);
    assert_eq!(witness.layouter.rows.len(), 4);
}

#[test]
fn a_state_with_more_distinct_entries_than_rows_is_refused() {
    let carol = Address { hi: 1, lo: 1 };
    let state = InitState {
        accounts: vec![nonce_entry(ALICE, 5), nonce_entry(BOB, 6), nonce_entry(carol, 7)],
        storages: vec![],
    };
    let accounts =
        vec![account_result(&state.accounts[0], 5), account_result(&state.accounts[1], 6)];
    let mut circuit = circuit_with(state, 2);
    circuit.fulfill_promise_results(accounts, vec![]).unwrap();
    assert_eq!(
        circuit.synthesize(Fe::from_u64(7)).unwrap_err(),
        CircuitError::Promise(PromiseError::CapacityExceeded)
    );
}

#[test]
fn more_results_than_rows_are_refused_by_the_circuit() {
    let state = scenario_state();
    let accounts =
        vec![account_result(&state.accounts[0], 5), account_result(&state.accounts[0], 5)];
    let mut circuit = circuit_with(state, 1);
    assert_eq!(
        circuit.fulfill_promise_results(accounts, vec![]),
        Err(PromiseError::CapacityExceeded)
    );
}

#[test]
fn a_kind_without_component_is_unsupported() {
    let state = scenario_state();
    let accounts = vec![account_result(&state.accounts[0], 5)];
    let mut circuit = ZkevmCircuit::new_from_params(ZkevmCircuitParams, Some(4), None);
    circuit.feed_input(ZkevmCircuitInput { init_state: Some(state) });
    circuit.fulfill_promise_results(accounts, vec![]).unwrap();
    assert_eq!(
        circuit.synthesize(Fe::zero()).unwrap_err(),
        CircuitError::Promise(PromiseError::UnsupportedComponent)
    );
}

#[test]
fn two_entries_for_one_key_with_two_values_cannot_both_be_met() {
    let state = InitState {
        accounts: vec![],
        storages: vec![slot_entry(ALICE, 1, 10), slot_entry(ALICE, 1, 11)],
    };
    let storages =
        vec![storage_result(&state.storages[0], 10), storage_result(&state.storages[1], 11)];
    let mut circuit = circuit_with(state, 4);
    circuit.fulfill_promise_results(vec![], storages).unwrap();
    let witness = circuit.synthesize(Fe::zero()).unwrap();
    assert!(!witness.is_satisfied());
    assert_eq!(witness.storage_rows.len(), 1);
    assert_eq!(witness.storage_rows[0].value, Word256::from_u64(11));
}

fn phase0(state: &InitState) -> (Context, Vec<AxiomAccountPayload>, Vec<AxiomStoragePayload>) {
    let accounts: Vec<PromiseResult> = state
        .accounts
        .iter()
        .map(|a| PromiseResult { call: PromiseCall::Account(a.subquery), value: a.value })
        .collect();
    let storages: Vec<PromiseResult> = state
        .storages
        .iter()
        .map(|s| PromiseResult { call: PromiseCall::Storage(s.subquery), value: s.value })
        .collect();
    let mut account_loader = PromiseLoader::new_for_one_shard(10);
    account_loader.fulfill(accounts).unwrap();
    let mut storage_loader = PromiseLoader::new_for_one_shard(10);
    storage_loader.fulfill(storages).unwrap();
    let mut caller = PromiseCaller::new(Some(account_loader), Some(storage_loader));
    let mut ctx = Context::new(Fe::from_u64(0x100));
    let a = state.make_account_promise_calls(&mut ctx, &mut caller).unwrap();
    let s = state.make_storage_promise_calls(&mut ctx, &mut caller).unwrap();
    (ctx, a, s)
}

fn table() -> InitStateTable {
    let mut meta = ConstraintSystem::new();
    InitStateTable::construct(&mut meta)
}

#[test]
fn a_table_in_the_order_of_the_calls_is_reconciled() {
    let state = InitState {
        accounts: vec![nonce_entry(ALICE, 5), nonce_entry(BOB, 6)],
        storages: vec![slot_entry(ALICE, 0, 0), slot_entry(BOB, 1, 2)],
    };
    let (mut ctx, a, s) = phase0(&state);
    assert!(ctx.is_satisfied());
    let mut layouter = Layouter::new();
    let (na, ns) = table().load(&state, &mut layouter, Fe::from_u64(0x100));
    assert_eq!(reconcile_accounts(&mut ctx, &a, &na), None);
    assert_eq!(reconcile_storages(&mut ctx, &s, &ns), None);
    assert!(ctx.is_satisfied());
    assert!(ctx.copies_hold());
    assert_eq!(ctx.first_violation(), None);
}

#[test]
fn a_table_in_another_order_than_the_calls_is_not_reconciled() {
    let state = InitState {
        accounts: vec![nonce_entry(ALICE, 5), nonce_entry(BOB, 6)],
        storages: vec![slot_entry(ALICE, 0, 0)],
    };
    let permuted = InitState {
        accounts: vec![nonce_entry(BOB, 6), nonce_entry(ALICE, 5)],
        storages: vec![slot_entry(ALICE, 0, 0)],
    };
    let (mut ctx, a, s) = phase0(&state);
    let mut layouter = Layouter::new();
    let (na, ns) = table().load(&permuted, &mut layouter, Fe::from_u64(0x100));
    assert_eq!(reconcile_accounts(&mut ctx, &a, &na), Some(0));
    assert_eq!(reconcile_storages(&mut ctx, &s, &ns), None);
    assert!(!ctx.is_satisfied());
    assert!(ctx.copies_hold());
}

#[test]
fn the_first_broken_link_is_reported() {
    let state = InitState {
        accounts: vec![nonce_entry(ALICE, 5), nonce_entry(BOB, 6), nonce_entry(ALICE, 7)],
        storages: vec![slot_entry(ALICE, 0, 0), slot_entry(ALICE, 1, 1)],
    };
    let other = InitState {
        accounts: vec![nonce_entry(ALICE, 5), nonce_entry(ALICE, 7), nonce_entry(BOB, 6)],
        storages: vec![slot_entry(ALICE, 0, 0), slot_entry(ALICE, 2, 1)],
    };
    let (mut ctx, a, s) = phase0(&state);
    let mut layouter = Layouter::new();
    let (na, ns) = table().load(&other, &mut layouter, Fe::from_u64(0x100));
    assert_eq!(reconcile_accounts(&mut ctx, &a, &na), Some(1));
    assert_eq!(reconcile_storages(&mut ctx, &s, &ns), Some(1));
    assert!(!ctx.is_satisfied());
}

#[test]
fn the_challenge_of_the_table_plays_no_part_in_the_links() {
    let state = scenario_state();
    let (mut ctx, a, s) = phase0(&state);
    let mut layouter = Layouter::new();
    let (na, ns) = table().load(&state, &mut layouter, Fe::from_u64(3));
    assert_eq!(reconcile_accounts(&mut ctx, &a, &na), None);
    assert_eq!(reconcile_storages(&mut ctx, &s, &ns), None);
    assert!(ctx.is_satisfied());
}

#[test]
fn lists_of_different_length_are_walked_as_far_as_both_reach() {
    let state = InitState {
        accounts: vec![nonce_entry(ALICE, 5), nonce_entry(BOB, 6)],
        storages: vec![],
    };
    let shorter = InitState { accounts: vec![nonce_entry(ALICE, 5)], storages: vec![] };
    let (mut ctx, a, _) = phase0(&state);
    let mut layouter = Layouter::new();
    let (na, _) = table().load(&shorter, &mut layouter, Fe::from_u64(0x100));
    let before = ctx.num_equalities();
    assert_eq!(reconcile_accounts(&mut ctx, &a, &na), None);
    assert_eq!(ctx.num_equalities(), before + 5);
    assert!(ctx.is_satisfied());
}

#[test]
fn phase_zero_assigns_the_cells_in_a_fixed_order() {
    let state = scenario_state();
    let (ctx, a, s) = phase0(&state);
    // account entry: six cells, then the two cells of the answer
    assert_eq!(a[0].block_number, AssignedValue { index: 0 });
    assert_eq!(a[0].address, AssignedValue { index: 1 });
    assert_eq!(a[0].field_idx, AssignedValue { index: 2 });
    assert_eq!(a[0].value.lo(), AssignedValue { index: 3 });
    assert_eq!(a[0].value.hi(), AssignedValue { index: 4 });
    assert_eq!(a[0].value.rlc(), AssignedValue { index: 5 });
    // storage entry: eight cells after those
    assert_eq!(s[0].block_number, AssignedValue { index: 8 });
    assert_eq!(s[0].address, AssignedValue { index: 9 });
    assert_eq!(s[0].slot.lo(), AssignedValue { index: 10 });
    assert_eq!(s[0].slot.hi(), AssignedValue { index: 11 });
    assert_eq!(s[0].slot.rlc(), AssignedValue { index: 12 });
    assert_eq!(s[0].value.lo(), AssignedValue { index: 13 });
    assert_eq!(s[0].value.hi(), AssignedValue { index: 14 });
    assert_eq!(s[0].value.rlc(), AssignedValue { index: 15 });
    assert_eq!(ctx.num_cells(), 18);
    assert_eq!(ctx.num_equalities(), 4);
    assert_eq!(ctx.value(&a[0].block_number), Fe::from_u64(19211974));
    assert_eq!(ctx.value(&a[0].address), ALICE.to_scalar());
    assert_eq!(ctx.value(&a[0].field_idx), Fe::from_u64(1));
    assert_eq!(ctx.value(&a[0].value.lo()), Fe::from_u64(5));
    assert_eq!(ctx.value(&a[0].value.hi()), Fe::zero());
    assert_eq!(ctx.value(&a[0].value.rlc()).to_limbs(), [0, 0, 0, 0x0500000000000000]);
    assert_eq!(ctx.challenge(), Fe::from_u64(0x100));
}

#[test]
fn the_builder_runs_its_phases_in_order() {
    let state = scenario_state();
    let mut meta = ConstraintSystem::new();
    let params = ZkevmCircuitParams;
    let config = ZkevmCircuitBuilder::configure_with_params(&mut meta, params);
    assert_eq!(meta.num_advice_columns, 9);
    let mut builder = ZkevmCircuitBuilder::new(params);
    assert_eq!(builder.get_params(), params);
    assert_eq!(builder.calculate_params(), params);
    assert_eq!(params.get_output_params(), vec![1]);
    assert_eq!(ZkevmCircuitParams::default(), params);
    let mut ctx = Context::new(Fe::from_u64(2));
    // phase 1 before phase 0 does nothing
    let report = builder.virtual_assign_phase1(&mut ctx);
    assert_eq!(report, ConsistencyReport { account: None, storage: None });
    assert_eq!(ctx.num_cells(), 0);

    let mut account_loader = PromiseLoader::new_for_one_shard(1);
    account_loader.fulfill(vec![account_result(&state.accounts[0], 5)]).unwrap();
    let mut storage_loader = PromiseLoader::new_for_one_shard(1);
    storage_loader.fulfill(vec![storage_result(&state.storages[0], 0)]).unwrap();
    let mut caller = PromiseCaller::new(Some(account_loader), Some(storage_loader));
    builder.feed_input(ZkevmCircuitInput { init_state: Some(state) });
    let output = builder.virtual_assign_phase0(&mut ctx, &mut caller).unwrap();
    assert!(output.public_instances.is_empty());
    let mut layouter = Layouter::new();
    builder.raw_synthesize_phase0(&config, &mut layouter, Fe::from_u64(2));
    assert_eq!(layouter.rows.len(), 3);
    let report = builder.virtual_assign_phase1(&mut ctx);
    assert_eq!(report, ConsistencyReport { account: None, storage: None });
    builder.raw_synthesize_phase1(&config, &mut layouter);
    assert_eq!(layouter.rows.len(), 3);
    assert!(ctx.is_satisfied());
    assert_eq!(ctx.num_cells(), 18 + 6 + 8);
    assert_eq!(ctx.num_equalities(), 4 + 5 + 6);
}

fn account_rw(addr: Address, tag: u64, value: u64) -> Rw {
    Rw {
        address: Some(addr.to_word()),
        field_tag: Some(tag),
        storage_key: None,
        value: Word256::from_u64(value),
    }
}

fn storage_rw(addr: Address, slot: u64, value: u64) -> Rw {
    Rw {
        address: Some(addr.to_word()),
        field_tag: None,
        storage_key: Some(Word256::from_u64(slot)),
        value: Word256::from_u64(value),
    }
}

#[test]
fn the_circuit_of_a_trace_is_satisfied_by_its_own_state() {
    let block = Block {
        tx_block_numbers: vec![19211974],
        account_rws: vec![account_rw(ALICE, 0, 5), account_rw(BOB, 5, 0), account_rw(BOB, 1, 9)],
        storage_rws: vec![storage_rw(ALICE, 0, 0)],
    };
    let (k, mut circuit, instances) = new(&block).unwrap();
    assert_eq!(k, 19);
    assert_eq!(instances, vec![Vec::<Fe>::new()]);
    let witness = circuit.synthesize(Fe::from_u64(0x100)).unwrap();
    assert!(witness.is_satisfied());
    assert_eq!(witness.layouter.rows.len(), 4);
    assert_eq!(witness.account_rows.len(), 2);
    assert_eq!(witness.storage_rows.len(), 1);
}

#[test]
fn a_malformed_trace_gives_no_circuit() {
    let mut rw = account_rw(ALICE, 0, 5);
    rw.address = None;
    let block = Block { tx_block_numbers: vec![1], account_rws: vec![rw], storage_rws: vec![] };
    assert_eq!(new(&block).unwrap_err(), CircuitError::Extract(ExtractError::MissingAddress));
}

#[test]
fn a_trace_with_more_entries_than_rows_gives_no_circuit() {
    let account_rws: Vec<Rw> = (0..11).map(|i| account_rw(ALICE, 0, i)).collect();
    let block = Block { tx_block_numbers: vec![1], account_rws, storage_rws: vec![] };
    assert_eq!(
        new(&block).unwrap_err(),
        CircuitError::Promise(PromiseError::CapacityExceeded)
    );
    let account_rws: Vec<Rw> = (0..10).map(|_| account_rw(ALICE, 0, 3)).collect();
    let block = Block { tx_block_numbers: vec![1], account_rws, storage_rws: vec![] };
    let (_, mut circuit, _) = new(&block).unwrap();
    let witness = circuit.synthesize(Fe::zero()).unwrap();
    assert!(witness.is_satisfied());
    assert_eq!(witness.account_rows.len(), 1);
}
