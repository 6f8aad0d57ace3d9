//! The core builder: the phases in which the initial state is assigned to
//! the arena, loaded into the native table and reconciled.

use crate::consistency::{
    account_cells_of, account_links_hold, account_payloads_valid, lemma_storage_links_stable,
    paired, reconcile_accounts, reconcile_storages, storage_cells_of, storage_links_hold,
    storage_payloads_valid,
};
use crate::context::{AssignedValue, Context, ContextView};
use crate::field::Fe;
use crate::init_state::account::{AxiomAccountPayload, Halo2AccountPayload};
use crate::init_state::input::{
    account_calls, account_payloads_hold, accounts_agree, storage_calls, storage_payloads_hold,
    storages_agree, InitState,
};
use crate::init_state::storage::{AxiomStoragePayload, Halo2StoragePayload};
use crate::init_state::table::{
    account_row, rows_values, storage_row, table_rows, InitStateTable, Layouter,
};
use crate::layout::ConstraintSystem;
use crate::promise::{
    lemma_resolve_all_keeps_results, CallerView, ComponentTypeId, PromiseCaller, PromiseError,
};
use vstd::prelude::*;

verus! {

/// The parameters of the core builder: it has none.
#[derive(Clone, Copy, Debug, PartialEq, Eq, Structural)]
pub struct ZkevmCircuitParams;

impl ZkevmCircuitParams {
    /// The shape of the builder's output: one table of one row.
    pub fn get_output_params(&self) -> (r: Vec<usize>)
        ensures
            r@ == seq![1usize],
    {
        let mut v: Vec<usize> = Vec::new();
        v.push(1);
        assert(v@ =~= seq![1usize]);
        v
    }
}

impl Default for ZkevmCircuitParams {
    fn default() -> (r: Self)
        ensures
            r == ZkevmCircuitParams,
    {
        ZkevmCircuitParams
    }
}

/// The private input of the circuit.
#[derive(Clone, Debug)]
pub struct ZkevmCircuitInput {
    pub init_state: Option<InitState>,
}

impl Default for ZkevmCircuitInput {
    fn default() -> (r: Self)
        ensures
            r.init_state is None,
    {
        ZkevmCircuitInput { init_state: None }
    }
}

impl ZkevmCircuitInput {
    /// The input that stands in before a real one is fed: no initial state.
    pub fn dummy_from(_seed: ZkevmCircuitParams) -> (r: ZkevmCircuitInput)
        ensures
            r.init_state is None,
    {
        ZkevmCircuitInput { init_state: None }
    }
}

/// The columns that the circuit occupies.
#[derive(Clone, Copy, Debug, PartialEq, Eq, Structural)]
pub struct ZkevmCircuitConfig {
    pub init_state_table: InitStateTable,
}

/// What the core hands to the component framework after phase 0. This core
/// publishes nothing.
#[derive(Clone, Debug)]
pub struct CoreBuilderOutput {
    pub public_instances: Vec<AssignedValue>,
}

/// Where phase 1 found the first broken link of each list, if any.
#[derive(Clone, Copy, Debug, PartialEq, Eq, Structural)]
pub struct ConsistencyReport {
    pub account: Option<usize>,
    pub storage: Option<usize>,
}

/// The outcome of the promise calls of phase 0: those of the account
/// entries, then those of the storage entries.
pub open spec fn phase0_outcome(caller: CallerView, state: InitState) -> Result<
    CallerView,
    PromiseError,
> {
    match caller.resolve_all(account_calls(state.accounts@)) {
        Err(e) => Err(e),
        Ok(next) => next.resolve_all(storage_calls(state.storages@)),
    }
}

/// The answers that the attached components promise are the values of the
/// entries, for every entry of the state.
pub open spec fn promises_agree(caller: CallerView, state: InitState) -> bool {
    &&& accounts_agree(state.accounts@, caller.results(ComponentTypeId::AccountSubquery))
    &&& storages_agree(state.storages@, caller.results(ComponentTypeId::StorageSubquery))
}

/// The core builder between its phases.
#[derive(Debug)]
pub struct ZkevmCircuitBuilder {
    pub input: ZkevmCircuitInput,
    /// The cells of phase 0, account entries and storage entries.
    pub axiom_payload: Option<(Vec<AxiomAccountPayload>, Vec<AxiomStoragePayload>)>,
    /// The cells of the native table, account entries and storage entries.
    pub halo2_payload: Option<(Vec<Halo2AccountPayload>, Vec<Halo2StoragePayload>)>,
}

impl ZkevmCircuitBuilder {
    pub fn new(_params: ZkevmCircuitParams) -> (r: ZkevmCircuitBuilder)
        ensures
            r.input.init_state is None,
            r.axiom_payload is None,
            r.halo2_payload is None,
    {
        ZkevmCircuitBuilder {
            input: ZkevmCircuitInput { init_state: None },
            axiom_payload: None,
            halo2_payload: None,
        }
    }

    pub fn get_params(&self) -> (r: ZkevmCircuitParams)
        ensures
            r == ZkevmCircuitParams,
    {
        ZkevmCircuitParams
    }

    pub fn calculate_params(&mut self) -> (r: ZkevmCircuitParams)
        ensures
            r == ZkevmCircuitParams,
            *final(self) == *old(self),
    {
        ZkevmCircuitParams
    }

    /// Lays out the columns of the circuit: the nine of the initial-state
    /// table.
    pub fn configure_with_params(meta: &mut ConstraintSystem, _params: ZkevmCircuitParams) -> (r:
        ZkevmCircuitConfig)
        requires
            old(meta).num_advice_columns + 9 <= usize::MAX,
        ensures
            r.init_state_table.starts_at(old(meta).num_advice_columns as int),
            final(meta).num_advice_columns == old(meta).num_advice_columns + 9,
    {
        let init_state_table = InitStateTable::construct(meta);
        ZkevmCircuitConfig { init_state_table }
    }

    /// Replaces the input. The cells of earlier phases stay as they are.
    pub fn feed_input(&mut self, input: ZkevmCircuitInput)
        ensures
            final(self).input == input,
            final(self).axiom_payload == old(self).axiom_payload,
            final(self).halo2_payload == old(self).halo2_payload,
    {
        self.input = input;
    }

    /// The cells of phase 0 are there, exist in the context and hold the
    /// values of the entries of the input.
    pub open spec fn phase0_done(self, ctx: ContextView) -> bool {
        &&& self.input.init_state matches Some(state)
        &&& self.axiom_payload matches Some(cells)
        &&& account_payloads_hold(ctx, cells.0@, state.accounts@)
        &&& storage_payloads_hold(ctx, cells.1@, state.storages@)
    }

    /// The cells of the native table are there: the rows from `base` on
    /// are a row of zeros, the rows of the account entries and the rows of
    /// the storage entries of the input.
    pub open spec fn table_loaded(
        self,
        config: ZkevmCircuitConfig,
        layouter: Layouter,
        base: int,
        randomness: nat,
    ) -> bool {
        &&& self.input.init_state matches Some(state)
        &&& self.halo2_payload matches Some(cells)
        &&& account_cells_of(
            cells.0@,
            config.init_state_table,
            layouter.rows@,
            base + 1,
            state.accounts@,
            randomness,
        )
        &&& storage_cells_of(
            cells.1@,
            config.init_state_table,
            layouter.rows@,
            base + 1 + state.accounts@.len(),
            state.storages@,
            randomness,
        )
    }

    /// Phase 0: every entry of the input is assigned to the arena and tied
    /// to the answer of its promise call, account entries first. The first
    /// refused call ends the phase with its refusal.
    pub fn virtual_assign_phase0(&mut self, ctx: &mut Context, promise_caller: &mut PromiseCaller) -> (r:
        Result<CoreBuilderOutput, PromiseError>)
        requires
            old(self).input.init_state is Some,
            old(ctx)@.wf(),
            old(promise_caller)@.wf(),
        ensures
            final(self).input == old(self).input,
            final(self).halo2_payload == old(self).halo2_payload,
            final(ctx)@.wf(),
            final(promise_caller)@.wf(),
            final(ctx)@.extends(old(ctx)@),
            final(ctx)@.copies == old(ctx)@.copies,
            match phase0_outcome(old(promise_caller)@, old(self).input.init_state->0) {
                Err(e) => r matches Err(f) && f == e && final(self).axiom_payload
                    == old(self).axiom_payload,
                Ok(caller) => {
                    &&& r matches Ok(output)
                    &&& output.public_instances@.len() == 0
                    &&& final(promise_caller)@ == caller
                    &&& final(self).phase0_done(final(ctx)@)
                    &&& final(ctx)@.satisfied() <==> old(ctx)@.satisfied() && promises_agree(
                        old(promise_caller)@,
                        old(self).input.init_state->0,
                    )
                },
            },
    {
        let ghost caller0 = promise_caller@;
        let ghost start = ctx@;
        let state = self.input.init_state.as_ref().unwrap();
        proof {
            lemma_resolve_all_keeps_results(caller0, account_calls(state.accounts@));
        }
        let account_cells = match state.make_account_promise_calls(ctx, promise_caller) {
            Ok(cells) => cells,
            Err(e) => {
                return Err(e);
            },
        };
        let ghost mid = ctx@;
        let storage_cells = match state.make_storage_promise_calls(ctx, promise_caller) {
            Ok(cells) => cells,
            Err(e) => {
                assert(ctx@.extends(start));
                return Err(e);
            },
        };
        proof {
            assert(ctx@.extends(start));
            assert(account_payloads_hold(ctx@, account_cells@, state.accounts@)) by {
                assert(account_payloads_hold(mid, account_cells@, state.accounts@));
                assert(ctx@.extends(mid));
            }
        }
        self.axiom_payload = Some((account_cells, storage_cells));
        Ok(CoreBuilderOutput { public_instances: Vec::new() })
    }

    /// The native part of phase 0: the table is loaded from the input, every
    /// random linear combination under the one `randomness`.
    pub fn raw_synthesize_phase0(
        &mut self,
        config: &ZkevmCircuitConfig,
        layouter: &mut Layouter,
        randomness: Fe,
    )
        requires
            old(self).input.init_state is Some,
        ensures
            final(self).input == old(self).input,
            final(self).axiom_payload == old(self).axiom_payload,
            final(layouter).rows@.len() == old(layouter).rows@.len() + 1 + old(
                self,
            ).input.init_state->0.accounts@.len() + old(self).input.init_state->0.storages@.len(),
            final(layouter).rows@.subrange(0, old(layouter).rows@.len() as int) == old(
                layouter,
            ).rows@,
            rows_values(
                final(layouter).rows@.subrange(
                    old(layouter).rows@.len() as int,
                    final(layouter).rows@.len() as int,
                ),
            ) == table_rows(
                old(self).input.init_state->0.accounts@,
                old(self).input.init_state->0.storages@,
                randomness@,
            ),
            final(self).table_loaded(
                *config,
                *final(layouter),
                old(layouter).rows@.len() as int,
                randomness@,
            ),
    {
        let ghost base = layouter.rows@.len() as int;
        let state = self.input.init_state.as_ref().unwrap();
        let cells = config.init_state_table.load(state, layouter, randomness);
        proof {
            let state = self.input.init_state->0;
            let rows = layouter.rows@;
            let added = rows.subrange(base, rows.len() as int);
            let expected = table_rows(state.accounts@, state.storages@, randomness@);
            assert forall|i: int| 0 <= i < state.accounts@.len() implies rows[base + 1 + i]@
                == account_row(state.accounts@[i], randomness@) by {
                assert(added[1 + i] == rows[base + 1 + i]);
                assert(rows_values(added)[1 + i] == expected[1 + i]);
            }
            assert forall|i: int| 0 <= i < state.storages@.len() implies rows[base + 1
                + state.accounts@.len() + i]@ == storage_row(state.storages@[i], randomness@) by {
                let k = 1 + state.accounts@.len() + i;
                assert(added[k] == rows[base + k]);
                assert(rows_values(added)[k] == expected[k]);
            }
        }
        self.halo2_payload = Some(cells);
    }

    /// Phase 1: where phase 0 has run, the cells of the native table are
    /// imported into the arena and tied to the cells of phase 0, entry by
    /// entry and by position, as far as both lists reach. Reports the first
    /// broken link of each list.
    pub fn virtual_assign_phase1(&mut self, ctx: &mut Context) -> (r: ConsistencyReport)
        requires
            old(ctx)@.wf(),
            old(self).axiom_payload matches Some(cells) ==> old(self).halo2_payload is Some
                && account_payloads_valid(old(ctx)@, cells.0@) && storage_payloads_valid(
                old(ctx)@,
                cells.1@,
            ),
        ensures
            *final(self) == *old(self),
            final(ctx)@.wf(),
            final(ctx)@.extends(old(ctx)@),
            match old(self).axiom_payload {
                None => final(ctx)@ == old(ctx)@ && r.account is None && r.storage is None,
                Some(cells) => {
                    let native = old(self).halo2_payload->0;
                    let accounts = paired(cells.0@.len() as int, native.0@.len() as int);
                    let storages = paired(cells.1@.len() as int, native.1@.len() as int);
                    &&& final(ctx)@.satisfied() == (old(ctx)@.satisfied() && account_links_hold(
                        old(ctx)@,
                        cells.0@,
                        native.0@,
                        accounts,
                    ) && storage_links_hold(old(ctx)@, cells.1@, native.1@, storages))
                    &&& r.account is None == account_links_hold(
                        old(ctx)@,
                        cells.0@,
                        native.0@,
                        accounts,
                    )
                    &&& r.storage is None == storage_links_hold(
                        old(ctx)@,
                        cells.1@,
                        native.1@,
                        storages,
                    )
                    &&& r.account matches Some(k) ==> k < accounts && account_links_hold(
                        old(ctx)@,
                        cells.0@,
                        native.0@,
                        k as int,
                    )
                    &&& r.storage matches Some(k) ==> k < storages && storage_links_hold(
                        old(ctx)@,
                        cells.1@,
                        native.1@,
                        k as int,
                    )
                },
            },
    {
        let ghost start = ctx@;
        match (&self.axiom_payload, &self.halo2_payload) {
            (Some(cells), Some(native)) => {
                let account = reconcile_accounts(ctx, &cells.0, &native.0);
                let ghost mid = ctx@;
                proof {
                    lemma_storage_links_stable(start, mid, cells.1@, native.1@);
                }
                let storage = reconcile_storages(ctx, &cells.1, &native.1);
                ConsistencyReport { account, storage }
            },
            _ => ConsistencyReport { account: None, storage: None },
        }
    }

    /// The native part of phase 1: nothing is assigned.
    pub fn raw_synthesize_phase1(&mut self, _config: &ZkevmCircuitConfig, _layouter: &mut Layouter)
        ensures
            *final(self) == *old(self),
            *final(_layouter) == *old(_layouter),
    {
    }
}

} // verus!
