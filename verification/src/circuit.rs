//! The composed circuit: the core builder together with the components that
//! answer its promise calls.

use crate::builder::{
    phase0_outcome, promises_agree, ConsistencyReport, ZkevmCircuitBuilder, ZkevmCircuitConfig,
    ZkevmCircuitInput, ZkevmCircuitParams,
};
use crate::consistency::{
    account_payloads_valid, lemma_account_links_positional, lemma_storage_links_positional,
    storage_payloads_valid,
};
use crate::context::Context;
use crate::field::Fe;
use crate::init_state::account::AccountSubqueryResult;
use crate::init_state::input::{account_agrees, storage_agrees, InitState};
use crate::init_state::storage::StorageSubqueryResult;
use crate::init_state::table::{rows_values, table_rows, Layouter, TableRow};
use crate::layout::ConstraintSystem;
use crate::promise::{
    shard_lookup, CallerView, ComponentTypeId, LoaderView, PromiseCall, PromiseCaller,
    PromiseError, PromiseLoader, PromiseResult,
};
use crate::trace::{Block, ExtractError};
use vstd::prelude::*;

verus! {

/// The exponent of the number of rows of the circuit.
pub const CIRCUIT_DEGREE: u32 = 19;

/// The number of rows of the component that answers account subqueries.
pub const ACCOUNT_CAPACITY: usize = 10;

/// The number of rows of the component that answers storage subqueries.
pub const STORAGE_CAPACITY: usize = 10;

/// Why a circuit cannot be built or its witness cannot be made.
#[derive(Clone, Copy, Debug, PartialEq, Eq, Structural)]
pub enum CircuitError {
    /// The trace is malformed.
    Extract(ExtractError),
    /// A promise call was refused, or a component was handed more results
    /// than it has rows.
    Promise(PromiseError),
    /// No initial state was fed.
    MissingInput,
}

/// The witness of one proof instance.
#[derive(Debug)]
pub struct Witness {
    /// The arena with its constraints.
    pub ctx: Context,
    /// The rows of the native table.
    pub layouter: Layouter,
    /// The rows of the component that answers account subqueries: one for
    /// each distinct call.
    pub account_rows: Vec<PromiseResult>,
    /// The rows of the component that answers storage subqueries.
    pub storage_rows: Vec<PromiseResult>,
    /// The first broken link of each list, as phase 1 found them.
    pub report: ConsistencyReport,
}

/// The witness does not meet the constraints.
#[derive(Clone, Copy, Debug, PartialEq, Eq, Structural)]
pub struct Unsatisfied;

impl Witness {
    /// Whether the witness meets every constraint.
    pub fn is_satisfied(&self) -> (r: bool)
        requires
            self.ctx@.wf(),
        ensures
            r == self.ctx@.satisfied(),
    {
        self.ctx.is_satisfied()
    }

    /// Checks the constraints; a failure names no entry.
    pub fn verify(&self) -> (r: Result<(), Unsatisfied>)
        requires
            self.ctx@.wf(),
        ensures
            r is Ok <==> self.ctx@.satisfied(),
    {
        if self.ctx.is_satisfied() {
            Ok(())
        } else {
            Err(Unsatisfied)
        }
    }
}

/// The rows of a component's table back the calls: there is one row for
/// each distinct call, in the order of the calls, with the answer that the
/// results give.
pub open spec fn rows_back_calls(rows: Seq<PromiseResult>, loader: Option<LoaderView>) -> bool {
    match loader {
        None => rows.len() == 0,
        Some(l) => rows.len() == l.issued.len() && rows.len() <= l.capacity && forall|i: int|
            0 <= i < rows.len() ==> (#[trigger] rows[i]).call == l.issued[i] && shard_lookup(
                l.results,
                l.issued[i],
            ) == Some(rows[i].value),
    }
}

/// The results promise an answer to the call, and the row holds the two
/// halves of that answer as the halves of its value.
pub open spec fn row_holds_promise(results: Seq<PromiseResult>, call: PromiseCall, row: TableRow)
    -> bool {
    shard_lookup(results, call) matches Some(answer) && row.value.hilo.hi@ == answer.hi
        && row.value.hilo.lo@ == answer.lo
}

/// The chain from the table to the promises. Where the components promise
/// for every entry of a state the value of the entry, as they do in every
/// satisfied witness, each row of the table that was loaded from the state
/// holds the value that the component promises for the entry of the row.
pub proof fn lemma_rows_hold_promises(
    state: InitState,
    caller: CallerView,
    rows: Seq<TableRow>,
    challenge: nat,
)
    requires
        rows_values(rows) == table_rows(state.accounts@, state.storages@, challenge),
        promises_agree(caller, state),
    ensures
        rows.len() == 1 + state.accounts@.len() + state.storages@.len(),
        forall|i: int|
            0 <= i < state.accounts@.len() ==> row_holds_promise(
                caller.results(ComponentTypeId::AccountSubquery),
                PromiseCall::Account(state.accounts@[i].subquery),
                #[trigger] rows[1 + i],
            ),
        forall|i: int|
            0 <= i < state.storages@.len() ==> row_holds_promise(
                caller.results(ComponentTypeId::StorageSubquery),
                PromiseCall::Storage(state.storages@[i].subquery),
                #[trigger] rows[1 + state.accounts@.len() + i],
            ),
{
    let expected = table_rows(state.accounts@, state.storages@, challenge);
    assert(rows.len() == rows_values(rows).len());
    assert forall|i: int| 0 <= i < state.accounts@.len() implies row_holds_promise(
        caller.results(ComponentTypeId::AccountSubquery),
        PromiseCall::Account(state.accounts@[i].subquery),
        #[trigger] rows[1 + i],
    ) by {
        assert(rows_values(rows)[1 + i] == rows[1 + i]@);
        assert(account_agrees(
            state.accounts@,
            caller.results(ComponentTypeId::AccountSubquery),
            i,
        ));
    }
    assert forall|i: int| 0 <= i < state.storages@.len() implies row_holds_promise(
        caller.results(ComponentTypeId::StorageSubquery),
        PromiseCall::Storage(state.storages@[i].subquery),
        #[trigger] rows[1 + state.accounts@.len() + i],
    ) by {
        let k = 1 + state.accounts@.len() + i;
        assert(rows_values(rows)[k] == rows[k]@);
        assert(storage_agrees(
            state.storages@,
            caller.results(ComponentTypeId::StorageSubquery),
            i,
        ));
    }
}

/// The results that answer every entry of a state with the entry's own
/// value: the account entries as results.
pub open spec fn account_results_of(state: InitState) -> Seq<PromiseResult> {
    Seq::new(
        state.accounts@.len(),
        |i: int|
            PromiseResult {
                call: PromiseCall::Account(state.accounts@[i].subquery),
                value: state.accounts@[i].value,
            },
    )
}

/// The storage entries of a state as results.
pub open spec fn storage_results_of(state: InitState) -> Seq<PromiseResult> {
    Seq::new(
        state.storages@.len(),
        |i: int|
            PromiseResult {
                call: PromiseCall::Storage(state.storages@[i].subquery),
                value: state.storages@[i].value,
            },
    )
}

fn account_results(accounts: &Vec<AccountSubqueryResult>) -> (r: Vec<PromiseResult>)
    ensures
        r@.len() == accounts@.len(),
        forall|i: int|
            0 <= i < r@.len() ==> #[trigger] r@[i] == (PromiseResult {
                call: PromiseCall::Account(accounts@[i].subquery),
                value: accounts@[i].value,
            }),
{
    let mut results: Vec<PromiseResult> = Vec::new();
    let mut i: usize = 0;
    while i < accounts.len()
        invariant
            i <= accounts.len(),
            results@.len() == i,
            forall|k: int|
                0 <= k < i ==> #[trigger] results@[k] == (PromiseResult {
                    call: PromiseCall::Account(accounts@[k].subquery),
                    value: accounts@[k].value,
                }),
        decreases accounts.len() - i,
    {
        results.push(
            PromiseResult {
                call: PromiseCall::Account(accounts[i].subquery),
                value: accounts[i].value,
            },
        );
        i = i + 1;
    }
    results
}

fn storage_results(storages: &Vec<StorageSubqueryResult>) -> (r: Vec<PromiseResult>)
    ensures
        r@.len() == storages@.len(),
        forall|i: int|
            0 <= i < r@.len() ==> #[trigger] r@[i] == (PromiseResult {
                call: PromiseCall::Storage(storages@[i].subquery),
                value: storages@[i].value,
            }),
{
    let mut results: Vec<PromiseResult> = Vec::new();
    let mut i: usize = 0;
    while i < storages.len()
        invariant
            i <= storages.len(),
            results@.len() == i,
            forall|k: int|
                0 <= k < i ==> #[trigger] results@[k] == (PromiseResult {
                    call: PromiseCall::Storage(storages@[k].subquery),
                    value: storages@[k].value,
                }),
        decreases storages.len() - i,
    {
        results.push(
            PromiseResult {
                call: PromiseCall::Storage(storages[i].subquery),
                value: storages[i].value,
            },
        );
        i = i + 1;
    }
    results
}

/// The core builder, its columns, and the registry of the components that
/// answer its promise calls.
#[derive(Debug)]
pub struct ZkevmCircuit {
    pub core: ZkevmCircuitBuilder,
    pub config: ZkevmCircuitConfig,
    pub promise_caller: PromiseCaller,
}

impl ZkevmCircuit {
    /// The loaders of the attached components are well formed.
    pub open spec fn wf(self) -> bool {
        self.promise_caller@.wf()
    }

    /// A circuit without input. A component is attached for each kind for
    /// which a capacity is given.
    pub fn new_from_params(
        params: ZkevmCircuitParams,
        account_capacity: Option<usize>,
        storage_capacity: Option<usize>,
    ) -> (r: ZkevmCircuit)
        ensures
            r.wf(),
            r.core.input.init_state is None,
            r.config.init_state_table.starts_at(0),
            match account_capacity {
                None => r.promise_caller@.account is None,
                Some(c) => r.promise_caller@.account == Some(
                    LoaderView { capacity: c as nat, results: Seq::empty(), issued: Seq::empty() },
                ),
            },
            match storage_capacity {
                None => r.promise_caller@.storage is None,
                Some(c) => r.promise_caller@.storage == Some(
                    LoaderView { capacity: c as nat, results: Seq::empty(), issued: Seq::empty() },
                ),
            },
    {
        let mut meta = ConstraintSystem::new();
        let config = ZkevmCircuitBuilder::configure_with_params(&mut meta, params);
        let account = match account_capacity {
            Some(c) => {
                let loader = PromiseLoader::new_for_one_shard(c);
                assert(loader@.results =~= Seq::empty());
                assert(loader@.issued =~= Seq::empty());
                Some(loader)
            },
            None => None,
        };
        let storage = match storage_capacity {
            Some(c) => {
                let loader = PromiseLoader::new_for_one_shard(c);
                assert(loader@.results =~= Seq::empty());
                assert(loader@.issued =~= Seq::empty());
                Some(loader)
            },
            None => None,
        };
        ZkevmCircuit {
            core: ZkevmCircuitBuilder::new(params),
            config,
            promise_caller: PromiseCaller::new(account, storage),
        }
    }

    /// Replaces the input of the core.
    pub fn feed_input(&mut self, input: ZkevmCircuitInput)
        ensures
            final(self).core.input == input,
            final(self).config == old(self).config,
            final(self).promise_caller == old(self).promise_caller,
    {
        self.core.feed_input(input);
    }

    /// The caller after the components took their results: each attached
    /// component holds its list and has no calls on record.
    pub open spec fn spec_fulfilled(
        caller: CallerView,
        account: Seq<PromiseResult>,
        storage: Seq<PromiseResult>,
    ) -> CallerView {
        CallerView {
            account: match caller.account {
                None => None,
                Some(l) => Some(
                    LoaderView { capacity: l.capacity, results: account, issued: Seq::empty() },
                ),
            },
            storage: match caller.storage {
                None => None,
                Some(l) => Some(
                    LoaderView { capacity: l.capacity, results: storage, issued: Seq::empty() },
                ),
            },
        }
    }

    /// Whether each attached component has rows for the list it is handed.
    pub open spec fn spec_results_fit(
        caller: CallerView,
        account: Seq<PromiseResult>,
        storage: Seq<PromiseResult>,
    ) -> bool {
        &&& caller.account matches Some(l) ==> account.len() <= l.capacity
        &&& caller.storage matches Some(l) ==> storage.len() <= l.capacity
    }

    /// Hands each attached component its results. A list for a kind without
    /// a component is dropped. A list longer than its component has rows is
    /// refused, and then nothing changes.
    pub fn fulfill_promise_results(
        &mut self,
        account: Vec<PromiseResult>,
        storage: Vec<PromiseResult>,
    ) -> (r: Result<(), PromiseError>)
        requires
            old(self).wf(),
        ensures
            final(self).core == old(self).core,
            final(self).config == old(self).config,
            final(self).wf(),
            r is Ok <==> Self::spec_results_fit(old(self).promise_caller@, account@, storage@),
            r matches Err(e) ==> e == PromiseError::CapacityExceeded,
            r is Err ==> final(self).promise_caller@ == old(self).promise_caller@,
            r is Ok ==> final(self).promise_caller@ == Self::spec_fulfilled(
                old(self).promise_caller@,
                account@,
                storage@,
            ),
    {
        let account_fits = match &self.promise_caller.account {
            Some(loader) => account.len() <= loader.capacity(),
            None => true,
        };
        let storage_fits = match &self.promise_caller.storage {
            Some(loader) => storage.len() <= loader.capacity(),
            None => true,
        };
        if !(account_fits && storage_fits) {
            return Err(PromiseError::CapacityExceeded);
        }
        match self.promise_caller.account.take() {
            Some(loader) => {
                let mut loader = loader;
                let _ = loader.fulfill(account);
                self.promise_caller.account = Some(loader);
            },
            None => {},
        }
        match self.promise_caller.storage.take() {
            Some(loader) => {
                let mut loader = loader;
                let _ = loader.fulfill(storage);
                self.promise_caller.storage = Some(loader);
            },
            None => {},
        }
        Ok(())
    }

    /// The public instances of the core: it has none.
    pub fn get_public_instances(&self) -> (r: Vec<Fe>)
        ensures
            r@.len() == 0,
    {
        Vec::new()
    }

    /// Makes the witness of the circuit under `challenge`: phase 0 on a new
    /// arena, the native table, phase 1, and then the rows of each attached
    /// component. A refused promise call ends the run. The witness meets its
    /// constraints exactly when the components promise, for every entry of
    /// the input, the value that the entry holds.
    pub fn synthesize(&mut self, challenge: Fe) -> (r: Result<Witness, CircuitError>)
        requires
            old(self).wf(),
        ensures
            final(self).wf(),
            final(self).core.input == old(self).core.input,
            final(self).config == old(self).config,
            match old(self).core.input.init_state {
                None => r matches Err(e) && e == CircuitError::MissingInput,
                Some(state) => match phase0_outcome(old(self).promise_caller@, state) {
                    Err(e) => r matches Err(f) && f == CircuitError::Promise(e),
                    Ok(caller) => {
                        &&& r matches Ok(witness)
                        &&& final(self).promise_caller@ == caller
                        &&& witness.ctx@.wf()
                        &&& witness.ctx@.challenge == challenge
                        &&& witness.ctx@.satisfied() <==> promises_agree(
                            old(self).promise_caller@,
                            state,
                        )
                        &&& rows_values(witness.layouter.rows@) == table_rows(
                            state.accounts@,
                            state.storages@,
                            challenge@,
                        )
                        &&& witness.report.account is None
                        &&& witness.report.storage is None
                        &&& rows_back_calls(witness.account_rows@, caller.account)
                        &&& rows_back_calls(witness.storage_rows@, caller.storage)
                    },
                },
            },
    {
        if self.core.input.init_state.is_none() {
            return Err(CircuitError::MissingInput);
        }
        let ghost state = self.core.input.init_state->0;
        let mut ctx = Context::new(challenge);
        let mut layouter = Layouter::new();
        match self.core.virtual_assign_phase0(&mut ctx, &mut self.promise_caller) {
            Err(e) => {
                return Err(CircuitError::Promise(e));
            },
            Ok(_) => {},
        }
        let ghost after_phase0 = ctx@;
        self.core.raw_synthesize_phase0(&self.config, &mut layouter, challenge);
        proof {
            assert(layouter.rows@.subrange(0, layouter.rows@.len() as int) =~= layouter.rows@);
            let cells = self.core.axiom_payload->0;
            assert(account_payloads_valid(after_phase0, cells.0@));
            assert(storage_payloads_valid(after_phase0, cells.1@));
        }
        let report = self.core.virtual_assign_phase1(&mut ctx);
        proof {
            let cells = self.core.axiom_payload->0;
            let native = self.core.halo2_payload->0;
            let na = state.accounts@.len() as int;
            let ns = state.storages@.len() as int;
            lemma_account_links_positional(
                after_phase0,
                cells.0@,
                state.accounts@,
                native.0@,
                self.config.init_state_table,
                layouter.rows@,
                1,
                state.accounts@,
                challenge@,
                na,
            );
            lemma_storage_links_positional(
                after_phase0,
                cells.1@,
                state.storages@,
                native.1@,
                self.config.init_state_table,
                layouter.rows@,
                1 + na,
                state.storages@,
                challenge@,
                ns,
            );
        }
        let account_rows = match &self.promise_caller.account {
            Some(loader) => loader.backing_rows(),
            None => Vec::new(),
        };
        let storage_rows = match &self.promise_caller.storage {
            Some(loader) => loader.backing_rows(),
            None => Vec::new(),
        };
        Ok(Witness { ctx, layouter, account_rows, storage_rows, report })
    }
}

/// The circuit for the trace of a block, ready for its witness: the degree,
/// the circuit with the initial state of the trace as input and as the
/// results of both components, and the public instances, of which there
/// is one empty column. A component has ten rows: a state with more
/// entries of one kind is refused.
pub fn new(block: &Block) -> (r: Result<(u32, ZkevmCircuit, Vec<Vec<Fe>>), CircuitError>)
    ensures
        match InitState::spec_build(*block) {
            Err(e) => r matches Err(f) && f == CircuitError::Extract(e),
            Ok((accounts, storages)) => if accounts.len() <= ACCOUNT_CAPACITY && storages.len()
                <= STORAGE_CAPACITY {
                &&& r matches Ok(built)
                &&& built.0 == CIRCUIT_DEGREE
                &&& built.1.wf()
                &&& built.1.core.input.init_state matches Some(state)
                &&& state.accounts@ == accounts
                &&& state.storages@ == storages
                &&& built.1.promise_caller@.account == Some(
                    LoaderView {
                        capacity: ACCOUNT_CAPACITY as nat,
                        results: account_results_of(state),
                        issued: Seq::empty(),
                    },
                )
                &&& built.1.promise_caller@.storage == Some(
                    LoaderView {
                        capacity: STORAGE_CAPACITY as nat,
                        results: storage_results_of(state),
                        issued: Seq::empty(),
                    },
                )
                &&& built.2@.len() == 1
                &&& built.2@[0]@.len() == 0
            } else {
                r matches Err(f) && f == CircuitError::Promise(PromiseError::CapacityExceeded)
            },
        },
{
    let state = match InitState::build_from_witness_block(block) {
        Ok(state) => state,
        Err(e) => {
            return Err(CircuitError::Extract(e));
        },
    };
    let mut circuit = ZkevmCircuit::new_from_params(
        ZkevmCircuitParams,
        Some(ACCOUNT_CAPACITY),
        Some(STORAGE_CAPACITY),
    );
    let accounts = account_results(&state.accounts);
    let storages = storage_results(&state.storages);
    proof {
        assert(accounts@ =~= account_results_of(state));
        assert(storages@ =~= storage_results_of(state));
    }
    circuit.feed_input(ZkevmCircuitInput { init_state: Some(state) });
    match circuit.fulfill_promise_results(accounts, storages) {
        Ok(()) => {},
        Err(e) => {
            return Err(CircuitError::Promise(e));
        },
    }
    let mut instances: Vec<Vec<Fe>> = Vec::new();
    instances.push(circuit.get_public_instances());
    Ok((CIRCUIT_DEGREE, circuit, instances))
}

} // verus!
