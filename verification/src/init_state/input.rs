//! The initial state as an ordered list of subquery results, and its
//! extraction from a trace.

use crate::context::{Context, ContextView};
use crate::field::lemma_view_injective;
use crate::init_state::account::{
    account_handles, account_payload_values, axiom_account_payload_in,
    axiom_account_payload_valid, AccountSubqueryResult, AxiomAccountPayload,
};
use crate::init_state::storage::{
    axiom_storage_payload_in, axiom_storage_payload_valid, storage_handles,
    storage_payload_values, AxiomStoragePayload, StorageSubqueryResult,
};
use crate::promise::{
    lemma_resolve_all_fails, lemma_resolve_all_keeps_results, shard_lookup, CallerView,
    ComponentTypeId, PromiseCall, PromiseCaller, PromiseError, PromiseResult,
};
use crate::trace::{spec_block_number, Block, ExtractError, Rw};
use vstd::prelude::*;

verus! {

/// The account entries and the storage entries of one transaction, each list
/// in trace order. Nothing is deduplicated: a key that the trace touches
/// twice has two entries.
#[derive(Clone, Debug)]
pub struct InitState {
    pub accounts: Vec<AccountSubqueryResult>,
    pub storages: Vec<StorageSubqueryResult>,
}

/// The account entries of a list of account records: the records are taken
/// in order, those that select no covered field are skipped, and the first
/// malformed record fails the whole list.
pub open spec fn extract_accounts(rws: Seq<Rw>, block_number: u64) -> Result<
    Seq<AccountSubqueryResult>,
    ExtractError,
>
    decreases rws.len(),
{
    if rws.len() == 0 {
        Ok(Seq::empty())
    } else {
        match extract_accounts(rws.drop_last(), block_number) {
            Err(e) => Err(e),
            Ok(entries) => match AccountSubqueryResult::spec_from_rw(rws.last(), block_number) {
                Err(e) => Err(e),
                Ok(None) => Ok(entries),
                Ok(Some(entry)) => Ok(entries.push(entry)),
            },
        }
    }
}

/// The storage entries of a list of storage records: one per record, in
/// order; the first malformed record fails the whole list.
pub open spec fn extract_storages(rws: Seq<Rw>, block_number: u64) -> Result<
    Seq<StorageSubqueryResult>,
    ExtractError,
>
    decreases rws.len(),
{
    if rws.len() == 0 {
        Ok(Seq::empty())
    } else {
        match extract_storages(rws.drop_last(), block_number) {
            Err(e) => Err(e),
            Ok(entries) => match StorageSubqueryResult::spec_from_rw(rws.last(), block_number) {
                Err(e) => Err(e),
                Ok(None) => Ok(entries),
                Ok(Some(entry)) => Ok(entries.push(entry)),
            },
        }
    }
}

/// A failure among the first records is the failure of the whole list.
pub proof fn lemma_extract_accounts_fails(rws: Seq<Rw>, k: int, block_number: u64)
    requires
        0 <= k <= rws.len(),
        extract_accounts(rws.subrange(0, k), block_number) is Err,
    ensures
        extract_accounts(rws, block_number) == extract_accounts(rws.subrange(0, k), block_number),
    decreases rws.len(),
{
    if k == rws.len() {
        assert(rws.subrange(0, k) =~= rws);
    } else {
        assert(rws.drop_last().subrange(0, k) =~= rws.subrange(0, k));
        lemma_extract_accounts_fails(rws.drop_last(), k, block_number);
    }
}

/// A failure among the first records is the failure of the whole list.
pub proof fn lemma_extract_storages_fails(rws: Seq<Rw>, k: int, block_number: u64)
    requires
        0 <= k <= rws.len(),
        extract_storages(rws.subrange(0, k), block_number) is Err,
    ensures
        extract_storages(rws, block_number) == extract_storages(rws.subrange(0, k), block_number),
    decreases rws.len(),
{
    if k == rws.len() {
        assert(rws.subrange(0, k) =~= rws);
    } else {
        assert(rws.drop_last().subrange(0, k) =~= rws.subrange(0, k));
        lemma_extract_storages_fails(rws.drop_last(), k, block_number);
    }
}

/// Every storage record gives one entry: a list without a malformed record
/// gives as many entries as it has records.
pub proof fn lemma_extract_storages_len(rws: Seq<Rw>, block_number: u64)
    ensures
        extract_storages(rws, block_number) matches Ok(entries) ==> entries.len() == rws.len(),
    decreases rws.len(),
{
    if rws.len() > 0 {
        lemma_extract_storages_len(rws.drop_last(), block_number);
    }
}

/// The promise calls that the account entries make, in order.
pub open spec fn account_calls(accounts: Seq<AccountSubqueryResult>) -> Seq<PromiseCall> {
    Seq::new(accounts.len(), |i: int| PromiseCall::Account(accounts[i].subquery))
}

/// The promise calls that the storage entries make, in order.
pub open spec fn storage_calls(storages: Seq<StorageSubqueryResult>) -> Seq<PromiseCall> {
    Seq::new(storages.len(), |i: int| PromiseCall::Storage(storages[i].subquery))
}

/// The results answer the question of account entry `i` with the value of
/// the entry.
pub open spec fn account_agrees(
    accounts: Seq<AccountSubqueryResult>,
    results: Seq<PromiseResult>,
    i: int,
) -> bool {
    shard_lookup(results, PromiseCall::Account(accounts[i].subquery)) == Some(accounts[i].value)
}

/// The results answer the question of storage entry `i` with the value of
/// the entry.
pub open spec fn storage_agrees(
    storages: Seq<StorageSubqueryResult>,
    results: Seq<PromiseResult>,
    i: int,
) -> bool {
    shard_lookup(results, PromiseCall::Storage(storages[i].subquery)) == Some(storages[i].value)
}

/// The results answer the question of every account entry with the value
/// of the entry.
pub open spec fn accounts_agree(accounts: Seq<AccountSubqueryResult>, results: Seq<PromiseResult>)
    -> bool {
    forall|i: int| 0 <= i < accounts.len() ==> #[trigger] account_agrees(accounts, results, i)
}

/// The results answer the question of every storage entry with the value
/// of the entry.
pub open spec fn storages_agree(storages: Seq<StorageSubqueryResult>, results: Seq<PromiseResult>)
    -> bool {
    forall|i: int| 0 <= i < storages.len() ==> #[trigger] storage_agrees(storages, results, i)
}

/// The payloads are those of a run of phase 0 that starts at cell `base`:
/// each account entry takes eight cells, six of its own and two for the
/// answer to its call.
pub open spec fn account_payloads_at(payloads: Seq<AxiomAccountPayload>, base: int) -> bool {
    forall|i: int|
        0 <= i < payloads.len() ==> #[trigger] payloads[i] == account_handles(base + 8 * i)
}

/// The payloads are those of a run of phase 0 that starts at cell `base`:
/// each storage entry takes ten cells, eight of its own and two for the
/// answer to its call.
pub open spec fn storage_payloads_at(payloads: Seq<AxiomStoragePayload>, base: int) -> bool {
    forall|i: int|
        0 <= i < payloads.len() ==> #[trigger] payloads[i] == storage_handles(base + 10 * i)
}

/// The cells of each payload exist in the context and hold the values of
/// the entry at the same position.
pub open spec fn account_payloads_hold(
    ctx: ContextView,
    payloads: Seq<AxiomAccountPayload>,
    accounts: Seq<AccountSubqueryResult>,
) -> bool {
    &&& payloads.len() == accounts.len()
    &&& forall|i: int|
        0 <= i < payloads.len() ==> axiom_account_payload_valid(ctx, #[trigger] payloads[i])
            && account_payload_values(axiom_account_payload_in(ctx, payloads[i]))
            == accounts[i].spec_values(ctx.challenge@)
}

/// The cells of each payload exist in the context and hold the values of
/// the entry at the same position.
pub open spec fn storage_payloads_hold(
    ctx: ContextView,
    payloads: Seq<AxiomStoragePayload>,
    storages: Seq<StorageSubqueryResult>,
) -> bool {
    &&& payloads.len() == storages.len()
    &&& forall|i: int|
        0 <= i < payloads.len() ==> axiom_storage_payload_valid(ctx, #[trigger] payloads[i])
            && storage_payload_values(axiom_storage_payload_in(ctx, payloads[i]))
            == storages[i].spec_values(ctx.challenge@)
}

fn build_accounts(rws: &Vec<Rw>, block_number: u64) -> (r: Result<
    Vec<AccountSubqueryResult>,
    ExtractError,
>)
    ensures
        match extract_accounts(rws@, block_number) {
            Ok(entries) => r matches Ok(v) && v@ == entries,
            Err(e) => r == Err::<Vec<AccountSubqueryResult>, ExtractError>(e),
        },
{
    let mut entries: Vec<AccountSubqueryResult> = Vec::new();
    let mut i: usize = 0;
    assert(rws@.subrange(0, 0) =~= Seq::<Rw>::empty());
    while i < rws.len()
        invariant
            i <= rws.len(),
            extract_accounts(rws@.subrange(0, i as int), block_number) == Ok::<
                Seq<AccountSubqueryResult>,
                ExtractError,
            >(entries@),
        decreases rws.len() - i,
    {
        let ghost next = rws@.subrange(0, i + 1);
        assert(next.drop_last() =~= rws@.subrange(0, i as int));
        assert(next.last() == rws[i as int]);
        match AccountSubqueryResult::from_rw(&rws[i], block_number) {
            Err(e) => {
                proof {
                    lemma_extract_accounts_fails(rws@, i + 1, block_number);
                }
                return Err(e);
            },
            Ok(None) => {},
            Ok(Some(entry)) => {
                entries.push(entry);
            },
        }
        i = i + 1;
    }
    assert(rws@.subrange(0, i as int) =~= rws@);
    Ok(entries)
}

fn build_storages(rws: &Vec<Rw>, block_number: u64) -> (r: Result<
    Vec<StorageSubqueryResult>,
    ExtractError,
>)
    ensures
        match extract_storages(rws@, block_number) {
            Ok(entries) => r matches Ok(v) && v@ == entries,
            Err(e) => r == Err::<Vec<StorageSubqueryResult>, ExtractError>(e),
        },
{
    let mut entries: Vec<StorageSubqueryResult> = Vec::new();
    let mut i: usize = 0;
    assert(rws@.subrange(0, 0) =~= Seq::<Rw>::empty());
    while i < rws.len()
        invariant
            i <= rws.len(),
            extract_storages(rws@.subrange(0, i as int), block_number) == Ok::<
                Seq<StorageSubqueryResult>,
                ExtractError,
            >(entries@),
        decreases rws.len() - i,
    {
        let ghost next = rws@.subrange(0, i + 1);
        assert(next.drop_last() =~= rws@.subrange(0, i as int));
        assert(next.last() == rws[i as int]);
        match StorageSubqueryResult::from_rw(&rws[i], block_number) {
            Err(e) => {
                proof {
                    lemma_extract_storages_fails(rws@, i + 1, block_number);
                }
                return Err(e);
            },
            Ok(None) => {},
            Ok(Some(entry)) => {
                entries.push(entry);
            },
        }
        i = i + 1;
    }
    assert(rws@.subrange(0, i as int) =~= rws@);
    Ok(entries)
}

impl Default for InitState {
    fn default() -> (r: Self)
        ensures
            r.accounts@.len() == 0,
            r.storages@.len() == 0,
    {
        InitState::new()
    }
}

impl InitState {
    /// The state without entries.
    pub fn new() -> (r: InitState)
        ensures
            r.accounts@.len() == 0,
            r.storages@.len() == 0,
    {
        InitState { accounts: Vec::new(), storages: Vec::new() }
    }

    /// What a block's trace gives: the account entries, then the storage
    /// entries, or the failure of the first malformed record, account
    /// records first.
    pub open spec fn spec_build(block: Block) -> Result<
        (Seq<AccountSubqueryResult>, Seq<StorageSubqueryResult>),
        ExtractError,
    > {
        let block_number = spec_block_number(block.tx_block_numbers@);
        match extract_accounts(block.account_rws@, block_number) {
            Err(e) => Err(e),
            Ok(accounts) => match extract_storages(block.storage_rws@, block_number) {
                Err(e) => Err(e),
                Ok(storages) => Ok((accounts, storages)),
            },
        }
    }

    /// Extracts the initial state from the trace of a block.
    pub fn build_from_witness_block(block: &Block) -> (r: Result<InitState, ExtractError>)
        ensures
            match Self::spec_build(*block) {
                Ok((accounts, storages)) => r matches Ok(state) && state.accounts@ == accounts
                    && state.storages@ == storages,
                Err(e) => r matches Err(f) && f == e,
            },
    {
        let block_number = block.block_number();
        let accounts = match build_accounts(&block.account_rws, block_number) {
            Ok(v) => v,
            Err(e) => {
                return Err(e);
            },
        };
        let storages = match build_storages(&block.storage_rws, block_number) {
            Ok(v) => v,
            Err(e) => {
                return Err(e);
            },
        };
        Ok(InitState { accounts, storages })
    }

    /// Phase 0 for the account entries. Each entry is assigned to cells of
    /// the arena, a promise call is made for its question, and the two
    /// halves of the entry's value are asserted equal to the two halves of
    /// the answer. The first refused call ends the run with its refusal.
    pub fn make_account_promise_calls(&self, ctx: &mut Context, promise_caller: &mut PromiseCaller) -> (r:
        Result<Vec<AxiomAccountPayload>, PromiseError>)
        requires
            old(ctx)@.wf(),
            old(promise_caller)@.wf(),
        ensures
            final(ctx)@.wf(),
            final(promise_caller)@.wf(),
            final(ctx)@.extends(old(ctx)@),
            final(ctx)@.copies == old(ctx)@.copies,
            match old(promise_caller)@.resolve_all(account_calls(self.accounts@)) {
                Err(e) => r == Err::<Vec<AxiomAccountPayload>, PromiseError>(e),
                Ok(caller) => {
                    &&& r matches Ok(payloads)
                    &&& account_payloads_hold(final(ctx)@, payloads@, self.accounts@)
                    &&& account_payloads_at(payloads@, old(ctx)@.cells.len() as int)
                    &&& final(ctx)@.cells.len() == old(ctx)@.cells.len() + 8
                        * self.accounts@.len()
                    &&& final(ctx)@.equalities.len() == old(ctx)@.equalities.len() + 2
                        * self.accounts@.len()
                    &&& final(promise_caller)@ == caller
                    &&& final(ctx)@.satisfied() <==> old(ctx)@.satisfied() && accounts_agree(
                        self.accounts@,
                        old(promise_caller)@.results(ComponentTypeId::AccountSubquery),
                    )
                },
            },
    {
        let ghost start = ctx@;
        let ghost caller0 = promise_caller@;
        let ghost calls = account_calls(self.accounts@);
        let ghost results = caller0.results(ComponentTypeId::AccountSubquery);
        let mut payloads: Vec<AxiomAccountPayload> = Vec::new();
        let mut i: usize = 0;
        assert(calls.subrange(0, 0) =~= Seq::<PromiseCall>::empty());
        while i < self.accounts.len()
            invariant
                i <= self.accounts.len(),
                start == old(ctx)@,
                caller0 == old(promise_caller)@,
                calls == account_calls(self.accounts@),
                results == caller0.results(ComponentTypeId::AccountSubquery),
                ctx@.wf(),
                promise_caller@.wf(),
                ctx@.extends(start),
                ctx@.copies == start.copies,
                caller0.resolve_all(calls.subrange(0, i as int)) == Ok::<CallerView, PromiseError>(
                    promise_caller@,
                ),
                account_payloads_hold(ctx@, payloads@, self.accounts@.subrange(0, i as int)),
                account_payloads_at(payloads@, start.cells.len() as int),
                ctx@.cells.len() == start.cells.len() + 8 * i,
                ctx@.equalities.len() == start.equalities.len() + 2 * i,
                ctx@.satisfied() <==> start.satisfied() && forall|k: int|
                    0 <= k < i ==> #[trigger] account_agrees(self.accounts@, results, k),
            decreases self.accounts.len() - i,
        {
            let ghost before = ctx@;
            let ghost caller_before = promise_caller@;
            let ghost payloads_before = payloads@;
            let entry = &self.accounts[i];
            let call = PromiseCall::Account(entry.subquery);
            proof {
                let next = calls.subrange(0, i + 1);
                assert(next.drop_last() =~= calls.subrange(0, i as int));
                assert(next.last() == call);
                lemma_resolve_all_keeps_results(caller0, calls.subrange(0, i as int));
            }
            let assigned = entry.assign_axiom(ctx);
            let ghost mid = ctx@;
            let answer = match promise_caller.call(ctx, &call) {
                Err(e) => {
                    proof {
                        lemma_resolve_all_fails(caller0, calls, i + 1);
                        assert(ctx@ == mid);
                        assert(mid.extends(before));
                        assert(mid.copies == start.copies);
                    }
                    return Err(e);
                },
                Ok(cells) => cells,
            };
            ctx.constrain_equal(&assigned.value.hilo.hi, &answer.hi);
            ctx.constrain_equal(&assigned.value.hilo.lo, &answer.lo);
            payloads.push(assigned);
            proof {
                let value = caller_before.resolve(call)->Ok_0;
                assert(shard_lookup(results, call) == Some(value));
                lemma_view_injective(ctx@.value(assigned.value.hilo.hi), ctx@.value(answer.hi));
                lemma_view_injective(ctx@.value(assigned.value.hilo.lo), ctx@.value(answer.lo));
                assert(account_agrees(self.accounts@, results, i as int) <==> entry.value
                    == value);
                assert(ctx@.satisfied() <==> before.satisfied() && account_agrees(
                    self.accounts@,
                    results,
                    i as int,
                ));
                let entries = self.accounts@.subrange(0, i + 1);
                assert forall|k: int| 0 <= k < payloads@.len() implies axiom_account_payload_valid(
                    ctx@,
                    #[trigger] payloads@[k],
                ) && account_payload_values(axiom_account_payload_in(ctx@, payloads@[k]))
                    == entries[k].spec_values(ctx@.challenge@) by {
                    if k < i {
                        assert(payloads@[k] == payloads_before[k]);
                        assert(axiom_account_payload_valid(before, payloads_before[k]));
                        assert(axiom_account_payload_in(ctx@, payloads@[k])
                            == axiom_account_payload_in(before, payloads_before[k]));
                        assert(entries[k] == self.accounts@.subrange(0, i as int)[k]);
                    }
                }
            }
            i = i + 1;
        }
        proof {
            assert(calls.subrange(0, i as int) =~= calls);
            assert(self.accounts@.subrange(0, i as int) =~= self.accounts@);
        }
        Ok(payloads)
    }

    /// Phase 0 for the storage entries. Each entry is assigned to cells of
    /// the arena, a promise call is made for its question, and the two
    /// halves of the entry's value are asserted equal to the two halves of
    /// the answer. The first refused call ends the run with its refusal.
    pub fn make_storage_promise_calls(&self, ctx: &mut Context, promise_caller: &mut PromiseCaller) -> (r:
        Result<Vec<AxiomStoragePayload>, PromiseError>)
        requires
            old(ctx)@.wf(),
            old(promise_caller)@.wf(),
        ensures
            final(ctx)@.wf(),
            final(promise_caller)@.wf(),
            final(ctx)@.extends(old(ctx)@),
            final(ctx)@.copies == old(ctx)@.copies,
            match old(promise_caller)@.resolve_all(storage_calls(self.storages@)) {
                Err(e) => r == Err::<Vec<AxiomStoragePayload>, PromiseError>(e),
                Ok(caller) => {
                    &&& r matches Ok(payloads)
                    &&& storage_payloads_hold(final(ctx)@, payloads@, self.storages@)
                    &&& storage_payloads_at(payloads@, old(ctx)@.cells.len() as int)
                    &&& final(ctx)@.cells.len() == old(ctx)@.cells.len() + 10
                        * self.storages@.len()
                    &&& final(ctx)@.equalities.len() == old(ctx)@.equalities.len() + 2
                        * self.storages@.len()
                    &&& final(promise_caller)@ == caller
                    &&& final(ctx)@.satisfied() <==> old(ctx)@.satisfied() && storages_agree(
                        self.storages@,
                        old(promise_caller)@.results(ComponentTypeId::StorageSubquery),
                    )
                },
            },
    {
        let ghost start = ctx@;
        let ghost caller0 = promise_caller@;
        let ghost calls = storage_calls(self.storages@);
        let ghost results = caller0.results(ComponentTypeId::StorageSubquery);
        let mut payloads: Vec<AxiomStoragePayload> = Vec::new();
        let mut i: usize = 0;
        assert(calls.subrange(0, 0) =~= Seq::<PromiseCall>::empty());
        while i < self.storages.len()
            invariant
                i <= self.storages.len(),
                start == old(ctx)@,
                caller0 == old(promise_caller)@,
                calls == storage_calls(self.storages@),
                results == caller0.results(ComponentTypeId::StorageSubquery),
                ctx@.wf(),
                promise_caller@.wf(),
                ctx@.extends(start),
                ctx@.copies == start.copies,
                caller0.resolve_all(calls.subrange(0, i as int)) == Ok::<CallerView, PromiseError>(
                    promise_caller@,
                ),
                storage_payloads_hold(ctx@, payloads@, self.storages@.subrange(0, i as int)),
                storage_payloads_at(payloads@, start.cells.len() as int),
                ctx@.cells.len() == start.cells.len() + 10 * i,
                ctx@.equalities.len() == start.equalities.len() + 2 * i,
                ctx@.satisfied() <==> start.satisfied() && forall|k: int|
                    0 <= k < i ==> #[trigger] storage_agrees(self.storages@, results, k),
            decreases self.storages.len() - i,
        {
            let ghost before = ctx@;
            let ghost caller_before = promise_caller@;
            let ghost payloads_before = payloads@;
            let entry = &self.storages[i];
            let call = PromiseCall::Storage(entry.subquery);
            proof {
                let next = calls.subrange(0, i + 1);
                assert(next.drop_last() =~= calls.subrange(0, i as int));
                assert(next.last() == call);
                lemma_resolve_all_keeps_results(caller0, calls.subrange(0, i as int));
            }
            let assigned = entry.assign_axiom(ctx);
            let ghost mid = ctx@;
            let answer = match promise_caller.call(ctx, &call) {
                Err(e) => {
                    proof {
                        lemma_resolve_all_fails(caller0, calls, i + 1);
                        assert(ctx@ == mid);
                        assert(mid.extends(before));
                        assert(mid.copies == start.copies);
                    }
                    return Err(e);
                },
                Ok(cells) => cells,
            };
            ctx.constrain_equal(&assigned.value.hilo.hi, &answer.hi);
            ctx.constrain_equal(&assigned.value.hilo.lo, &answer.lo);
            payloads.push(assigned);
            proof {
                let value = caller_before.resolve(call)->Ok_0;
                assert(shard_lookup(results, call) == Some(value));
                lemma_view_injective(ctx@.value(assigned.value.hilo.hi), ctx@.value(answer.hi));
                lemma_view_injective(ctx@.value(assigned.value.hilo.lo), ctx@.value(answer.lo));
                assert(storage_agrees(self.storages@, results, i as int) <==> entry.value
                    == value);
                assert(ctx@.satisfied() <==> before.satisfied() && storage_agrees(
                    self.storages@,
                    results,
                    i as int,
                ));
                let entries = self.storages@.subrange(0, i + 1);
                assert forall|k: int| 0 <= k < payloads@.len() implies axiom_storage_payload_valid(
                    ctx@,
                    #[trigger] payloads@[k],
                ) && storage_payload_values(axiom_storage_payload_in(ctx@, payloads@[k]))
                    == entries[k].spec_values(ctx@.challenge@) by {
                    if k < i {
                        assert(payloads@[k] == payloads_before[k]);
                        assert(axiom_storage_payload_valid(before, payloads_before[k]));
                        assert(axiom_storage_payload_in(ctx@, payloads@[k])
                            == axiom_storage_payload_in(before, payloads_before[k]));
                        assert(entries[k] == self.storages@.subrange(0, i as int)[k]);
                    }
                }
            }
            i = i + 1;
        }
        proof {
            assert(calls.subrange(0, i as int) =~= calls);
            assert(self.storages@.subrange(0, i as int) =~= self.storages@);
        }
        Ok(payloads)
    }
}

} // verus!
