//! The reconciliation of the two representations of an initial state: the
//! cells of the native table are imported into the arena and tied, entry by
//! entry and by position, to the cells that phase 0 assigned.

use crate::context::{AssignedValue, Context, ContextView};
use crate::field::lemma_view_injective;
use crate::init_state::account::{
    account_cells, account_payload_values, axiom_account_payload_in,
    axiom_account_payload_valid, AccountSubqueryResult, AxiomAccountPayload,
    Halo2AccountPayload,
};
use crate::init_state::storage::{
    axiom_storage_payload_in, axiom_storage_payload_valid, storage_cells,
    storage_payload_values, AxiomStoragePayload, Halo2StoragePayload, StorageSubqueryResult,
};
use crate::init_state::table::{account_row, storage_row, InitStateTable, TableRow};
use crate::layout::NativeCell;
use crate::word::lemma_halves_injective;
use vstd::prelude::*;

verus! {

/// The arena cells of an account entry hold what its native cells hold:
/// block number, address, field tag and the two halves of the value.
pub open spec fn account_link_holds(
    ctx: ContextView,
    algebraic: AxiomAccountPayload,
    native: Halo2AccountPayload,
) -> bool {
    &&& ctx.value(algebraic.block_number) == native.block_number.value
    &&& ctx.value(algebraic.address) == native.address.value
    &&& ctx.value(algebraic.field_idx) == native.field_idx.value
    &&& ctx.value(algebraic.value.hilo.hi) == native.value.hilo.hi.value
    &&& ctx.value(algebraic.value.hilo.lo) == native.value.hilo.lo.value
}

/// The arena cells of a storage entry hold what its native cells hold:
/// block number, address, the two halves of the slot and the two halves of
/// the value.
pub open spec fn storage_link_holds(
    ctx: ContextView,
    algebraic: AxiomStoragePayload,
    native: Halo2StoragePayload,
) -> bool {
    &&& ctx.value(algebraic.block_number) == native.block_number.value
    &&& ctx.value(algebraic.address) == native.address.value
    &&& ctx.value(algebraic.slot.hilo.hi) == native.slot.hilo.hi.value
    &&& ctx.value(algebraic.slot.hilo.lo) == native.slot.hilo.lo.value
    &&& ctx.value(algebraic.value.hilo.hi) == native.value.hilo.hi.value
    &&& ctx.value(algebraic.value.hilo.lo) == native.value.hilo.lo.value
}

/// Every payload of the list has its cells in the context.
pub open spec fn account_payloads_valid(ctx: ContextView, payloads: Seq<AxiomAccountPayload>)
    -> bool {
    forall|i: int|
        0 <= i < payloads.len() ==> axiom_account_payload_valid(ctx, #[trigger] payloads[i])
}

/// Every payload of the list has its cells in the context.
pub open spec fn storage_payloads_valid(ctx: ContextView, payloads: Seq<AxiomStoragePayload>)
    -> bool {
    forall|i: int|
        0 <= i < payloads.len() ==> axiom_storage_payload_valid(ctx, #[trigger] payloads[i])
}

/// The number of positions at which two lists both have an entry.
pub open spec fn paired(a: int, b: int) -> int {
    if a <= b {
        a
    } else {
        b
    }
}

/// The links of the first `n` account entries hold, position by position.
pub open spec fn account_links_hold(
    ctx: ContextView,
    algebraic: Seq<AxiomAccountPayload>,
    native: Seq<Halo2AccountPayload>,
    n: int,
) -> bool {
    forall|i: int| 0 <= i < n ==> #[trigger] account_link_holds(ctx, algebraic[i], native[i])
}

/// The links of the first `n` storage entries hold, position by position.
pub open spec fn storage_links_hold(
    ctx: ContextView,
    algebraic: Seq<AxiomStoragePayload>,
    native: Seq<Halo2StoragePayload>,
    n: int,
) -> bool {
    forall|i: int| 0 <= i < n ==> #[trigger] storage_link_holds(ctx, algebraic[i], native[i])
}

/// Cells never change: the links of payloads whose cells exist in a context
/// hold in every later context exactly where they hold in that one.
pub proof fn lemma_storage_links_stable(
    earlier: ContextView,
    later: ContextView,
    algebraic: Seq<AxiomStoragePayload>,
    native: Seq<Halo2StoragePayload>,
)
    requires
        later.extends(earlier),
        storage_payloads_valid(earlier, algebraic),
    ensures
        storage_payloads_valid(later, algebraic),
        forall|n: int|
            0 <= n <= paired(algebraic.len() as int, native.len() as int) ==> #[trigger] storage_links_hold(
                later,
                algebraic,
                native,
                n,
            ) == storage_links_hold(earlier, algebraic, native, n),
        forall|i: int|
            0 <= i < paired(algebraic.len() as int, native.len() as int) ==> #[trigger] storage_link_holds(
                later,
                algebraic[i],
                native[i],
            ) == storage_link_holds(earlier, algebraic[i], native[i]),
{
    let m = paired(algebraic.len() as int, native.len() as int);
    assert forall|i: int| 0 <= i < algebraic.len() implies axiom_storage_payload_valid(
        later,
        #[trigger] algebraic[i],
    ) by {
        assert(axiom_storage_payload_valid(earlier, algebraic[i]));
    }
    assert forall|i: int| 0 <= i < m implies #[trigger] storage_link_holds(
        later,
        algebraic[i],
        native[i],
    ) == storage_link_holds(earlier, algebraic[i], native[i]) by {
        assert(axiom_storage_payload_valid(earlier, algebraic[i]));
    }
    assert forall|n: int| 0 <= n <= m implies #[trigger] storage_links_hold(
        later,
        algebraic,
        native,
        n,
    ) == storage_links_hold(earlier, algebraic, native, n) by {
        if storage_links_hold(later, algebraic, native, n) {
            assert forall|i: int| 0 <= i < n implies #[trigger] storage_link_holds(
                earlier,
                algebraic[i],
                native[i],
            ) by {
                assert(storage_link_holds(later, algebraic[i], native[i]));
            }
        }
        if storage_links_hold(earlier, algebraic, native, n) {
            assert forall|i: int| 0 <= i < n implies #[trigger] storage_link_holds(
                later,
                algebraic[i],
                native[i],
            ) by {
                assert(storage_link_holds(earlier, algebraic[i], native[i]));
            }
        }
    }
}

/// Imports a native cell and ties the imported cell to `target`. Says
/// whether the two hold the same value.
fn import_and_tie(ctx: &mut Context, native: &NativeCell, target: &AssignedValue) -> (r: bool)
    requires
        old(ctx)@.wf(),
        old(ctx)@.has(*target),
    ensures
        final(ctx)@.wf(),
        final(ctx)@.extends(old(ctx)@),
        final(ctx)@.cells.len() == old(ctx)@.cells.len() + 1,
        final(ctx)@.equalities.len() == old(ctx)@.equalities.len() + 1,
        final(ctx)@.copies.len() == old(ctx)@.copies.len() + 1,
        r == (old(ctx)@.value(*target) == native.value),
        final(ctx)@.satisfied() == (old(ctx)@.satisfied() && r),
{
    let imported = ctx.load_external_assigned(native);
    ctx.constrain_equal(&imported, target);
    ctx.value(target) == native.value
}

/// Phase 1 for one account entry: its native cells are imported, and block
/// number, address, field tag and the two halves of the value are tied to
/// the cells of phase 0. The random linear combination is imported and left
/// untied. Says whether every tie holds.
pub fn reconcile_account(ctx: &mut Context, algebraic: &AxiomAccountPayload, native: &Halo2AccountPayload) -> (r:
    bool)
    requires
        old(ctx)@.wf(),
        axiom_account_payload_valid(old(ctx)@, *algebraic),
    ensures
        final(ctx)@.wf(),
        final(ctx)@.extends(old(ctx)@),
        final(ctx)@.cells.len() == old(ctx)@.cells.len() + 6,
        final(ctx)@.equalities.len() == old(ctx)@.equalities.len() + 5,
        final(ctx)@.copies.len() == old(ctx)@.copies.len() + 6,
        r == account_link_holds(old(ctx)@, *algebraic, *native),
        final(ctx)@.satisfied() == (old(ctx)@.satisfied() && r),
{
    let block_number = import_and_tie(ctx, &native.block_number, &algebraic.block_number);
    let address = import_and_tie(ctx, &native.address, &algebraic.address);
    let field_idx = import_and_tie(ctx, &native.field_idx, &algebraic.field_idx);
    let hi = import_and_tie(ctx, &native.value.hilo.hi, &algebraic.value.hilo.hi);
    let lo = import_and_tie(ctx, &native.value.hilo.lo, &algebraic.value.hilo.lo);
    let _ = ctx.load_external_assigned(&native.value.rlc);
    block_number && address && field_idx && hi && lo
}

/// Phase 1 for one storage entry: its native cells are imported, and block
/// number, address, the two halves of the slot and the two halves of the
/// value are tied to the cells of phase 0. The random linear combinations
/// are imported and left untied. Says whether every tie holds.
pub fn reconcile_storage(ctx: &mut Context, algebraic: &AxiomStoragePayload, native: &Halo2StoragePayload) -> (r:
    bool)
    requires
        old(ctx)@.wf(),
        axiom_storage_payload_valid(old(ctx)@, *algebraic),
    ensures
        final(ctx)@.wf(),
        final(ctx)@.extends(old(ctx)@),
        final(ctx)@.cells.len() == old(ctx)@.cells.len() + 8,
        final(ctx)@.equalities.len() == old(ctx)@.equalities.len() + 6,
        final(ctx)@.copies.len() == old(ctx)@.copies.len() + 8,
        r == storage_link_holds(old(ctx)@, *algebraic, *native),
        final(ctx)@.satisfied() == (old(ctx)@.satisfied() && r),
{
    let block_number = import_and_tie(ctx, &native.block_number, &algebraic.block_number);
    let address = import_and_tie(ctx, &native.address, &algebraic.address);
    let slot_hi = import_and_tie(ctx, &native.slot.hilo.hi, &algebraic.slot.hilo.hi);
    let slot_lo = import_and_tie(ctx, &native.slot.hilo.lo, &algebraic.slot.hilo.lo);
    let _ = ctx.load_external_assigned(&native.slot.rlc);
    let hi = import_and_tie(ctx, &native.value.hilo.hi, &algebraic.value.hilo.hi);
    let lo = import_and_tie(ctx, &native.value.hilo.lo, &algebraic.value.hilo.lo);
    let _ = ctx.load_external_assigned(&native.value.rlc);
    block_number && address && slot_hi && slot_lo && hi && lo
}

/// Phase 1 for the account entries: the two lists are walked together, as
/// far as both reach. Hands back the first position whose ties do not all
/// hold.
pub fn reconcile_accounts(
    ctx: &mut Context,
    algebraic: &Vec<AxiomAccountPayload>,
    native: &Vec<Halo2AccountPayload>,
) -> (r: Option<usize>)
    requires
        old(ctx)@.wf(),
        account_payloads_valid(old(ctx)@, algebraic@),
    ensures
        final(ctx)@.wf(),
        final(ctx)@.extends(old(ctx)@),
        final(ctx)@.cells.len() == old(ctx)@.cells.len() + 6 * paired(
            algebraic@.len() as int,
            native@.len() as int,
        ),
        final(ctx)@.equalities.len() == old(ctx)@.equalities.len() + 5 * paired(
            algebraic@.len() as int,
            native@.len() as int,
        ),
        final(ctx)@.satisfied() == (old(ctx)@.satisfied() && account_links_hold(
            old(ctx)@,
            algebraic@,
            native@,
            paired(algebraic@.len() as int, native@.len() as int),
        )),
        match r {
            None => account_links_hold(
                old(ctx)@,
                algebraic@,
                native@,
                paired(algebraic@.len() as int, native@.len() as int),
            ),
            Some(k) => k < paired(algebraic@.len() as int, native@.len() as int) && !account_link_holds(
                old(ctx)@,
                algebraic@[k as int],
                native@[k as int],
            ) && account_links_hold(old(ctx)@, algebraic@, native@, k as int),
        },
{
    let ghost start = ctx@;
    let n = if algebraic.len() <= native.len() {
        algebraic.len()
    } else {
        native.len()
    };
    let mut first: Option<usize> = None;
    let mut i: usize = 0;
    while i < n
        invariant
            i <= n,
            n == paired(algebraic@.len() as int, native@.len() as int),
            start == old(ctx)@,
            start.wf(),
            account_payloads_valid(start, algebraic@),
            ctx@.wf(),
            ctx@.extends(start),
            ctx@.cells.len() == start.cells.len() + 6 * i,
            ctx@.equalities.len() == start.equalities.len() + 5 * i,
            ctx@.satisfied() == (start.satisfied() && account_links_hold(
                start,
                algebraic@,
                native@,
                i as int,
            )),
            match first {
                None => account_links_hold(start, algebraic@, native@, i as int),
                Some(k) => k < i && !account_link_holds(start, algebraic@[k as int], native@[k as int])
                    && account_links_hold(start, algebraic@, native@, k as int),
            },
        decreases n - i,
    {
        let ghost before = ctx@;
        assert(axiom_account_payload_valid(start, algebraic@[i as int]));
        let ok = reconcile_account(ctx, &algebraic[i], &native[i]);
        proof {
            assert(account_link_holds(before, algebraic@[i as int], native@[i as int])
                == account_link_holds(start, algebraic@[i as int], native@[i as int]));
            assert(account_links_hold(start, algebraic@, native@, i + 1) == (account_links_hold(
                start,
                algebraic@,
                native@,
                i as int,
            ) && account_link_holds(start, algebraic@[i as int], native@[i as int])));
        }
        if !ok && first.is_none() {
            first = Some(i);
        }
        i = i + 1;
    }
    first
}

/// Phase 1 for the storage entries: the two lists are walked together, as
/// far as both reach. Hands back the first position whose ties do not all
/// hold.
pub fn reconcile_storages(
    ctx: &mut Context,
    algebraic: &Vec<AxiomStoragePayload>,
    native: &Vec<Halo2StoragePayload>,
) -> (r: Option<usize>)
    requires
        old(ctx)@.wf(),
        storage_payloads_valid(old(ctx)@, algebraic@),
    ensures
        final(ctx)@.wf(),
        final(ctx)@.extends(old(ctx)@),
        final(ctx)@.cells.len() == old(ctx)@.cells.len() + 8 * paired(
            algebraic@.len() as int,
            native@.len() as int,
        ),
        final(ctx)@.equalities.len() == old(ctx)@.equalities.len() + 6 * paired(
            algebraic@.len() as int,
            native@.len() as int,
        ),
        final(ctx)@.satisfied() == (old(ctx)@.satisfied() && storage_links_hold(
            old(ctx)@,
            algebraic@,
            native@,
            paired(algebraic@.len() as int, native@.len() as int),
        )),
        match r {
            None => storage_links_hold(
                old(ctx)@,
                algebraic@,
                native@,
                paired(algebraic@.len() as int, native@.len() as int),
            ),
            Some(k) => k < paired(algebraic@.len() as int, native@.len() as int) && !storage_link_holds(
                old(ctx)@,
                algebraic@[k as int],
                native@[k as int],
            ) && storage_links_hold(old(ctx)@, algebraic@, native@, k as int),
        },
{
    let ghost start = ctx@;
    let n = if algebraic.len() <= native.len() {
        algebraic.len()
    } else {
        native.len()
    };
    let mut first: Option<usize> = None;
    let mut i: usize = 0;
    while i < n
        invariant
            i <= n,
            n == paired(algebraic@.len() as int, native@.len() as int),
            start == old(ctx)@,
            start.wf(),
            storage_payloads_valid(start, algebraic@),
            ctx@.wf(),
            ctx@.extends(start),
            ctx@.cells.len() == start.cells.len() + 8 * i,
            ctx@.equalities.len() == start.equalities.len() + 6 * i,
            ctx@.satisfied() == (start.satisfied() && storage_links_hold(
                start,
                algebraic@,
                native@,
                i as int,
            )),
            match first {
                None => storage_links_hold(start, algebraic@, native@, i as int),
                Some(k) => k < i && !storage_link_holds(start, algebraic@[k as int], native@[k as int])
                    && storage_links_hold(start, algebraic@, native@, k as int),
            },
        decreases n - i,
    {
        let ghost before = ctx@;
        assert(axiom_storage_payload_valid(start, algebraic@[i as int]));
        let ok = reconcile_storage(ctx, &algebraic[i], &native[i]);
        proof {
            assert(storage_link_holds(before, algebraic@[i as int], native@[i as int])
                == storage_link_holds(start, algebraic@[i as int], native@[i as int]));
            assert(storage_links_hold(start, algebraic@, native@, i + 1) == (storage_links_hold(
                start,
                algebraic@,
                native@,
                i as int,
            ) && storage_link_holds(start, algebraic@[i as int], native@[i as int])));
        }
        if !ok && first.is_none() {
            first = Some(i);
        }
        i = i + 1;
    }
    first
}

/// Where the arena cells of an account entry hold the values of entry `x`
/// and the native cells are those of a table row filled from entry `y`,
/// the link holds exactly when `x` and `y` are the same entry. The two
/// challenges play no part.
pub proof fn lemma_account_link_same_entry(
    ctx: ContextView,
    algebraic: AxiomAccountPayload,
    x: AccountSubqueryResult,
    config: InitStateTable,
    row: int,
    held: TableRow,
    y: AccountSubqueryResult,
    randomness: nat,
)
    requires
        account_payload_values(axiom_account_payload_in(ctx, algebraic)) == x.spec_values(
            ctx.challenge@,
        ),
        held@ == account_row(y, randomness),
    ensures
        account_link_holds(ctx, algebraic, account_cells(config, row, held)) <==> x == y,
{
    let native = account_cells(config, row, held);
    lemma_view_injective(ctx.value(algebraic.block_number), native.block_number.value);
    lemma_view_injective(ctx.value(algebraic.address), native.address.value);
    lemma_view_injective(ctx.value(algebraic.field_idx), native.field_idx.value);
    lemma_view_injective(ctx.value(algebraic.value.hilo.hi), native.value.hilo.hi.value);
    lemma_view_injective(ctx.value(algebraic.value.hilo.lo), native.value.hilo.lo.value);
    if x.subquery.addr@ == y.subquery.addr@ {
        lemma_halves_injective(
            x.subquery.addr.hi as u128,
            x.subquery.addr.lo,
            y.subquery.addr.hi as u128,
            y.subquery.addr.lo,
        );
    }
}

/// Where the arena cells of a storage entry hold the values of entry `x`
/// and the native cells are those of a table row filled from entry `y`,
/// the link holds exactly when `x` and `y` are the same entry. The two
/// challenges play no part.
pub proof fn lemma_storage_link_same_entry(
    ctx: ContextView,
    algebraic: AxiomStoragePayload,
    x: StorageSubqueryResult,
    config: InitStateTable,
    row: int,
    held: TableRow,
    y: StorageSubqueryResult,
    randomness: nat,
)
    requires
        storage_payload_values(axiom_storage_payload_in(ctx, algebraic)) == x.spec_values(
            ctx.challenge@,
        ),
        held@ == storage_row(y, randomness),
    ensures
        storage_link_holds(ctx, algebraic, storage_cells(config, row, held)) <==> x == y,
{
    let native = storage_cells(config, row, held);
    lemma_view_injective(ctx.value(algebraic.block_number), native.block_number.value);
    lemma_view_injective(ctx.value(algebraic.address), native.address.value);
    lemma_view_injective(ctx.value(algebraic.slot.hilo.hi), native.slot.hilo.hi.value);
    lemma_view_injective(ctx.value(algebraic.slot.hilo.lo), native.slot.hilo.lo.value);
    lemma_view_injective(ctx.value(algebraic.value.hilo.hi), native.value.hilo.hi.value);
    lemma_view_injective(ctx.value(algebraic.value.hilo.lo), native.value.hilo.lo.value);
    if x.subquery.addr@ == y.subquery.addr@ {
        lemma_halves_injective(
            x.subquery.addr.hi as u128,
            x.subquery.addr.lo,
            y.subquery.addr.hi as u128,
            y.subquery.addr.lo,
        );
    }
}

/// The native cells are those of the rows `base`, `base + 1`, ... of a
/// table, and row `base + i` was filled from account entry `i`.
pub open spec fn account_cells_of(
    native: Seq<Halo2AccountPayload>,
    config: InitStateTable,
    rows: Seq<TableRow>,
    base: int,
    entries: Seq<AccountSubqueryResult>,
    randomness: nat,
) -> bool {
    &&& native.len() == entries.len()
    &&& 0 <= base
    &&& base + entries.len() <= rows.len()
    &&& forall|i: int|
        0 <= i < native.len() ==> #[trigger] native[i] == account_cells(
            config,
            base + i,
            rows[base + i],
        ) && rows[base + i]@ == account_row(entries[i], randomness)
}

/// The native cells are those of the rows `base`, `base + 1`, ... of a
/// table, and row `base + i` was filled from storage entry `i`.
pub open spec fn storage_cells_of(
    native: Seq<Halo2StoragePayload>,
    config: InitStateTable,
    rows: Seq<TableRow>,
    base: int,
    entries: Seq<StorageSubqueryResult>,
    randomness: nat,
) -> bool {
    &&& native.len() == entries.len()
    &&& 0 <= base
    &&& base + entries.len() <= rows.len()
    &&& forall|i: int|
        0 <= i < native.len() ==> #[trigger] native[i] == storage_cells(
            config,
            base + i,
            rows[base + i],
        ) && rows[base + i]@ == storage_row(entries[i], randomness)
}

/// Matching is by position. Where phase 0 assigned the account entries
/// `xs` and the table was filled from the entries `ys`, the links of the
/// first `n` positions hold exactly when `xs` and `ys` have the same entry
/// at each of them. So a table filled from a reordering of `xs` that moves
/// an entry to a place where another stood is never reconciled.
pub proof fn lemma_account_links_positional(
    ctx: ContextView,
    algebraic: Seq<AxiomAccountPayload>,
    xs: Seq<AccountSubqueryResult>,
    native: Seq<Halo2AccountPayload>,
    config: InitStateTable,
    rows: Seq<TableRow>,
    base: int,
    ys: Seq<AccountSubqueryResult>,
    randomness: nat,
    n: int,
)
    requires
        algebraic.len() == xs.len(),
        forall|i: int|
            0 <= i < xs.len() ==> account_payload_values(
                axiom_account_payload_in(ctx, #[trigger] algebraic[i]),
            ) == xs[i].spec_values(ctx.challenge@),
        account_cells_of(native, config, rows, base, ys, randomness),
        0 <= n <= paired(xs.len() as int, ys.len() as int),
    ensures
        account_links_hold(ctx, algebraic, native, n) <==> xs.subrange(0, n) == ys.subrange(0, n),
{
    assert forall|i: int| 0 <= i < n implies (#[trigger] account_link_holds(
        ctx,
        algebraic[i],
        native[i],
    ) <==> xs[i] == ys[i]) by {
        assert(native[i] == account_cells(config, base + i, rows[base + i]));
        lemma_account_link_same_entry(
            ctx,
            algebraic[i],
            xs[i],
            config,
            base + i,
            rows[base + i],
            ys[i],
            randomness,
        );
    }
    if account_links_hold(ctx, algebraic, native, n) {
        assert forall|i: int| 0 <= i < n implies xs.subrange(0, n)[i] == ys.subrange(0, n)[i] by {
            assert(account_link_holds(ctx, algebraic[i], native[i]));
        }
        assert(xs.subrange(0, n) =~= ys.subrange(0, n));
    }
    if xs.subrange(0, n) == ys.subrange(0, n) {
        assert forall|i: int| 0 <= i < n implies #[trigger] account_link_holds(
            ctx,
            algebraic[i],
            native[i],
        ) by {
            assert(xs.subrange(0, n)[i] == ys.subrange(0, n)[i]);
        }
    }
}

/// Matching is by position, for the storage entries as for the account
/// entries.
pub proof fn lemma_storage_links_positional(
    ctx: ContextView,
    algebraic: Seq<AxiomStoragePayload>,
    xs: Seq<StorageSubqueryResult>,
    native: Seq<Halo2StoragePayload>,
    config: InitStateTable,
    rows: Seq<TableRow>,
    base: int,
    ys: Seq<StorageSubqueryResult>,
    randomness: nat,
    n: int,
)
    requires
        algebraic.len() == xs.len(),
        forall|i: int|
            0 <= i < xs.len() ==> storage_payload_values(
                axiom_storage_payload_in(ctx, #[trigger] algebraic[i]),
            ) == xs[i].spec_values(ctx.challenge@),
        storage_cells_of(native, config, rows, base, ys, randomness),
        0 <= n <= paired(xs.len() as int, ys.len() as int),
    ensures
        storage_links_hold(ctx, algebraic, native, n) <==> xs.subrange(0, n) == ys.subrange(0, n),
{
    assert forall|i: int| 0 <= i < n implies (#[trigger] storage_link_holds(
        ctx,
        algebraic[i],
        native[i],
    ) <==> xs[i] == ys[i]) by {
        assert(native[i] == storage_cells(config, base + i, rows[base + i]));
        lemma_storage_link_same_entry(
            ctx,
            algebraic[i],
            xs[i],
            config,
            base + i,
            rows[base + i],
            ys[i],
            randomness,
        );
    }
    if storage_links_hold(ctx, algebraic, native, n) {
        assert forall|i: int| 0 <= i < n implies xs.subrange(0, n)[i] == ys.subrange(0, n)[i] by {
            assert(storage_link_holds(ctx, algebraic[i], native[i]));
        }
        assert(xs.subrange(0, n) =~= ys.subrange(0, n));
    }
    if xs.subrange(0, n) == ys.subrange(0, n) {
        assert forall|i: int| 0 <= i < n implies #[trigger] storage_link_holds(
            ctx,
            algebraic[i],
            native[i],
        ) by {
            assert(xs.subrange(0, n)[i] == ys.subrange(0, n)[i]);
        }
    }
}

} // verus!
