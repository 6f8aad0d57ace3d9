//! Promise calls: questions put to companion components, answered from the
//! results that each component supplied beforehand.

use crate::common::HiLo;
use crate::context::{AssignedValue, Context, ContextView};
use crate::encoded::split;
use crate::init_state::account::AccountSubquery;
use crate::init_state::storage::StorageSubquery;
use crate::word::Word256;
use vstd::prelude::*;

verus! {

/// The kinds of component that answer promise calls.
#[derive(Clone, Copy, Debug, PartialEq, Eq, Structural)]
pub enum ComponentTypeId {
    AccountSubquery,
    StorageSubquery,
}

/// A question, tagged with the kind of component that answers it.
#[derive(Clone, Copy, Debug, PartialEq, Eq, Structural)]
pub enum PromiseCall {
    Account(AccountSubquery),
    Storage(StorageSubquery),
}

impl PromiseCall {
    /// The kind of component that answers the call.
    pub open spec fn spec_component_type(self) -> ComponentTypeId {
        match self {
            PromiseCall::Account(_) => ComponentTypeId::AccountSubquery,
            PromiseCall::Storage(_) => ComponentTypeId::StorageSubquery,
        }
    }

    /// The kind of component that answers the call.
    #[verifier::when_used_as_spec(spec_component_type)]
    pub fn component_type(self) -> (r: ComponentTypeId)
        ensures
            r == self.spec_component_type(),
    {
        match self {
            PromiseCall::Account(_) => ComponentTypeId::AccountSubquery,
            PromiseCall::Storage(_) => ComponentTypeId::StorageSubquery,
        }
    }
}

/// A question with the answer that a component promises for it.
#[derive(Clone, Copy, Debug, PartialEq, Eq, Structural)]
pub struct PromiseResult {
    pub call: PromiseCall,
    pub value: Word256,
}

/// Why a promise call cannot be answered.
#[derive(Clone, Copy, Debug, PartialEq, Eq, Structural)]
pub enum PromiseError {
    /// No component of the call's kind is attached.
    UnsupportedComponent,
    /// More distinct calls, or more results, than the component has rows.
    CapacityExceeded,
    /// The component's results hold no answer to the call.
    NotCovered,
}

/// The answer that a list of results gives to a call: that of the last
/// result for the same question.
pub open spec fn shard_lookup(results: Seq<PromiseResult>, call: PromiseCall) -> Option<Word256>
    decreases results.len(),
{
    if results.len() == 0 {
        None
    } else if results.last().call == call {
        Some(results.last().value)
    } else {
        shard_lookup(results.drop_last(), call)
    }
}

/// What a loader holds, as mathematical sequences.
pub struct LoaderView {
    /// The number of rows of the component's table.
    pub capacity: nat,
    /// The results that the component supplied.
    pub results: Seq<PromiseResult>,
    /// The distinct calls answered so far, in the order of their first
    /// call.
    pub issued: Seq<PromiseCall>,
}

impl LoaderView {
    /// No call is recorded twice, neither the calls nor the results exceed
    /// the capacity, and every recorded call has an answer.
    pub open spec fn wf(self) -> bool {
        &&& self.issued.no_duplicates()
        &&& self.issued.len() <= self.capacity
        &&& self.results.len() <= self.capacity
        &&& forall|i: int|
            0 <= i < self.issued.len() ==> shard_lookup(self.results, #[trigger] self.issued[i])
                is Some
    }

    /// The outcome of a call: a new question past the capacity is refused;
    /// otherwise the results decide.
    pub open spec fn resolve(self, call: PromiseCall) -> Result<Word256, PromiseError> {
        if !self.issued.contains(call) && self.issued.len() >= self.capacity {
            Err(PromiseError::CapacityExceeded)
        } else {
            match shard_lookup(self.results, call) {
                None => Err(PromiseError::NotCovered),
                Some(value) => Ok(value),
            }
        }
    }

    /// The loader after a call: an answered new question is recorded.
    pub open spec fn after(self, call: PromiseCall) -> LoaderView {
        if self.resolve(call) is Ok && !self.issued.contains(call) {
            LoaderView { issued: self.issued.push(call), ..self }
        } else {
            self
        }
    }

    /// The outcome of a run of calls: the loader after the last, or the
    /// refusal of the first call that is refused.
    pub open spec fn resolve_all(self, calls: Seq<PromiseCall>) -> Result<LoaderView, PromiseError>
        decreases calls.len(),
    {
        if calls.len() == 0 {
            Ok(self)
        } else {
            match self.resolve_all(calls.drop_last()) {
                Err(e) => Err(e),
                Ok(loader) => match loader.resolve(calls.last()) {
                    Err(e) => Err(e),
                    Ok(_) => Ok(loader.after(calls.last())),
                },
            }
        }
    }
}

/// A run of distinct calls that the results all answer, made to a loader
/// without calls on record and no longer than its capacity, succeeds and
/// leaves exactly those calls on record.
pub proof fn lemma_calls_within_capacity(loader: LoaderView, calls: Seq<PromiseCall>)
    requires
        loader.issued.len() == 0,
        calls.no_duplicates(),
        calls.len() <= loader.capacity,
        forall|i: int| 0 <= i < calls.len() ==> shard_lookup(loader.results, #[trigger] calls[i])
            is Some,
    ensures
        loader.resolve_all(calls) == Ok::<LoaderView, PromiseError>(
            LoaderView { issued: calls, ..loader },
        ),
    decreases calls.len(),
{
    if calls.len() == 0 {
        assert(loader.issued =~= calls);
    } else {
        let front = calls.drop_last();
        lemma_calls_within_capacity(loader, front);
        let mid = LoaderView { issued: front, ..loader };
        assert(!front.contains(calls.last())) by {
            if front.contains(calls.last()) {
                let j = choose|j: int| 0 <= j < front.len() && front[j] == calls.last();
                assert(calls[j] == calls[calls.len() - 1]);
            }
        }
        assert(shard_lookup(loader.results, calls[calls.len() - 1]) is Some);
        assert(front.push(calls.last()) =~= calls);
    }
}

/// The capacity is a sharp bound. Of `capacity + 1` distinct calls to a
/// loader without calls on record, the first `capacity`, if the results
/// answer them, succeed; the one after them is refused for want of
/// capacity, whatever the results hold.
pub proof fn lemma_capacity_boundary(loader: LoaderView, calls: Seq<PromiseCall>)
    requires
        loader.issued.len() == 0,
        calls.no_duplicates(),
        calls.len() == loader.capacity + 1,
        forall|i: int|
            0 <= i < calls.len() - 1 ==> shard_lookup(loader.results, #[trigger] calls[i])
                is Some,
    ensures
        loader.resolve_all(calls.drop_last()) == Ok::<LoaderView, PromiseError>(
            LoaderView { issued: calls.drop_last(), ..loader },
        ),
        loader.resolve_all(calls) == Err::<LoaderView, PromiseError>(
            PromiseError::CapacityExceeded,
        ),
{
    let front = calls.drop_last();
    assert forall|i: int| 0 <= i < front.len() implies shard_lookup(
        loader.results,
        #[trigger] front[i],
    ) is Some by {
        assert(front[i] == calls[i]);
    }
    lemma_calls_within_capacity(loader, front);
    assert(!front.contains(calls.last())) by {
        if front.contains(calls.last()) {
            let j = choose|j: int| 0 <= j < front.len() && front[j] == calls.last();
            assert(calls[j] == calls[calls.len() - 1]);
        }
    }
}

/// The results of one component and the record of the calls made to it.
#[derive(Clone, Debug)]
pub struct PromiseLoader {
    capacity: usize,
    results: Vec<PromiseResult>,
    issued: Vec<PromiseCall>,
}

impl View for PromiseLoader {
    type V = LoaderView;

    closed spec fn view(&self) -> LoaderView {
        LoaderView {
            capacity: self.capacity as nat,
            results: self.results@,
            issued: self.issued@,
        }
    }
}

impl PromiseLoader {
    /// A loader for a component with `capacity` rows and no results yet.
    pub fn new_for_one_shard(capacity: usize) -> (r: PromiseLoader)
        ensures
            r@.capacity == capacity,
            r@.results.len() == 0,
            r@.issued.len() == 0,
            r@.wf(),
    {
        PromiseLoader { capacity, results: Vec::new(), issued: Vec::new() }
    }

    /// A loader that holds the given results and has exactly one row for
    /// each of them.
    pub fn with_results(results: Vec<PromiseResult>) -> (r: PromiseLoader)
        ensures
            r@ == (LoaderView {
                capacity: results@.len(),
                results: results@,
                issued: Seq::empty(),
            }),
            r@.wf(),
    {
        let capacity = results.len();
        PromiseLoader { capacity, results, issued: Vec::new() }
    }

    /// The number of rows of the component's table.
    pub fn capacity(&self) -> (r: usize)
        ensures
            r == self@.capacity,
    {
        self.capacity
    }

    /// The number of distinct calls answered so far.
    pub fn num_issued(&self) -> (r: usize)
        ensures
            r == self@.issued.len(),
    {
        self.issued.len()
    }

    /// Takes the results of the component and forgets the calls made so
    /// far. More results than the component has rows are refused.
    pub fn fulfill(&mut self, results: Vec<PromiseResult>) -> (r: Result<(), PromiseError>)
        ensures
            r is Ok <==> results@.len() <= old(self)@.capacity,
            r matches Err(e) ==> e == PromiseError::CapacityExceeded,
            r is Err ==> final(self)@ == old(self)@,
            r is Ok ==> final(self)@ == (LoaderView {
                capacity: old(self)@.capacity,
                results: results@,
                issued: Seq::empty(),
            }) && final(self)@.wf(),
    {
        if results.len() > self.capacity {
            return Err(PromiseError::CapacityExceeded);
        }
        self.results = results;
        self.issued = Vec::new();
        Ok(())
    }

    fn lookup(&self, call: &PromiseCall) -> (r: Option<Word256>)
        ensures
            r == shard_lookup(self@.results, *call),
    {
        let mut i: usize = self.results.len();
        assert(self.results@.subrange(0, i as int) =~= self.results@);
        while i > 0
            invariant
                i <= self.results.len(),
                shard_lookup(self.results@, *call) == shard_lookup(
                    self.results@.subrange(0, i as int),
                    *call,
                ),
            decreases i,
        {
            let ghost prefix = self.results@.subrange(0, i as int);
            i = i - 1;
            assert(prefix.drop_last() =~= self.results@.subrange(0, i as int));
            assert(prefix.last() == self.results@[i as int]);
            if self.results[i].call == *call {
                return Some(self.results[i].value);
            }
        }
        None
    }

    fn is_issued(&self, call: &PromiseCall) -> (r: bool)
        ensures
            r == self@.issued.contains(*call),
    {
        let mut i: usize = 0;
        while i < self.issued.len()
            invariant
                i <= self.issued.len(),
                forall|j: int| 0 <= j < i ==> self.issued@[j] != *call,
            decreases self.issued.len() - i,
        {
            if self.issued[i] == *call {
                return true;
            }
            i = i + 1;
        }
        false
    }

    /// Answers a call from the results and records it.
    pub fn resolve(&mut self, call: &PromiseCall) -> (r: Result<Word256, PromiseError>)
        requires
            old(self)@.wf(),
        ensures
            r == old(self)@.resolve(*call),
            final(self)@ == old(self)@.after(*call),
            final(self)@.wf(),
    {
        let known = self.is_issued(call);
        if !known && self.issued.len() >= self.capacity {
            return Err(PromiseError::CapacityExceeded);
        }
        match self.lookup(call) {
            None => Err(PromiseError::NotCovered),
            Some(value) => {
                if !known {
                    self.issued.push(*call);
                    assert(self@.issued =~= old(self)@.issued.push(*call));
                }
                Ok(value)
            },
        }
    }

    /// One row for each distinct call answered so far: the question and
    /// the answer it got.
    pub fn backing_rows(&self) -> (r: Vec<PromiseResult>)
        requires
            self@.wf(),
        ensures
            r@.len() == self@.issued.len(),
            r@.len() <= self@.capacity,
            forall|i: int|
                0 <= i < r@.len() ==> (#[trigger] r@[i]).call == self@.issued[i] && shard_lookup(
                    self@.results,
                    self@.issued[i],
                ) == Some(r@[i].value),
    {
        let mut rows: Vec<PromiseResult> = Vec::new();
        let mut i: usize = 0;
        while i < self.issued.len()
            invariant
                self@.wf(),
                i <= self.issued.len(),
                rows@.len() == i,
                forall|k: int|
                    0 <= k < i ==> (#[trigger] rows@[k]).call == self@.issued[k] && shard_lookup(
                        self@.results,
                        self@.issued[k],
                    ) == Some(rows@[k].value),
            decreases self.issued.len() - i,
        {
            let call = self.issued[i];
            assert(shard_lookup(self@.results, self@.issued[i as int]) is Some);
            match self.lookup(&call) {
                Some(value) => {
                    rows.push(PromiseResult { call, value });
                },
                None => {},
            }
            i = i + 1;
        }
        rows
    }
}

/// What a caller holds: the loader of each kind of component, where one is
/// attached.
pub struct CallerView {
    pub account: Option<LoaderView>,
    pub storage: Option<LoaderView>,
}

impl CallerView {
    /// Every attached loader is well formed.
    pub open spec fn wf(self) -> bool {
        &&& self.account matches Some(l) ==> l.wf()
        &&& self.storage matches Some(l) ==> l.wf()
    }

    /// The loader that answers calls of one kind.
    pub open spec fn loader(self, component: ComponentTypeId) -> Option<LoaderView> {
        match component {
            ComponentTypeId::AccountSubquery => self.account,
            ComponentTypeId::StorageSubquery => self.storage,
        }
    }

    /// The caller with another loader for one kind.
    pub open spec fn with_loader(self, component: ComponentTypeId, loader: LoaderView)
        -> CallerView {
        match component {
            ComponentTypeId::AccountSubquery => CallerView { account: Some(loader), ..self },
            ComponentTypeId::StorageSubquery => CallerView { storage: Some(loader), ..self },
        }
    }

    /// The outcome of a call: that of the loader of its kind, where one is
    /// attached.
    pub open spec fn resolve(self, call: PromiseCall) -> Result<Word256, PromiseError> {
        match self.loader(call.component_type()) {
            None => Err(PromiseError::UnsupportedComponent),
            Some(loader) => loader.resolve(call),
        }
    }

    /// The caller after a call.
    pub open spec fn after(self, call: PromiseCall) -> CallerView {
        match self.loader(call.component_type()) {
            None => self,
            Some(loader) => self.with_loader(call.component_type(), loader.after(call)),
        }
    }

    /// The results that the component of one kind supplied; none where no
    /// such component is attached.
    pub open spec fn results(self, component: ComponentTypeId) -> Seq<PromiseResult> {
        match self.loader(component) {
            None => Seq::empty(),
            Some(loader) => loader.results,
        }
    }

    /// The outcome of a run of calls: the caller after the last, or the
    /// refusal of the first call that is refused.
    pub open spec fn resolve_all(self, calls: Seq<PromiseCall>) -> Result<CallerView, PromiseError>
        decreases calls.len(),
    {
        if calls.len() == 0 {
            Ok(self)
        } else {
            match self.resolve_all(calls.drop_last()) {
                Err(e) => Err(e),
                Ok(caller) => match caller.resolve(calls.last()) {
                    Err(e) => Err(e),
                    Ok(_) => Ok(caller.after(calls.last())),
                },
            }
        }
    }
}

/// A refusal among the first calls is the refusal of the whole run.
pub proof fn lemma_resolve_all_fails(caller: CallerView, calls: Seq<PromiseCall>, k: int)
    requires
        0 <= k <= calls.len(),
        caller.resolve_all(calls.subrange(0, k)) is Err,
    ensures
        caller.resolve_all(calls) == caller.resolve_all(calls.subrange(0, k)),
    decreases calls.len(),
{
    if k == calls.len() {
        assert(calls.subrange(0, k) =~= calls);
    } else {
        assert(calls.drop_last().subrange(0, k) =~= calls.subrange(0, k));
        lemma_resolve_all_fails(caller, calls.drop_last(), k);
    }
}

/// A run of calls leaves the supplied results and the attached components
/// as they were.
pub proof fn lemma_resolve_all_keeps_results(caller: CallerView, calls: Seq<PromiseCall>)
    ensures
        caller.resolve_all(calls) matches Ok(end) ==> {
            &&& end.results(ComponentTypeId::AccountSubquery) == caller.results(
                ComponentTypeId::AccountSubquery,
            )
            &&& end.results(ComponentTypeId::StorageSubquery) == caller.results(
                ComponentTypeId::StorageSubquery,
            )
            &&& end.account is Some == caller.account is Some
            &&& end.storage is Some == caller.storage is Some
        },
    decreases calls.len(),
{
    if calls.len() > 0 {
        lemma_resolve_all_keeps_results(caller, calls.drop_last());
    }
}

/// `after` is `before` with two more cells, which hold the high and the
/// low half of `value` and which `cells` names; no constraint was added.
pub open spec fn answer_loaded(
    before: ContextView,
    after: ContextView,
    cells: HiLo<AssignedValue>,
    value: Word256,
) -> bool {
    &&& cells.hi.index == before.cells.len()
    &&& cells.lo.index == before.cells.len() + 1
    &&& after.cells.len() == before.cells.len() + 2
    &&& after.extends(before)
    &&& after.equalities == before.equalities
    &&& after.copies == before.copies
    &&& after.satisfied() == before.satisfied()
    &&& after.value(cells.hi)@ == value.hi
    &&& after.value(cells.lo)@ == value.lo
}

/// The registry of the attached components, keyed by their kind.
#[derive(Clone, Debug)]
pub struct PromiseCaller {
    pub account: Option<PromiseLoader>,
    pub storage: Option<PromiseLoader>,
}

impl View for PromiseCaller {
    type V = CallerView;

    open spec fn view(&self) -> CallerView {
        CallerView {
            account: match self.account {
                Some(l) => Some(l@),
                None => None,
            },
            storage: match self.storage {
                Some(l) => Some(l@),
                None => None,
            },
        }
    }
}

impl PromiseCaller {
    /// A caller with the given loaders attached.
    pub fn new(account: Option<PromiseLoader>, storage: Option<PromiseLoader>) -> (r: PromiseCaller)
        ensures
            r.account == account,
            r.storage == storage,
    {
        PromiseCaller { account, storage }
    }

    /// Answers a call from the loader of its kind.
    pub fn resolve(&mut self, call: &PromiseCall) -> (r: Result<Word256, PromiseError>)
        requires
            old(self)@.wf(),
        ensures
            r == old(self)@.resolve(*call),
            final(self)@ == old(self)@.after(*call),
            final(self)@.wf(),
    {
        match call {
            PromiseCall::Account(_) => {
                match self.account.take() {
                    None => Err(PromiseError::UnsupportedComponent),
                    Some(loader) => {
                        let mut loader = loader;
                        let r = loader.resolve(call);
                        self.account = Some(loader);
                        r
                    },
                }
            },
            PromiseCall::Storage(_) => {
                match self.storage.take() {
                    None => Err(PromiseError::UnsupportedComponent),
                    Some(loader) => {
                        let mut loader = loader;
                        let r = loader.resolve(call);
                        self.storage = Some(loader);
                        r
                    },
                }
            },
        }
    }

    /// Makes a promise call: the answer is put, high half first, in two new
    /// cells of the arena. A refused call changes nothing.
    pub fn call(&mut self, ctx: &mut Context, call: &PromiseCall) -> (r: Result<
        HiLo<AssignedValue>,
        PromiseError,
    >)
        requires
            old(self)@.wf(),
            old(ctx)@.wf(),
        ensures
            final(self)@ == old(self)@.after(*call),
            final(self)@.wf(),
            final(ctx)@.wf(),
            match old(self)@.resolve(*call) {
                Err(e) => r == Err::<HiLo<AssignedValue>, PromiseError>(e) && final(ctx)@ == old(ctx)@,
                Ok(value) => r matches Ok(cells) && answer_loaded(
                    old(ctx)@,
                    final(ctx)@,
                    cells,
                    value,
                ),
            },
    {
        match self.resolve(call) {
            Err(e) => Err(e),
            Ok(value) => {
                let halves = split(&value);
                let hi = ctx.load_witness(halves.hi);
                let lo = ctx.load_witness(halves.lo);
                Ok(HiLo::from_hi_lo(hi, lo))
            },
        }
    }
}

} // verus!
