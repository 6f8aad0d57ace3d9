//! The algebraic side of a witness: an arena of cells, the equalities
//! asserted between them, and the cells imported from the native table.

use crate::field::Fe;
use crate::layout::NativeCell;
use vstd::prelude::*;

verus! {

/// A handle to a cell of the arena.
#[derive(Clone, Copy, Debug, PartialEq, Eq, Structural)]
pub struct AssignedValue {
    pub index: usize,
}

/// What a context holds, as mathematical sequences.
pub struct ContextView {
    /// The challenge that every random linear combination of the pass uses.
    pub challenge: Fe,
    /// The value of each cell, in the order of assignment.
    pub cells: Seq<Fe>,
    /// The pairs of cells asserted equal.
    pub equalities: Seq<(usize, usize)>,
    /// The imports: a native cell and the arena cell that must hold its
    /// value.
    pub copies: Seq<(NativeCell, usize)>,
}

impl ContextView {
    /// Every constraint speaks of cells that exist.
    pub open spec fn wf(self) -> bool {
        &&& forall|i: int|
            0 <= i < self.equalities.len() ==> (#[trigger] self.equalities[i]).0
                < self.cells.len() && self.equalities[i].1 < self.cells.len()
        &&& forall|i: int|
            0 <= i < self.copies.len() ==> (#[trigger] self.copies[i]).1 < self.cells.len()
    }

    /// The cell behind a handle exists.
    pub open spec fn has(self, cell: AssignedValue) -> bool {
        cell.index < self.cells.len()
    }

    /// The value of the cell behind a handle.
    pub open spec fn value(self, cell: AssignedValue) -> Fe {
        self.cells[cell.index as int]
    }

    /// The two cells of equality `i` hold the same value.
    pub open spec fn equality_holds(self, i: int) -> bool {
        self.cells[self.equalities[i].0 as int] == self.cells[self.equalities[i].1 as int]
    }

    /// The arena cell of import `i` holds the value of its native cell.
    pub open spec fn copy_holds(self, i: int) -> bool {
        self.cells[self.copies[i].1 as int] == self.copies[i].0.value
    }

    /// Every asserted equality holds and every imported cell holds the
    /// value of its native cell.
    pub open spec fn satisfied(self) -> bool {
        &&& forall|i: int| 0 <= i < self.equalities.len() ==> #[trigger] self.equality_holds(i)
        &&& forall|i: int| 0 <= i < self.copies.len() ==> #[trigger] self.copy_holds(i)
    }

    /// `self` is `earlier` with more cells: no cell changed, the challenge
    /// is the same.
    pub open spec fn extends(self, earlier: ContextView) -> bool {
        &&& self.challenge == earlier.challenge
        &&& earlier.cells.len() <= self.cells.len()
        &&& forall|i: int| 0 <= i < earlier.cells.len() ==> self.cells[i] == earlier.cells[i]
    }
}

/// The arena, the constraints and the challenge of one proof instance.
#[derive(Debug)]
pub struct Context {
    challenge: Fe,
    cells: Vec<Fe>,
    equalities: Vec<(usize, usize)>,
    copies: Vec<(NativeCell, usize)>,
}

impl View for Context {
    type V = ContextView;

    closed spec fn view(&self) -> ContextView {
        ContextView {
            challenge: self.challenge,
            cells: self.cells@,
            equalities: self.equalities@,
            copies: self.copies@,
        }
    }
}

impl Context {
    /// An empty context bound to `challenge`.
    pub fn new(challenge: Fe) -> (r: Context)
        ensures
            r@.challenge == challenge,
            r@.cells.len() == 0,
            r@.equalities.len() == 0,
            r@.copies.len() == 0,
            r@.wf(),
            r@.satisfied(),
    {
        Context { challenge, cells: Vec::new(), equalities: Vec::new(), copies: Vec::new() }
    }

    pub fn challenge(&self) -> (r: Fe)
        ensures
            r == self@.challenge,
    {
        self.challenge
    }

    pub fn num_cells(&self) -> (r: usize)
        ensures
            r == self@.cells.len(),
    {
        self.cells.len()
    }

    pub fn num_equalities(&self) -> (r: usize)
        ensures
            r == self@.equalities.len(),
    {
        self.equalities.len()
    }

    /// The value of a cell.
    pub fn value(&self, cell: &AssignedValue) -> (r: Fe)
        requires
            self@.has(*cell),
        ensures
            r == self@.value(*cell),
    {
        self.cells[cell.index]
    }

    /// Puts a value in a new cell.
    pub fn load_witness(&mut self, value: Fe) -> (r: AssignedValue)
        requires
            old(self)@.wf(),
        ensures
            final(self)@ == (ContextView { cells: old(self)@.cells.push(value), ..old(self)@ }),
            r.index == old(self)@.cells.len(),
            final(self)@.wf(),
            final(self)@.extends(old(self)@),
            final(self)@.satisfied() == old(self)@.satisfied(),
    {
        let index = self.cells.len();
        self.cells.push(value);
        proof {
            let before = old(self)@;
            let after = self@;
            assert forall|i: int| 0 <= i < after.equalities.len() implies after.equality_holds(i)
                == before.equality_holds(i) by {
                assert(before.equalities[i].0 < before.cells.len());
            }
            assert forall|i: int| 0 <= i < after.copies.len() implies after.copy_holds(i)
                == before.copy_holds(i) by {
                assert(before.copies[i].1 < before.cells.len());
            }
            assert(after.satisfied() == before.satisfied());
        }
        AssignedValue { index }
    }

    /// Asserts that two cells hold the same value.
    pub fn constrain_equal(&mut self, a: &AssignedValue, b: &AssignedValue)
        requires
            old(self)@.wf(),
            old(self)@.has(*a),
            old(self)@.has(*b),
        ensures
            final(self)@ == (ContextView {
                equalities: old(self)@.equalities.push((a.index, b.index)),
                ..old(self)@
            }),
            final(self)@.wf(),
            final(self)@.extends(old(self)@),
            final(self)@.satisfied() == (old(self)@.satisfied() && old(self)@.value(*a) == old(
                self,
            )@.value(*b)),
    {
        self.equalities.push((a.index, b.index));
        proof {
            let before = old(self)@;
            let after = self@;
            let n = before.equalities.len() as int;
            assert(after.equalities[n] == (a.index, b.index));
            assert(after.equality_holds(n) == (before.value(*a) == before.value(*b)));
            assert forall|i: int| 0 <= i < n implies after.equality_holds(i)
                == before.equality_holds(i) by {
                assert(after.equalities[i] == before.equalities[i]);
            }
            assert forall|i: int| 0 <= i < after.copies.len() implies after.copy_holds(i)
                == before.copy_holds(i) by {}
            if after.satisfied() {
                assert(after.equality_holds(n));
                assert forall|i: int| 0 <= i < n implies #[trigger] before.equality_holds(i) by {
                    assert(after.equality_holds(i));
                }
            }
            if before.satisfied() && before.value(*a) == before.value(*b) {
                assert forall|i: int| 0 <= i < after.equalities.len() implies #[trigger] after.equality_holds(
                    i,
                ) by {
                    if i < n {
                        assert(before.equality_holds(i));
                    }
                }
            }
        }
    }

    /// Brings a cell of the native table into the arena: a new cell gets
    /// its value, and the two are tied by a copy constraint.
    pub fn load_external_assigned(&mut self, cell: &NativeCell) -> (r: AssignedValue)
        requires
            old(self)@.wf(),
        ensures
            final(self)@ == (ContextView {
                cells: old(self)@.cells.push(cell.value),
                copies: old(self)@.copies.push((*cell, r.index)),
                ..old(self)@
            }),
            r.index == old(self)@.cells.len(),
            final(self)@.wf(),
            final(self)@.extends(old(self)@),
            final(self)@.satisfied() == old(self)@.satisfied(),
    {
        let index = self.cells.len();
        self.cells.push(cell.value);
        self.copies.push((*cell, index));
        proof {
            let before = old(self)@;
            let after = self@;
            let n = before.copies.len() as int;
            assert forall|i: int| 0 <= i < after.equalities.len() implies after.equality_holds(i)
                == before.equality_holds(i) by {
                assert(before.equalities[i].0 < before.cells.len());
            }
            assert forall|i: int| 0 <= i < n implies after.copy_holds(i) == before.copy_holds(
                i,
            ) by {
                assert(after.copies[i] == before.copies[i]);
                assert(before.copies[i].1 < before.cells.len());
            }
            assert(after.copies[n] == (*cell, index));
            assert(after.copy_holds(n));
            if after.satisfied() {
                assert forall|i: int| 0 <= i < n implies #[trigger] before.copy_holds(i) by {
                    assert(after.copy_holds(i));
                }
            }
            if before.satisfied() {
                assert forall|i: int| 0 <= i < after.copies.len() implies #[trigger] after.copy_holds(
                    i,
                ) by {
                    if i < n {
                        assert(before.copy_holds(i));
                    }
                }
            }
        }
        AssignedValue { index }
    }

    /// The first asserted equality that fails, if any does.
    pub fn first_violation(&self) -> (r: Option<usize>)
        requires
            self@.wf(),
        ensures
            match r {
                Some(k) => k < self@.equalities.len() && !self@.equality_holds(k as int)
                    && forall|i: int| 0 <= i < k ==> #[trigger] self@.equality_holds(i),
                None => forall|i: int|
                    0 <= i < self@.equalities.len() ==> #[trigger] self@.equality_holds(i),
            },
    {
        let mut i: usize = 0;
        while i < self.equalities.len()
            invariant
                self@.wf(),
                i <= self.equalities.len(),
                forall|j: int| 0 <= j < i ==> #[trigger] self@.equality_holds(j),
            decreases self.equalities.len() - i,
        {
            let pair = self.equalities[i];
            assert(self@.equalities[i as int] == pair);
            if !(self.cells[pair.0] == self.cells[pair.1]) {
                return Some(i);
            }
            i = i + 1;
        }
        None
    }

    /// Whether every imported cell holds the value of its native cell.
    pub fn copies_hold(&self) -> (r: bool)
        requires
            self@.wf(),
        ensures
            r == (forall|i: int| 0 <= i < self@.copies.len() ==> #[trigger] self@.copy_holds(i)),
    {
        let mut i: usize = 0;
        while i < self.copies.len()
            invariant
                self@.wf(),
                i <= self.copies.len(),
                forall|j: int| 0 <= j < i ==> #[trigger] self@.copy_holds(j),
            decreases self.copies.len() - i,
        {
            let pair = self.copies[i];
            assert(self@.copies[i as int] == pair);
            if !(self.cells[pair.1] == pair.0.value) {
                assert(!self@.copy_holds(i as int));
                return false;
            }
            i = i + 1;
        }
        true
    }

    /// Whether the witness meets every constraint.
    pub fn is_satisfied(&self) -> (r: bool)
        requires
            self@.wf(),
        ensures
            r == self@.satisfied(),
    {
        match self.first_violation() {
            Some(_) => false,
            None => self.copies_hold(),
        }
    }
}

} // verus!
