//! The columns of the native table and the cells assigned in them.

use crate::field::Fe;
use vstd::prelude::*;

verus! {

/// An advice column, named by its position among the advice columns.
#[derive(Clone, Copy, Debug, PartialEq, Eq, Structural)]
pub struct Column {
    pub index: usize,
}

/// The count of the columns handed out so far.
#[derive(Clone, Copy, Debug, PartialEq, Eq, Structural)]
pub struct ConstraintSystem {
    pub num_advice_columns: usize,
}

impl ConstraintSystem {
    pub fn new() -> (r: ConstraintSystem)
        ensures
            r.num_advice_columns == 0,
    {
        ConstraintSystem { num_advice_columns: 0 }
    }

    /// Hands out the next advice column.
    pub fn advice_column(&mut self) -> (r: Column)
        requires
            old(self).num_advice_columns < usize::MAX,
        ensures
            r.index == old(self).num_advice_columns,
            final(self).num_advice_columns == old(self).num_advice_columns + 1,
    {
        let column = Column { index: self.num_advice_columns };
        self.num_advice_columns = self.num_advice_columns + 1;
        column
    }
}

/// A cell of the native table after assignment: where it stands and what it
/// holds.
#[derive(Clone, Copy, Debug, PartialEq, Eq, Structural)]
pub struct NativeCell {
    pub column: Column,
    pub row: usize,
    pub value: Fe,
}

} // verus!
