//! Arrangement modes for several items.

use vstd::prelude::*;

verus! {

/// How `plan_arrange` lays items out: in a row, packed, or in a grid.
#[derive(Debug, Clone, Copy, PartialEq, Eq)]
pub enum ArrangeMode {
    Linear,
    Optimal,
    Grid,
}

} // verus!
