//! Data handed to a charting service: two columns of equal length.

use vstd::prelude::*;

verus! {

/// The `x` and `y` columns of a chart.
pub struct Grid<'a, X, Y> {
    pub x: &'a [X],
    pub y: &'a [Y],
}

impl<'a, X, Y> Grid<'a, X, Y> {
    /// Pairs two columns; they must be of the same length.
    pub fn new(x: &'a [X], y: &'a [Y]) -> (r: Option<Grid<'a, X, Y>>)
        ensures
            r is Some <==> x@.len() == y@.len(),
            r matches Some(g) ==> g.x@ == x@ && g.y@ == y@,
    {
        if x.len() == y.len() {
            Some(Grid { x, y })
        } else {
            None
        }
    }
}

} // verus!
