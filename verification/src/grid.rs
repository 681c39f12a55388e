//! The occupancy grid: a dense two-dimensional lookup from a zero-based
//! cell index to the system or black hole occupying that cell, if any.
//!
//! The grid itself is `array2d::Array2D`; its contents and extent are named
//! by `grid_cells` and `grid_dims`, and every access goes through the
//! wrappers below. The first index runs over columns, the second over rows,
//! matching the order the grid is allocated with.

use vstd::prelude::*;
use crate::model::System;

verus! {

#[verifier::external_type_specification]
#[verifier::external_body]
#[verifier::reject_recursive_types(T)]
pub struct ExArray2D<T>(array2d::Array2D<T>);

/// What the grid holds: the cell at each zero-based index pair.
pub uninterp spec fn grid_cells(g: array2d::Array2D<Option<System>>) -> Map<
    (int, int),
    Option<System>,
>;

/// The extent the grid was allocated with: (first-index bound,
/// second-index bound).
pub uninterp spec fn grid_dims(g: array2d::Array2D<Option<System>>) -> (int, int);

/// Relies on `array2d::Array2D::filled_with`: a grid of the given extent
/// with every cell holding a clone of the given element, here `None`.
#[verifier::external_body]
pub fn grid_new(cols: usize, rows: usize) -> (g: array2d::Array2D<Option<System>>)
    requires
        1 <= cols <= 255,
        1 <= rows <= 255,
    ensures
        grid_dims(g) == (cols as int, rows as int),
        forall|i: int, j: int|
            0 <= i < cols && 0 <= j < rows ==> #[trigger] grid_cells(g)[(i, j)]
                == Option::<System>::None,
{
    array2d::Array2D::filled_with(None, cols, rows)
}

/// Relies on `array2d::Array2D::set`: replaces the cell at the given index
/// pair and leaves every other cell and the extent unchanged.
#[verifier::external_body]
pub fn grid_set(
    g: &mut array2d::Array2D<Option<System>>,
    i: usize,
    j: usize,
    v: Option<System>,
)
    requires
        0 <= i < grid_dims(*old(g)).0,
        0 <= j < grid_dims(*old(g)).1,
    ensures
        grid_dims(*final(g)) == grid_dims(*old(g)),
        grid_cells(*final(g)) == grid_cells(*old(g)).insert((i as int, j as int), v),
{
    let _ = g.set(i, j, v);
}

/// Relies on `array2d::Array2D::get`: the cell at the given index pair when
/// it lies within the extent, and `None` otherwise.
#[verifier::external_body]
pub fn grid_get<'a>(g: &'a array2d::Array2D<Option<System>>, i: usize, j: usize) -> (r: Option<&'a Option<System>>)
    ensures
        r is Some <==> (0 <= i < grid_dims(*g).0 && 0 <= j < grid_dims(*g).1),
        r matches Some(c) ==> *c == grid_cells(*g)[(i as int, j as int)],
{
    g.get(i, j)
}

} // verus!
