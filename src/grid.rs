//! The depth buffer: a dense grid of `array2d::Array2D` cells, one per pixel, row `y` and
//! column `x`.

use array2d::Array2D;
use vstd::prelude::*;

verus! {

/// `array2d::Array2D`, held opaque: its cells are read through `grid_cells`.
#[verifier::external_type_specification]
#[verifier::external_body]
#[verifier::reject_recursive_types(T)]
pub struct ExArray2D<T>(Array2D<T>);

/// The cells of a depth grid, as a sequence of rows.
pub uninterp spec fn grid_cells(g: Array2D<i64>) -> Seq<Seq<i64>>;

/// Relies on `Array2D::filled_with`: `num_rows` rows, each of `num_columns` copies of
/// `element`. It allocates `num_rows * num_columns` cells, so that count must fit.
#[verifier::external_body]
fn filled_grid(element: i64, num_rows: usize, num_columns: usize) -> (g: Array2D<i64>)
    requires
        num_rows * num_columns * 8 <= isize::MAX,
    ensures
        grid_cells(g) == Seq::new(num_rows as nat, |r: int| Seq::new(num_columns as nat, |c: int| element)),
{
    Array2D::filled_with(element, num_rows, num_columns)
}

/// Relies on `Array2D::get`: the cell at `(row, column)`, or `None` outside the grid.
#[verifier::external_body]
pub(crate) fn grid_get(g: &Array2D<i64>, row: usize, column: usize) -> (r: Option<i64>)
    ensures
        r == (if row < grid_cells(*g).len() && column < grid_cells(*g)[row as int].len() {
            Some(grid_cells(*g)[row as int][column as int])
        } else {
            None
        }),
{
    g.get(row, column).copied()
}

/// Relies on `Array2D::set`: replaces the cell at `(row, column)` and reports success, or
/// reports failure and changes nothing outside the grid.
#[verifier::external_body]
pub(crate) fn grid_set(g: &mut Array2D<i64>, row: usize, column: usize, element: i64) -> (ok: bool)
    ensures
        ok == (row < grid_cells(*old(g)).len() && column < grid_cells(*old(g))[row as int].len()),
        grid_cells(*final(g)) == (if ok {
            grid_cells(*old(g)).update(
                row as int,
                grid_cells(*old(g))[row as int].update(column as int, element),
            )
        } else {
            grid_cells(*old(g))
        }),
{
    g.set(row, column, element).is_ok()
}

/// The depth every cell starts from: the farthest representable depth.
pub const FAR: i64 = i64::MAX;

/// A fresh depth buffer for a `width` by `height` image: `height` rows of `width` cells,
/// each at `FAR`.
pub fn depth_buffer(width: u32, height: u32) -> (g: Array2D<i64>)
    requires
        width * height * 8 <= isize::MAX,
    ensures
        grid_cells(g) == Seq::new(height as nat, |r: int| Seq::new(width as nat, |c: int| FAR)),
{
    assert(height * width == width * height) by (nonlinear_arith);
    filled_grid(FAR, height as usize, width as usize)
}

} // verus!
