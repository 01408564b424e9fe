use crate::grid::Grid;
use vstd::prelude::*;

verus! {

/// The first-difference stencil of a `rows` by `cols` field: `+1` one column
/// right of the centre, `-1` at the centre `(rows / 2, cols / 2)`, `0` elsewhere.
pub open spec fn stencil_value(rows: int, cols: int, i: int, j: int) -> i8 {
    if i == rows / 2 && j == cols / 2 + 1 {
        1i8
    } else if i == rows / 2 && j == cols / 2 {
        -1i8
    } else {
        0i8
    }
}

/// The spatial first-difference stencil, before it is taken to the frequency domain.
/// The `+1` cell must exist, so the field needs at least three columns.
pub fn gradient_stencil(rows: usize, cols: usize) -> (g: Grid<i8>)
    requires
        rows >= 1,
        cols >= 3,
        rows * cols <= usize::MAX,
    ensures
        g.wf(),
        g.rows == rows,
        g.cols == cols,
        forall|i: int, j: int|
            0 <= i < rows && 0 <= j < cols ==> #[trigger] g.cell(i, j) == stencil_value(
                rows as int,
                cols as int,
                i,
                j,
            ),
{
    let value = |i: usize, j: usize| -> (v: i8)
        ensures
            v == stencil_value(rows as int, cols as int, i as int, j as int),
        {
            if i == rows / 2 && j == cols / 2 + 1 {
                1
            } else if i == rows / 2 && j == cols / 2 {
                -1
            } else {
                0
            }
        };
    Grid::tabulate(rows, cols, value)
}

} // verus!
