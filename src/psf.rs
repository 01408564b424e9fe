use crate::grid::Grid;
use vstd::prelude::*;

verus! {

/// The mask generator visits the offsets `(x, y)` from the centre with
/// `-(rows / 2) <= x < rows / 2` and `-(cols / 2) <= y < cols / 2`.
pub open spec fn visited_offset(rows: int, cols: int, x: int, y: int) -> bool {
    -(rows / 2) <= x < rows / 2 && -(cols / 2) <= y < cols / 2
}

/// Row of the cell that offset `(x, y)` is written to: `x + rows / 2`.
pub open spec fn mirrored_row(rows: int, x: int) -> int {
    x + rows / 2
}

/// Column of the cell that offset `(x, y)` is written to, mirrored:
/// `cols - (y + cols / 2)`.
pub open spec fn mirrored_col(cols: int, y: int) -> int {
    cols - (y + cols / 2)
}

/// Row offset of the visited offset that is written to row `i`.
pub open spec fn source_x(rows: int, i: int) -> int {
    i - rows / 2
}

/// Column offset of the visited offset that is written to column `j`.
pub open spec fn source_y(cols: int, j: int) -> int {
    cols - j - cols / 2
}

/// Cell `(i, j)` is written from a visited offset.
pub open spec fn receives(rows: int, cols: int, i: int, j: int) -> bool {
    visited_offset(rows, cols, source_x(rows, i), source_y(cols, j))
}

/// The cell of a `rows` by `cols` mask that offset `(x, y)` from the centre
/// is written to: row `x + rows / 2`, column mirrored to `cols - (y + cols / 2)`.
/// None for an offset that is not visited, and for the one mirrored column,
/// `cols`, that lies outside the field.
pub fn mask_index(rows: usize, cols: usize, x: i64, y: i64) -> (r: Option<(usize, usize)>)
    requires
        rows <= i64::MAX,
        cols <= i64::MAX,
    ensures
        r == (if visited_offset(rows as int, cols as int, x as int, y as int) && mirrored_col(
            cols as int,
            y as int,
        ) < cols {
            Some(
                (
                    mirrored_row(rows as int, x as int) as usize,
                    mirrored_col(cols as int, y as int) as usize,
                ),
            )
        } else {
            None
        }),
{
    let half_rows = (rows / 2) as i64;
    let half_cols = (cols / 2) as i64;
    if x < -half_rows || x >= half_rows || y < -half_cols || y >= half_cols {
        return None;
    }
    let i = (x + half_rows) as usize;
    let shifted = (y + half_cols) as usize;
    if shifted == 0 {
        return None;
    }
    Some((i, cols - shifted))
}

/// The offset from the centre whose value cell `(i, j)` of a `rows` by `cols`
/// mask holds, or None for a cell that no visited offset is written to.
pub fn cell_offset(rows: usize, cols: usize, i: usize, j: usize) -> (r: Option<(i64, i64)>)
    requires
        rows <= i64::MAX,
        cols <= i64::MAX,
        i < rows,
        j < cols,
    ensures
        r == (if receives(rows as int, cols as int, i as int, j as int) {
            Some((source_x(rows as int, i as int) as i64, source_y(cols as int, j as int) as i64))
        } else {
            None
        }),
{
    let half_rows = (rows / 2) as i64;
    let half_cols = (cols / 2) as i64;
    let x = i as i64 - half_rows;
    let y = (cols - j) as i64 - half_cols;
    if x >= half_rows || y >= half_cols {
        return None;
    }
    Some((x, y))
}

/// The placement is a one-to-one correspondence between the visited offsets
/// whose mirrored column lies in the field and the cells that receive a value.
pub proof fn lemma_orientation_inverse(rows: int, cols: int, x: int, y: int, i: int, j: int)
    requires
        rows >= 0,
        cols >= 0,
    ensures
        visited_offset(rows, cols, x, y) && mirrored_col(cols, y) < cols ==> {
            &&& 0 <= mirrored_row(rows, x) < rows
            &&& 0 <= mirrored_col(cols, y) < cols
            &&& receives(rows, cols, mirrored_row(rows, x), mirrored_col(cols, y))
            &&& source_x(rows, mirrored_row(rows, x)) == x
            &&& source_y(cols, mirrored_col(cols, y)) == y
        },
        0 <= i < rows && 0 <= j < cols && receives(rows, cols, i, j) ==> {
            &&& mirrored_row(rows, source_x(rows, i)) == i
            &&& mirrored_col(cols, source_y(cols, j)) == j
        },
{
}

/// The `rows` by `cols` mask built from the point values of `value`: each
/// cell that receives a visited offset holds what `value` gives for that
/// offset, or `zero` where it gives None; every other cell holds `zero`.
pub fn assemble_mask<T: Copy, F: Fn(i64, i64) -> Option<T>>(
    rows: usize,
    cols: usize,
    zero: T,
    value: F,
) -> (g: Grid<T>)
    requires
        rows <= i64::MAX,
        cols <= i64::MAX,
        rows * cols <= usize::MAX,
        forall|x: i64, y: i64|
            visited_offset(rows as int, cols as int, x as int, y as int) ==> value.requires((x, y)),
    ensures
        g.wf(),
        g.rows == rows,
        g.cols == cols,
        forall|i: int, j: int|
            0 <= i < rows && 0 <= j < cols ==> {
                let x = source_x(rows as int, i) as i64;
                let y = source_y(cols as int, j) as i64;
                if receives(rows as int, cols as int, i, j) {
                    value.ensures((x, y), Some(#[trigger] g.cell(i, j))) || (value.ensures(
                        (x, y),
                        None,
                    ) && g.cell(i, j) == zero)
                } else {
                    g.cell(i, j) == zero
                }
            },
{
    let value = &value;
    let fill = |i: usize, j: usize| -> (v: T)
        requires
            rows <= i64::MAX,
            cols <= i64::MAX,
            i < rows,
            j < cols,
            forall|x: i64, y: i64|
                visited_offset(rows as int, cols as int, x as int, y as int) ==> value.requires(
                    (x, y),
                ),
        ensures
            ({
                let x = source_x(rows as int, i as int) as i64;
                let y = source_y(cols as int, j as int) as i64;
                if receives(rows as int, cols as int, i as int, j as int) {
                    value.ensures((x, y), Some(v)) || (value.ensures((x, y), None) && v == zero)
                } else {
                    v == zero
                }
            }),
        {
            match cell_offset(rows, cols, i, j) {
                Some((x, y)) => match value(x, y) {
                    Some(v) => v,
                    None => zero,
                },
                None => zero,
            }
        };
    Grid::tabulate(rows, cols, fill)
}

} // verus!
