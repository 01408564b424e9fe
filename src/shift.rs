use crate::grid::{lemma_flat_index, Grid};
use vstd::prelude::*;

verus! {

/// Along an axis of length `n`, the position whose value the centring shift
/// moves to position `k`: `(k + n - n / 2) % n`. The first `n / 2` positions
/// take their values from `n - n / 2` further on, the others from `n / 2`
/// before; position `0` lands on `n / 2`.
pub open spec fn centre_source(n: int, k: int) -> int {
    if k < n / 2 {
        k + (n - n / 2)
    } else {
        k - n / 2
    }
}

/// Along an axis of length `n`, the position whose value the inverse of the
/// centring shift moves to position `k`: `(k + n / 2) % n`; position `n / 2`
/// lands on `0`.
pub open spec fn uncentre_source(n: int, k: int) -> int {
    if k < n - n / 2 {
        k + n / 2
    } else {
        k - (n - n / 2)
    }
}

/// `dst` is `src` with its quadrants moved so that cell `(0, 0)` sits at the centre.
pub open spec fn centred_from<T: Copy>(src: Grid<T>, dst: Grid<T>) -> bool {
    &&& dst.wf()
    &&& dst.same_shape(&src)
    &&& forall|i: int, j: int|
        0 <= i < src.rows && 0 <= j < src.cols ==> #[trigger] dst.cell(i, j) == src.cell(
            centre_source(src.rows as int, i),
            centre_source(src.cols as int, j),
        )
}

/// `dst` is `src` with its quadrants moved so that the centre cell sits at `(0, 0)`.
pub open spec fn uncentred_from<T: Copy>(src: Grid<T>, dst: Grid<T>) -> bool {
    &&& dst.wf()
    &&& dst.same_shape(&src)
    &&& forall|i: int, j: int|
        0 <= i < src.rows && 0 <= j < src.cols ==> #[trigger] dst.cell(i, j) == src.cell(
            uncentre_source(src.rows as int, i),
            uncentre_source(src.cols as int, j),
        )
}

/// Two well-formed fields of one shape with equal cells are the same field.
pub open spec fn same_field<T: Copy>(a: Grid<T>, b: Grid<T>) -> bool {
    a.rows == b.rows && a.cols == b.cols && a.cells@ == b.cells@
}

fn centre_index(n: usize, k: usize) -> (s: usize)
    requires
        k < n,
    ensures
        s == centre_source(n as int, k as int),
        s < n,
{
    if k < n / 2 {
        k + (n - n / 2)
    } else {
        k - n / 2
    }
}

fn uncentre_index(n: usize, k: usize) -> (s: usize)
    requires
        k < n,
    ensures
        s == uncentre_source(n as int, k as int),
        s < n,
{
    if k < n - n / 2 {
        k + n / 2
    } else {
        k - (n - n / 2)
    }
}

/// Moves the zero-frequency cell `(0, 0)` to the centre `(rows / 2, cols / 2)`.
pub fn fftshift<T: Copy>(g: &Grid<T>) -> (s: Grid<T>)
    requires
        g.wf(),
    ensures
        centred_from(*g, s),
{
    let read = |i: usize, j: usize| -> (v: T)
        requires
            g.wf(),
            i < g.rows,
            j < g.cols,
        ensures
            v == g.cell(centre_source(g.rows as int, i as int), centre_source(g.cols as int, j as int)),
        { g.get(centre_index(g.rows, i), centre_index(g.cols, j)) };
    Grid::tabulate(g.rows, g.cols, read)
}

/// Moves the centre cell `(rows / 2, cols / 2)` back to `(0, 0)`; undoes [`fftshift`].
pub fn ifftshift<T: Copy>(g: &Grid<T>) -> (s: Grid<T>)
    requires
        g.wf(),
    ensures
        uncentred_from(*g, s),
{
    let read = |i: usize, j: usize| -> (v: T)
        requires
            g.wf(),
            i < g.rows,
            j < g.cols,
        ensures
            v == g.cell(
                uncentre_source(g.rows as int, i as int),
                uncentre_source(g.cols as int, j as int),
            ),
        { g.get(uncentre_index(g.rows, i), uncentre_index(g.cols, j)) };
    Grid::tabulate(g.rows, g.cols, read)
}

/// Two well-formed fields of one shape that agree on every cell are the same field.
pub proof fn lemma_cells_determine_field<T: Copy>(a: Grid<T>, b: Grid<T>)
    requires
        a.wf(),
        b.wf(),
        a.same_shape(&b),
        forall|i: int, j: int| 0 <= i < a.rows && 0 <= j < a.cols ==> #[trigger] a.cell(i, j) == b.cell(i, j),
    ensures
        same_field(a, b),
{
    assert forall|q: int| 0 <= q < a.cells@.len() implies a.cells@[q] == b.cells@[q] by {
        let c = a.cols as int;
        let r = a.rows as int;
        assert(c > 0) by (nonlinear_arith)
            requires
                0 <= q < r * c,
                r >= 0,
                c >= 0,
        ;
        vstd::arithmetic::div_mod::lemma_fundamental_div_mod(q, c);
        let i = q / c;
        let j = q % c;
        assert(0 <= i < r) by (nonlinear_arith)
            requires
                0 <= q < r * c,
                c > 0,
                i == q / c,
        ;
        lemma_flat_index(a.rows as int, c, i, j);
        assert(a.cell(i, j) == b.cell(i, j));
    }
    assert(a.cells@ =~= b.cells@);
}

/// The inverse shift undoes the centring shift, and the centring shift undoes
/// the inverse shift, on fields of any shape.
pub proof fn lemma_shift_round_trip<T: Copy>(g: Grid<T>, s: Grid<T>, back: Grid<T>, u: Grid<T>, forth: Grid<T>)
    requires
        g.wf(),
        centred_from(g, s),
        uncentred_from(s, back),
        uncentred_from(g, u),
        centred_from(u, forth),
    ensures
        same_field(back, g),
        same_field(forth, g),
{
    assert forall|i: int, j: int| 0 <= i < g.rows && 0 <= j < g.cols implies #[trigger] back.cell(i, j) == g.cell(i, j) by {
        assert(back.cell(i, j) == s.cell(uncentre_source(g.rows as int, i), uncentre_source(g.cols as int, j)));
    }
    lemma_cells_determine_field(back, g);
    assert forall|i: int, j: int| 0 <= i < g.rows && 0 <= j < g.cols implies #[trigger] forth.cell(i, j) == g.cell(i, j) by {
        assert(forth.cell(i, j) == u.cell(centre_source(g.rows as int, i), centre_source(g.cols as int, j)));
    }
    lemma_cells_determine_field(forth, g);
}

/// With an even number of rows and of columns the centring shift is its own
/// inverse: applying it twice restores the field, and it agrees with the
/// inverse shift.
pub proof fn lemma_shift_self_inverse_even<T: Copy>(g: Grid<T>, s: Grid<T>, twice: Grid<T>, u: Grid<T>)
    requires
        g.wf(),
        g.rows % 2 == 0,
        g.cols % 2 == 0,
        centred_from(g, s),
        centred_from(s, twice),
        uncentred_from(g, u),
    ensures
        same_field(twice, g),
        same_field(s, u),
{
    assert forall|i: int, j: int| 0 <= i < g.rows && 0 <= j < g.cols implies #[trigger] twice.cell(i, j) == g.cell(i, j) by {
        assert(twice.cell(i, j) == s.cell(centre_source(g.rows as int, i), centre_source(g.cols as int, j)));
    }
    lemma_cells_determine_field(twice, g);
    assert forall|i: int, j: int| 0 <= i < g.rows && 0 <= j < g.cols implies #[trigger] s.cell(i, j) == u.cell(i, j) by {
    }
    lemma_cells_determine_field(s, u);
}

} // verus!
