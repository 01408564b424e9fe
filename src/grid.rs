use vstd::prelude::*;

verus! {

/// Cell `(i, j)` of a row-major sequence with `cols` columns.
pub open spec fn at<T>(s: Seq<T>, cols: int, i: int, j: int) -> T {
    s[i * cols + j]
}

/// Row-major position `i * cols + j` lies inside a `rows` by `cols` block and
/// division by `cols` recovers the row and the column.
pub proof fn lemma_flat_index(rows: int, cols: int, i: int, j: int)
    requires
        0 <= i < rows,
        0 <= j < cols,
    ensures
        0 <= i * cols + j < rows * cols,
        (i * cols + j) / cols == i,
        (i * cols + j) % cols == j,
{
    assert(0 <= i * cols + j < rows * cols) by (nonlinear_arith)
        requires
            0 <= i < rows,
            0 <= j < cols,
    ;
    vstd::arithmetic::div_mod::lemma_fundamental_div_mod_converse(i * cols + j, cols, i, j);
}

/// Two fields that were to be combined cell by cell had different shapes.
#[derive(Clone, Copy, Debug, PartialEq, Eq, Structural)]
pub struct ShapeMismatch {
    pub left_rows: usize,
    pub left_cols: usize,
    pub right_rows: usize,
    pub right_cols: usize,
}

/// A rectangular field of `rows` by `cols` cells, stored row-major in `cells`.
#[derive(Debug, PartialEq)]
pub struct Grid<T> {
    pub rows: usize,
    pub cols: usize,
    pub cells: Vec<T>,
}

impl<T: Copy> Grid<T> {
    /// The storage holds exactly one value per cell.
    pub open spec fn wf(&self) -> bool {
        &&& self.cells@.len() == self.rows * self.cols
        &&& self.rows * self.cols <= usize::MAX
    }

    /// The value at row `i`, column `j`.
    pub open spec fn cell(&self, i: int, j: int) -> T {
        at(self.cells@, self.cols as int, i, j)
    }

    /// The two fields have the same number of rows and of columns.
    pub open spec fn same_shape<U: Copy>(&self, other: &Grid<U>) -> bool {
        self.rows == other.rows && self.cols == other.cols
    }

    /// The field whose cell `(i, j)` is what `f` returns on `(i, j)`.
    pub fn tabulate<F: Fn(usize, usize) -> T>(rows: usize, cols: usize, f: F) -> (g: Grid<T>)
        requires
            rows * cols <= usize::MAX,
            forall|i: usize, j: usize| i < rows && j < cols ==> f.requires((i, j)),
        ensures
            g.wf(),
            g.rows == rows,
            g.cols == cols,
            forall|i: int, j: int|
                0 <= i < rows && 0 <= j < cols ==> f.ensures(
                    (i as usize, j as usize),
                    #[trigger] g.cell(i, j),
                ),
    {
        let total: usize = rows * cols;
        let mut cells: Vec<T> = Vec::new();
        let mut k: usize = 0;
        while k < total
            invariant
                total == rows * cols,
                k <= total,
                cells@.len() == k,
                forall|i: usize, j: usize| i < rows && j < cols ==> f.requires((i, j)),
                forall|q: int|
                    0 <= q < k ==> f.ensures(
                        ((q / cols as int) as usize, (q % cols as int) as usize),
                        #[trigger] cells@[q],
                    ),
            decreases total - k,
        {
            let i: usize = k / cols;
            let j: usize = k % cols;
            proof {
                assert(i < rows) by (nonlinear_arith)
                    requires
                        k < rows * cols,
                        i == k / cols,
                        cols > 0,
                ;
            }
            let v = f(i, j);
            cells.push(v);
            k = k + 1;
        }
        let g = Grid { rows, cols, cells };
        assert forall|i: int, j: int| 0 <= i < rows && 0 <= j < cols implies f.ensures(
            (i as usize, j as usize),
            #[trigger] g.cell(i, j),
        ) by {
            lemma_flat_index(rows as int, cols as int, i, j);
        }
        g
    }

    /// The value at row `i`, column `j`.
    pub fn get(&self, i: usize, j: usize) -> (v: T)
        requires
            self.wf(),
            i < self.rows,
            j < self.cols,
        ensures
            v == self.cell(i as int, j as int),
    {
        proof {
            lemma_flat_index(self.rows as int, self.cols as int, i as int, j as int);
        }
        self.cells[i * self.cols + j]
    }

    /// The `rows` by `cols` field read row-major from the front of `data`.
    pub fn unflatten(data: &Vec<T>, rows: usize, cols: usize) -> (g: Grid<T>)
        requires
            rows * cols <= data@.len(),
        ensures
            g.wf(),
            g.rows == rows,
            g.cols == cols,
            forall|i: int, j: int|
                0 <= i < rows && 0 <= j < cols ==> #[trigger] g.cell(i, j) == at(
                    data@,
                    cols as int,
                    i,
                    j,
                ),
    {
        // the length of `data`, a `usize`, bounds the number of cells
        let available: usize = data.len();
        assert(rows * cols <= available);
        let read = |i: usize, j: usize| -> (v: T)
            requires
                i < rows,
                j < cols,
                rows * cols <= data@.len(),
            ensures
                v == at(data@, cols as int, i as int, j as int),
            {
                proof {
                    lemma_flat_index(rows as int, cols as int, i as int, j as int);
                }
                data[i * cols + j]
            };
        Grid::tabulate(rows, cols, read)
    }

    /// The field with rows and columns exchanged.
    pub fn transpose(&self) -> (t: Grid<T>)
        requires
            self.wf(),
        ensures
            t.wf(),
            t.rows == self.cols,
            t.cols == self.rows,
            forall|i: int, j: int|
                0 <= i < self.rows && 0 <= j < self.cols ==> #[trigger] t.cell(j, i) == self.cell(
                    i,
                    j,
                ),
    {
        let read = |i: usize, j: usize| -> (v: T)
            requires
                self.wf(),
                i < self.cols,
                j < self.rows,
            ensures
                v == self.cell(j as int, i as int),
            { self.get(j, i) };
        proof {
            vstd::arithmetic::mul::lemma_mul_is_commutative(self.rows as int, self.cols as int);
        }
        Grid::tabulate(self.cols, self.rows, read)
    }

    /// The field of the same shape whose cells are `f` applied to the cells of this one.
    pub fn map<U: Copy, F: Fn(T) -> U>(&self, f: F) -> (g: Grid<U>)
        requires
            self.wf(),
            forall|x: T| f.requires((x,)),
        ensures
            g.wf(),
            g.rows == self.rows,
            g.cols == self.cols,
            forall|i: int, j: int|
                0 <= i < self.rows && 0 <= j < self.cols ==> f.ensures(
                    (self.cell(i, j),),
                    #[trigger] g.cell(i, j),
                ),
    {
        let f = &f;
        let apply = |i: usize, j: usize| -> (v: U)
            requires
                self.wf(),
                i < self.rows,
                j < self.cols,
                forall|x: T| f.requires((x,)),
            ensures
                f.ensures((self.cell(i as int, j as int),), v),
            { f(self.get(i, j)) };
        Grid::tabulate(self.rows, self.cols, apply)
    }

    /// The field whose cells are `f` applied to the cells of this field and of
    /// `other` at the same place; an error where the shapes differ.
    pub fn zip_with<U: Copy, V: Copy, F: Fn(T, U) -> V>(&self, other: &Grid<U>, f: F) -> (r:
        Result<Grid<V>, ShapeMismatch>)
        requires
            self.wf(),
            other.wf(),
            forall|x: T, y: U| f.requires((x, y)),
        ensures
            r is Err <==> !self.same_shape(other),
            r matches Err(e) ==> e == (ShapeMismatch {
                left_rows: self.rows,
                left_cols: self.cols,
                right_rows: other.rows,
                right_cols: other.cols,
            }),
            r matches Ok(g) ==> {
                &&& g.wf()
                &&& g.rows == self.rows
                &&& g.cols == self.cols
                &&& forall|i: int, j: int|
                    0 <= i < self.rows && 0 <= j < self.cols ==> f.ensures(
                        (self.cell(i, j), other.cell(i, j)),
                        #[trigger] g.cell(i, j),
                    )
            },
    {
        if self.rows != other.rows || self.cols != other.cols {
            return Err(
                ShapeMismatch {
                    left_rows: self.rows,
                    left_cols: self.cols,
                    right_rows: other.rows,
                    right_cols: other.cols,
                },
            );
        }
        let f = &f;
        let apply = |i: usize, j: usize| -> (v: V)
            requires
                self.wf(),
                other.wf(),
                self.same_shape(other),
                i < self.rows,
                j < self.cols,
                forall|x: T, y: U| f.requires((x, y)),
            ensures
                f.ensures((self.cell(i as int, j as int), other.cell(i as int, j as int)), v),
            { f(self.get(i, j), other.get(i, j)) };
        Ok(Grid::tabulate(self.rows, self.cols, apply))
    }
}

} // verus!
