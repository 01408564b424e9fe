use synse::grid::{Grid, ShapeMismatch};

#[test]
fn unflatten_reads_row_major() {
    let g = Grid::unflatten(&vec![1, 2, 3, 4, 5, 6, 7], 2, 3);
    assert_eq!(g.rows, 2);
    assert_eq!(g.cols, 3);
    assert_eq!(g.cells, vec![1, 2, 3, 4, 5, 6]);
    assert_eq!(g.get(1, 0), 4);
    assert_eq!(g.get(0, 2), 3);
}

#[test]
fn transpose_swaps_rows_and_columns() {
    let g = Grid::unflatten(&vec![1, 2, 3, 4, 5, 6], 2, 3);
    let t = g.transpose();
    assert_eq!(t.rows, 3);
    assert_eq!(t.cols, 2);
    assert_eq!(t.cells, vec![1, 4, 2, 5, 3, 6]);
    assert_eq!(t.transpose(), g);
}

#[test]
fn map_applies_to_every_cell() {
    let g = Grid::unflatten(&vec![1.5, -2.0, 0.0, 4.0], 2, 2);
    let m = g.map(|v: f64| (v, 0.0));
    assert_eq!(m.cells, vec![(1.5, 0.0), (-2.0, 0.0), (0.0, 0.0), (4.0, 0.0)]);
    let back = m.map(|c: (f64, f64)| c.0);
    assert_eq!(back, g);
}

#[test]
fn zip_with_combines_cells_at_same_place() {
    let a = Grid::unflatten(&vec![1, 2, 3, 4, 5, 6], 2, 3);
    let b = Grid::unflatten(&vec![10, 20, 30, 40, 50, 60], 2, 3);
    let p = a.zip_with(&b, |x: i32, y: i32| x * y).unwrap();
    assert_eq!(p.cells, vec![10, 40, 90, 160, 250, 360]);
    assert_eq!(p.rows, 2);
}

#[test]
fn zip_with_rejects_different_shapes() {
    let a = Grid::unflatten(&vec![1, 2, 3, 4, 5, 6], 2, 3);
    let b = Grid::unflatten(&vec![1, 2, 3, 4, 5, 6], 3, 2);
    let r = a.zip_with(&b, |x: i32, y: i32| x + y);
    assert_eq!(
        r,
        Err(ShapeMismatch { left_rows: 2, left_cols: 3, right_rows: 3, right_cols: 2 })
    );
}
