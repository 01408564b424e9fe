use synse::grid::Grid;
use synse::shift::{fftshift, ifftshift};

fn enumerated(rows: usize, cols: usize) -> Grid<f64> {
    let data: Vec<f64> = (0..rows * cols).map(|k| k as f64).collect();
    Grid::unflatten(&data, rows, cols)
}

fn grid_of(rows: usize, cols: usize, values: &[f64]) -> Grid<f64> {
    Grid::unflatten(&values.to_vec(), rows, cols)
}

#[test]
fn test_fftshift_square() {
    let arr = grid_of(
        4,
        4,
        &[0., 1., 2., 3., 4., 5., 6., 7., 8., 9., 10., 11., 12., 13., 14., 15.],
    );
    let fftshifted = grid_of(
        4,
        4,
        &[10., 11., 8., 9., 14., 15., 12., 13., 2., 3., 0., 1., 6., 7., 4., 5.],
    );
    let shifted = fftshift(&arr);
    assert_eq!(shifted, fftshifted);
}

#[test]
fn test_fftshift_rectangle() {
    let arr = grid_of(
        4,
        6,
        &[
            0., 1., 2., 3., 4., 5., 6., 7., 8., 9., 10., 11., 12., 13., 14., 15., 16., 17., 18.,
            19., 20., 21., 22., 23.,
        ],
    );
    let fftshifted = grid_of(
        4,
        6,
        &[
            15., 16., 17., 12., 13., 14., 21., 22., 23., 18., 19., 20., 3., 4., 5., 0., 1., 2., 9.,
            10., 11., 6., 7., 8.,
        ],
    );
    let shifted = fftshift(&arr);
    assert_eq!(shifted, fftshifted);
}

#[test]
fn test_ifftshift_square() {
    let arr = grid_of(
        4,
        4,
        &[0., 1., 2., 3., 4., 5., 6., 7., 8., 9., 10., 11., 12., 13., 14., 15.],
    );
    let fftshifted = grid_of(
        4,
        4,
        &[10., 11., 8., 9., 14., 15., 12., 13., 2., 3., 0., 1., 6., 7., 4., 5.],
    );
    let shifted = ifftshift(&fftshifted);
    assert_eq!(shifted, arr);
}

#[test]
fn shift_moves_origin_to_centre_on_odd_field() {
    let arr = enumerated(3, 3);
    let expected = grid_of(3, 3, &[8., 6., 7., 2., 0., 1., 5., 3., 4.]);
    let shifted = fftshift(&arr);
    assert_eq!(shifted, expected);
    assert_eq!(shifted.get(1, 1), 0.);
}

#[test]
fn inverse_shift_moves_centre_to_origin_on_odd_field() {
    let arr = enumerated(3, 3);
    let expected = grid_of(3, 3, &[4., 5., 3., 7., 8., 6., 1., 2., 0.]);
    assert_eq!(ifftshift(&arr), expected);
}

#[test]
fn shifts_differ_on_odd_field() {
    let arr = enumerated(3, 5);
    assert_ne!(fftshift(&arr), ifftshift(&arr));
}

#[test]
fn shift_round_trip_on_odd_field() {
    let arr = enumerated(5, 3);
    assert_eq!(ifftshift(&fftshift(&arr)), arr);
    assert_eq!(fftshift(&ifftshift(&arr)), arr);
}

#[test]
fn shift_twice_restores_even_field() {
    let arr = enumerated(4, 6);
    assert_eq!(fftshift(&fftshift(&arr)), arr);
    assert_eq!(fftshift(&arr), ifftshift(&arr));
}

#[test]
fn shift_of_single_cell_and_empty_field() {
    let one = enumerated(1, 1);
    assert_eq!(fftshift(&one), one);
    assert_eq!(ifftshift(&one), one);
    let empty = enumerated(0, 3);
    assert_eq!(fftshift(&empty), empty);
}
