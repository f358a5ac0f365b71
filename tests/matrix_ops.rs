use matrices::{
    band_ranges, chunk_size, operation, render_cells, same_size, AddMultiThreaded, Element,
    ElementOp, Matrix, One, SubMultiThreaded, Zero,
};

fn cells<T: Element + std::fmt::Debug>(m: &Matrix<T>) -> Vec<Vec<T>> {
    let mut out = Vec::new();
    for r in 0..m.rows() {
        let mut row = Vec::new();
        for c in 0..m.cols() {
            row.push(m.get_value(r, c).unwrap());
        }
        out.push(row);
    }
    out
}

fn sample(rows: usize, cols: usize, seed: i64) -> Matrix<i64> {
    let mut v = Vec::new();
    for r in 0..rows {
        let mut row = Vec::new();
        for c in 0..cols {
            row.push((r as i64 * 31 + c as i64 * 7 + seed) % 23 - 11);
        }
        v.push(row);
    }
    Matrix::new(v)
}

#[test]
fn ragged_rows_are_padded_with_zero() {
    let m = Matrix::new(vec![vec![1, 2], vec![3, 4, 5, 6], vec![7]]);
    assert_eq!(m.rows(), 3);
    assert_eq!(m.cols(), 4);
    assert_eq!(
        cells(&m),
        vec![vec![1, 2, 0, 0], vec![3, 4, 5, 6], vec![7, 0, 0, 0]]
    );
}

#[test]
fn empty_rows_make_an_empty_matrix() {
    let m: Matrix<i32> = Matrix::new(Vec::new());
    assert_eq!(m.rows(), 0);
    assert_eq!(m.cols(), 0);
    assert!(m.get_value(0, 0).is_err());
}

#[test]
fn zeros_and_values_fill_every_cell() {
    let z: Matrix<u8> = Matrix::new_with_zeros(2, 3);
    assert_eq!(cells(&z), vec![vec![0, 0, 0], vec![0, 0, 0]]);
    let v = Matrix::new_with_values(3, 2, 9i16);
    assert_eq!(cells(&v), vec![vec![9, 9], vec![9, 9], vec![9, 9]]);
    let e: Matrix<i32> = Matrix::new_with_zeros(0, 5);
    assert_eq!((e.rows(), e.cols()), (0, 5));
}

#[test]
fn identity_matrix_is_all_ones() {
    let m: Matrix<i32> = Matrix::identity_matrix(3);
    assert_eq!((m.rows(), m.cols()), (3, 3));
    assert_eq!(cells(&m), vec![vec![1, 1, 1], vec![1, 1, 1], vec![1, 1, 1]]);
}

#[test]
fn shape_predicates() {
    let a: Matrix<i32> = Matrix::new_with_zeros(2, 3);
    let b: Matrix<i32> = Matrix::new_with_zeros(2, 3);
    let c: Matrix<i32> = Matrix::new_with_zeros(3, 4);
    assert!(a.can_add_to(&b));
    assert!(a.can_subtract_from(&b));
    assert!(same_size(&a, &b));
    assert!(!a.can_add_to(&c));
    assert!(!a.can_subtract_from(&c));
    assert!(!same_size(&a, &c));
    assert!(a.can_multiply_by(&c));
    assert!(!c.can_multiply_by(&a));
}

#[test]
fn add_and_subtract_exact_values() {
    let a = Matrix::new(vec![vec![1, 2], vec![3, 4]]);
    let b = Matrix::new(vec![vec![10, 20], vec![30, 40]]);
    let s = a.clone().add_to(b.clone()).unwrap();
    assert_eq!(cells(&s), vec![vec![11, 22], vec![33, 44]]);
    let d = a.subtract_from(b).unwrap();
    assert_eq!(cells(&d), vec![vec![-9, -18], vec![-27, -36]]);
}

#[test]
fn add_and_subtract_reject_mismatched_shapes() {
    let a: Matrix<i32> = Matrix::new_with_values(3, 3, 1);
    let b: Matrix<i32> = Matrix::new_with_values(3, 4, 1);
    assert!(a.clone().add_to(b.clone()).is_err());
    let e = a.clone().subtract_from(b.clone()).unwrap_err();
    assert_eq!(e.message(), "Matrices must be the same size");
    for k in 1..6 {
        assert!(a.add_multithreaded(&b, k).is_err());
        assert!(a.sub_multithreaded(&b, k).is_err());
        assert!(b.add_multithreaded(&a, k).is_err());
    }
}

#[test]
fn multiply_shape_check() {
    let a: Matrix<i32> = Matrix::new_with_values(2, 3, 1);
    let b: Matrix<i32> = Matrix::new_with_values(4, 2, 1);
    assert!(a.clone().multiply_by(b).is_err());
    let c: Matrix<i32> = Matrix::new_with_values(3, 4, 1);
    let p = a.multiply_by(c).unwrap();
    assert_eq!((p.rows(), p.cols()), (2, 4));
    assert_eq!(cells(&p), vec![vec![3, 3, 3, 3], vec![3, 3, 3, 3]]);
}

#[test]
fn multiply_exact_values() {
    let a = Matrix::new(vec![vec![1, 2], vec![3, 4]]);
    let b = Matrix::new(vec![vec![5, 6], vec![7, 8]]);
    let p = a.multiply_by(b).unwrap();
    assert_eq!(cells(&p), vec![vec![19, 22], vec![43, 50]]);
    let r = Matrix::new(vec![vec![1u32, 2, 3]]);
    let c = Matrix::new(vec![vec![4u32], vec![5], vec![6]]);
    assert_eq!(cells(&r.multiply_by(c).unwrap()), vec![vec![32]]);
}

#[test]
fn multiply_large_value_filled() {
    let a = Matrix::new_with_values(1000, 1000, 5i32);
    let b = Matrix::new_with_values(1000, 1000, 5i32);
    let p = a.multiply_by(b).unwrap();
    assert_eq!(p.get_value(0, 0).unwrap(), 25000);
}

#[test]
fn sub_multithreaded_large_gives_zeros() {
    let a = Matrix::new_with_values(10000, 10000, 5i32);
    let b = Matrix::new_with_values(10000, 10000, 5i32);
    let d = a.sub_multithreaded(&b, 4).unwrap();
    assert_eq!(d.get_value(9999, 9999).unwrap(), 0);
    assert!(d.get_value(10000, 10000).is_err());
    assert_eq!(d.get_value(0, 0).unwrap(), 0);
    assert_eq!(d.get_value(5000, 123).unwrap(), 0);
}

#[test]
fn parallel_add_matches_sequential() {
    for &(rows, cols) in &[(7usize, 5usize), (6, 3), (1, 4), (0, 3)] {
        let a = sample(rows, cols, 1);
        let b = sample(rows, cols, 5);
        let seq = a.clone().add_to(b.clone()).unwrap();
        for k in 1..(rows + 3) {
            let par = a.add_multithreaded(&b, k).unwrap();
            assert_eq!(cells(&par), cells(&seq));
            assert_eq!((par.rows(), par.cols()), (seq.rows(), seq.cols()));
        }
    }
}

#[test]
fn parallel_sub_matches_sequential() {
    for &(rows, cols) in &[(7usize, 5usize), (9, 2), (2, 2)] {
        let a = sample(rows, cols, 3);
        let b = sample(rows, cols, 8);
        let seq = a.clone().subtract_from(b.clone()).unwrap();
        for k in 1..(rows + 3) {
            let par = a.sub_multithreaded(&b, k).unwrap();
            assert_eq!(cells(&par), cells(&seq));
        }
    }
}

#[test]
fn chunk_size_formula() {
    assert_eq!(chunk_size(10, 3), 4);
    assert_eq!(chunk_size(9, 3), 4);
    assert_eq!(chunk_size(0, 4), 1);
    assert_eq!(chunk_size(5, 1), 6);
    assert_eq!(chunk_size(3, 8), 1);
}

#[test]
fn get_value_bounds() {
    let m = Matrix::new(vec![vec![1, 2, 3], vec![4, 5, 6]]);
    assert_eq!(m.get_value(1, 2).unwrap(), 6);
    assert_eq!(m.get_value(0, 1).unwrap(), 2);
    assert!(m.get_value(2, 0).is_err());
    let e = m.get_value(0, 3).unwrap_err();
    assert_eq!(e.message(), "Row or column out of bounds");
}

#[test]
fn set_value_in_and_out_of_bounds() {
    let mut m = Matrix::new(vec![vec![1, 2], vec![3, 4]]);
    assert!(m.set_value(1, 0, 30).is_ok());
    assert_eq!(cells(&m), vec![vec![1, 2], vec![30, 4]]);
    assert!(m.set_value(2, 0, 7).is_err());
    assert!(m.set_value(0, 2, 7).is_err());
    assert_eq!(cells(&m), vec![vec![1, 2], vec![30, 4]]);
}

fn triple(x: i32) -> i32 {
    x * 3
}

#[test]
fn set_value_with_modifier_function_applies_it() {
    let mut m = Matrix::new(vec![vec![1, 2], vec![3, 4]]);
    assert!(m.set_value_with_modifier_function(0, 1, triple).is_ok());
    assert_eq!(cells(&m), vec![vec![1, 6], vec![3, 4]]);
    assert!(m.set_value_with_modifier_function(5, 1, triple).is_err());
    assert_eq!(cells(&m), vec![vec![1, 6], vec![3, 4]]);
}

#[test]
fn multiply_by_scalar_leaves_receiver() {
    let m = Matrix::new(vec![vec![1, -2], vec![3, 4]]);
    let s = m.multiply_by_scalar(3);
    assert_eq!(cells(&s), vec![vec![3, -6], vec![9, 12]]);
    assert_eq!(cells(&m), vec![vec![1, -2], vec![3, 4]]);
}

#[test]
fn grow_or_shrink_same_shape_is_no_op() {
    let mut m = Matrix::new(vec![vec![1, 2], vec![3, 4]]);
    m.grow_or_shrink(2, 2);
    assert_eq!((m.rows(), m.cols()), (2, 2));
    assert_eq!(cells(&m), vec![vec![1, 2], vec![3, 4]]);
}

#[test]
fn grow_or_shrink_grows_with_zeros() {
    let mut m = Matrix::new(vec![vec![1, 2], vec![3, 4]]);
    m.grow_or_shrink(3, 3);
    assert_eq!((m.rows(), m.cols()), (3, 3));
    assert_eq!(cells(&m), vec![vec![1, 2, 0], vec![3, 4, 0], vec![0, 0, 0]]);
}

#[test]
fn grow_or_shrink_truncates_and_mixes() {
    let mut m = Matrix::new(vec![vec![1, 2, 3], vec![4, 5, 6]]);
    m.grow_or_shrink(1, 2);
    assert_eq!(cells(&m), vec![vec![1, 2]]);
    let mut n = Matrix::new(vec![vec![1, 2, 3], vec![4, 5, 6]]);
    n.grow_or_shrink(3, 1);
    assert_eq!((n.rows(), n.cols()), (3, 1));
    assert_eq!(cells(&n), vec![vec![1], vec![4], vec![0]]);
    n.grow_or_shrink(0, 0);
    assert_eq!((n.rows(), n.cols()), (0, 0));
}

#[test]
fn identities_of_element_types() {
    assert_eq!(<i8 as Zero>::zero(), 0);
    assert_eq!(<u128 as One>::one(), 1);
    assert_eq!(<usize as One>::one(), 1);
    assert_eq!(<isize as Zero>::zero(), 0);
    assert_eq!(<u64 as Element>::plus(2, 3), 5);
    assert_eq!(<i16 as Element>::minus(2, 3), -1);
    assert_eq!(<u8 as Element>::times(7, 9), 63);
}

#[test]
fn operation_applies_the_chosen_op() {
    assert_eq!(operation(7i32, 3, ElementOp::Add), 10);
    assert_eq!(operation(7i32, 3, ElementOp::Sub), 4);
}

#[test]
fn render_cells_lays_out_rows() {
    let cells = vec![
        vec!["1".to_string(), "2".to_string()],
        vec!["30".to_string(), "4".to_string(), "5".to_string()],
        vec![],
    ];
    assert_eq!(render_cells(&cells), "[ 1, 2 ]\n[ 30, 4, 5 ]\n[ ]\n");
    assert_eq!(render_cells(&Vec::new()), "");
}

#[test]
fn band_ranges_cover_all_rows() {
    assert_eq!(band_ranges(10, 4), vec![(0, 4), (4, 8), (8, 10)]);
    assert_eq!(band_ranges(8, 4), vec![(0, 4), (4, 8)]);
    assert_eq!(band_ranges(9, 4), vec![(0, 4), (4, 8), (8, 9)]);
    assert_eq!(band_ranges(0, 3), vec![]);
    assert_eq!(band_ranges(6, chunk_size(6, 3)), vec![(0, 3), (3, 6)]);
}

#[test]
fn bands_assemble_into_the_combined_matrix() {
    let a = Matrix::new(vec![vec![1, 2], vec![3, 4], vec![5, 6]]);
    let b = Matrix::new(vec![vec![10, 20], vec![30, 40], vec![50, 60]]);
    let top = a.combine_band(&b, ElementOp::Add, 0, 2);
    let rest = a.combine_band(&b, ElementOp::Sub, 2, 3);
    assert_eq!(top, vec![vec![11, 22], vec![33, 44]]);
    assert_eq!(rest, vec![vec![-45, -54]]);
    let m = Matrix::from_bands(vec![top, rest], 2);
    assert_eq!(cells(&m), vec![vec![11, 22], vec![33, 44], vec![-45, -54]]);
}

#[test]
fn overflow_checks() {
    let a = Matrix::new(vec![vec![i8::MAX, 1]]);
    let b = Matrix::new(vec![vec![1i8, 1]]);
    assert!(!a.combinable_with(&b, ElementOp::Add));
    assert!(a.combinable_with(&b, ElementOp::Sub));
    let c: Matrix<i8> = Matrix::new_with_values(2, 2, 1);
    assert!(!a.combinable_with(&c, ElementOp::Sub));
    assert!(<u8 as Element>::plus_fits(200, 55));
    assert!(!<u8 as Element>::plus_fits(200, 56));
    assert!(!<u8 as Element>::minus_fits(1, 2));
    assert!(!<i32 as Element>::times_fits(65536, 65536));
    let big = Matrix::new_with_values(2, 2, 100i8);
    assert!(!big.multipliable_by(&big));
    let ok = Matrix::new_with_values(2, 2, 5i8);
    assert!(ok.multipliable_by(&ok));
    let wide: Matrix<i8> = Matrix::new_with_values(2, 3, 1);
    assert!(!wide.multipliable_by(&wide));
}
