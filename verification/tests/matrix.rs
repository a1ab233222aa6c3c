use regrs::matrix::Matrix;

#[test]
fn from_vec_accepts_exact_buffer() {
    let m = Matrix::from_vec(2, 3, vec![1.0, 2.0, 3.0, 4.0, 5.0, 6.0]).unwrap();
    assert_eq!(m.nrows(), 2);
    assert_eq!(m.ncols(), 3);
    assert_eq!(m.as_slice(), &[1.0, 2.0, 3.0, 4.0, 5.0, 6.0]);
}

#[test]
fn from_vec_refuses_wrong_length() {
    assert!(Matrix::from_vec(2, 3, vec![1.0, 2.0, 3.0, 4.0, 5.0]).is_none());
    assert!(Matrix::from_vec(2, 3, vec![1.0; 7]).is_none());
    assert!(Matrix::from_vec(0, 3, vec![1.0]).is_none());
}

#[test]
fn from_vec_refuses_overflowing_shape() {
    assert!(Matrix::from_vec(usize::MAX, 2, vec![0u8; 4]).is_none());
    assert!(Matrix::<u8>::from_vec(usize::MAX, usize::MAX, Vec::new()).is_none());
}

#[test]
fn from_vec_accepts_empty_shapes() {
    let no_rows = Matrix::<f64>::from_vec(0, 5, Vec::new()).unwrap();
    assert_eq!((no_rows.nrows(), no_rows.ncols()), (0, 5));
    let no_columns = Matrix::<f64>::from_vec(4, 0, Vec::new()).unwrap();
    assert_eq!((no_columns.nrows(), no_columns.ncols()), (4, 0));
    assert_eq!(no_columns.row(2), Vec::<f64>::new());
}

#[test]
fn get_reads_row_major() {
    let m = Matrix::from_vec(2, 3, vec![1, 2, 3, 4, 5, 6]).unwrap();
    assert_eq!(m.get(0, 0), 1);
    assert_eq!(m.get(0, 2), 3);
    assert_eq!(m.get(1, 0), 4);
    assert_eq!(m.get(1, 2), 6);
}

#[test]
fn row_copies_one_row() {
    let m = Matrix::from_vec(3, 2, vec![1, 2, 3, 4, 5, 6]).unwrap();
    assert_eq!(m.row(0), vec![1, 2]);
    assert_eq!(m.row(1), vec![3, 4]);
    assert_eq!(m.row(2), vec![5, 6]);
}

#[test]
fn without_row_drops_first_middle_last() {
    let m = Matrix::from_vec(3, 2, vec![1, 2, 3, 4, 5, 6]).unwrap();
    let first = m.without_row(0);
    assert_eq!((first.nrows(), first.ncols()), (2, 2));
    assert_eq!(first.into_vec(), vec![3, 4, 5, 6]);
    assert_eq!(m.without_row(1).into_vec(), vec![1, 2, 5, 6]);
    assert_eq!(m.without_row(2).into_vec(), vec![1, 2, 3, 4]);
    // the source is untouched
    assert_eq!(m.into_vec(), vec![1, 2, 3, 4, 5, 6]);
}

#[test]
fn without_row_of_single_row_keeps_width() {
    let m = Matrix::from_vec(1, 3, vec![7, 8, 9]).unwrap();
    let empty = m.without_row(0);
    assert_eq!((empty.nrows(), empty.ncols()), (0, 3));
    assert_eq!(empty.into_vec(), Vec::<i32>::new());
}

#[test]
fn with_column_appends_to_every_row() {
    let m = Matrix::from_vec(3, 2, vec![1.5, 2.5, 3.5, 4.5, 5.5, 6.5]).unwrap();
    let wider = m.with_column(1.0);
    assert_eq!((wider.nrows(), wider.ncols()), (3, 3));
    assert_eq!(wider.into_vec(), vec![1.5, 2.5, 1.0, 3.5, 4.5, 1.0, 5.5, 6.5, 1.0]);
}

#[test]
fn with_column_on_no_columns_gives_constant_column() {
    let m = Matrix::<f64>::from_vec(3, 0, Vec::new()).unwrap();
    let ones = m.with_column(1.0);
    assert_eq!((ones.nrows(), ones.ncols()), (3, 1));
    assert_eq!(ones.into_vec(), vec![1.0, 1.0, 1.0]);
}

#[test]
fn with_column_on_no_rows_only_widens() {
    let m = Matrix::<f64>::from_vec(0, 2, Vec::new()).unwrap();
    let wider = m.with_column(1.0);
    assert_eq!((wider.nrows(), wider.ncols()), (0, 3));
}
