use mandelbrot::{Matrix, VecMatrix};

fn sample(width: u32, height: u32) -> VecMatrix<u32> {
    let data: Vec<u32> = (0..width * height).collect();
    Matrix::try_from_raw(width, height, data).unwrap()
}

#[test]
fn try_from_raw_accepts_matching_length() {
    let m = Matrix::try_from_raw(3, 4, vec![0u8; 12]).unwrap();
    assert_eq!(m.size(), (3, 4));
    assert_eq!(m.width(), 3);
    assert_eq!(m.height(), 4);
}

#[test]
fn try_from_raw_returns_storage_on_mismatch() {
    let short: Vec<u8> = vec![1, 2, 3, 4, 5, 6, 7, 8, 9, 10, 11];
    let err = Matrix::try_from_raw(3, 4, short.clone()).unwrap_err();
    assert_eq!(err, short);
    let long: Vec<u8> = vec![7; 13];
    assert_eq!(Matrix::try_from_raw(3, 4, long.clone()).unwrap_err(), long);
}

#[test]
fn into_raw_gives_back_storage() {
    let m = sample(3, 2);
    assert_eq!(m.into_raw(), vec![0, 1, 2, 3, 4, 5]);
}

#[test]
fn get_reads_row_major() {
    let m = sample(3, 4);
    assert_eq!(*m.get(0, 0), 0);
    assert_eq!(*m.get(2, 0), 2);
    assert_eq!(*m.get(0, 1), 3);
    assert_eq!(*m.get(2, 3), 11);
}

#[test]
fn get_checked_outside_is_none() {
    let m = sample(3, 4);
    assert_eq!(m.get_checked(1, 2), Some(&7));
    assert_eq!(m.get_checked(3, 0), None);
    assert_eq!(m.get_checked(0, 4), None);
}

#[test]
fn indexes_and_values_visit_cells_in_order() {
    let m = sample(3, 2);
    let idx = m.indexes();
    assert_eq!(idx, vec![(0, 0), (1, 0), (2, 0), (0, 1), (1, 1), (2, 1)]);
    let values = m.values();
    assert_eq!(values.len(), idx.len());
    for (k, &(x, y)) in idx.iter().enumerate() {
        assert_eq!(*m.get(x, y), values[k]);
    }
}

#[test]
fn pairs_match_get() {
    let m = sample(4, 3);
    let pairs = m.pairs();
    assert_eq!(pairs.len(), 12);
    let mut seen = std::collections::HashSet::new();
    for ((x, y), v) in pairs {
        assert_eq!(m.get(x, y), v);
        assert!(seen.insert((x, y)));
    }
    assert_eq!(seen.len(), 12);
}

#[test]
fn set_and_get_mut_write_one_cell() {
    let mut m = sample(3, 3);
    m.set(1, 1, 100);
    *m.get_mut(2, 0) = 200;
    assert_eq!(m.as_slice(), &[0, 1, 200, 3, 100, 5, 6, 7, 8]);
}

#[test]
fn checked_writes_report_outside() {
    let mut m = sample(2, 2);
    assert_eq!(m.set_checked(1, 0, 9), Ok(()));
    assert_eq!(m.set_checked(2, 0, 5), Err(5));
    assert!(m.get_checked_mut(0, 2).is_none());
    if let Some(v) = m.get_checked_mut(0, 1) {
        *v = 8;
    }
    assert_eq!(m.into_raw(), vec![0, 9, 8, 3]);
}

#[test]
fn new_with_and_clear() {
    let mut m: VecMatrix<u32> = Matrix::new_with(2, 3, || 7);
    assert_eq!(m.as_slice(), &[7; 6]);
    m.clear();
    assert_eq!(m.as_slice(), &[0; 6]);
    let d: VecMatrix<u8> = Matrix::new(4, 1);
    assert_eq!(d.into_raw(), vec![0; 4]);
}

#[test]
fn empty_grid_has_no_cells() {
    let m: VecMatrix<u8> = Matrix::new(0, 5);
    assert!(m.indexes().is_empty());
    assert_eq!(m.get_checked(0, 0), None);
}

#[test]
fn clone_keeps_cells() {
    let m = sample(2, 2);
    let c = m.clone();
    assert_eq!(c.size(), (2, 2));
    assert_eq!(c.into_raw(), m.into_raw());
}
