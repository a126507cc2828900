use mandelbrot::{indexes_step_by, Iteration, Matrix, Point, VecMatrix};

fn grid(width: u32, height: u32) -> VecMatrix<u32> {
    Matrix::new(width, height)
}

#[test]
fn step_by_gives_block_origins() {
    assert_eq!(indexes_step_by(4, 4, 2, 2), vec![(0, 0), (2, 0), (0, 2), (2, 2)]);
    assert_eq!(
        indexes_step_by(5, 3, 2, 2),
        vec![(0, 0), (2, 0), (4, 0), (0, 2), (2, 2), (4, 2)]
    );
    assert!(indexes_step_by(0, 3, 2, 2).is_empty());
}

#[test]
fn unit_step_matches_indexes() {
    let m = grid(3, 2);
    assert_eq!(indexes_step_by(3, 2, 1, 1), m.indexes());
}

#[test]
fn two_by_two_blocks_on_four_by_four() {
    let mut m = grid(4, 4);
    let origins = indexes_step_by(4, 4, 2, 2);
    let values: Vec<u32> = origins.iter().map(|&(x, y)| 10 * x + y + 1).collect();
    m.fill_blocks(Point::new(2, 2), &values);
    assert_eq!(
        m.as_slice(),
        &[1, 1, 21, 21, 1, 1, 21, 21, 3, 3, 23, 23, 3, 3, 23, 23]
    );
    for (k, &(ox, oy)) in origins.iter().enumerate() {
        for dy in 0..2 {
            for dx in 0..2 {
                assert_eq!(*m.get(ox + dx, oy + dy), values[k]);
            }
        }
    }
}

#[test]
fn partial_blocks_drop_outside_cells() {
    let mut m = grid(5, 3);
    let values = vec![1, 2, 3, 4, 5, 6];
    m.fill_blocks(Point::new(2, 2), &values);
    assert_eq!(m.as_slice(), &[1, 1, 2, 2, 3, 1, 1, 2, 2, 3, 4, 4, 5, 5, 6]);
}

#[test]
fn unit_blocks_equal_pixel_fill() {
    let mut m = grid(3, 2);
    let values = vec![5, 6, 7, 8, 9, 10];
    m.fill_blocks(Point::new(1, 1), &values);
    assert_eq!(m.into_raw(), values);
}

#[test]
fn fill_block_writes_only_its_block() {
    let mut m = grid(5, 3);
    m.fill_block(Point::new(2, 2), 2, 9);
    assert_eq!(m.as_slice(), &[0, 0, 0, 0, 9, 0, 0, 0, 0, 9, 0, 0, 0, 0, 0]);
    m.fill_block(Point::new(2, 2), 3, 4);
    assert_eq!(m.as_slice(), &[0, 0, 0, 0, 9, 0, 0, 0, 0, 9, 4, 4, 0, 0, 0]);
}

#[test]
fn blocks_in_any_order_match_one_pass() {
    let step = Point::new(2, 3);
    let values: Vec<Iteration> = (0..6).map(|k| Iteration::Finite(k * 3)).collect();
    let mut expected: VecMatrix<Iteration> = Matrix::new(6, 5);
    expected.fill_blocks(step, &values);
    for order in [[0, 1, 2, 3, 4, 5], [5, 4, 3, 2, 1, 0], [3, 0, 5, 1, 4, 2]] {
        let mut m: VecMatrix<Iteration> = Matrix::new(6, 5);
        for k in order {
            m.fill_block(step, k, values[k]);
        }
        assert_eq!(m.into_raw(), expected.clone().into_raw());
    }
}
