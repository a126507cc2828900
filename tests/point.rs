use mandelbrot::Point;

#[test]
fn point_new_and_splat() {
    let p = Point::new(3, -4);
    assert_eq!((p.x, p.y), (3, -4));
    assert_eq!(Point::splat(7u8), Point::new(7, 7));
    assert_eq!(Point::<u32>::default(), Point::new(0, 0));
}

#[test]
fn point_transform_maps_both_axes() {
    let p = Point::new(2u32, 5u32).transform(|v| v as f64 * 0.5);
    assert_eq!(p, Point::new(1.0, 2.5));
}

#[test]
fn point_from_tuple() {
    assert_eq!(Point::from((1, 2)), Point::new(1, 2));
}
