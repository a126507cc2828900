use mandelbrot::{step_limit, GetCloser, Point};

#[test]
fn get_closer_moves_by_step() {
    assert_eq!(10u32.get_closer(20, 3), (13, false));
    assert_eq!(20u32.get_closer(10, 3), (17, false));
}

#[test]
fn get_closer_snaps_when_near() {
    assert_eq!(18u32.get_closer(20, 3), (20, true));
    assert_eq!(22u32.get_closer(20, 3), (20, true));
    assert_eq!(17u32.get_closer(20, 3), (20, false));
}

#[test]
fn get_closer_at_target_is_reached() {
    assert_eq!(7u32.get_closer(7, 5), (7, true));
    assert_eq!(7u32.get_closer(7, 0), (7, true));
    let p = Point::new(4u32, 9u32);
    assert_eq!(p.get_closer(p, Point::new(1, 1)), (p, true));
}

#[test]
fn point_reached_needs_both_axes() {
    let from = Point::new(0u32, 10u32);
    let (p, reached) = from.get_closer(Point::new(1, 20), Point::new(5, 5));
    assert_eq!(p, Point::new(1, 15));
    assert!(!reached);
}

#[test]
fn stepping_never_overshoots_and_lands() {
    for (start, target, step) in [(0u32, 100u32, 7u32), (100, 3, 9), (50, 50, 4), (5, 6, 10)] {
        let mut current = start;
        let mut ticks: u32 = 0;
        let bound = (start.abs_diff(target) + step - 1) / step;
        loop {
            let before = current.abs_diff(target);
            let (next, reached) = current.get_closer(target, step);
            assert!(next.abs_diff(target) <= before);
            current = next;
            if reached {
                break;
            }
            ticks += 1;
            assert!(ticks <= bound + 1);
        }
        assert_eq!(current, target);
        assert!(ticks <= bound);
    }
}

#[test]
fn limit_snaps_when_zoom_reached() {
    assert_eq!(step_limit(150, 900, true, 12), 900);
}

#[test]
fn limit_steps_at_least_one() {
    assert_eq!(step_limit(150, 900, false, 0), 151);
    assert_eq!(step_limit(150, 900, false, 40), 190);
    assert_eq!(step_limit(900, 150, false, 40), 860);
    assert_eq!(step_limit(155, 150, false, 40), 150);
    assert_eq!(step_limit(150, 150, false, 40), 150);
}
