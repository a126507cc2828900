use vstd::prelude::*;

verus! {

/// A two-component vector, used both for pixel coordinates and for block sizes.
#[derive(Debug, Clone, Copy, Default, PartialEq, Eq)]
pub struct Point<T> {
    pub x: T,
    pub y: T,
}

impl<T> Point<T> {
    pub fn new(x: T, y: T) -> (r: Self)
        ensures
            r.x == x,
            r.y == y,
    {
        Point { x, y }
    }

    /// Both components set to the same value.
    pub fn splat(value: T) -> (r: Self)
        where
            T: Copy,
        ensures
            r.x == value,
            r.y == value,
    {
        Point { x: value, y: value }
    }

    /// Applies `f` to each component, `x` first.
    pub fn transform<R, F: Fn(T) -> R>(self, f: F) -> (r: Point<R>)
        requires
            f.requires((self.x,)),
            f.requires((self.y,)),
        ensures
            f.ensures((self.x,), r.x),
            f.ensures((self.y,), r.y),
    {
        let x = f(self.x);
        let y = f(self.y);
        Point { x, y }
    }
}

impl<T> From<(T, T)> for Point<T> {
    fn from(value: (T, T)) -> (r: Point<T>)
        ensures
            r == (Point { x: value.0, y: value.1 }),
    {
        Point { x: value.0, y: value.1 }
    }
}

impl<T> vstd::std_specs::convert::FromSpecImpl<(T, T)> for Point<T> {
    open spec fn obeys_from_spec() -> bool {
        true
    }

    open spec fn from_spec(v: (T, T)) -> Point<T> {
        Point { x: v.0, y: v.1 }
    }
}

} // verus!
