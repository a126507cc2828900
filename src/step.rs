use vstd::prelude::*;
use vstd::arithmetic::div_mod::lemma_fundamental_div_mod;
use crate::point::Point;

verus! {

/// One tick of the approach rule: stay when already at `target`; otherwise move `step`
/// toward it, snapping onto it (and reporting it reached) when it is less than `step` away.
pub open spec fn closer(current: int, target: int, step: int) -> (int, bool) {
    if current == target {
        (target, true)
    } else if current < target {
        if target - current < step {
            (target, true)
        } else {
            (current + step, false)
        }
    } else {
        if current - target < step {
            (target, true)
        } else {
            (current - step, false)
        }
    }
}

/// Distance between two integers.
pub open spec fn distance(a: int, b: int) -> int {
    if a <= b {
        b - a
    } else {
        a - b
    }
}

/// The value reached from `current` after `ticks` ticks of the approach rule.
pub open spec fn closer_after(current: int, target: int, step: int, ticks: nat) -> int
    decreases ticks,
{
    if ticks == 0 {
        current
    } else {
        closer_after(closer(current, target, step).0, target, step, (ticks - 1) as nat)
    }
}

/// A quantity that can be moved one step toward a target.
pub trait GetCloser: Sized {
    /// The value after one step toward `to`, and whether `to` is reached.
    spec fn spec_get_closer(self, to: Self, step: Self) -> (Self, bool);

    fn get_closer(self, to: Self, step: Self) -> (r: (Self, bool))
        ensures
            r == self.spec_get_closer(to, step),
    ;
}

impl GetCloser for u32 {
    open spec fn spec_get_closer(self, to: u32, step: u32) -> (u32, bool) {
        let (v, reached) = closer(self as int, to as int, step as int);
        (v as u32, reached)
    }

    fn get_closer(self, to: u32, step: u32) -> (r: (u32, bool)) {
        if self == to {
            (to, true)
        } else if self < to {
            if to - self < step {
                (to, true)
            } else {
                (self + step, false)
            }
        } else {
            if self - to < step {
                (to, true)
            } else {
                (self - step, false)
            }
        }
    }
}

impl<T: GetCloser> GetCloser for Point<T> {
    /// Each axis steps on its own; the point is reached when both axes are.
    open spec fn spec_get_closer(self, to: Point<T>, step: Point<T>) -> (Point<T>, bool) {
        let (x, reached_x) = self.x.spec_get_closer(to.x, step.x);
        let (y, reached_y) = self.y.spec_get_closer(to.y, step.y);
        (Point { x, y }, reached_x && reached_y)
    }

    fn get_closer(self, to: Point<T>, step: Point<T>) -> (r: (Point<T>, bool)) {
        let (x, reached_x) = self.x.get_closer(to.x, step.x);
        let (y, reached_y) = self.y.get_closer(to.y, step.y);
        (Point { x, y }, reached_x && reached_y)
    }
}

/// The iteration limit after one tick of a camera move toward `target`: it snaps to
/// `target` once the zoom has reached its own target, and otherwise moves toward `target`
/// by `raw_step`, at least by one.
pub open spec fn limit_after_step(limit: u32, target: u32, zoom_reached: bool, raw_step: u32) -> u32 {
    if zoom_reached {
        target
    } else if limit != target {
        closer(limit as int, target as int, if raw_step == 0 { 1 } else { raw_step as int }).0 as u32
    } else {
        limit
    }
}

/// One tick of the iteration limit: see `limit_after_step`.
pub fn step_limit(limit: u32, target: u32, zoom_reached: bool, raw_step: u32) -> (r: u32)
    ensures
        r == limit_after_step(limit, target, zoom_reached, raw_step),
{
    if zoom_reached {
        target
    } else if limit != target {
        let step = if raw_step == 0 { 1 } else { raw_step };
        let (v, _) = limit.get_closer(target, step);
        v
    } else {
        limit
    }
}

/// A quantity already at its target stays there and reports it reached.
pub proof fn lemma_closer_at_target(target: int, step: int)
    ensures
        closer(target, target, step) == (target, true),
{
}

/// A point already at its target stays there and reports it reached, whatever the step.
pub proof fn lemma_point_at_target(p: Point<u32>, step: Point<u32>)
    ensures
        p.spec_get_closer(p, step) == (p, true),
{
}

/// One tick never overshoots: the result lies between `current` and `target`, the distance
/// to `target` shrinks by exactly `step` or drops to zero, and `reached` implies that
/// `target` is the result.
pub proof fn lemma_closer_no_overshoot(current: int, target: int, step: int)
    requires
        step >= 0,
    ensures
        distance(closer(current, target, step).0, target) == if distance(current, target) < step {
            0
        } else {
            distance(current, target) - step
        },
        distance(closer(current, target, step).0, target) <= distance(current, target),
        distance(current, closer(current, target, step).0) <= distance(current, target),
        closer(current, target, step).1 ==> closer(current, target, step).0 == target,
{
}

/// With a positive step the approach lands exactly on `target` after at most
/// `ceil(distance / step)` ticks, and stays there.
pub proof fn lemma_closer_converges(current: int, target: int, step: int, ticks: nat)
    requires
        step > 0,
        ticks * step >= distance(current, target),
    ensures
        closer_after(current, target, step, ticks) == target,
    decreases ticks,
{
    if ticks > 0 {
        let next = closer(current, target, step).0;
        lemma_closer_no_overshoot(current, target, step);
        assert((ticks - 1) as nat * step >= distance(next, target)) by (nonlinear_arith)
            requires
                ticks * step >= distance(current, target),
                distance(next, target) == if distance(current, target) < step {
                    0
                } else {
                    distance(current, target) - step
                },
                ticks > 0,
                step > 0,
        ;
        lemma_closer_converges(next, target, step, (ticks - 1) as nat);
    } else {
        assert(ticks * step == 0) by (nonlinear_arith)
            requires
                ticks == 0,
        ;
    }
}

/// The number of ticks `ceil(distance / step)` is enough for the approach to land on `target`.
pub proof fn lemma_closer_tick_bound(current: int, target: int, step: int)
    requires
        step > 0,
    ensures
        closer_after(
            current,
            target,
            step,
            ((distance(current, target) + step - 1) / step) as nat,
        ) == target,
{
    let d = distance(current, target);
    let n = d + step - 1;
    lemma_fundamental_div_mod(n, step);
    assert(((n / step) as nat) * step >= d) by (nonlinear_arith)
        requires
            n == step * (n / step) + n % step,
            0 <= n % step < step,
            n == d + step - 1,
            d >= 0,
            step > 0,
    ;
    lemma_closer_converges(current, target, step, (n / step) as nat);
}

/// While the zoom is still moving, each tick brings the iteration limit at least one step
/// closer to its target without passing it; once at the target it stays there.
pub proof fn lemma_limit_step_progress(limit: u32, target: u32, raw_step: u32)
    ensures
        distance(limit_after_step(limit, target, false, raw_step) as int, target as int) <= distance(
            limit as int,
            target as int,
        ),
        limit != target ==> distance(
            limit_after_step(limit, target, false, raw_step) as int,
            target as int,
        ) < distance(limit as int, target as int),
        limit == target ==> limit_after_step(limit, target, false, raw_step) == target,
        limit_after_step(limit, target, true, raw_step) == target,
{
    let s: int = if raw_step == 0 { 1 } else { raw_step as int };
    lemma_closer_no_overshoot(limit as int, target as int, s);
}

} // verus!
