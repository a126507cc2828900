use vstd::prelude::*;
use vstd::arithmetic::div_mod::{lemma_fundamental_div_mod, lemma_fundamental_div_mod_converse};
use crate::matrix::{Matrix, cell_index, lemma_cell_in_range};
use crate::point::Point;

verus! {

/// Number of blocks `step` cells long that cover `len` cells; the last one may be partial.
pub open spec fn block_count(len: nat, step: nat) -> nat {
    if step == 0 {
        0
    } else {
        (len + step - 1) as nat / step
    }
}

/// Number of blocks of `step` cells that cover a `width` by `height` grid.
pub open spec fn blocks_total(width: nat, height: nat, step: Point<u32>) -> nat {
    block_count(width, step.x as nat) * block_count(height, step.y as nat)
}

/// The block that holds cell `(x, y)`; blocks are numbered in row-major order.
pub open spec fn block_of(width: nat, step: Point<u32>, x: nat, y: nat) -> nat {
    (y / step.y as nat) * block_count(width, step.x as nat) + x / step.x as nat
}

/// The block that holds the cell stored at position `i` of a grid `width` cells wide.
pub open spec fn block_of_cell(width: nat, step: Point<u32>, i: nat) -> nat {
    block_of(width, step, i % width, i / width)
}

/// The top-left cell of block `k`.
pub open spec fn block_origin(width: nat, step: Point<u32>, k: nat) -> (nat, nat) {
    let across = block_count(width, step.x as nat);
    ((k % across) * step.x as nat, (k / across) * step.y as nat)
}

/// `cells` with every cell of block `k` set to `value`.
pub open spec fn block_written<T>(
    cells: Seq<T>,
    width: nat,
    step: Point<u32>,
    k: nat,
    value: T,
) -> Seq<T> {
    Seq::new(
        cells.len(),
        |i: int|
            if block_of_cell(width, step, i as nat) == k {
                value
            } else {
                cells[i]
            },
    )
}

/// The cells of a `width` by `height` grid in which every cell holds the value of its block.
pub open spec fn blocks_filled<T>(width: nat, height: nat, step: Point<u32>, values: Seq<T>) -> Seq<
    T,
> {
    Seq::new(width * height, |i: int| values[block_of_cell(width, step, i as nat) as int])
}

/// Whether block `k` is among the blocks of `results`.
pub open spec fn block_in<T>(results: Seq<(nat, T)>, k: nat) -> bool {
    exists|j: int| 0 <= j < results.len() && (#[trigger] results[j]).0 == k
}

/// `cells` after writing, in order, each `(block, value)` pair of `results`.
pub open spec fn blocks_written<T>(
    cells: Seq<T>,
    width: nat,
    step: Point<u32>,
    results: Seq<(nat, T)>,
) -> Seq<T>
    decreases results.len(),
{
    if results.len() == 0 {
        cells
    } else {
        block_written(
            blocks_written(cells, width, step, results.drop_last()),
            width,
            step,
            results.last().0,
            results.last().1,
        )
    }
}

/// Storage position `y * width + x` decodes back to column `x` and row `y`.
pub proof fn lemma_cell_coords(width: nat, x: nat, y: nat)
    requires
        x < width,
    ensures
        cell_index(width, x, y) % width == x,
        cell_index(width, x, y) / width == y,
{
    lemma_fundamental_div_mod_converse(
        cell_index(width, x, y) as int,
        width as int,
        y as int,
        x as int,
    );
}

/// A coordinate inside `len` lies in one of the `block_count(len, step)` blocks.
pub proof fn lemma_block_bounds(len: nat, step: nat, c: nat)
    requires
        step > 0,
        c < len,
    ensures
        c / step < block_count(len, step),
{
    let n = (len + step - 1) as nat;
    lemma_fundamental_div_mod(c as int, step as int);
    lemma_fundamental_div_mod(n as int, step as int);
    let q = c / step;
    let nq = n / step;
    assert(q < nq) by (nonlinear_arith)
        requires
            c == step * q + c % step,
            0 <= c % step < step,
            n == step * nq + n % step,
            0 <= n % step < step,
            n == len + step - 1,
            c < len,
            step > 0,
    ;
}

/// The first coordinate of every block lies inside `len`.
pub proof fn lemma_origin_inside(len: nat, step: nat, b: nat)
    requires
        step > 0,
        b < block_count(len, step),
    ensures
        b * step < len,
{
    let n = (len + step - 1) as nat;
    lemma_fundamental_div_mod(n as int, step as int);
    let nq = n / step;
    assert(b * step < len) by (nonlinear_arith)
        requires
            n == step * nq + n % step,
            0 <= n % step < step,
            n == len + step - 1,
            b < nq,
            step > 0,
    ;
}

/// A cell belongs to block `k` exactly when it lies in the `step.x` by `step.y` rectangle
/// that starts at the block's origin.
pub proof fn lemma_block_membership(
    width: nat,
    height: nat,
    step: Point<u32>,
    k: nat,
    x: nat,
    y: nat,
)
    requires
        step.x > 0,
        step.y > 0,
        x < width,
        y < height,
        k < blocks_total(width, height, step),
    ensures
        block_of(width, step, x, y) == k <==> ({
            let o = block_origin(width, step, k);
            o.0 <= x < o.0 + step.x && o.1 <= y < o.1 + step.y
        }),
{
    let sx = step.x as nat;
    let sy = step.y as nat;
    let across = block_count(width, sx);
    let down = block_count(height, sy);
    assert(across > 0) by (nonlinear_arith)
        requires
            k < across * down,
    ;
    lemma_fundamental_div_mod(x as int, sx as int);
    lemma_fundamental_div_mod(y as int, sy as int);
    lemma_fundamental_div_mod(k as int, across as int);
    lemma_block_bounds(width, sx, x);
    let bx = x / sx;
    let by = y / sy;
    let o = block_origin(width, step, k);
    if block_of(width, step, x, y) == k {
        lemma_fundamental_div_mod_converse(k as int, across as int, by as int, bx as int);
        assert(o.0 <= x < o.0 + sx) by (nonlinear_arith)
            requires
                o.0 == bx * sx,
                x == sx * bx + x % sx,
                0 <= x % sx < sx,
        ;
        assert(o.1 <= y < o.1 + sy) by (nonlinear_arith)
            requires
                o.1 == by * sy,
                y == sy * by + y % sy,
                0 <= y % sy < sy,
        ;
    }
    if o.0 <= x < o.0 + sx && o.1 <= y < o.1 + sy {
        lemma_fundamental_div_mod_converse(
            x as int,
            sx as int,
            (k % across) as int,
            x - o.0,
        );
        lemma_fundamental_div_mod_converse(
            y as int,
            sy as int,
            (k / across) as int,
            y - o.1,
        );
        assert(block_of(width, step, x, y) == (k / across) * across + k % across);
        assert((k / across) * across + k % across == k) by (nonlinear_arith)
            requires
                k == across * (k / across) + k % across,
        ;
    }
}

/// The block of every cell of a `width` by `height` grid is one of its `blocks_total` blocks.
pub proof fn lemma_block_of_cell_range(width: nat, height: nat, step: Point<u32>, i: nat)
    requires
        step.x > 0,
        step.y > 0,
        i < width * height,
    ensures
        block_of_cell(width, step, i) < blocks_total(width, height, step),
{
    assert(width > 0) by (nonlinear_arith)
        requires
            i < width * height,
    ;
    lemma_fundamental_div_mod(i as int, width as int);
    let x = i % width;
    let y = i / width;
    assert(y < height) by (nonlinear_arith)
        requires
            i == width * y + x,
            i < width * height,
            0 <= x,
    ;
    lemma_block_bounds(width, step.x as nat, x);
    lemma_block_bounds(height, step.y as nat, y);
    let across = block_count(width, step.x as nat);
    let down = block_count(height, step.y as nat);
    let bx = x / step.x as nat;
    let by = y / step.y as nat;
    assert(by * across + bx < across * down) by (nonlinear_arith)
        requires
            bx < across,
            by < down,
    ;
}

/// The top-left cell of every block of `step_x` by `step_y` cells in a `width` by `height`
/// grid, blocks in row-major order.
pub fn indexes_step_by(width: u32, height: u32, step_x: u32, step_y: u32) -> (r: Vec<(u32, u32)>)
    requires
        step_x > 0,
        step_y > 0,
    ensures
        r@.len() == blocks_total(width as nat, height as nat, Point { x: step_x, y: step_y }),
        forall|k: int|
            0 <= k < r@.len() ==> ((#[trigger] r@[k]).0 as nat, r@[k].1 as nat) == block_origin(
                width as nat,
                Point { x: step_x, y: step_y },
                k as nat,
            ),
{
    let ghost step = Point { x: step_x, y: step_y };
    let across: u64 = (width as u64 + step_x as u64 - 1) / step_x as u64;
    let down: u64 = (height as u64 + step_y as u64 - 1) / step_y as u64;
    assert(across == block_count(width as nat, step_x as nat));
    assert(down == block_count(height as nat, step_y as nat));
    let mut r: Vec<(u32, u32)> = Vec::new();
    let mut by: u64 = 0;
    while by < down
        invariant
            by <= down,
            across == block_count(width as nat, step_x as nat),
            down == block_count(height as nat, step_y as nat),
            step == (Point { x: step_x, y: step_y }),
            step_x > 0,
            step_y > 0,
            r@.len() == by * across,
            forall|k: int|
                0 <= k < r@.len() ==> ((#[trigger] r@[k]).0 as nat, r@[k].1 as nat) == block_origin(
                    width as nat,
                    step,
                    k as nat,
                ),
        decreases down - by,
    {
        proof {
            lemma_origin_inside(height as nat, step_y as nat, by as nat);
        }
        let y = (by * step_y as u64) as u32;
        let mut bx: u64 = 0;
        while bx < across
            invariant
                bx <= across,
                by < down,
                y as nat == by * step_y,
                across == block_count(width as nat, step_x as nat),
                step == (Point { x: step_x, y: step_y }),
                step_x > 0,
                r@.len() == by * across + bx,
                forall|k: int|
                    0 <= k < r@.len() ==> ((#[trigger] r@[k]).0 as nat, r@[k].1 as nat)
                        == block_origin(width as nat, step, k as nat),
            decreases across - bx,
        {
            proof {
                lemma_origin_inside(width as nat, step_x as nat, bx as nat);
                lemma_fundamental_div_mod_converse(
                    (by * across + bx) as int,
                    across as int,
                    by as int,
                    bx as int,
                );
            }
            let x = (bx * step_x as u64) as u32;
            r.push((x, y));
            bx = bx + 1;
        }
        proof {
            assert((by + 1) * across == by * across + across) by (nonlinear_arith);
        }
        by = by + 1;
    }
    proof {
        assert(down * across == across * down) by (nonlinear_arith);
    }
    r
}

impl<T: Copy> Matrix<T> {
    /// Writes into every cell the value of the block that holds it: `values[k]` for block `k`
    /// of `step.x` by `step.y` cells.
    pub fn fill_blocks(&mut self, step: Point<u32>, values: &Vec<T>)
        requires
            old(self).wf(),
            step.x > 0,
            step.y > 0,
            values@.len() == blocks_total(
                old(self).spec_width() as nat,
                old(self).spec_height() as nat,
                step,
            ),
        ensures
            final(self).wf(),
            final(self).spec_width() == old(self).spec_width(),
            final(self).spec_height() == old(self).spec_height(),
            final(self)@ == blocks_filled(
                old(self).spec_width() as nat,
                old(self).spec_height() as nat,
                step,
                values@,
            ),
    {
        let (width, height) = self.size();
        let across: u64 = (width as u64 + step.x as u64 - 1) / step.x as u64;
        assert(across == block_count(width as nat, step.x as nat));
        let mut y: u32 = 0;
        while y < height
            invariant
                self.wf(),
                width == self.spec_width(),
                height == self.spec_height(),
                width == old(self).spec_width(),
                height == old(self).spec_height(),
                across == block_count(width as nat, step.x as nat),
                step.x > 0,
                step.y > 0,
                values@.len() == blocks_total(width as nat, height as nat, step),
                y <= height,
                forall|i: int|
                    0 <= i < y * width ==> #[trigger] self@[i] == values@[block_of_cell(
                        width as nat,
                        step,
                        i as nat,
                    ) as int],
            decreases height - y,
        {
            let mut x: u32 = 0;
            while x < width
                invariant
                    self.wf(),
                    width == self.spec_width(),
                    height == self.spec_height(),
                    across == block_count(width as nat, step.x as nat),
                    step.x > 0,
                    step.y > 0,
                    values@.len() == blocks_total(width as nat, height as nat, step),
                    y < height,
                    x <= width,
                    forall|i: int|
                        0 <= i < y * width + x ==> #[trigger] self@[i] == values@[block_of_cell(
                            width as nat,
                            step,
                            i as nat,
                        ) as int],
                decreases width - x,
            {
                let ghost i = cell_index(width as nat, x as nat, y as nat);
                proof {
                    lemma_cell_coords(width as nat, x as nat, y as nat);
                    lemma_cell_in_range(width as nat, height as nat, x as nat, y as nat);
                    lemma_block_of_cell_range(width as nat, height as nat, step, i);
                }
                // The block number is below the length of `values`, hence below `usize::MAX`.
                let _len = values.len();
                assert(block_of(width as nat, step, x as nat, y as nat) < _len);
                let k = (y / step.y) as u64 * across + (x / step.x) as u64;
                assert(k == block_of_cell(width as nat, step, i));
                self.set(x, y, values[k as usize]);
                x = x + 1;
            }
            proof {
                assert((y + 1) * width == y * width + width) by (nonlinear_arith);
            }
            y = y + 1;
        }
        proof {
            assert(self@ =~= blocks_filled(width as nat, height as nat, step, values@));
        }
    }

    /// Writes `value` into every cell of block `k` of `step.x` by `step.y` cells; the other
    /// cells keep their values.
    pub fn fill_block(&mut self, step: Point<u32>, k: usize, value: T)
        requires
            old(self).wf(),
            step.x > 0,
            step.y > 0,
            k < blocks_total(old(self).spec_width() as nat, old(self).spec_height() as nat, step),
        ensures
            final(self).wf(),
            final(self).spec_width() == old(self).spec_width(),
            final(self).spec_height() == old(self).spec_height(),
            final(self)@ == block_written(old(self)@, old(self).spec_width() as nat, step, k as nat, value),
    {
        let ghost cells = self@;
        let (width, height) = self.size();
        let ghost w = width as nat;
        let ghost o = block_origin(w, step, k as nat);
        let across: u64 = (width as u64 + step.x as u64 - 1) / step.x as u64;
        assert(across == block_count(w, step.x as nat));
        let down: u64 = (height as u64 + step.y as u64 - 1) / step.y as u64;
        assert(down == block_count(height as nat, step.y as nat));
        proof {
            assert(across > 0) by (nonlinear_arith)
                requires
                    k < across * down,
            ;
            lemma_fundamental_div_mod(k as int, across as int);
            assert((k as nat / across as nat) < down) by (nonlinear_arith)
                requires
                    k == across * (k as nat / across as nat) + k as nat % across as nat,
                    0 <= k as nat % across as nat,
                    k < across * down,
            ;
            lemma_origin_inside(w, step.x as nat, (k as nat % across as nat));
            lemma_origin_inside(height as nat, step.y as nat, (k as nat / across as nat));
        }
        let ox = ((k as u64 % across) * step.x as u64) as u32;
        let oy = ((k as u64 / across) * step.y as u64) as u32;
        let bw = if step.x <= width - ox { step.x } else { width - ox };
        let bh = if step.y <= height - oy { step.y } else { height - oy };
        proof {
            assert forall|i: int| 0 <= i < cells.len() && block_of_cell(w, step, i as nat) == k implies o.1
                <= #[trigger] (i as nat / w) by {
                lemma_fundamental_div_mod(i, w as int);
                assert(i as nat / w < height) by (nonlinear_arith)
                    requires
                        i == w * (i as nat / w) + i as nat % w,
                        0 <= i as nat % w,
                        i < w * height,
                ;
                lemma_block_membership(w, height as nat, step, k as nat, i as nat % w, i as nat / w);
            }
        }
        let mut dy: u32 = 0;
        while dy < bh
            invariant
                self.wf(),
                width == self.spec_width(),
                height == self.spec_height(),
                width == old(self).spec_width(),
                height == old(self).spec_height(),
                w == width as nat,
                cells == old(self)@,
                step.x > 0,
                step.y > 0,
                k < blocks_total(w, height as nat, step),
                o == block_origin(w, step, k as nat),
                ox as nat == o.0,
                oy as nat == o.1,
                ox < width,
                oy < height,
                bw as int == (if step.x <= width - ox { step.x as int } else { width - ox }),
                bh as int == (if step.y <= height - oy { step.y as int } else { height - oy }),
                dy <= bh,
                self@.len() == cells.len(),
                forall|i: int|
                    0 <= i < cells.len() ==> #[trigger] self@[i] == (if block_of_cell(w, step, i as nat)
                        == k && i as nat / w < oy + dy {
                        value
                    } else {
                        cells[i]
                    }),
            decreases bh - dy,
        {
            let y = oy + dy;
            proof {
                assert forall|i: int|
                    0 <= i < cells.len() && block_of_cell(w, step, i as nat) == k && i as nat / w
                        == y implies ox <= #[trigger] (i as nat % w) by {
                    lemma_fundamental_div_mod(i, w as int);
                    lemma_block_membership(
                        w,
                        height as nat,
                        step,
                        k as nat,
                        i as nat % w,
                        i as nat / w,
                    );
                }
            }
            let mut dx: u32 = 0;
            while dx < bw
                invariant
                    self.wf(),
                    width == self.spec_width(),
                    height == self.spec_height(),
                    w == width as nat,
                    step.x > 0,
                    step.y > 0,
                    k < blocks_total(w, height as nat, step),
                    o == block_origin(w, step, k as nat),
                    ox as nat == o.0,
                    oy as nat == o.1,
                    ox < width,
                    bw as int == (if step.x <= width - ox { step.x as int } else { width - ox }),
                    bh as int == (if step.y <= height - oy { step.y as int } else { height - oy }),
                    dy < bh,
                    y == oy + dy,
                    dx <= bw,
                    self@.len() == cells.len(),
                    forall|i: int|
                        0 <= i < cells.len() ==> #[trigger] self@[i] == (if block_of_cell(
                            w,
                            step,
                            i as nat,
                        ) == k && (i as nat / w < y || (i as nat / w == y && i as nat % w < ox
                            + dx)) {
                            value
                        } else {
                            cells[i]
                        }),
                decreases bw - dx,
            {
                let x = ox + dx;
                let ghost j = cell_index(w, x as nat, y as nat);
                proof {
                    lemma_cell_coords(w, x as nat, y as nat);
                    lemma_cell_in_range(w, height as nat, x as nat, y as nat);
                    lemma_block_membership(w, height as nat, step, k as nat, x as nat, y as nat);
                }
                self.set(x, y, value);
                proof {
                    assert forall|i: int| 0 <= i < cells.len() implies #[trigger] self@[i] == (if block_of_cell(
                        w,
                        step,
                        i as nat,
                    ) == k && (i as nat / w < y || (i as nat / w == y && i as nat % w < ox + dx
                        + 1)) {
                        value
                    } else {
                        cells[i]
                    }) by {
                        if i != j {
                            lemma_fundamental_div_mod(i, w as int);
                            lemma_fundamental_div_mod(j as int, w as int);
                        }
                    }
                }
                dx = dx + 1;
            }
            proof {
                assert forall|i: int| 0 <= i < cells.len() implies #[trigger] self@[i] == (if block_of_cell(
                    w,
                    step,
                    i as nat,
                ) == k && i as nat / w < oy + dy + 1 {
                    value
                } else {
                    cells[i]
                }) by {
                    if block_of_cell(w, step, i as nat) == k && i as nat / w == y {
                        lemma_fundamental_div_mod(i, w as int);
                        lemma_block_membership(
                            w,
                            height as nat,
                            step,
                            k as nat,
                            i as nat % w,
                            i as nat / w,
                        );
                    }
                }
            }
            dy = dy + 1;
        }
        proof {
            assert forall|i: int| 0 <= i < cells.len() implies #[trigger] self@[i] == block_written(
                cells,
                w,
                step,
                k as nat,
                value,
            )[i] by {
                if block_of_cell(w, step, i as nat) == k {
                    lemma_fundamental_div_mod(i, w as int);
                    assert(i as nat / w < height) by (nonlinear_arith)
                        requires
                            i == w * (i as nat / w) + i as nat % w,
                            0 <= i as nat % w,
                            i < w * height,
                    ;
                    lemma_block_membership(
                        w,
                        height as nat,
                        step,
                        k as nat,
                        i as nat % w,
                        i as nat / w,
                    );
                }
            }
            assert(self@ =~= block_written(cells, w, step, k as nat, value));
        }
    }
}

/// After a run of block writes whose values agree with `values`, a cell holds the value of
/// its block if that block was written, and its first value otherwise.
proof fn lemma_blocks_written_cell<T>(
    cells: Seq<T>,
    width: nat,
    step: Point<u32>,
    values: Seq<T>,
    results: Seq<(nat, T)>,
    i: int,
)
    requires
        0 <= i < cells.len(),
        forall|j: int| 0 <= j < results.len() ==> (#[trigger] results[j]).1 == values[results[j].0 as int],
    ensures
        blocks_written(cells, width, step, results).len() == cells.len(),
        blocks_written(cells, width, step, results)[i] == if block_in(
            results,
            block_of_cell(width, step, i as nat),
        ) {
            values[block_of_cell(width, step, i as nat) as int]
        } else {
            cells[i]
        },
    decreases results.len(),
{
    if results.len() > 0 {
        let prefix = results.drop_last();
        assert forall|j: int| 0 <= j < prefix.len() implies (#[trigger] prefix[j]).1 == values[prefix[j].0 as int] by {
            assert(prefix[j] == results[j]);
        }
        lemma_blocks_written_cell(cells, width, step, values, prefix, i);
        let b = block_of_cell(width, step, i as nat);
        if exists|j: int| 0 <= j < prefix.len() && (#[trigger] prefix[j]).0 == b {
            let j = choose|j: int| 0 <= j < prefix.len() && (#[trigger] prefix[j]).0 == b;
            assert(results[j] == prefix[j]);
        }
        if exists|j: int| 0 <= j < results.len() && (#[trigger] results[j]).0 == b {
            let j = choose|j: int| 0 <= j < results.len() && (#[trigger] results[j]).0 == b;
            if j < results.len() - 1 {
                assert(prefix[j] == results[j]);
            }
        }
    }
}

/// Writing each block with the value the one-pass fill gives it, in any order and from any
/// number of producers, yields the grid of the one-pass fill, provided every block is
/// written at least once.
pub proof fn lemma_blocks_any_order<T>(
    cells: Seq<T>,
    width: nat,
    height: nat,
    step: Point<u32>,
    values: Seq<T>,
    results: Seq<(nat, T)>,
)
    requires
        step.x > 0,
        step.y > 0,
        cells.len() == width * height,
        values.len() == blocks_total(width, height, step),
        forall|j: int| 0 <= j < results.len() ==> (#[trigger] results[j]).1 == values[results[j].0 as int],
        forall|k: nat| k < values.len() ==> #[trigger] block_in(results, k),
    ensures
        blocks_written(cells, width, step, results) == blocks_filled(width, height, step, values),
{
    let written = blocks_written(cells, width, step, results);
    let filled = blocks_filled(width, height, step, values);
    assert forall|i: int| 0 <= i < cells.len() implies #[trigger] written[i] == filled[i] by {
        lemma_blocks_written_cell(cells, width, step, values, results, i);
        lemma_block_of_cell_range(width, height, step, i as nat);
        assert(block_in(results, block_of_cell(width, step, i as nat)));
    }
    lemma_blocks_written_len(cells, width, step, results);
    assert(written =~= filled);
}

proof fn lemma_blocks_written_len<T>(cells: Seq<T>, width: nat, step: Point<u32>, results: Seq<(nat, T)>)
    ensures
        blocks_written(cells, width, step, results).len() == cells.len(),
    decreases results.len(),
{
    if results.len() > 0 {
        lemma_blocks_written_len(cells, width, step, results.drop_last());
    }
}

/// With blocks of a single cell there is one block per cell, numbered like the cells, whose
/// origin is the cell itself: filling by blocks writes each cell's own value.
pub proof fn lemma_unit_blocks<T>(width: nat, height: nat, values: Seq<T>)
    requires
        values.len() == width * height,
    ensures
        blocks_total(width, height, Point { x: 1, y: 1 }) == width * height,
        blocks_filled(width, height, Point { x: 1, y: 1 }, values) == values,
        forall|k: nat|
            k < width * height ==> #[trigger] block_origin(width, Point { x: 1, y: 1 }, k) == (
                k % width,
                k / width,
            ),
{
    let unit = Point { x: 1u32, y: 1u32 };
    assert(block_count(width, 1) == width);
    assert(block_count(height, 1) == height);
    assert forall|i: int| 0 <= i < values.len() implies #[trigger] blocks_filled(
        width,
        height,
        unit,
        values,
    )[i] == values[i] by {
        assert(width > 0) by (nonlinear_arith)
            requires
                i < width * height,
                0 <= i,
        ;
        lemma_fundamental_div_mod(i, width as int);
        assert(block_of_cell(width, unit, i as nat) == (i as nat / width) * width + i as nat % width);
        assert((i as nat / width) * width + i as nat % width == i) by (nonlinear_arith)
            requires
                i == width * (i as nat / width) + i as nat % width,
        ;
    }
    assert(blocks_filled(width, height, unit, values) =~= values);
    assert forall|k: nat| k < width * height implies #[trigger] block_origin(width, unit, k) == (
        k % width,
        k / width,
    ) by {
        let across = block_count(width, unit.x as nat);
        assert(across == width);
        assert(block_origin(width, unit, k) == ((k % across) * 1, (k / across) * 1));
        assert(width > 0) by (nonlinear_arith)
            requires
                k < width * height,
        ;
    }
}

} // verus!
