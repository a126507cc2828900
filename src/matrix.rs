use vstd::prelude::*;

verus! {

/// Position of cell `(x, y)` in the row-major storage of a grid `width` cells wide.
pub open spec fn cell_index(width: nat, x: nat, y: nat) -> nat {
    y * width + x
}

/// A cell inside a `width` by `height` grid has its storage position below `width * height`.
pub proof fn lemma_cell_in_range(width: nat, height: nat, x: nat, y: nat)
    requires
        x < width,
        y < height,
    ensures
        cell_index(width, x, y) < width * height,
{
    assert(y * width + x < width * height) by (nonlinear_arith)
        requires
            x < width,
            y < height,
    ;
}

/// Row-major numbering is a bijection between the cells of a `width` by `height` grid and
/// the storage positions below `width * height`: each position is the index of exactly one
/// cell, so walking the storage visits every cell once, row by row.
pub proof fn lemma_row_major(width: nat, height: nat, k: nat, x1: nat, y1: nat, x2: nat, y2: nat)
    requires
        k < width * height,
        x1 < width,
        x2 < width,
        cell_index(width, x1, y1) == cell_index(width, x2, y2),
    ensures
        k % width < width,
        k / width < height,
        cell_index(width, k % width, k / width) == k,
        x1 == x2 && y1 == y2,
{
    assert(width > 0) by (nonlinear_arith)
        requires
            k < width * height,
    ;
    vstd::arithmetic::div_mod::lemma_fundamental_div_mod(k as int, width as int);
    assert(k / width < height) by (nonlinear_arith)
        requires
            k == width * (k / width) + k % width,
            0 <= k % width,
            k < width * height,
    ;
    vstd::arithmetic::div_mod::lemma_fundamental_div_mod_converse(
        cell_index(width, x1, y1) as int,
        width as int,
        y1 as int,
        x1 as int,
    );
    vstd::arithmetic::div_mod::lemma_fundamental_div_mod_converse(
        cell_index(width, x2, y2) as int,
        width as int,
        y2 as int,
        x2 as int,
    );
}

/// A fixed-size two-dimensional grid over row-major linear storage.
///
/// The storage always holds exactly `width * height` cells; cell `(x, y)` lives at
/// `y * width + x`.
#[derive(Debug)]
pub struct Matrix<T> {
    width: u32,
    height: u32,
    data: Vec<T>,
}

impl<T: Clone> Clone for Matrix<T> {
    /// A grid of the same size whose cells are clones of this one's.
    fn clone(&self) -> (r: Self)
        ensures
            r.spec_width() == self.spec_width(),
            r.spec_height() == self.spec_height(),
            r@.len() == self@.len(),
            forall|i: int| 0 <= i < self@.len() ==> cloned(self@[i], #[trigger] r@[i]),
    {
        Matrix { width: self.width, height: self.height, data: self.data.clone() }
    }
}

/// A grid that owns its storage in a `Vec`.
pub type VecMatrix<T> = Matrix<T>;

impl<T> View for Matrix<T> {
    type V = Seq<T>;

    /// The cells in row-major order.
    closed spec fn view(&self) -> Seq<T> {
        self.data@
    }
}

impl<T> Matrix<T> {
    /// The storage holds exactly one value per cell.
    pub open spec fn wf(&self) -> bool {
        self@.len() == self.spec_width() as nat * self.spec_height() as nat
    }

    pub closed spec fn spec_width(&self) -> u32 {
        self.width
    }

    pub closed spec fn spec_height(&self) -> u32 {
        self.height
    }

    /// The value of cell `(x, y)`.
    pub open spec fn at(&self, x: int, y: int) -> T {
        self@[y * self.spec_width() + x]
    }

    /// Whether `(x, y)` names a cell of the grid.
    pub open spec fn contains(&self, x: int, y: int) -> bool {
        0 <= x < self.spec_width() && 0 <= y < self.spec_height()
    }

    fn from_raw(width: u32, height: u32, data: Vec<T>) -> (r: Self)
        requires
            data@.len() == width as nat * height as nat,
        ensures
            r@ == data@,
            r.spec_width() == width,
            r.spec_height() == height,
            r.wf(),
    {
        Matrix { width, height, data }
    }

    /// Builds a grid over `data`, or hands `data` back untouched when its length is
    /// not `width * height`.
    pub fn try_from_raw(width: u32, height: u32, data: Vec<T>) -> (r: Result<Self, Vec<T>>)
        ensures
            match r {
                Ok(m) => data@.len() == width as nat * height as nat && m@ == data@
                    && m.spec_width() == width && m.spec_height() == height,
                Err(d) => data@.len() != width as nat * height as nat && d@ == data@,
            },
    {
        proof {
            assert((width as nat) * (height as nat) <= u32::MAX as nat * u32::MAX as nat)
                by (nonlinear_arith)
                requires
                    width <= u32::MAX,
                    height <= u32::MAX,
            ;
        }
        if (width as u64) * (height as u64) == data.len() as u64 {
            Ok(Self::from_raw(width, height, data))
        } else {
            Err(data)
        }
    }

    /// Gives up the grid and returns its row-major storage.
    pub fn into_raw(self) -> (r: Vec<T>)
        ensures
            r@ == self@,
    {
        self.data
    }

    #[verifier::when_used_as_spec(spec_width)]
    pub fn width(&self) -> (r: u32)
        ensures
            r == self.spec_width(),
    {
        self.width
    }

    #[verifier::when_used_as_spec(spec_height)]
    pub fn height(&self) -> (r: u32)
        ensures
            r == self.spec_height(),
    {
        self.height
    }

    /// The dimensions; the storage holds one value per cell.
    pub fn size(&self) -> (r: (u32, u32))
        ensures
            r == (self.spec_width(), self.spec_height()),
    {
        (self.width, self.height)
    }

    /// The cells in row-major order.
    pub fn as_slice(&self) -> (r: &[T])
        ensures
            r@ == self@,
    {
        self.data.as_slice()
    }

    fn data_index(&self, x: u32, y: u32) -> (r: usize)
        requires
            self.wf(),
            self.contains(x as int, y as int),
        ensures
            r == cell_index(self.spec_width() as nat, x as nat, y as nat),
            r < self@.len(),
    {
        // Reading the length brings its bound, `usize::MAX`, into the proof.
        let _len = self.data.len();
        proof {
            lemma_cell_in_range(self.width as nat, self.height as nat, x as nat, y as nat);
        }
        y as usize * self.width as usize + x as usize
    }

    fn data_index_checked(&self, x: u32, y: u32) -> (r: Option<usize>)
        requires
            self.wf(),
        ensures
            match r {
                Some(i) => self.contains(x as int, y as int)
                    && i == cell_index(self.spec_width() as nat, x as nat, y as nat)
                    && i < self@.len(),
                None => !self.contains(x as int, y as int),
            },
    {
        if x < self.width && y < self.height {
            Some(self.data_index(x, y))
        } else {
            None
        }
    }

    /// The value of cell `(x, y)`, which must lie inside the grid.
    pub fn get(&self, x: u32, y: u32) -> (r: &T)
        requires
            self.wf(),
            self.contains(x as int, y as int),
        ensures
            *r == self.at(x as int, y as int),
    {
        let i = self.data_index(x, y);
        &self.data[i]
    }

    /// The value of cell `(x, y)`, or `None` outside the grid.
    pub fn get_checked(&self, x: u32, y: u32) -> (r: Option<&T>)
        requires
            self.wf(),
        ensures
            match r {
                Some(v) => self.contains(x as int, y as int) && *v == self.at(x as int, y as int),
                None => !self.contains(x as int, y as int),
            },
    {
        match self.data_index_checked(x, y) {
            Some(i) => Some(&self.data[i]),
            None => None,
        }
    }

    /// Every cell coordinate in row-major order: `y` outer, `x` inner.
    pub fn indexes(&self) -> (r: Vec<(u32, u32)>)
        requires
            self.wf(),
        ensures
            r@.len() == self@.len(),
            forall|x: u32, y: u32|
                self.contains(x as int, y as int) ==> #[trigger] r@[cell_index(
                    self.spec_width() as nat,
                    x as nat,
                    y as nat,
                ) as int] == (x, y),
    {
        let width = self.width;
        let height = self.height;
        let mut r: Vec<(u32, u32)> = Vec::new();
        let mut y: u32 = 0;
        while y < height
            invariant
                y <= height,
                width == self.spec_width(),
                height == self.spec_height(),
                self@.len() == width as nat * height as nat,
                r@.len() == y as nat * width as nat,
                forall|a: u32, b: u32|
                    a < width && b < y ==> #[trigger] r@[cell_index(width as nat, a as nat, b as nat) as int]
                        == (a, b),
            decreases height - y,
        {
            let mut x: u32 = 0;
            while x < width
                invariant
                    x <= width,
                    y < height,
                    r@.len() == y as nat * width as nat + x as nat,
                    forall|a: u32, b: u32|
                        (b < y && a < width) || (b == y && a < x) ==> #[trigger] r@[cell_index(
                            width as nat,
                            a as nat,
                            b as nat,
                        ) as int] == (a, b),
                decreases width - x,
            {
                proof {
                    assert forall|a: u32, b: u32|
                        (b < y && a < width) || (b == y && a < x) implies cell_index(
                            width as nat,
                            a as nat,
                            b as nat,
                        ) < y as nat * width as nat + x as nat by {
                        if b < y {
                            assert(b as nat * width as nat + a < y as nat * width as nat + x)
                                by (nonlinear_arith)
                                requires
                                    b < y,
                                    a < width,
                            ;
                        }
                    }
                }
                r.push((x, y));
                x = x + 1;
            }
            proof {
                assert((y + 1) as nat * width as nat == y as nat * width as nat + width as nat)
                    by (nonlinear_arith);
            }
            y = y + 1;
        }
        proof {
            assert(height as nat * width as nat == width as nat * height as nat) by (nonlinear_arith);
        }
        r
    }

    /// Each cell coordinate paired with its value, in row-major order.
    pub fn pairs(&self) -> (r: Vec<((u32, u32), &T)>)
        requires
            self.wf(),
        ensures
            r@.len() == self@.len(),
            forall|k: int| 0 <= k < r@.len() ==> *(#[trigger] r@[k]).1 == self@[k],
            forall|x: u32, y: u32|
                self.contains(x as int, y as int) ==> (#[trigger] r@[cell_index(
                    self.spec_width() as nat,
                    x as nat,
                    y as nat,
                ) as int]).0 == (x, y),
    {
        let indexes = self.indexes();
        let mut r: Vec<((u32, u32), &T)> = Vec::new();
        let mut k: usize = 0;
        while k < indexes.len()
            invariant
                indexes@.len() == self@.len(),
                k <= indexes@.len(),
                r@.len() == k,
                forall|j: int| 0 <= j < k ==> (#[trigger] r@[j]).0 == indexes@[j] && *r@[j].1 == self@[j],
            decreases indexes@.len() - k,
        {
            r.push((indexes[k], &self.data[k]));
            k = k + 1;
        }
        proof {
            assert forall|x: u32, y: u32| self.contains(x as int, y as int) implies (#[trigger] r@[cell_index(
                self.spec_width() as nat,
                x as nat,
                y as nat,
            ) as int]).0 == (x, y) by {
                lemma_cell_in_range(self.width as nat, self.height as nat, x as nat, y as nat);
                assert(indexes@[cell_index(self.spec_width() as nat, x as nat, y as nat) as int] == (x, y));
            }
        }
        r
    }

    /// A mutable reference to cell `(x, y)`, which must lie inside the grid.
    pub fn get_mut(&mut self, x: u32, y: u32) -> (r: &mut T)
        requires
            old(self).wf(),
            old(self).contains(x as int, y as int),
        ensures
            final(self).wf(),
            *r == old(self).at(x as int, y as int),
            final(self).spec_width() == old(self).spec_width(),
            final(self).spec_height() == old(self).spec_height(),
            final(self)@ == old(self)@.update(
                cell_index(old(self).spec_width() as nat, x as nat, y as nat) as int,
                *final(r),
            ),
    {
        let i = self.data_index(x, y);
        &mut self.data[i]
    }

    /// A mutable reference to cell `(x, y)`, or `None` outside the grid.
    pub fn get_checked_mut(&mut self, x: u32, y: u32) -> (r: Option<&mut T>)
        requires
            old(self).wf(),
        ensures
            final(self).wf(),
            final(self).spec_width() == old(self).spec_width(),
            final(self).spec_height() == old(self).spec_height(),
            match r {
                Some(v) => old(self).contains(x as int, y as int) && *v == old(self).at(
                    x as int,
                    y as int,
                ) && final(self)@ == old(self)@.update(
                    cell_index(old(self).spec_width() as nat, x as nat, y as nat) as int,
                    *final(v),
                ),
                None => !old(self).contains(x as int, y as int) && final(self)@ == old(self)@,
            },
    {
        match self.data_index_checked(x, y) {
            Some(i) => Some(&mut self.data[i]),
            None => None,
        }
    }

    /// Overwrites cell `(x, y)`, which must lie inside the grid.
    pub fn set(&mut self, x: u32, y: u32, value: T)
        requires
            old(self).wf(),
            old(self).contains(x as int, y as int),
        ensures
            final(self).wf(),
            final(self).spec_width() == old(self).spec_width(),
            final(self).spec_height() == old(self).spec_height(),
            final(self)@ == old(self)@.update(
                cell_index(old(self).spec_width() as nat, x as nat, y as nat) as int,
                value,
            ),
    {
        let i = self.data_index(x, y);
        self.data.set(i, value);
    }

    /// Overwrites cell `(x, y)`; outside the grid nothing changes and `value` comes back.
    pub fn set_checked(&mut self, x: u32, y: u32, value: T) -> (r: Result<(), T>)
        requires
            old(self).wf(),
        ensures
            final(self).wf(),
            final(self).spec_width() == old(self).spec_width(),
            final(self).spec_height() == old(self).spec_height(),
            match r {
                Ok(()) => old(self).contains(x as int, y as int) && final(self)@ == old(self)@.update(
                    cell_index(old(self).spec_width() as nat, x as nat, y as nat) as int,
                    value,
                ),
                Err(v) => !old(self).contains(x as int, y as int) && v == value && final(self)@
                    == old(self)@,
            },
    {
        match self.data_index_checked(x, y) {
            Some(i) => {
                self.data.set(i, value);
                Ok(())
            },
            None => Err(value),
        }
    }

    /// Resets every cell to `T::default()`.
    pub fn clear(&mut self)
        where
            T: Default,
        requires
            old(self).wf(),
        ensures
            final(self).wf(),
            final(self).spec_width() == old(self).spec_width(),
            final(self).spec_height() == old(self).spec_height(),
            forall|i: int| 0 <= i < final(self)@.len() ==> call_ensures(T::default, (), #[trigger] final(self)@[i]),
    {
        let n = self.data.len();
        let mut i: usize = 0;
        while i < n
            invariant
                n == self.data@.len(),
                i <= n,
                self.wf(),
                self.spec_width() == old(self).spec_width(),
                self.spec_height() == old(self).spec_height(),
                forall|j: int| 0 <= j < i ==> call_ensures(T::default, (), #[trigger] self@[j]),
            decreases n - i,
        {
            self.data.set(i, T::default());
            i = i + 1;
        }
    }

    /// The cells in row-major order, in step with `indexes`.
    pub fn values(&self) -> (r: &[T])
        ensures
            r@ == self@,
    {
        self.data.as_slice()
    }
}

impl<T> Matrix<T> {
    /// A `width` by `height` grid whose cells are filled, in row-major order, by calls to `f`.
    pub fn new_with<F: Fn() -> T>(width: u32, height: u32, f: F) -> (r: Self)
        requires
            width as nat * height as nat <= usize::MAX,
            f.requires(()),
        ensures
            r.wf(),
            r.spec_width() == width,
            r.spec_height() == height,
            forall|i: int| 0 <= i < r@.len() ==> f.ensures((), #[trigger] r@[i]),
    {
        let len = width as usize * height as usize;
        let mut data: Vec<T> = Vec::with_capacity(len);
        let mut i: usize = 0;
        while i < len
            invariant
                i <= len,
                data@.len() == i,
                f.requires(()),
                forall|j: int| 0 <= j < i ==> f.ensures((), #[trigger] data@[j]),
            decreases len - i,
        {
            data.push(f());
            i = i + 1;
        }
        Self::from_raw(width, height, data)
    }

    /// A `width` by `height` grid of default values.
    pub fn new(width: u32, height: u32) -> (r: Self)
        where
            T: Default,
        requires
            width as nat * height as nat <= usize::MAX,
        ensures
            r.wf(),
            r.spec_width() == width,
            r.spec_height() == height,
            forall|i: int| 0 <= i < r@.len() ==> call_ensures(T::default, (), #[trigger] r@[i]),
    {
        let len = width as usize * height as usize;
        let mut data: Vec<T> = Vec::with_capacity(len);
        let mut i: usize = 0;
        while i < len
            invariant
                i <= len,
                data@.len() == i,
                forall|j: int| 0 <= j < i ==> call_ensures(T::default, (), #[trigger] data@[j]),
            decreases len - i,
        {
            data.push(T::default());
            i = i + 1;
        }
        Self::from_raw(width, height, data)
    }
}

} // verus!
