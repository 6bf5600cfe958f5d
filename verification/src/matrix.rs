use vstd::prelude::*;

verus! {

/// An immutable square grid of modules, `true` for dark. The quiet zone is
/// never part of the matrix; margins are added by the layout alone.
#[derive(Clone, Debug)]
pub struct ModuleMatrix {
    pub n: usize,
    pub cells: Vec<bool>,
}

impl ModuleMatrix {
    /// The side length and the cells are consistent: `n * n` cells, stored
    /// row-major.
    pub open spec fn wf(self) -> bool {
        self.cells@.len() == self.n * self.n && self.n >= 1
    }

    pub open spec fn side(self) -> int {
        self.n as int
    }

    /// Whether the module in row `y`, column `x` is dark.
    pub open spec fn dark(self, x: int, y: int) -> bool {
        self.cells@[y * self.n + x]
    }

    /// Builds a matrix from a row-major cell vector whose length is a
    /// nonzero perfect square of the given side.
    pub fn from_cells(n: usize, cells: Vec<bool>) -> (m: ModuleMatrix)
        requires
            n >= 1,
            cells@.len() == n * n,
        ensures
            m.wf(),
            m.side() == n,
            m.cells@ == cells@,
            forall|x: int, y: int|
                0 <= x < n && 0 <= y < n ==> #[trigger] m.dark(x, y) == cells@[y * n + x],
    {
        ModuleMatrix { n, cells }
    }

    pub fn side_len(&self) -> (n: usize)
        ensures
            n == self.side(),
    {
        self.n
    }

    pub fn is_dark(&self, x: usize, y: usize) -> (d: bool)
        requires
            self.wf(),
            x < self.side(),
            y < self.side(),
        ensures
            d == self.dark(x as int, y as int),
    {
        let len = self.cells.len();
        proof {
            assert(y * self.n + x < self.n * self.n) by (nonlinear_arith)
                requires
                    x < self.n,
                    y < self.n,
            ;
            assert(y * self.n + x < len);
        }
        self.cells[y * self.n + x]
    }

    /// How many modules of the whole grid are dark.
    pub open spec fn spec_dark_count(self) -> int {
        self.cells@.fold_left(0int, |acc: int, c: bool| if c { acc + 1 } else { acc })
    }

    pub fn dark_count(&self) -> (k: usize)
        requires
            self.wf(),
        ensures
            k == self.spec_dark_count(),
    {
        let mut k: usize = 0;
        let mut i: usize = 0;
        while i < self.cells.len()
            invariant
                i <= self.cells@.len(),
                k <= i,
                k == self.cells@.take(i as int).fold_left(
                    0int,
                    |acc: int, c: bool| if c { acc + 1 } else { acc },
                ),
            decreases self.cells@.len() - i,
        {
            proof {
                assert(self.cells@.take(i + 1).drop_last() == self.cells@.take(i as int));
                assert(self.cells@.take(i + 1).last() == self.cells@[i as int]);
            }
            if self.cells[i] {
                k = k + 1;
            }
            i = i + 1;
        }
        proof {
            assert(self.cells@.take(self.cells@.len() as int) == self.cells@);
        }
        k
    }
}

} // verus!
