use vstd::arithmetic::div_mod::lemma_fundamental_div_mod_converse;
use vstd::prelude::*;

verus! {

/// Number of rows of a cell matrix.
pub open spec fn height_of(c: Seq<Seq<bool>>) -> int {
    c.len() as int
}

/// Number of columns of a cell matrix (the length of its first row).
pub open spec fn width_of(c: Seq<Seq<bool>>) -> int {
    if c.len() > 0 {
        c[0].len() as int
    } else {
        0
    }
}

/// A cell matrix is valid when it has at least one row and one column and
/// every row has the same length.
pub open spec fn valid(c: Seq<Seq<bool>>) -> bool {
    &&& c.len() > 0
    &&& c[0].len() > 0
    &&& forall|y: int| 0 <= y < c.len() ==> #[trigger] c[y].len() == c[0].len()
}

/// The cell matrix held by a vector of rows.
pub open spec fn rows_view(v: Seq<Vec<bool>>) -> Seq<Seq<bool>> {
    v.map_values(|r: Vec<bool>| r@)
}

/// Toroidal resolution of the offset `d` from index `i` on an axis of length
/// `n`: the Euclidean remainder of `i + d` by `n`.
#[verifier::opaque]
pub open spec fn wrap(i: int, d: int, n: int) -> int {
    (i + d) % n
}

/// 1 for a live cell, 0 for a dead one.
pub open spec fn bit(b: bool) -> int {
    if b {
        1
    } else {
        0
    }
}

/// Whether the neighbour of `(y, x)` at offset `(dy, dx)` is alive, as 0 or 1.
pub open spec fn neighbor(c: Seq<Seq<bool>>, y: int, x: int, dy: int, dx: int) -> int {
    bit(c[wrap(y, dy, height_of(c))][wrap(x, dx, width_of(c))])
}

/// Number of live cells among the eight toroidal neighbours of `(y, x)`.
pub open spec fn live_neighbors(c: Seq<Seq<bool>>, y: int, x: int) -> int {
    neighbor(c, y, x, -1, -1) + neighbor(c, y, x, -1, 0) + neighbor(c, y, x, -1, 1)
        + neighbor(c, y, x, 0, -1) + neighbor(c, y, x, 0, 1)
        + neighbor(c, y, x, 1, -1) + neighbor(c, y, x, 1, 0) + neighbor(c, y, x, 1, 1)
}

/// The birth/survival rule: a live cell stays alive with two or three live
/// neighbours, a dead cell comes alive with exactly three.
pub open spec fn next_state(alive: bool, n: int) -> bool {
    (alive && (n == 2 || n == 3)) || (!alive && n == 3)
}

/// The next generation of `c`, every cell computed from `c` alone.
pub open spec fn successor(c: Seq<Seq<bool>>) -> Seq<Seq<bool>> {
    Seq::new(
        height_of(c) as nat,
        |y: int|
            Seq::new(
                width_of(c) as nat,
                |x: int| next_state(c[y][x], live_neighbors(c, y, x)),
            ),
    )
}

/// On an axis of length `n`, an offset of at most one step from an index in
/// range wraps to the other end only when it leaves the range.
pub proof fn lemma_wrap_step(i: int, d: int, n: int)
    requires
        0 <= i < n,
        -1 <= d <= 1,
    ensures
        wrap(i, d, n) == if i + d < 0 {
            n - 1
        } else if i + d >= n {
            0
        } else {
            i + d
        },
{
    reveal(wrap);
    if i + d < 0 {
        lemma_fundamental_div_mod_converse(i + d, n, -1, n - 1);
    } else if i + d >= n {
        lemma_fundamental_div_mod_converse(i + d, n, 1, 0);
    } else {
        lemma_fundamental_div_mod_converse(i + d, n, 0, i + d);
    }
}

/// The eight neighbours of `(y, x)` in a valid matrix, with the rows above
/// and below and the columns to the left and right resolved by wrapping.
pub proof fn lemma_neighbors_at(
    c: Seq<Seq<bool>>,
    y: int,
    x: int,
    up: int,
    down: int,
    left: int,
    right: int,
)
    requires
        valid(c),
        0 <= y < height_of(c),
        0 <= x < width_of(c),
        up == if y == 0 { height_of(c) - 1 } else { y - 1 },
        down == if y + 1 == height_of(c) { 0 } else { y + 1 },
        left == if x == 0 { width_of(c) - 1 } else { x - 1 },
        right == if x + 1 == width_of(c) { 0 } else { x + 1 },
    ensures
        live_neighbors(c, y, x) == bit(c[up][left]) + bit(c[up][x]) + bit(c[up][right]) + bit(
            c[y][left],
        ) + bit(c[y][right]) + bit(c[down][left]) + bit(c[down][x]) + bit(c[down][right]),
{
    lemma_wrap_step(y, -1, height_of(c));
    lemma_wrap_step(y, 0, height_of(c));
    lemma_wrap_step(y, 1, height_of(c));
    lemma_wrap_step(x, -1, width_of(c));
    lemma_wrap_step(x, 0, width_of(c));
    lemma_wrap_step(x, 1, width_of(c));
}

/// Why a grid could not be built.
#[derive(Clone, Copy, Debug, PartialEq, Eq, Structural)]
pub enum GridError {
    /// The requested width is zero.
    ZeroWidth,
    /// The requested height is zero.
    ZeroHeight,
    /// A live cell was placed outside the grid.
    OutOfBounds,
}

/// One generation: a `height` by `width` matrix of cells, row by row.
pub struct Grid {
    width: usize,
    height: usize,
    cells: Vec<Vec<bool>>,
}

impl View for Grid {
    type V = Seq<Seq<bool>>;

    closed spec fn view(&self) -> Seq<Seq<bool>> {
        rows_view(self.cells@)
    }
}

impl Grid {
    #[verifier::type_invariant]
    closed spec fn inv(&self) -> bool {
        &&& valid(self@)
        &&& self.height == height_of(self@)
        &&& self.width == width_of(self@)
    }

    /// An all-dead grid of the given size; a zero dimension is refused.
    pub fn new(width: usize, height: usize) -> (r: Result<Grid, GridError>)
        ensures
            width == 0 ==> r == Err::<Grid, GridError>(GridError::ZeroWidth),
            width > 0 && height == 0 ==> r == Err::<Grid, GridError>(GridError::ZeroHeight),
            width > 0 && height > 0 ==> r is Ok,
            r matches Ok(g) ==> {
                &&& valid(g@)
                &&& width_of(g@) == width
                &&& height_of(g@) == height
                &&& forall|y: int, x: int|
                    0 <= y < height && 0 <= x < width ==> !#[trigger] g@[y][x]
            },
    {
        if width == 0 {
            return Err(GridError::ZeroWidth);
        }
        if height == 0 {
            return Err(GridError::ZeroHeight);
        }
        let mut cells: Vec<Vec<bool>> = Vec::new();
        let mut y: usize = 0;
        while y < height
            invariant
                y <= height,
                width > 0,
                cells@.len() == y,
                forall|i: int| 0 <= i < y ==> (#[trigger] cells@[i])@ == Seq::new(width as nat, |x: int| false),
            decreases height - y,
        {
            cells.push(vec![false; width]);
            y = y + 1;
        }
        let g = Grid { width, height, cells };
        assert(g@[0] == Seq::new(width as nat, |x: int| false));
        Ok(g)
    }

    /// A grid of the given size whose live cells are exactly those listed as
    /// `(row, column)` pairs. A zero dimension is refused first, then any
    /// listed cell that lies outside the grid.
    pub fn with_live_cells(width: usize, height: usize, live: &Vec<(usize, usize)>) -> (r: Result<
        Grid,
        GridError,
    >)
        ensures
            width == 0 ==> r == Err::<Grid, GridError>(GridError::ZeroWidth),
            width > 0 && height == 0 ==> r == Err::<Grid, GridError>(GridError::ZeroHeight),
            width > 0 && height > 0 ==> (r == Err::<Grid, GridError>(GridError::OutOfBounds)
                <==> !within(live@, width as int, height as int)),
            width > 0 && height > 0 && within(live@, width as int, height as int) ==> r is Ok,
            r matches Ok(g) ==> {
                &&& valid(g@)
                &&& width_of(g@) == width
                &&& height_of(g@) == height
                &&& forall|y: int, x: int|
                    0 <= y < height && 0 <= x < width ==> #[trigger] g@[y][x] == listed(
                        live@,
                        y,
                        x,
                    )
            },
    {
        if width == 0 {
            return Err(GridError::ZeroWidth);
        }
        if height == 0 {
            return Err(GridError::ZeroHeight);
        }
        let mut i: usize = 0;
        while i < live.len()
            invariant
                width > 0,
                height > 0,
                i <= live@.len(),
                forall|k: int| 0 <= k < i ==> #[trigger] live@[k].0 < height && live@[k].1 < width,
            decreases live@.len() - i,
        {
            let (y, x) = live[i];
            if y >= height || x >= width {
                return Err(GridError::OutOfBounds);
            }
            i = i + 1;
        }
        let mut cells: Vec<Vec<bool>> = Vec::new();
        let mut y: usize = 0;
        while y < height
            invariant
                y <= height,
                width > 0,
                cells@.len() == y,
                forall|i: int|
                    0 <= i < y ==> (#[trigger] cells@[i])@ == Seq::new(
                        width as nat,
                        |x: int| listed(live@, i, x),
                    ),
            decreases height - y,
        {
            let mut row: Vec<bool> = Vec::new();
            let mut x: usize = 0;
            while x < width
                invariant
                    x <= width,
                    row@.len() == x,
                    forall|j: int| 0 <= j < x ==> #[trigger] row@[j] == listed(live@, y as int, j),
                decreases width - x,
            {
                row.push(is_listed(live, y, x));
                x = x + 1;
            }
            assert(row@ =~= Seq::new(width as nat, |x: int| listed(live@, y as int, x)));
            cells.push(row);
            y = y + 1;
        }
        let g = Grid { width, height, cells };
        assert(g@[0] == Seq::new(width as nat, |x: int| listed(live@, 0, x)));
        Ok(g)
    }

    /// Number of columns.
    pub fn width(&self) -> (r: usize)
        ensures
            r == width_of(self@),
            valid(self@),
    {
        proof { use_type_invariant(self); }
        self.width
    }

    /// Number of rows.
    pub fn height(&self) -> (r: usize)
        ensures
            r == height_of(self@),
            valid(self@),
    {
        proof { use_type_invariant(self); }
        self.height
    }

    /// The rows of cells, top to bottom.
    pub fn cells(&self) -> (r: &Vec<Vec<bool>>)
        ensures
            rows_view(r@) == self@,
    {
        &self.cells
    }

    /// The state of the cell in row `y`, column `x`; both must lie in range.
    pub fn is_alive(&self, y: usize, x: usize) -> (r: bool)
        requires
            y < height_of(self@),
            x < width_of(self@),
        ensures
            r == self@[y as int][x as int],
    {
        proof { use_type_invariant(self); }
        assert(self@[y as int] == self.cells@[y as int]@);
        self.cells[y][x]
    }

    /// Number of live cells among the eight toroidal neighbours of the cell in
    /// row `y`, column `x`; the cell itself is not counted.
    #[verifier::rlimit(40)]
    pub fn neighbor_count(&self, y: usize, x: usize) -> (r: u8)
        requires
            y < height_of(self@),
            x < width_of(self@),
        ensures
            r == live_neighbors(self@, y as int, x as int),
            r <= 8,
    {
        proof { use_type_invariant(self); }
        let h = self.height;
        let w = self.width;
        let up: usize = if y == 0 { h - 1 } else { y - 1 };
        let down: usize = if y + 1 == h { 0 } else { y + 1 };
        let left: usize = if x == 0 { w - 1 } else { x - 1 };
        let right: usize = if x + 1 == w { 0 } else { x + 1 };
        proof {
            lemma_neighbors_at(self@, y as int, x as int, up as int, down as int, left as int, right as int);
        }
        let a = self.cell_bit(up, left) + self.cell_bit(up, x) + self.cell_bit(up, right);
        let b = self.cell_bit(y, left) + self.cell_bit(y, right);
        let c = self.cell_bit(down, left) + self.cell_bit(down, x) + self.cell_bit(down, right);
        a + b + c
    }

    /// 1 when the cell in row `y`, column `x` is alive, else 0.
    fn cell_bit(&self, y: usize, x: usize) -> (r: u8)
        requires
            y < height_of(self@),
            x < width_of(self@),
        ensures
            r == bit(self@[y as int][x as int]),
    {
        count_live(self.is_alive(y, x))
    }

    /// The next generation: a new grid of the same size in which every cell
    /// follows the birth/survival rule applied to this grid, which is left as
    /// it was.
    pub fn step(&self) -> (r: Grid)
        ensures
            r@ == successor(self@),
            valid(r@),
            width_of(r@) == width_of(self@),
            height_of(r@) == height_of(self@),
    {
        proof { use_type_invariant(self); }
        let h = self.height;
        let w = self.width;
        let ghost next = successor(self@);
        let mut cells: Vec<Vec<bool>> = Vec::new();
        let mut y: usize = 0;
        while y < h
            invariant
                h == height_of(self@),
                w == width_of(self@),
                valid(self@),
                next == successor(self@),
                y <= h,
                cells@.len() == y,
                forall|i: int| 0 <= i < y ==> (#[trigger] cells@[i])@ == next[i],
            decreases h - y,
        {
            let mut row: Vec<bool> = Vec::new();
            let mut x: usize = 0;
            while x < w
                invariant
                    h == height_of(self@),
                    w == width_of(self@),
                    valid(self@),
                    y < h,
                    x <= w,
                    row@.len() == x,
                    forall|j: int|
                        0 <= j < x ==> #[trigger] row@[j] == next_state(
                            self@[y as int][j],
                            live_neighbors(self@, y as int, j),
                        ),
                decreases w - x,
            {
                let n = self.neighbor_count(y, x);
                let alive = self.is_alive(y, x);
                row.push(rule(alive, n));
                x = x + 1;
            }
            assert(row@ =~= next[y as int]);
            cells.push(row);
            y = y + 1;
        }
        let r = Grid { width: w, height: h, cells };
        assert(r@ =~= next);
        r
    }
}

/// The next generation of a `height` by `width` matrix given row by row; the
/// dimensions passed must be those of the matrix, and neither may be zero.
pub fn step(grid: Vec<Vec<bool>>, width: usize, height: usize) -> (r: Vec<Vec<bool>>)
    requires
        valid(rows_view(grid@)),
        width == width_of(rows_view(grid@)),
        height == height_of(rows_view(grid@)),
    ensures
        rows_view(r@) == successor(rows_view(grid@)),
        valid(rows_view(r@)),
        width == width_of(rows_view(r@)),
        height == height_of(rows_view(r@)),
{
    let current = Grid { width, height, cells: grid };
    let next = current.step();
    proof { use_type_invariant(&next); }
    next.cells
}

/// The starting pattern of a run: three live cells side by side in row 10,
/// columns 10 to 12.
pub fn seed_cells() -> (r: Vec<(usize, usize)>)
    ensures
        r@ == seq![(10usize, 10usize), (10usize, 11usize), (10usize, 12usize)],
{
    vec![(10, 10), (10, 11), (10, 12)]
}

/// Whether `(y, x)` occurs among the listed `(row, column)` pairs.
pub open spec fn listed(live: Seq<(usize, usize)>, y: int, x: int) -> bool {
    exists|i: int| 0 <= i < live.len() && live[i].0 == y && live[i].1 == x
}

/// Whether every listed `(row, column)` pair lies inside a `width` by
/// `height` grid.
pub open spec fn within(live: Seq<(usize, usize)>, width: int, height: int) -> bool {
    forall|i: int| 0 <= i < live.len() ==> #[trigger] live[i].0 < height && live[i].1 < width
}

/// Whether `(y, x)` occurs among the listed pairs, by a scan of the list.
fn is_listed(live: &Vec<(usize, usize)>, y: usize, x: usize) -> (r: bool)
    ensures
        r == listed(live@, y as int, x as int),
{
    let mut i: usize = 0;
    while i < live.len()
        invariant
            i <= live@.len(),
            forall|k: int| 0 <= k < i ==> !(#[trigger] live@[k].0 == y && live@[k].1 == x),
        decreases live@.len() - i,
    {
        if live[i].0 == y && live[i].1 == x {
            return true;
        }
        i = i + 1;
    }
    false
}

/// 1 for a live cell, 0 for a dead one.
fn count_live(alive: bool) -> (r: u8)
    ensures
        r == bit(alive),
{
    if alive {
        1
    } else {
        0
    }
}

/// The state of a cell in the next generation, from its present state and
/// its number of live neighbours.
pub fn rule(alive: bool, n: u8) -> (r: bool)
    ensures
        r == next_state(alive, n as int),
{
    matches!((alive, n), (true, 2) | (true, 3) | (false, 3))
}

} // verus!
