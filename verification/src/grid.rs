//! The occupancy grid: which cells of the playing field hold a part of the
//! snake.
//!
//! The grid is stored flat. The cell `(x, y, z)` of a grid of `width` by
//! `height` by `depth` cells has the linear index `(x * height + y) * depth + z`,
//! so `z` runs fastest and `x` slowest.

use vstd::prelude::*;
use vstd::arithmetic::div_mod::{
    lemma_div_denominator,
    lemma_fundamental_div_mod,
    lemma_fundamental_div_mod_converse,
    lemma_multiply_divide_lt,
    lemma_small_mod,
};
use crate::vector::{HalfVec3, IVec3};

verus! {

/// The state of one cell.
#[derive(Debug, PartialEq, Eq, Clone, Copy, Structural)]
pub enum Point {
    Empty,
    Snake,
}

/// How many cells of `cells` hold a part of the snake.
pub open spec fn count_snake(cells: Seq<Point>) -> nat
    decreases cells.len(),
{
    if cells.len() == 0 {
        0
    } else {
        count_snake(cells.drop_last()) + if cells.last() == Point::Snake {
            1nat
        } else {
            0nat
        }
    }
}

/// The cells of a fresh grid: the snake's first cell, at index 0, is taken and
/// every other cell is empty.
pub open spec fn initial_cells(total: nat) -> Seq<Point> {
    Seq::new(total, |i: int| Point::Empty).update(0, Point::Snake)
}

/// The mathematical model of an [`OccupancyGrid`].
pub struct GridView {
    pub width: nat,
    pub height: nat,
    pub depth: nat,
    pub cells: Seq<Point>,
}

impl GridView {
    /// The number of cells.
    pub open spec fn total(self) -> nat {
        self.width * self.height * self.depth
    }

    /// Every dimension is at least 2 and fits a coordinate, and there is one
    /// entry of `cells` for each cell.
    pub open spec fn wf(self) -> bool {
        &&& 2 <= self.width <= i32::MAX
        &&& 2 <= self.height <= i32::MAX
        &&& 2 <= self.depth <= i32::MAX
        &&& self.total() <= usize::MAX
        &&& self.cells.len() == self.total()
    }

    /// Whether `p` names a cell of the grid.
    pub open spec fn in_bounds(self, p: IVec3) -> bool {
        &&& 0 <= p.x < self.width
        &&& 0 <= p.y < self.height
        &&& 0 <= p.z < self.depth
    }

    /// The linear index of the cell `p`.
    pub open spec fn index_of(self, p: IVec3) -> int {
        (p.x * self.height + p.y) * self.depth + p.z
    }

    /// The cell with the linear index `i`, by fixed-radix decomposition.
    pub open spec fn cell_of(self, i: int) -> IVec3 {
        IVec3 {
            x: (i / (self.depth * self.height) as int % self.width as int) as i32,
            y: (i / self.depth as int % self.height as int) as i32,
            z: (i % self.depth as int) as i32,
        }
    }

    /// The state of the cell `p`.
    pub open spec fn at(self, p: IVec3) -> Point {
        self.cells[self.index_of(p)]
    }

    /// The grid with the cell `p` set to `value`.
    pub open spec fn put(self, p: IVec3, value: Point) -> GridView {
        GridView { cells: self.cells.update(self.index_of(p), value), ..self }
    }

    /// How many cells hold a part of the snake.
    pub open spec fn occupied(self) -> nat {
        count_snake(self.cells)
    }

    /// The index that a linear probe visits after `i`: the next one, and the
    /// first one after the last.
    pub open spec fn next_index(self, i: int) -> int {
        if i + 1 >= self.total() {
            0
        } else {
            i + 1
        }
    }

    /// The index of the first empty cell that a linear probe finds when it
    /// starts at `i` and looks at `tries` cells; `None` if all of them are
    /// taken.
    pub open spec fn probe(self, i: int, tries: nat) -> Option<int>
        decreases tries,
    {
        if tries == 0 {
            None
        } else if self.cells[i] == Point::Empty {
            Some(i)
        } else {
            self.probe(self.next_index(i), (tries - 1) as nat)
        }
    }

    /// The index that a linear probe from `start` looks at in its `k`-th
    /// step, counting from 0.
    pub open spec fn probe_index(self, start: int, k: int) -> int {
        (start + k) % (self.total() as int)
    }

    /// The point of render space at the centre of the cell `p`. The grid is
    /// centred on the origin, and render space has y pointing up: its y is
    /// the grid's z and its z is the grid's y.
    pub open spec fn to_space(self, p: IVec3) -> HalfVec3 {
        HalfVec3 {
            x: (2 * p.x - (self.width - 1)) as i64,
            y: (2 * p.z - (self.depth - 1)) as i64,
            z: (2 * p.y - (self.height - 1)) as i64,
        }
    }

    /// The point of render space where the shadow of the column of `p`
    /// lies: under the column, on the floor of the grid, which is half a cell
    /// below the centres of the lowest cells.
    pub open spec fn shadow_base(self, p: IVec3) -> HalfVec3 {
        HalfVec3 {
            x: (2 * p.x - (self.width - 1)) as i64,
            y: (-(self.depth as int)) as i64,
            z: (2 * p.y - (self.height - 1)) as i64,
        }
    }
}

/// The product of dimensions that are each at least 2 is at least 8, and the
/// partial products are bounded by it.
pub proof fn lemma_total_bounds(g: GridView)
    requires
        2 <= g.width,
        2 <= g.height,
        2 <= g.depth,
    ensures
        8 <= g.total(),
        g.depth * g.height == g.height * g.depth,
        4 <= g.height * g.depth <= g.total(),
        4 <= g.width * g.height <= g.total(),
        g.total() == g.width * (g.height * g.depth),
{
    let (w, h, d) = (g.width as int, g.height as int, g.depth as int);
    assert(w * h * d == w * (h * d)) by (nonlinear_arith);
    assert(d * h == h * d) by (nonlinear_arith);
    assert(4 <= h * d) by (nonlinear_arith)
        requires
            2 <= h,
            2 <= d,
    ;
    assert(4 <= w * h) by (nonlinear_arith)
        requires
            2 <= w,
            2 <= h,
    ;
    assert(2 * (h * d) <= w * (h * d)) by (nonlinear_arith)
        requires
            2 <= w,
            0 <= h * d,
    ;
    assert(2 * (w * h) <= (w * h) * d) by (nonlinear_arith)
        requires
            2 <= d,
            0 <= w * h,
    ;
}

/// A cell of the grid has an index below the number of cells, and the steps
/// that lead to the index stay between 0 and it.
pub proof fn lemma_index_in_range(g: GridView, p: IVec3)
    requires
        g.in_bounds(p),
    ensures
        0 <= p.x * g.height <= p.x * g.height + p.y < g.width * g.height,
        0 <= (p.x * g.height + p.y) * g.depth <= g.index_of(p) < g.total(),
{
    let (w, h, d) = (g.width as int, g.height as int, g.depth as int);
    let (x, y, z) = (p.x as int, p.y as int, p.z as int);
    assert(0 <= x * h <= x * h + y < w * h) by (nonlinear_arith)
        requires
            0 <= x < w,
            0 <= y < h,
    ;
    let r = x * h + y;
    assert(0 <= r * d <= r * d + z < (w * h) * d) by (nonlinear_arith)
        requires
            0 <= r < w * h,
            0 <= z < d,
    ;
}

/// Decomposing the index of a cell gives the cell back, so no two cells share
/// an index.
pub proof fn lemma_cell_of_index(g: GridView, p: IVec3)
    requires
        g.wf(),
        g.in_bounds(p),
    ensures
        g.cell_of(g.index_of(p)) == p,
{
    let (w, h, d) = (g.width as int, g.height as int, g.depth as int);
    let (x, y, z) = (p.x as int, p.y as int, p.z as int);
    let i = g.index_of(p);
    lemma_total_bounds(g);
    lemma_index_in_range(g, p);
    lemma_fundamental_div_mod_converse(i, d, x * h + y, z);
    lemma_fundamental_div_mod_converse(x * h + y, h, x, y);
    lemma_div_denominator(i, d, h);
    lemma_small_mod(x as nat, w as nat);
}

/// Decomposing an index below the number of cells gives a cell of the grid,
/// and that cell has the index.
pub proof fn lemma_index_of_cell(g: GridView, i: int)
    requires
        g.wf(),
        0 <= i < g.total(),
    ensures
        g.in_bounds(g.cell_of(i)),
        g.index_of(g.cell_of(i)) == i,
        g.cell_of(i).x == i / (g.depth * g.height) as int,
{
    let (w, h, d) = (g.width as int, g.height as int, g.depth as int);
    lemma_total_bounds(g);
    let q = i / d;
    lemma_fundamental_div_mod(i, d);
    lemma_fundamental_div_mod(q, h);
    lemma_div_denominator(i, d, h);
    assert(i < (d * h) * w) by (nonlinear_arith)
        requires
            i < w * (h * d),
    ;
    lemma_multiply_divide_lt(i, d * h, w);
    assert(0 <= i / (d * h)) by (nonlinear_arith)
        requires
            0 <= i,
            0 < d * h,
    ;
    assert(0 <= i / d) by (nonlinear_arith)
        requires
            0 <= i,
            0 < d,
    ;
    lemma_small_mod((i / (d * h)) as nat, w as nat);
    let x = q / h;
    let y = q % h;
    let z = i % d;
    assert((x * h + y) * d + z == i) by (nonlinear_arith)
        requires
            i == d * q + z,
            q == h * x + y,
    ;
}

/// Setting one cell changes the count by what the cell held and what it holds
/// now.
pub proof fn lemma_count_update(cells: Seq<Point>, i: int, value: Point)
    requires
        0 <= i < cells.len(),
    ensures
        count_snake(cells.update(i, value)) + (if cells[i] == Point::Snake {
            1nat
        } else {
            0nat
        }) == count_snake(cells) + (if value == Point::Snake {
            1nat
        } else {
            0nat
        }),
    decreases cells.len(),
{
    let updated = cells.update(i, value);
    if i == cells.len() - 1 {
        assert(updated.drop_last() =~= cells.drop_last());
    } else {
        assert(updated.drop_last() =~= cells.drop_last().update(i, value));
        lemma_count_update(cells.drop_last(), i, value);
    }
}

/// Where every cell is empty the count is 0.
pub proof fn lemma_count_all_empty(cells: Seq<Point>)
    requires
        forall|i: int| 0 <= i < cells.len() ==> cells[i] == Point::Empty,
    ensures
        count_snake(cells) == 0,
    decreases cells.len(),
{
    if cells.len() > 0 {
        lemma_count_all_empty(cells.drop_last());
    }
}

/// A fresh grid holds one part of the snake.
pub proof fn lemma_count_initial(total: nat)
    requires
        total > 0,
    ensures
        count_snake(initial_cells(total)) == 1,
{
    let empty = Seq::new(total, |i: int| Point::Empty);
    lemma_count_all_empty(empty);
    lemma_count_update(empty, 0, Point::Snake);
}

/// No more cells are taken than there are, and where fewer are taken, some
/// cell is empty.
pub proof fn lemma_count_bound(cells: Seq<Point>)
    ensures
        count_snake(cells) <= cells.len(),
        count_snake(cells) < cells.len() ==> exists|i: int|
            0 <= i < cells.len() && cells[i] == Point::Empty,
        count_snake(cells) == cells.len() ==> forall|i: int|
            0 <= i < cells.len() ==> cells[i] == Point::Snake,
    decreases cells.len(),
{
    if cells.len() > 0 {
        let front = cells.drop_last();
        lemma_count_bound(front);
        if count_snake(cells) < cells.len() {
            if cells.last() == Point::Snake {
                let i = choose|i: int| 0 <= i < front.len() && front[i] == Point::Empty;
                assert(cells[i] == Point::Empty);
            } else {
                assert(cells[cells.len() - 1] == Point::Empty);
            }
        }
        if count_snake(cells) == cells.len() {
            assert forall|i: int| 0 <= i < cells.len() implies cells[i] == Point::Snake by {
                if i < front.len() {
                    assert(front[i] == Point::Snake);
                }
            }
        }
    }
}

/// A three-dimensional array of cell states, fixed in size when it is made.
pub struct OccupancyGrid {
    width: usize,
    height: usize,
    depth: usize,
    cells: Vec<Point>,
}

impl View for OccupancyGrid {
    type V = GridView;

    closed spec fn view(&self) -> GridView {
        GridView {
            width: self.width as nat,
            height: self.height as nat,
            depth: self.depth as nat,
            cells: self.cells@,
        }
    }
}

impl OccupancyGrid {
    /// The grid's invariant: that of its model.
    pub open spec fn wf(&self) -> bool {
        self@.wf()
    }

    /// A grid of `width` by `height` by `depth` cells that holds the snake's
    /// first cell, the origin, and nothing else.
    pub fn new(width: usize, height: usize, depth: usize) -> (grid: OccupancyGrid)
        requires
            2 <= width <= i32::MAX,
            2 <= height <= i32::MAX,
            2 <= depth <= i32::MAX,
            width * height * depth <= usize::MAX,
        ensures
            grid.wf(),
            grid@ == (GridView {
                width: width as nat,
                height: height as nat,
                depth: depth as nat,
                cells: initial_cells((width * height * depth) as nat),
            }),
    {
        proof {
            lemma_total_bounds(
                GridView {
                    width: width as nat,
                    height: height as nat,
                    depth: depth as nat,
                    cells: Seq::empty(),
                },
            );
        }
        let total: usize = width * height * depth;
        let mut cells: Vec<Point> = Vec::new();
        let mut n: usize = 0;
        while n < total
            invariant
                n <= total,
                cells@ =~= Seq::new(n as nat, |i: int| Point::Empty),
            decreases total - n,
        {
            cells.push(Point::Empty);
            n = n + 1;
        }
        cells[0] = Point::Snake;
        OccupancyGrid { width, height, depth, cells }
    }

    /// Whether the grid is well formed. A grid made by `new` is, and stays
    /// so.
    pub fn is_valid(&self) -> (valid: bool)
        ensures
            valid == self.wf(),
    {
        let limit: usize = 0x7fff_ffff;
        if self.width < 2 || self.width > limit || self.height < 2 || self.height > limit
            || self.depth < 2 || self.depth > limit {
            return false;
        }
        let layer: usize = match self.width.checked_mul(self.height) {
            Some(layer) => layer,
            None => {
                proof {
                    lemma_total_bounds(self@);
                }
                return false;
            },
        };
        let total: usize = match layer.checked_mul(self.depth) {
            Some(total) => total,
            None => {
                return false;
            },
        };
        self.cells.len() == total
    }

    /// The number of cells along x.
    pub fn width(&self) -> (n: usize)
        ensures
            n == self@.width,
    {
        self.width
    }

    /// The number of cells along y.
    pub fn height(&self) -> (n: usize)
        ensures
            n == self@.height,
    {
        self.height
    }

    /// The number of cells along z.
    pub fn depth(&self) -> (n: usize)
        ensures
            n == self@.depth,
    {
        self.depth
    }

    /// The number of cells.
    pub fn total(&self) -> (n: usize)
        requires
            self.wf(),
        ensures
            n == self@.total(),
    {
        proof {
            lemma_total_bounds(self@);
        }
        self.width * self.height * self.depth
    }

    /// The linear index of `index`, or `None` where it names no cell of the
    /// grid.
    pub fn index_of(&self, index: IVec3) -> (r: Option<usize>)
        requires
            self.wf(),
        ensures
            r is Some <==> self@.in_bounds(index),
            r is Some ==> r->0 == self@.index_of(index) && r->0 < self@.total(),
    {
        if index.x < 0 || index.y < 0 || index.z < 0 {
            return None;
        }
        let x: usize = index.x as usize;
        let y: usize = index.y as usize;
        let z: usize = index.z as usize;
        if x >= self.width || y >= self.height || z >= self.depth {
            return None;
        }
        proof {
            lemma_index_in_range(self@, index);
            lemma_total_bounds(self@);
        }
        Some((x * self.height + y) * self.depth + z)
    }

    /// The cell with the linear index `i`.
    pub fn cell_of(&self, i: usize) -> (p: IVec3)
        requires
            self.wf(),
            i < self@.total(),
        ensures
            p == self@.cell_of(i as int),
            self@.in_bounds(p),
            self@.index_of(p) == i,
    {
        proof {
            lemma_total_bounds(self@);
            lemma_index_of_cell(self@, i as int);
        }
        let z: usize = i % self.depth;
        let y: usize = i / self.depth % self.height;
        let x: usize = i / (self.depth * self.height) % self.width;
        IVec3 { x: x as i32, y: y as i32, z: z as i32 }
    }

    /// The state of the cell `index`, or `None` where `index` lies outside the
    /// grid.
    pub fn get(&self, index: IVec3) -> (r: Option<Point>)
        requires
            self.wf(),
        ensures
            r is Some <==> self@.in_bounds(index),
            r is Some ==> r->0 == self@.at(index),
    {
        match self.index_of(index) {
            Some(i) => Some(self.cells[i]),
            None => None,
        }
    }

    /// The state of the cell with the linear index `i`.
    pub fn get_linear(&self, i: usize) -> (r: Point)
        requires
            self.wf(),
            i < self@.total(),
        ensures
            r == self@.cells[i as int],
    {
        self.cells[i]
    }

    /// Bounds-checked mutable access to the cell `index`: `None` where `index`
    /// lies outside the grid. What the caller writes through the reference is
    /// what the cell holds afterwards; nothing else changes.
    pub fn point_at(&mut self, index: IVec3) -> (r: Option<&mut Point>)
        requires
            old(self).wf(),
        ensures
            r is Some <==> old(self)@.in_bounds(index),
            r is None ==> *final(self) == *old(self),
            r is Some ==> *r->0 == old(self)@.at(index) && final(self)@ == old(self)@.put(
                index,
                *final(r->0),
            ),
    {
        match self.index_of(index) {
            Some(i) => Some(&mut self.cells[i]),
            None => None,
        }
    }
}

} // verus!
