//! The mathematical model of the board, the tick as a function on it, and
//! the proof that a tick keeps a board well formed.

use vstd::prelude::*;
use crate::board::State;
use crate::direction::Direction;
use crate::grid::{
    initial_cells,
    lemma_cell_of_index,
    lemma_count_bound,
    lemma_count_initial,
    lemma_count_update,
    lemma_index_in_range,
    lemma_index_of_cell,
    lemma_total_bounds,
    GridView,
    Point,
};
use crate::vector::{HalfVec3, IVec3};

verus! {

/// The mathematical model of a [`Board`].
pub struct BoardView {
    /// The head's cell.
    pub head: IVec3,
    /// The way the snake faces.
    pub direction: Direction,
    /// The cells of the snake, oldest first; the newest is the head.
    pub body: Seq<IVec3>,
    /// The apple's cell.
    pub apple: IVec3,
    /// The occupancy grid.
    pub grid: GridView,
    /// The state of the game.
    pub state: State,
}

impl BoardView {
    /// A fresh game on a grid of the given size: the snake is one cell long,
    /// sits at the origin and faces forward, the apple lies one cell ahead
    /// of it, and the game is on.
    pub open spec fn fresh(width: nat, height: nat, depth: nat) -> BoardView {
        BoardView {
            head: IVec3 { x: 0, y: 0, z: 0 },
            direction: Direction::Forward,
            body: seq![IVec3 { x: 0, y: 0, z: 0 }],
            apple: IVec3 { x: 0, y: 1, z: 0 },
            grid: GridView { width, height, depth, cells: initial_cells(width * height * depth) },
            state: State::Alive,
        }
    }

    /// The grid is well formed and holds the apple and every cell of the
    /// body.
    pub open spec fn in_grid(self) -> bool {
        &&& self.grid.wf()
        &&& self.grid.in_bounds(self.apple)
        &&& forall|i: int| 0 <= i < self.body.len() ==> self.grid.in_bounds(#[trigger] self.body[i])
    }

    /// The grid and the body tell the same story: the body lies in the grid
    /// and visits no cell twice, a cell is marked exactly if the body holds
    /// it, as many cells are marked as the body is long, and the apple lies
    /// in the grid.
    pub open spec fn covered(self) -> bool {
        &&& self.in_grid()
        &&& self.body.no_duplicates()
        &&& forall|p: IVec3| #[trigger]
            self.grid.in_bounds(p) ==> (self.grid.at(p) == Point::Snake <==> self.body.contains(p))
        &&& self.grid.occupied() == self.body.len()
    }

    /// The grid and the body tell the same story, and while the game is on
    /// the head is the newest cell of the body.
    pub open spec fn consistent(self) -> bool {
        &&& self.covered()
        &&& (self.state == State::Alive || self.state == State::Wait) ==> self.body.len() > 0
            && self.body.last() == self.head
    }

    /// The board's invariant: it is consistent, and unless the game is won
    /// the apple lies in no cell of the snake.
    pub open spec fn wf(self) -> bool {
        &&& self.consistent()
        &&& self.state != State::Win ==> !self.body.contains(self.apple)
    }

    /// The points of render space at the centres of the body's cells, in the
    /// order of the body.
    pub open spec fn body_points(self) -> Seq<HalfVec3> {
        Seq::new(self.body.len(), |i: int| self.grid.to_space(self.body[i]))
    }

    /// All that casts a shadow: the apple, then the body.
    pub open spec fn occupants(self) -> Seq<IVec3> {
        seq![self.apple] + self.body
    }

    /// The cell that the head moves to.
    pub open spec fn next_head(self) -> IVec3 {
        self.head.plus(self.direction.vector())
    }

    /// Whether the head moves onto the apple.
    pub open spec fn eats(self) -> bool {
        self.next_head() == self.apple
    }

    /// The board after the tail has moved on: unless the snake eats, its
    /// oldest cell leaves the body and is marked empty.
    pub open spec fn shrunk(self) -> BoardView {
        if self.eats() {
            self
        } else {
            BoardView {
                body: self.body.drop_first(),
                grid: self.grid.put(self.body[0], Point::Empty),
                ..self
            }
        }
    }

    /// Whether the head's next cell lies outside the grid or is taken, once
    /// the tail has moved on.
    pub open spec fn collides(self) -> bool {
        let s = self.shrunk();
        !s.grid.in_bounds(self.next_head()) || s.grid.at(self.next_head()) == Point::Snake
    }

    /// The board after the head has entered its next cell.
    pub open spec fn grown(self) -> BoardView {
        let s = self.shrunk();
        BoardView {
            head: self.next_head(),
            body: s.body.push(self.next_head()),
            grid: s.grid.put(self.next_head(), Point::Snake),
            ..s
        }
    }

    /// One tick without the new apple: a board that is not alive stays as it
    /// is; a collision kills the snake after the tail has moved on; else the
    /// head enters its next cell, and the game is won if the snake now fills
    /// the grid.
    pub open spec fn advanced(self) -> BoardView {
        if self.state != State::Alive {
            self
        } else if self.collides() {
            BoardView { state: State::Dead, ..self.shrunk() }
        } else if self.grown().body.len() == self.grid.total() {
            BoardView { state: State::Win, ..self.grown() }
        } else {
            self.grown()
        }
    }

    /// Whether the tick ate the apple and has to place a new one.
    pub open spec fn needs_apple(self) -> bool {
        &&& self.state == State::Alive
        &&& !self.collides()
        &&& self.grown().body.len() != self.grid.total()
        &&& self.eats()
    }

    /// The board with the apple moved to the first empty cell that a linear
    /// probe over all cells finds from the index `start`; unchanged where no
    /// cell is empty.
    pub open spec fn with_apple(self, start: int) -> BoardView {
        match self.grid.probe(start, self.grid.total()) {
            Some(i) => BoardView { apple: self.grid.cell_of(i), ..self },
            None => self,
        }
    }

    /// One tick. `start` is the index at which the search for the new
    /// apple's cell begins, should the snake eat.
    pub open spec fn step(self, start: int) -> BoardView {
        if self.needs_apple() {
            self.advanced().with_apple(start)
        } else {
            self.advanced()
        }
    }
}

/// Two cells of a grid with the same index are the same cell.
pub proof fn lemma_index_injective(g: GridView, p: IVec3, q: IVec3)
    requires
        g.wf(),
        g.in_bounds(p),
        g.in_bounds(q),
        g.index_of(p) == g.index_of(q),
    ensures
        p == q,
{
    lemma_cell_of_index(g, p);
    lemma_cell_of_index(g, q);
}

/// A fresh game is well formed.
pub proof fn lemma_fresh_wf(width: nat, height: nat, depth: nat)
    requires
        2 <= width <= i32::MAX,
        2 <= height <= i32::MAX,
        2 <= depth <= i32::MAX,
        width * height * depth <= usize::MAX,
    ensures
        BoardView::fresh(width, height, depth).wf(),
{
    let v = BoardView::fresh(width, height, depth);
    let origin = IVec3 { x: 0, y: 0, z: 0 };
    lemma_total_bounds(v.grid);
    lemma_count_initial(v.grid.total());
    assert(v.grid.in_bounds(origin));
    assert(v.grid.index_of(origin) == 0) by (nonlinear_arith)
        requires
            v.grid.index_of(origin) == (0 * v.grid.height + 0) * v.grid.depth + 0,
    ;
    assert forall|p: IVec3| #[trigger] v.grid.in_bounds(p) implies (v.grid.at(p) == Point::Snake
        <==> v.body.contains(p)) by {
        lemma_index_in_range(v.grid, p);
        if p == origin {
            assert(v.body[0] == p);
        } else {
            if v.grid.index_of(p) == 0 {
                lemma_index_injective(v.grid, p, origin);
            }
        }
    }
}

/// While the game is on, the head lies in the grid, so its next cell can be
/// held in a vector.
pub proof fn lemma_next_head_fits(v: BoardView)
    requires
        v.consistent(),
        v.state == State::Alive || v.state == State::Wait,
    ensures
        v.grid.in_bounds(v.head),
        v.head.sum_fits(v.direction.vector()),
{
    assert(v.grid.in_bounds(v.body[v.body.len() - 1]));
}

/// Moving the tail on keeps the grid and the body in step, and the apple out
/// of the body.
pub proof fn lemma_shrunk_covered(v: BoardView)
    requires
        v.wf(),
        v.state == State::Alive,
    ensures
        v.shrunk().covered(),
        !v.shrunk().body.contains(v.apple),
        v.eats() ==> v.shrunk() == v,
        !v.eats() ==> v.shrunk().body.len() + 1 == v.body.len(),
{
    if !v.eats() {
        let s = v.shrunk();
        let tail = v.body[0];
        assert(v.grid.in_bounds(tail));
        lemma_index_in_range(v.grid, tail);
        assert forall|i: int| 0 <= i < s.body.len() implies s.grid.in_bounds(
            #[trigger] s.body[i],
        ) by {
            assert(s.body[i] == v.body[i + 1]);
            assert(v.grid.in_bounds(v.body[i + 1]));
        }
        assert(s.body.no_duplicates()) by {
            assert forall|i: int, j: int|
                0 <= i < s.body.len() && 0 <= j < s.body.len() && i != j implies s.body[i]
                != s.body[j] by {
                assert(s.body[i] == v.body[i + 1]);
                assert(s.body[j] == v.body[j + 1]);
            }
        }
        assert(!s.body.contains(tail)) by {
            if s.body.contains(tail) {
                let i = choose|i: int| 0 <= i < s.body.len() && s.body[i] == tail;
                assert(v.body[i + 1] == v.body[0]);
            }
        }
        assert forall|p: IVec3| #[trigger] s.grid.in_bounds(p) implies (s.grid.at(p)
            == Point::Snake <==> s.body.contains(p)) by {
            assert(v.grid.in_bounds(p));
            lemma_index_in_range(v.grid, p);
            if p == tail {
            } else {
                if v.grid.index_of(p) == v.grid.index_of(tail) {
                    lemma_index_injective(v.grid, p, tail);
                }
                assert(s.grid.at(p) == v.grid.at(p));
                if v.body.contains(p) {
                    let i = choose|i: int| 0 <= i < v.body.len() && v.body[i] == p;
                    assert(s.body[i - 1] == p);
                }
                if s.body.contains(p) {
                    let i = choose|i: int| 0 <= i < s.body.len() && s.body[i] == p;
                    assert(v.body[i + 1] == p);
                }
            }
        }
        assert(v.body.contains(tail));
        assert(v.grid.at(tail) == Point::Snake);
        lemma_count_update(v.grid.cells, v.grid.index_of(tail), Point::Empty);
        assert(!s.body.contains(v.apple)) by {
            if s.body.contains(v.apple) {
                let i = choose|i: int| 0 <= i < s.body.len() && s.body[i] == v.apple;
                assert(v.body[i + 1] == v.apple);
            }
        }
    }
}

/// A snake that eats does not collide: the apple's cell is in the grid and
/// empty.
pub proof fn lemma_eating_is_safe(v: BoardView)
    requires
        v.wf(),
        v.state == State::Alive,
        v.eats(),
    ensures
        !v.collides(),
{
    assert(v.grid.in_bounds(v.apple));
}

/// Entering a free cell keeps the board consistent, and well formed unless
/// the apple was in that cell.
pub proof fn lemma_grown_consistent(v: BoardView)
    requires
        v.wf(),
        v.state == State::Alive,
        !v.collides(),
    ensures
        v.grown().consistent(),
        v.grown().body.len() == v.shrunk().body.len() + 1,
        v.grown().body.len() <= v.grid.total(),
        !v.eats() ==> v.grown().wf(),
        v.eats() ==> v.grown().body.len() == v.body.len() + 1,
        !v.eats() ==> v.grown().body.len() == v.body.len(),
{
    lemma_shrunk_covered(v);
    let s = v.shrunk();
    let g = v.grown();
    let next = v.next_head();
    assert(s.grid.in_bounds(next));
    lemma_index_in_range(s.grid, next);
    assert(!s.body.contains(next));
    assert forall|i: int| 0 <= i < g.body.len() implies g.grid.in_bounds(
        #[trigger] g.body[i],
    ) by {
        if i < s.body.len() {
            assert(g.body[i] == s.body[i]);
            assert(s.grid.in_bounds(s.body[i]));
        }
    }
    assert(g.body.no_duplicates()) by {
        assert forall|i: int, j: int|
            0 <= i < g.body.len() && 0 <= j < g.body.len() && i != j implies g.body[i]
            != g.body[j] by {
            if i < s.body.len() {
                assert(s.body.contains(s.body[i]));
            }
            if j < s.body.len() {
                assert(s.body.contains(s.body[j]));
            }
        }
    }
    assert forall|p: IVec3| #[trigger] g.grid.in_bounds(p) implies (g.grid.at(p) == Point::Snake
        <==> g.body.contains(p)) by {
        assert(s.grid.in_bounds(p));
        lemma_index_in_range(s.grid, p);
        if p == next {
            assert(g.body[g.body.len() - 1] == next);
        } else {
            if s.grid.index_of(p) == s.grid.index_of(next) {
                lemma_index_injective(s.grid, p, next);
            }
            assert(g.grid.at(p) == s.grid.at(p));
            if s.body.contains(p) {
                let i = choose|i: int| 0 <= i < s.body.len() && s.body[i] == p;
                assert(g.body[i] == p);
            }
            if g.body.contains(p) {
                let i = choose|i: int| 0 <= i < g.body.len() && g.body[i] == p;
                assert(s.body[i] == p);
            }
        }
    }
    lemma_count_update(s.grid.cells, s.grid.index_of(next), Point::Snake);
    lemma_count_bound(g.grid.cells);
    if !v.eats() {
        assert(!g.body.contains(v.apple)) by {
            if g.body.contains(v.apple) {
                let i = choose|i: int| 0 <= i < g.body.len() && g.body[i] == v.apple;
                if i < s.body.len() {
                    assert(s.body[i] == v.apple);
                }
            }
        }
    }
}

/// A tick without the new apple keeps the board consistent; it keeps it well
/// formed unless a new apple is due.
pub proof fn lemma_advanced_consistent(v: BoardView)
    requires
        v.wf(),
    ensures
        v.advanced().consistent(),
        !v.needs_apple() ==> v.advanced().wf(),
        v.needs_apple() ==> v.advanced().state == State::Alive && v.advanced().body.len()
            < v.advanced().grid.total(),
        v.advanced().grid.total() == v.grid.total(),
{
    if v.state == State::Alive {
        lemma_shrunk_covered(v);
        if v.collides() {
            if v.eats() {
                lemma_eating_is_safe(v);
            }
        } else {
            lemma_grown_consistent(v);
        }
    }
}

/// Where some cell is empty, a linear probe over all cells finds one.
pub proof fn lemma_probe_finds_empty(g: GridView, start: int)
    requires
        g.wf(),
        0 <= start < g.total(),
        g.occupied() < g.total(),
    ensures
        g.probe(start, g.total()) is Some,
{
    lemma_count_bound(g.cells);
    let e = choose|e: int| 0 <= e < g.cells.len() && g.cells[e] == Point::Empty;
    let distance = if e >= start {
        e - start
    } else {
        e + g.total() - start
    };
    lemma_probe_reaches(g, start, g.total(), e, distance);
}

/// A probe with enough tries left to reach an empty cell finds a cell.
proof fn lemma_probe_reaches(g: GridView, i: int, tries: nat, e: int, distance: int)
    requires
        g.wf(),
        0 <= i < g.total(),
        0 <= e < g.total(),
        g.cells[e] == Point::Empty,
        0 <= distance < tries,
        distance == if e >= i {
            e - i
        } else {
            e + g.total() - i
        },
    ensures
        g.probe(i, tries) is Some,
    decreases tries,
{
    if g.cells[i] != Point::Empty {
        lemma_probe_reaches(g, g.next_index(i), (tries - 1) as nat, e, distance - 1);
    }
}

/// What a probe finds is an empty cell of the grid.
pub proof fn lemma_probe_result(g: GridView, i: int, tries: nat)
    requires
        g.wf(),
        0 <= i < g.total(),
    ensures
        g.probe(i, tries) is Some ==> 0 <= g.probe(i, tries)->0 < g.total() && g.cells[g.probe(
            i,
            tries,
        )->0] == Point::Empty,
    decreases tries,
{
    if tries > 0 && g.cells[i] != Point::Empty {
        lemma_probe_result(g, g.next_index(i), (tries - 1) as nat);
    }
}

/// Placing the apple keeps a consistent board consistent, and where the
/// snake does not fill the grid the apple comes to lie in an empty cell.
pub proof fn lemma_with_apple(v: BoardView, start: int)
    requires
        v.consistent(),
        0 <= start < v.grid.total(),
    ensures
        v.with_apple(start).consistent(),
        v.body.len() < v.grid.total() ==> v.with_apple(start).grid.at(v.with_apple(start).apple)
            == Point::Empty && !v.body.contains(v.with_apple(start).apple),
        v.body.len() < v.grid.total() ==> v.with_apple(start).wf(),
{
    let g = v.grid;
    lemma_probe_result(g, start, g.total());
    if v.body.len() < g.total() {
        lemma_probe_finds_empty(g, start);
    }
    match g.probe(start, g.total()) {
        Some(i) => {
            lemma_index_of_cell(g, i);
            let w = v.with_apple(start);
            assert(w.grid.in_bounds(w.apple));
            assert forall|p: IVec3| #[trigger] w.grid.in_bounds(p) implies (w.grid.at(p)
                == Point::Snake <==> w.body.contains(p)) by {
                assert(v.grid.in_bounds(p));
            }
        },
        None => {},
    }
}

/// A tick keeps a well-formed board well formed, wherever the search for
/// the new apple starts.
pub proof fn lemma_step_wf(v: BoardView, start: int)
    requires
        v.wf(),
        0 <= start < v.grid.total(),
    ensures
        v.step(start).wf(),
{
    lemma_advanced_consistent(v);
    if v.needs_apple() {
        lemma_with_apple(v.advanced(), start);
    }
}

} // verus!
