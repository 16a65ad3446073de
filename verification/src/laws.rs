//! What holds of every game, stated over the model of the board and proved
//! from its definition.
//!
//! A game starts from `BoardView::fresh` and goes on by `BoardView::step`.
//! `lemma_fresh_wf` and `lemma_step_wf` in the model's module show that every
//! board of a game is well formed; the laws here say what that means and
//! what a tick does in each situation.

use vstd::prelude::*;
use vstd::arithmetic::div_mod::{lemma_fundamental_div_mod, lemma_fundamental_div_mod_converse};
use crate::board::State;
use crate::model::{
    lemma_advanced_consistent,
    lemma_eating_is_safe,
    lemma_grown_consistent,
    lemma_index_injective,
    lemma_shrunk_covered,
    lemma_step_wf,
    lemma_with_apple,
    BoardView,
};
use crate::grid::{
    lemma_count_bound,
    lemma_count_initial,
    lemma_index_in_range,
    lemma_total_bounds,
    GridView,
    Point,
};
use crate::vector::{HalfVec3, IVec3};

verus! {

/// A fresh board of any size from 2 by 2 by 2: the snake is its one cell at
/// the origin, that cell is the only one marked, and the apple lies one cell
/// ahead of the head, in the grid, in an empty cell and apart from the snake.
pub proof fn lemma_fresh_board(width: nat, height: nat, depth: nat)
    requires
        2 <= width,
        2 <= height,
        2 <= depth,
    ensures
        ({
            let v = BoardView::fresh(width, height, depth);
            let origin = IVec3 { x: 0, y: 0, z: 0 };
            &&& v.state == State::Alive
            &&& v.head == origin
            &&& v.body == seq![origin]
            &&& v.grid.occupied() == 1 == v.body.len()
            &&& v.grid.cells.len() == v.grid.total()
            &&& forall|p: IVec3| #[trigger]
                v.grid.in_bounds(p) ==> (v.grid.at(p) == Point::Snake <==> p == origin)
            &&& v.apple == v.head.plus(v.direction.vector())
            &&& v.apple == (IVec3 { x: 0, y: 1, z: 0 })
            &&& v.grid.in_bounds(v.apple)
            &&& v.grid.at(v.apple) == Point::Empty
            &&& !v.body.contains(v.apple)
        }),
{
    let v = BoardView::fresh(width, height, depth);
    let origin = IVec3 { x: 0, y: 0, z: 0 };
    lemma_total_bounds(v.grid);
    lemma_count_initial(v.grid.total());
    assert forall|p: IVec3| #[trigger] v.grid.in_bounds(p) implies (v.grid.at(p) == Point::Snake
        <==> p == origin) by {
        lemma_index_in_range(v.grid, p);
        if v.grid.index_of(p) == 0 {
            assert(p.x == 0 && p.y == 0 && p.z == 0) by (nonlinear_arith)
                requires
                    (p.x * height + p.y) * depth + p.z == 0,
                    0 <= p.x,
                    0 <= p.y,
                    0 <= p.z,
                    2 <= height,
                    2 <= depth,
            ;
        }
        if p == origin {
            assert(v.grid.index_of(p) == 0) by (nonlinear_arith)
                requires
                    v.grid.index_of(p) == (0 * height + 0) * depth + 0,
            ;
        }
    }
    assert(v.grid.in_bounds(v.apple));
    assert(v.apple != origin);
}

/// As many cells of the grid are marked as the snake is long.
pub proof fn lemma_marked_cells_match_length(v: BoardView)
    requires
        v.wf(),
    ensures
        v.grid.occupied() == v.body.len(),
{
}

/// A cell of the grid is marked exactly if the snake lies in it.
pub proof fn lemma_marked_cells_are_the_body(v: BoardView, p: IVec3)
    requires
        v.wf(),
        v.grid.in_bounds(p),
    ensures
        v.grid.at(p) == Point::Snake <==> v.body.contains(p),
{
}

/// Unless the game is won, the apple lies in the grid, in no cell of the
/// snake: its cell is empty, and so the snake does not fill the grid.
pub proof fn lemma_apple_is_apart(v: BoardView)
    requires
        v.wf(),
        v.state != State::Win,
    ensures
        v.grid.in_bounds(v.apple),
        !v.body.contains(v.apple),
        v.grid.at(v.apple) == Point::Empty,
        v.body.len() < v.grid.total(),
{
    assert(v.grid.in_bounds(v.apple));
    lemma_index_in_range(v.grid, v.apple);
    lemma_count_bound(v.grid.cells);
}

/// While the game is on, the head is the newest cell of the snake and lies
/// in the grid.
pub proof fn lemma_head_in_grid(v: BoardView)
    requires
        v.wf(),
        v.state == State::Alive || v.state == State::Wait,
    ensures
        v.body.len() > 0,
        v.body.last() == v.head,
        v.grid.in_bounds(v.head),
{
    assert(v.grid.in_bounds(v.body[v.body.len() - 1]));
}

/// Only a board that is alive changes: a tick leaves a board that waits, is
/// dead or is won as it is.
pub proof fn lemma_rest_is_final(v: BoardView, start: int)
    requires
        v.state != State::Alive,
    ensures
        v.step(start) == v,
{
}

/// A tick keeps the size of the grid and the way the snake faces, and from
/// alive the game goes on alive, or ends dead or won: it never waits again.
pub proof fn lemma_step_keeps_frame(v: BoardView, start: int)
    requires
        v.wf(),
        0 <= start < v.grid.total(),
    ensures
        v.step(start).wf(),
        v.step(start).grid.width == v.grid.width,
        v.step(start).grid.height == v.grid.height,
        v.step(start).grid.depth == v.grid.depth,
        v.step(start).direction == v.direction,
        v.state == State::Alive ==> v.step(start).state != State::Wait,
{
    lemma_step_wf(v, start);
}

/// Moving without eating: where the next cell is free and holds no apple,
/// the snake keeps its length, the head enters the next cell, the apple
/// stays, and the cell that the tail left is empty unless the head has just
/// entered it.
pub proof fn lemma_move_without_eating(v: BoardView, start: int)
    requires
        v.wf(),
        v.state == State::Alive,
        !v.eats(),
        !v.collides(),
    ensures
        v.step(start).state == State::Alive,
        v.step(start).body == v.body.drop_first().push(v.next_head()),
        v.step(start).body.len() == v.body.len(),
        v.step(start).head == v.next_head(),
        v.step(start).apple == v.apple,
        v.next_head() != v.body[0] ==> v.step(start).grid.at(v.body[0]) == Point::Empty,
        v.next_head() == v.body[0] ==> v.step(start).grid.at(v.body[0]) == Point::Snake,
{
    lemma_apple_is_apart(v);
    lemma_shrunk_covered(v);
    lemma_grown_consistent(v);
    let tail = v.body[0];
    let next = v.next_head();
    let s = v.shrunk();
    assert(v.grid.in_bounds(tail));
    assert(s.grid.in_bounds(next));
    lemma_index_in_range(v.grid, tail);
    lemma_index_in_range(v.grid, next);
    if next != tail && v.grid.index_of(next) == v.grid.index_of(tail) {
        lemma_index_injective(v.grid, next, tail);
    }
}

/// Following the tail is no collision: the tail moves on before the head
/// arrives.
pub proof fn lemma_following_the_tail(v: BoardView)
    requires
        v.wf(),
        v.state == State::Alive,
        v.next_head() == v.body[0],
    ensures
        !v.eats(),
        !v.collides(),
{
    let tail = v.body[0];
    lemma_head_in_grid(v);
    assert(v.body.contains(tail));
    assert(v.grid.in_bounds(tail));
    lemma_index_in_range(v.grid, tail);
}

/// Eating: where the head moves onto the apple there is no collision, and
/// the snake grows by the apple's cell. If it then fills the grid the game
/// is won and the apple stays; else the game goes on and the new apple lies
/// in an empty cell of the grid.
pub proof fn lemma_eating(v: BoardView, start: int)
    requires
        v.wf(),
        v.state == State::Alive,
        v.eats(),
        0 <= start < v.grid.total(),
    ensures
        !v.collides(),
        v.step(start).body == v.body.push(v.apple),
        v.step(start).head == v.apple,
        v.body.len() + 1 == v.grid.total() ==> v.step(start).state == State::Win && v.step(
            start,
        ).apple == v.apple,
        v.body.len() + 1 != v.grid.total() ==> v.step(start).state == State::Alive && v.step(
            start,
        ).grid.in_bounds(v.step(start).apple) && v.step(start).grid.at(v.step(start).apple)
            == Point::Empty && !v.step(start).body.contains(v.step(start).apple),
{
    lemma_eating_is_safe(v);
    lemma_advanced_consistent(v);
    lemma_grown_consistent(v);
    if v.needs_apple() {
        lemma_with_apple(v.advanced(), start);
    }
}

/// Running into a wall: where the next cell lies outside the grid, the tail
/// moves on, the snake dies, and nothing is added to it.
pub proof fn lemma_wall_collision(v: BoardView, start: int)
    requires
        v.wf(),
        v.state == State::Alive,
        !v.grid.in_bounds(v.next_head()),
    ensures
        v.step(start).state == State::Dead,
        v.step(start).body == v.body.drop_first(),
        v.step(start).head == v.head,
        v.step(start).apple == v.apple,
{
    assert(v.grid.in_bounds(v.apple));
}

/// Running into itself: where the next cell is a cell of the snake other
/// than its tail, the tail moves on and the snake dies.
pub proof fn lemma_self_collision(v: BoardView, start: int, i: int)
    requires
        v.wf(),
        v.state == State::Alive,
        1 <= i < v.body.len(),
        v.body[i] == v.next_head(),
    ensures
        v.step(start).state == State::Dead,
        v.step(start).body == v.body.drop_first(),
        v.step(start).head == v.head,
{
    assert(v.body.contains(v.next_head()));
    lemma_shrunk_covered(v);
    let s = v.shrunk();
    assert(s.body[i - 1] == v.next_head());
    assert(s.body.contains(v.next_head()));
    assert(v.grid.in_bounds(v.body[i]));
    assert(s.grid.in_bounds(v.next_head()));
}

/// Winning: where the snake misses one cell to fill the grid and eats, the
/// game is won, every cell is taken, and no new apple is placed.
pub proof fn lemma_win(v: BoardView, start: int)
    requires
        v.wf(),
        v.state == State::Alive,
        v.body.len() + 1 == v.grid.total(),
        v.eats(),
    ensures
        v.step(start).state == State::Win,
        v.step(start).body.len() == v.grid.total(),
        v.step(start).grid.occupied() == v.grid.total(),
        v.step(start).apple == v.apple,
        forall|p: IVec3| #[trigger]
            v.grid.in_bounds(p) ==> v.step(start).grid.at(p) == Point::Snake,
{
    lemma_eating_is_safe(v);
    lemma_grown_consistent(v);
    let s = v.step(start);
    lemma_count_bound(s.grid.cells);
    assert forall|p: IVec3| #[trigger] v.grid.in_bounds(p) implies s.grid.at(p)
        == Point::Snake by {
        assert(s.grid.in_bounds(p));
        lemma_index_in_range(s.grid, p);
    }
}

/// The point of render space of a cell depends on the cell and on the size
/// of the grid, and on nothing else.
pub proof fn lemma_to_space_depends_on_size(a: GridView, b: GridView, p: IVec3)
    requires
        a.width == b.width,
        a.height == b.height,
        a.depth == b.depth,
    ensures
        a.to_space(p) == b.to_space(p),
{
}

/// Cells that are neighbours along an axis of the grid lie two half units
/// apart in render space, the grid's y along the render space's z and the
/// grid's z along its y.
pub proof fn lemma_to_space_steps(g: GridView, p: IVec3, q: IVec3)
    requires
        g.wf(),
        g.in_bounds(p),
        g.in_bounds(q),
    ensures
        g.to_space(q).x - g.to_space(p).x == 2 * (q.x - p.x),
        g.to_space(q).y - g.to_space(p).y == 2 * (q.z - p.z),
        g.to_space(q).z - g.to_space(p).z == 2 * (q.y - p.y),
{
}

/// The grid is centred: the first and the last cell lie opposite each other
/// about the origin of render space.
pub proof fn lemma_to_space_centred(g: GridView)
    requires
        g.wf(),
    ensures
        ({
            let first = g.to_space(IVec3 { x: 0, y: 0, z: 0 });
            let last = g.to_space(
                IVec3 {
                    x: (g.width - 1) as i32,
                    y: (g.height - 1) as i32,
                    z: (g.depth - 1) as i32,
                },
            );
            first.x + last.x == 0 && first.y + last.y == 0 && first.z + last.z == 0
        }),
{
}

/// The index that follows the `k`-th index of a probe is its next one.
pub proof fn lemma_probe_index_next(g: GridView, start: int, k: int)
    requires
        g.wf(),
        0 <= start,
        0 <= k,
    ensures
        0 <= g.probe_index(start, k) < g.total(),
        g.next_index(g.probe_index(start, k)) == g.probe_index(start, k + 1),
{
    lemma_total_bounds(g);
    let t = g.total() as int;
    let a = start + k;
    lemma_fundamental_div_mod(a, t);
    let r = a % t;
    let q = a / t;
    assert(a == q * t + r) by (nonlinear_arith)
        requires
            a == t * q + r,
    ;
    if r + 1 < t {
        lemma_fundamental_div_mod_converse(a + 1, t, q, r + 1);
    } else {
        assert(a + 1 == (q + 1) * t + 0) by (nonlinear_arith)
            requires
                a == q * t + r,
                r + 1 == t,
        ;
        lemma_fundamental_div_mod_converse(a + 1, t, q + 1, 0);
    }
}

/// What a linear probe finds is the first empty cell in the order of the
/// indices from `start`, going round from the last index to the first: the
/// cell that the probe looks at in some step is empty, and all that it
/// looked at before are taken. It finds nothing only where every cell is
/// taken.
pub proof fn lemma_probe_is_first_empty(g: GridView, start: int)
    requires
        g.wf(),
        0 <= start < g.total(),
    ensures
        match g.probe(start, g.total()) {
            Some(found) => exists|k: int|
                0 <= k < g.total() && found == #[trigger] g.probe_index(start, k) && g.cells[found]
                    == Point::Empty && forall|m: int|
                    0 <= m < k ==> g.cells[#[trigger] g.probe_index(start, m)] == Point::Snake,
            None => forall|i: int| 0 <= i < g.total() ==> #[trigger] g.cells[i] == Point::Snake,
        },
{
    lemma_total_bounds(g);
    lemma_fundamental_div_mod_converse(start, g.total() as int, 0, start);
    lemma_probe_steps(g, start, 0, g.total());
    if g.probe(start, g.total()) is None {
        lemma_count_bound(g.cells);
        if g.occupied() < g.total() {
            let e = choose|e: int| 0 <= e < g.cells.len() && g.cells[e] == Point::Empty;
            let k = if e >= start {
                e - start
            } else {
                e + g.total() - start
            };
            if e >= start {
                lemma_fundamental_div_mod_converse(start + k, g.total() as int, 0, e);
            } else {
                lemma_fundamental_div_mod_converse(start + k, g.total() as int, 1, e);
            }
            assert(g.cells[g.probe_index(start, k)] == Point::Snake);
        }
    }
}

/// A probe that has looked at `seen` taken cells and has `tries` steps left
/// finds the first empty cell among the next `tries`, or none of them is
/// empty.
proof fn lemma_probe_steps(g: GridView, start: int, seen: int, tries: nat)
    requires
        g.wf(),
        0 <= start < g.total(),
        0 <= seen,
        seen + tries <= g.total(),
        forall|m: int| 0 <= m < seen ==> g.cells[#[trigger] g.probe_index(start, m)] == Point::Snake,
    ensures
        match g.probe(g.probe_index(start, seen), tries) {
            Some(found) => exists|k: int|
                seen <= k < seen + tries && found == #[trigger] g.probe_index(start, k)
                    && g.cells[found] == Point::Empty && forall|m: int|
                    0 <= m < k ==> g.cells[#[trigger] g.probe_index(start, m)] == Point::Snake,
            None => forall|m: int|
                0 <= m < seen + tries ==> g.cells[#[trigger] g.probe_index(start, m)]
                    == Point::Snake,
        },
    decreases tries,
{
    let i = g.probe_index(start, seen);
    lemma_probe_index_next(g, start, seen);
    if tries > 0 {
        if g.cells[i] == Point::Empty {
            assert(i == g.probe_index(start, seen));
        } else {
            assert forall|m: int| 0 <= m < seen + 1 implies g.cells[#[trigger] g.probe_index(
                start,
                m,
            )] == Point::Snake by {
                if m == seen {
                }
            }
            lemma_probe_steps(g, start, seen + 1, (tries - 1) as nat);
        }
    }
}

/// No two cells of the grid share a point of render space.
pub proof fn lemma_to_space_injective(g: GridView, p: IVec3, q: IVec3)
    requires
        g.wf(),
        g.in_bounds(p),
        g.in_bounds(q),
        g.to_space(p) == g.to_space(q),
    ensures
        p == q,
{
    let a: HalfVec3 = g.to_space(p);
    let b: HalfVec3 = g.to_space(q);
    assert(a.x == b.x && a.y == b.y && a.z == b.z);
}

} // verus!
