//! A run-time test of the board's invariant, for callers that Verus does not
//! see.

use vstd::prelude::*;
use crate::board::{Board, State};
use crate::model::{lemma_index_injective, BoardView};
use crate::grid::{
    count_snake,
    lemma_count_all_empty,
    lemma_count_update,
    lemma_index_in_range,
    lemma_index_of_cell,
    GridView,
    Point,
};
use crate::vector::IVec3;

verus! {

/// Whether one of the first `n` cells of `body` has the index `index`.
pub open spec fn marked_by(g: GridView, body: Seq<IVec3>, n: int, index: int) -> bool {
    exists|m: int| 0 <= m < n && g.index_of(#[trigger] body[m]) == index
}

/// A grid that is marked by the cells of a body which lie in it and visit
/// no cell twice tells the same story as the body.
proof fn lemma_marks_cover(v: BoardView)
    requires
        v.in_grid(),
        v.body.no_duplicates(),
        forall|index: int|
            0 <= index < v.grid.total() ==> (v.grid.cells[index] == Point::Snake <==> #[trigger] marked_by(
                v.grid,
                v.body,
                v.body.len() as int,
                index,
            )),
        count_snake(v.grid.cells) == v.body.len(),
    ensures
        v.covered(),
{
    assert forall|p: IVec3| #[trigger] v.grid.in_bounds(p) implies (v.grid.at(p) == Point::Snake
        <==> v.body.contains(p)) by {
        lemma_index_in_range(v.grid, p);
        let index = v.grid.index_of(p);
        if marked_by(v.grid, v.body, v.body.len() as int, index) {
            let m = choose|m: int|
                0 <= m < v.body.len() && v.grid.index_of(#[trigger] v.body[m]) == index;
            assert(v.grid.in_bounds(v.body[m]));
            lemma_index_injective(v.grid, v.body[m], p);
        }
        if v.body.contains(p) {
            let m = choose|m: int| 0 <= m < v.body.len() && v.body[m] == p;
            assert(v.grid.index_of(v.body[m]) == index);
        }
    }
}

/// Where the marks of a body that lies in the grid and visits no cell twice
/// differ from the grid at `index`, the grid tells another story than the
/// body.
proof fn lemma_marks_differ(v: BoardView, marks: Seq<Point>, index: int)
    requires
        v.in_grid(),
        0 <= index < v.grid.total(),
        marks.len() == v.grid.total(),
        forall|index: int|
            0 <= index < v.grid.total() ==> (marks[index] == Point::Snake <==> #[trigger] marked_by(
                v.grid,
                v.body,
                v.body.len() as int,
                index,
            )),
        marks[index] != v.grid.cells[index],
    ensures
        !v.covered(),
{
    let p = v.grid.cell_of(index);
    lemma_index_of_cell(v.grid, index);
    if v.covered() {
        assert(v.grid.in_bounds(p));
        if v.body.contains(p) {
            let m = choose|m: int| 0 <= m < v.body.len() && v.body[m] == p;
            assert(v.grid.index_of(v.body[m]) == index);
            assert(marked_by(v.grid, v.body, v.body.len() as int, index));
        }
        if marked_by(v.grid, v.body, v.body.len() as int, index) {
            let m = choose|m: int|
                0 <= m < v.body.len() && v.grid.index_of(#[trigger] v.body[m]) == index;
            assert(v.grid.in_bounds(v.body[m]));
            lemma_index_injective(v.grid, v.body[m], p);
            assert(v.body.contains(p));
        }
    }
}

impl Board {
    /// Whether the board is well formed. A board made by `new` is, and
    /// `update` keeps it so; a caller that writes to the board's fields can
    /// test here whether it may still be handed to `update`.
    pub fn is_valid(&self) -> (valid: bool)
        ensures
            valid == self.wf(),
    {
        if !self.grid.is_valid() {
            return false;
        }
        let ghost v = self@;
        let total = self.grid.total();
        let mut marks: Vec<Point> = Vec::new();
        let mut n: usize = 0;
        while n < total
            invariant
                n <= total,
                marks@.len() == n,
                forall|index: int| 0 <= index < n ==> marks@[index] == Point::Empty,
            decreases total - n,
        {
            marks.push(Point::Empty);
            n = n + 1;
        }
        proof {
            lemma_count_all_empty(marks@);
        }
        let mut i: usize = 0;
        while i < self.snake_body.len()
            invariant
                v == self@,
                v.grid.wf(),
                total == v.grid.total(),
                i <= v.body.len(),
                marks@.len() == total,
                forall|j: int| 0 <= j < i ==> v.grid.in_bounds(#[trigger] v.body[j]),
                forall|a: int, b: int| 0 <= a < b < i ==> v.body[a] != v.body[b],
                forall|index: int|
                    0 <= index < total ==> (marks@[index] == Point::Snake <==> #[trigger] marked_by(
                        v.grid,
                        v.body,
                        i as int,
                        index,
                    )),
                count_snake(marks@) == i,
            decreases v.body.len() - i,
        {
            let cell = self.snake_body[i];
            let index = match self.grid.index_of(cell) {
                Some(index) => index,
                None => {
                    return false;
                },
            };
            if marks[index] == Point::Snake {
                proof {
                    assert(marked_by(v.grid, v.body, i as int, index as int));
                    let m = choose|m: int|
                        0 <= m < i && v.grid.index_of(#[trigger] v.body[m]) == index;
                    lemma_index_injective(v.grid, v.body[m], cell);
                }
                return false;
            }
            let ghost before = marks@;
            marks[index] = Point::Snake;
            proof {
                lemma_count_update(before, index as int, Point::Snake);
                assert forall|other: int| 0 <= other < total implies (marks@[other]
                    == Point::Snake <==> #[trigger] marked_by(
                    v.grid,
                    v.body,
                    i + 1,
                    other,
                )) by {
                    if other == index {
                        assert(v.grid.index_of(v.body[i as int]) == other);
                    } else {
                        if marked_by(v.grid, v.body, i as int, other) {
                            let m = choose|m: int|
                                0 <= m < i && v.grid.index_of(#[trigger] v.body[m]) == other;
                            assert(v.grid.index_of(v.body[m]) == other);
                        }
                        if marked_by(v.grid, v.body, i + 1, other) {
                            let m = choose|m: int|
                                0 <= m < i + 1 && v.grid.index_of(#[trigger] v.body[m]) == other;
                            assert(marked_by(v.grid, v.body, i as int, other));
                        }
                    }
                }
                assert forall|a: int, b: int| 0 <= a < b < i + 1 implies v.body[a]
                    != v.body[b] by {
                    if b == i && v.body[a] == v.body[b] {
                        assert(v.grid.index_of(v.body[a]) == index);
                        assert(marked_by(v.grid, v.body, i as int, index as int));
                    }
                }
            }
            i = i + 1;
        }
        let apple = match self.grid.get(self.apple_pos) {
            Some(apple) => apple,
            None => {
                return false;
            },
        };
        assert(v.in_grid());
        assert(v.body.no_duplicates());
        let mut k: usize = 0;
        while k < total
            invariant
                v == self@,
                v.grid.wf(),
                total == v.grid.total(),
                marks@.len() == total,
                k <= total,
                v.in_grid(),
                v.body.no_duplicates(),
                count_snake(marks@) == v.body.len(),
                forall|index: int|
                    0 <= index < total ==> (marks@[index] == Point::Snake <==> #[trigger] marked_by(
                        v.grid,
                        v.body,
                        v.body.len() as int,
                        index,
                    )),
                forall|index: int| 0 <= index < k ==> marks@[index] == v.grid.cells[index],
            decreases total - k,
        {
            if self.grid.get_linear(k) != marks[k] {
                proof {
                    lemma_marks_differ(v, marks@, k as int);
                }
                return false;
            }
            k = k + 1;
        }
        proof {
            assert(marks@ =~= v.grid.cells);
            lemma_marks_cover(v);
        }
        if self.state != State::Win && apple == Point::Snake {
            assert(v.grid.in_bounds(v.apple));
            return false;
        }
        assert(v.state != State::Win ==> !v.body.contains(v.apple)) by {
            assert(v.grid.in_bounds(v.apple));
        }
        if self.state == State::Alive || self.state == State::Wait {
            if self.snake_body.len() == 0 {
                return false;
            }
            if self.snake_body[self.snake_body.len() - 1] != self.snake.pos {
                return false;
            }
        }
        true
    }
}

} // verus!
