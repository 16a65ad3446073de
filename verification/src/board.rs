//! The board: the grid, the snake in it, the apple, and the state of the
//! game. `Board::update` is one tick of the simulation.

use vstd::prelude::*;
use rand::rngs::ThreadRng;
use crate::direction::{Axis, Direction, Rotation};
use crate::grid::{lemma_total_bounds, OccupancyGrid, Point};
use crate::model::{
    lemma_advanced_consistent,
    lemma_fresh_wf,
    lemma_grown_consistent,
    lemma_next_head_fits,
    lemma_shrunk_covered,
    lemma_step_wf,
    BoardView,
};
use crate::random::random_index;
use crate::shadow::{footprints, shadow_footprints};
use crate::vector::{HalfVec3, IVec3};

verus! {

/// The snake's head: the cell it is in and the way it faces. The direction
/// is applied by the next tick.
#[derive(Debug, Clone, Copy)]
pub struct Snake {
    pub pos: IVec3,
    pub direction: Direction,
}

/// The state of the game.
#[derive(Debug, PartialEq, Eq, Clone, Copy, Structural)]
pub enum State {
    /// Before the game: waiting for the first input.
    Wait,
    /// The simulation runs.
    Alive,
    /// The snake ran into a wall or into itself.
    Dead,
    /// The snake fills the grid.
    Win,
}

/// Where a shadow lies and what it depends on: the point under the board's
/// floor, the height of the object that casts it, and the turn that lays the
/// shadow flat.
#[derive(Debug, Clone, Copy, PartialEq, Eq, Structural)]
pub struct ShadowPlacement {
    pub pos: HalfVec3,
    pub height: i32,
    pub rotation: Rotation,
}

/// The playing field and the game on it.
pub struct Board {
    /// The head and the way it faces. The host writes `snake.direction`
    /// before a tick.
    pub snake: Snake,
    /// The cells of the snake, oldest first.
    pub snake_body: Vec<IVec3>,
    /// The apple's cell.
    pub apple_pos: IVec3,
    /// Which cells the snake takes up.
    pub grid: OccupancyGrid,
    /// The state of the game.
    pub state: State,
}

impl View for Board {
    type V = BoardView;

    open spec fn view(&self) -> BoardView {
        BoardView {
            head: self.snake.pos,
            direction: self.snake.direction,
            body: self.snake_body@,
            apple: self.apple_pos,
            grid: self.grid@,
            state: self.state,
        }
    }
}

impl Board {
    /// The board's invariant: that of its model.
    pub open spec fn wf(&self) -> bool {
        self@.wf()
    }

    /// A fresh game on a grid of `width` cells along x, `height` along y and
    /// `depth` along z: the snake is one cell long, sits at the origin and
    /// faces forward, the apple lies one cell ahead of it, and the game is
    /// on.
    pub fn new(width: usize, height: usize, depth: usize) -> (board: Board)
        requires
            2 <= width <= i32::MAX,
            2 <= height <= i32::MAX,
            2 <= depth <= i32::MAX,
            width * height * depth <= usize::MAX,
        ensures
            board.wf(),
            board@ == BoardView::fresh(width as nat, height as nat, depth as nat),
    {
        let grid = OccupancyGrid::new(width, height, depth);
        let origin = IVec3 { x: 0, y: 0, z: 0 };
        let mut snake_body: Vec<IVec3> = Vec::new();
        snake_body.push(origin);
        let board = Board {
            snake: Snake { pos: origin, direction: Direction::Forward },
            snake_body,
            apple_pos: IVec3 { x: 0, y: 1, z: 0 },
            grid,
            state: State::Alive,
        };
        proof {
            assert(board@.body =~= seq![origin]);
            lemma_fresh_wf(width as nat, height as nat, depth as nat);
        }
        board
    }

    /// The grid's dimensions as a vector: width, height, depth.
    pub fn board_size(&self) -> (size: IVec3)
        requires
            self.grid.wf(),
        ensures
            size.x == self@.grid.width,
            size.y == self@.grid.height,
            size.z == self@.grid.depth,
    {
        IVec3 {
            x: self.grid.width() as i32,
            y: self.grid.height() as i32,
            z: self.grid.depth() as i32,
        }
    }

    /// Bounds-checked mutable access to the cell `index` of the grid: `None`
    /// where `index` lies outside it. What the caller writes through the
    /// reference is what the cell holds afterwards; nothing else changes.
    pub fn point_at(&mut self, index: IVec3) -> (r: Option<&mut Point>)
        requires
            old(self).grid.wf(),
        ensures
            r is Some <==> old(self)@.grid.in_bounds(index),
            r is None ==> *final(self) == *old(self),
            r is Some ==> *r->0 == old(self)@.grid.at(index) && final(self)@ == (BoardView {
                grid: old(self)@.grid.put(index, *final(r->0)),
                ..old(self)@
            }),
    {
        self.grid.point_at(index)
    }

    /// The point of render space at the centre of the cell `value`, in half
    /// units.
    pub fn board_to_space(&self, value: IVec3) -> (point: HalfVec3)
        requires
            self.grid.wf(),
        ensures
            point == self@.grid.to_space(value),
    {
        let x: i64 = 2 * (value.x as i64) - (self.grid.width() as i64 - 1);
        let y: i64 = 2 * (value.z as i64) - (self.grid.depth() as i64 - 1);
        let z: i64 = 2 * (value.y as i64) - (self.grid.height() as i64 - 1);
        HalfVec3 { x, y, z }
    }

    /// The placement of the shadow that falls on the board's floor under the
    /// column `(value.x, value.y)`, cast from the height `value.z`. How large
    /// the shadow is drawn depends on the height alone and is left to the
    /// renderer.
    pub fn shadow_matrix(&self, value: IVec3) -> (shadow: ShadowPlacement)
        requires
            self.grid.wf(),
        ensures
            shadow == (ShadowPlacement {
                pos: self@.grid.shadow_base(value),
                height: value.z,
                rotation: Rotation { axis: Axis::X, quarter_turns: 1 },
            }),
    {
        let x: i64 = 2 * (value.x as i64) - (self.grid.width() as i64 - 1);
        let y: i64 = -(self.grid.depth() as i64);
        let z: i64 = 2 * (value.y as i64) - (self.grid.height() as i64 - 1);
        ShadowPlacement {
            pos: HalfVec3 { x, y, z },
            height: value.z,
            rotation: Rotation { axis: Axis::X, quarter_turns: 1 },
        }
    }

    /// The tick up to the point where a new apple may be due: the tail moves
    /// on unless the snake eats, a collision ends the game, else the head
    /// enters the next cell, and the game is won if the snake now fills the
    /// grid. Returns whether the snake ate and a new apple has to be placed.
    fn advance(&mut self) -> (apple_due: bool)
        requires
            old(self).wf(),
        ensures
            final(self)@ == old(self)@.advanced(),
            apple_due == old(self)@.needs_apple(),
    {
        if self.state != State::Alive {
            return false;
        }
        proof {
            lemma_next_head_fits(self@);
            lemma_shrunk_covered(self@);
        }
        let new_pos = self.snake.pos.offset(self.snake.direction.dir());
        let collected_apple = self.apple_pos == new_pos;
        if !collected_apple {
            let pos = self.snake_body.remove(0);
            match self.grid.point_at(pos) {
                Some(cell) => {
                    *cell = Point::Empty;
                },
                None => {},
            }
            assert(self.snake_body@ =~= old(self)@.body.drop_first());
        }
        assert(self@ == old(self)@.shrunk());
        let blocked = match self.grid.get(new_pos) {
            Some(point) => point == Point::Snake,
            None => true,
        };
        if blocked {
            self.state = State::Dead;
            return false;
        }
        proof {
            lemma_grown_consistent(old(self)@);
        }
        self.snake_body.push(new_pos);
        match self.grid.point_at(new_pos) {
            Some(cell) => {
                *cell = Point::Snake;
            },
            None => {},
        }
        self.snake.pos = new_pos;
        assert(self@ == old(self)@.grown());
        if self.snake_body.len() == self.grid.total() {
            self.state = State::Win;
            return false;
        }
        collected_apple
    }

    /// Moves the apple to the first empty cell that a linear probe finds:
    /// the probe starts at the cell with the index `start`, goes on in the
    /// order of the indices, from the last cell to the first, and gives up
    /// after it has seen every cell, in which case the apple stays.
    pub fn place_apple(&mut self, start: usize)
        requires
            old(self).grid.wf(),
            start < old(self)@.grid.total(),
        ensures
            final(self)@ == old(self)@.with_apple(start as int),
    {
        let total = self.grid.total();
        let mut i: usize = start;
        let mut tries: usize = total;
        while tries > 0
            invariant
                self.grid.wf(),
                total == self@.grid.total(),
                i < total,
                tries <= total,
                self@ == old(self)@,
                self@.grid.probe(i as int, tries as nat) == self@.grid.probe(
                    start as int,
                    total as nat,
                ),
            decreases tries,
        {
            if self.grid.get_linear(i) == Point::Empty {
                self.apple_pos = self.grid.cell_of(i);
                return ;
            }
            i = if i + 1 >= total {
                0
            } else {
                i + 1
            };
            tries = tries - 1;
        }
    }

    /// Places a new apple: draws the index at which the search starts from
    /// `rng`, uniformly among the indices of the grid's cells, and moves the
    /// apple to the first empty cell from there.
    pub fn spawn_apple(&mut self, rng: &mut ThreadRng)
        requires
            old(self).grid.wf(),
        ensures
            exists|start: int|
                0 <= start < old(self)@.grid.total() && final(self)@ == #[trigger] old(
                    self,
                )@.with_apple(start),
    {
        proof {
            lemma_total_bounds(self@.grid);
        }
        let start = random_index(rng, self.grid.total());
        self.place_apple(start);
        assert(self@ == old(self)@.with_apple(start as int));
    }

    /// One tick of the game, with the search for a new apple's cell
    /// starting at the index `start`. See [`BoardView::step`].
    pub fn update_with(&mut self, start: usize)
        requires
            old(self).wf(),
            start < old(self)@.grid.total(),
        ensures
            final(self)@ == old(self)@.step(start as int),
            final(self).wf(),
    {
        proof {
            lemma_advanced_consistent(self@);
            lemma_step_wf(self@, start as int);
        }
        if self.advance() {
            self.place_apple(start);
        }
    }

    /// One tick of the game: the snake moves one cell the way it faces. A
    /// board that is not alive stays as it is. If the snake eats the apple it
    /// grows by a cell, and a new apple is placed from a random index, which
    /// is drawn from `rng` only then.
    pub fn update(&mut self, rng: &mut ThreadRng)
        requires
            old(self).wf(),
        ensures
            exists|start: int|
                0 <= start < old(self)@.grid.total() && final(self)@ == #[trigger] old(
                    self,
                )@.step(start),
            final(self).wf(),
            !old(self)@.needs_apple() ==> final(self)@ == old(self)@.advanced(),
    {
        proof {
            lemma_advanced_consistent(self@);
            lemma_total_bounds(self@.grid);
        }
        if self.advance() {
            self.spawn_apple(rng);
            proof {
                let start = choose|start: int|
                    0 <= start < old(self)@.advanced().grid.total() && self@ == #[trigger] old(
                        self,
                    )@.advanced().with_apple(start);
                assert(self@ == old(self)@.step(start));
                lemma_step_wf(old(self)@, start);
            }
        } else {
            proof {
                assert(self@ == old(self)@.step(0));
                lemma_step_wf(old(self)@, 0);
            }
        }
    }

    /// What a renderer needs to draw the board: where the apple is, where
    /// each cell of the body is, in the order of the body, and the shadow
    /// footprints of the apple and the body, which are to be handed to
    /// `shadow_matrix` one by one.
    pub fn matrices(&self) -> (r: (HalfVec3, Vec<HalfVec3>, Vec<IVec3>))
        requires
            self@.in_grid(),
        ensures
            r.0 == self@.grid.to_space(self@.apple),
            r.1@ == self@.body_points(),
            r.2@ == footprints(self@.occupants()),
    {
        let mut snake: Vec<HalfVec3> = Vec::new();
        let mut i: usize = 0;
        while i < self.snake_body.len()
            invariant
                i <= self.snake_body@.len(),
                self.grid.wf(),
                snake@.len() == i,
                forall|j: int| 0 <= j < i ==> snake@[j] == self@.grid.to_space(self@.body[j]),
            decreases self.snake_body@.len() - i,
        {
            snake.push(self.board_to_space(self.snake_body[i]));
            i = i + 1;
        }
        assert(snake@ =~= self@.body_points());
        proof {
            lemma_total_bounds(self@.grid);
            assert forall|j: int| 0 <= j < self.snake_body@.len() implies 0 <= (
            #[trigger] self.snake_body@[j]).x < self.grid@.width && 0 <= self.snake_body@[j].y
                < self.grid@.height by {
                assert(self@.grid.in_bounds(self@.body[j]));
            }
        }
        let shadows = shadow_footprints(
            self.grid.width(),
            self.grid.height(),
            self.apple_pos,
            &self.snake_body,
        );
        let apple = self.board_to_space(self.apple_pos);
        (apple, snake, shadows)
    }
}

} // verus!
