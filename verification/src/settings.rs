//! The two settings that are changed between games: how large the next
//! board is and how fast the game runs.

use vstd::prelude::*;
use vstd::arithmetic::div_mod::lemma_mod_multiples_vanish;

verus! {

/// The side of the smallest board: it holds the snake and an apple.
pub const SMALLEST_BOARD: usize = 2;

/// The side of the largest board.
pub const LARGEST_BOARD: usize = 255;

/// How many speeds there are; a speed is an index below this.
pub const SPEEDS: i8 = 7;

/// `side`, or the nearest side that a board can have.
pub open spec fn clamped_side(side: int) -> int {
    if side < SMALLEST_BOARD {
        SMALLEST_BOARD as int
    } else if side > LARGEST_BOARD {
        LARGEST_BOARD as int
    } else {
        side
    }
}

/// The side of the next board: `size` made smaller by `change`, and kept
/// between the smallest and the largest side. A cubic board of the side that
/// comes back can always be made.
pub fn resized(size: usize, change: i32) -> (side: usize)
    requires
        SMALLEST_BOARD <= size <= LARGEST_BOARD,
    ensures
        side == clamped_side(size - change),
        SMALLEST_BOARD <= side <= LARGEST_BOARD,
        2 <= side <= i32::MAX,
        side * side * side <= usize::MAX,
{
    let wanted: i64 = size as i64 - change as i64;
    let side: usize = if wanted < 2 {
        2
    } else if wanted > 255 {
        255
    } else {
        wanted as usize
    };
    assert(side * side * side <= 255 * 255 * 255) by (nonlinear_arith)
        requires
            0 <= side <= 255,
    ;
    side
}

/// The speed after a change: `speed + change`, going round from the last
/// speed to the first and back.
pub fn next_speed(speed: i8, change: i8) -> (next: i8)
    requires
        0 <= speed < SPEEDS,
    ensures
        0 <= next < SPEEDS,
        next == (speed + change) % (SPEEDS as int),
{
    let shifted: i16 = speed as i16 + change as i16 + 133;
    proof {
        lemma_mod_multiples_vanish(19, speed + change, 7);
    }
    (shifted % 7) as i8
}

} // verus!
