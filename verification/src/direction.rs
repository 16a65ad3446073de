//! The six directions in which the snake can face.

use vstd::prelude::*;
use crate::vector::IVec3;

verus! {

/// One of the six axis-aligned unit directions.
#[derive(Debug, Clone, Copy, PartialEq, Eq, Structural)]
pub enum Direction {
    Forward,
    Back,
    Left,
    Right,
    Up,
    Down,
}

/// An axis of render space about which the head is turned.
#[derive(Debug, Clone, Copy, PartialEq, Eq, Structural)]
pub enum Axis {
    X,
    Y,
}

/// A rotation about `axis` by `quarter_turns` right angles: the angle is
/// `quarter_turns * π / 2`.
#[derive(Debug, Clone, Copy, PartialEq, Eq, Structural)]
pub struct Rotation {
    pub axis: Axis,
    pub quarter_turns: i8,
}

impl Direction {
    /// The unit step of each direction: forward and back along y, left and
    /// right along x, up and down along z.
    pub open spec fn vector(self) -> IVec3 {
        match self {
            Direction::Forward => IVec3 { x: 0, y: 1, z: 0 },
            Direction::Back => IVec3 { x: 0, y: -1i32, z: 0 },
            Direction::Left => IVec3 { x: -1i32, y: 0, z: 0 },
            Direction::Right => IVec3 { x: 1, y: 0, z: 0 },
            Direction::Up => IVec3 { x: 0, y: 0, z: 1 },
            Direction::Down => IVec3 { x: 0, y: 0, z: -1i32 },
        }
    }

    /// The orientation of a head facing each direction.
    pub open spec fn rotation(self) -> Rotation {
        match self {
            Direction::Forward => Rotation { axis: Axis::Y, quarter_turns: 2 },
            Direction::Back => Rotation { axis: Axis::Y, quarter_turns: 0 },
            Direction::Left => Rotation { axis: Axis::Y, quarter_turns: 1 },
            Direction::Right => Rotation { axis: Axis::Y, quarter_turns: -1i8 },
            Direction::Up => Rotation { axis: Axis::X, quarter_turns: 1 },
            Direction::Down => Rotation { axis: Axis::X, quarter_turns: -1i8 },
        }
    }

    /// The step that the snake takes when it faces this way.
    pub fn dir(&self) -> (v: IVec3)
        ensures
            v == self.vector(),
    {
        match self {
            Direction::Forward => IVec3 { x: 0, y: 1, z: 0 },
            Direction::Back => IVec3 { x: 0, y: -1, z: 0 },
            Direction::Left => IVec3 { x: -1, y: 0, z: 0 },
            Direction::Right => IVec3 { x: 1, y: 0, z: 0 },
            Direction::Up => IVec3 { x: 0, y: 0, z: 1 },
            Direction::Down => IVec3 { x: 0, y: 0, z: -1 },
        }
    }

    /// The rotation that turns the head's model to face this way.
    pub fn rot(&self) -> (r: Rotation)
        ensures
            r == self.rotation(),
    {
        match self {
            Direction::Forward => Rotation { axis: Axis::Y, quarter_turns: 2 },
            Direction::Back => Rotation { axis: Axis::Y, quarter_turns: 0 },
            Direction::Left => Rotation { axis: Axis::Y, quarter_turns: 1 },
            Direction::Right => Rotation { axis: Axis::Y, quarter_turns: -1 },
            Direction::Up => Rotation { axis: Axis::X, quarter_turns: 1 },
            Direction::Down => Rotation { axis: Axis::X, quarter_turns: -1 },
        }
    }
}

} // verus!
