//! The four compass headings and standing still.

use vstd::prelude::*;

verus! {

/// A heading on the grid, or `Still` for an entity that does not move.
/// Rows grow downwards, so `Up` leads to the row above, with the smaller index.
#[derive(Clone, Copy, PartialEq, Eq, Structural, Debug)]
pub enum Direction {
    Up,
    Down,
    Left,
    Right,
    Still,
}

/// The key code of the left arrow key.
pub const KEY_LEFT: u32 = 37;

/// The key code of the up arrow key.
pub const KEY_UP: u32 = 38;

/// The key code of the right arrow key.
pub const KEY_RIGHT: u32 = 39;

/// The key code of the down arrow key.
pub const KEY_DOWN: u32 = 40;

impl Direction {
    /// The heading that points the other way; `Still` is its own opposite.
    pub open spec fn spec_opposite(self) -> Direction {
        match self {
            Direction::Up => Direction::Down,
            Direction::Down => Direction::Up,
            Direction::Left => Direction::Right,
            Direction::Right => Direction::Left,
            Direction::Still => Direction::Still,
        }
    }

    /// The change of column that one step brings.
    pub open spec fn dx(self) -> int {
        match self {
            Direction::Left => -1,
            Direction::Right => 1,
            _ => 0,
        }
    }

    /// The change of row that one step brings.
    pub open spec fn dy(self) -> int {
        match self {
            Direction::Up => -1,
            Direction::Down => 1,
            _ => 0,
        }
    }

    pub open spec fn is_horizontal(self) -> bool {
        self == Direction::Left || self == Direction::Right
    }

    pub open spec fn is_vertical(self) -> bool {
        self == Direction::Up || self == Direction::Down
    }

    /// The heading that an arrow key asks for; no other key asks for one.
    pub open spec fn spec_from_key_code(code: u32) -> Option<Direction> {
        if code == KEY_UP {
            Some(Direction::Up)
        } else if code == KEY_DOWN {
            Some(Direction::Down)
        } else if code == KEY_LEFT {
            Some(Direction::Left)
        } else if code == KEY_RIGHT {
            Some(Direction::Right)
        } else {
            None
        }
    }

    #[verifier::when_used_as_spec(spec_opposite)]
    pub fn opposite(self) -> (r: Direction)
        ensures
            r == self.spec_opposite(),
    {
        match self {
            Direction::Up => Direction::Down,
            Direction::Down => Direction::Up,
            Direction::Left => Direction::Right,
            Direction::Right => Direction::Left,
            Direction::Still => Direction::Still,
        }
    }

    #[verifier::when_used_as_spec(spec_from_key_code)]
    pub fn from_key_code(code: u32) -> (r: Option<Direction>)
        ensures
            r == Direction::spec_from_key_code(code),
    {
        match code {
            KEY_UP => Some(Direction::Up),
            KEY_DOWN => Some(Direction::Down),
            KEY_LEFT => Some(Direction::Left),
            KEY_RIGHT => Some(Direction::Right),
            _ => None,
        }
    }
}

/// The distance of a whole number from zero.
pub open spec fn magnitude(v: int) -> int {
    if v < 0 {
        -v
    } else {
        v
    }
}

/// The arrow key that a swipe of the finger stands for. A swipe that went
/// further sideways than up or down asks for right or left, any other for
/// down or up; `dx` grows to the right and `dy` downwards.
pub open spec fn spec_swipe_key_code(dx: i64, dy: i64) -> u32 {
    if magnitude(dx as int) > magnitude(dy as int) {
        if dx > 0 {
            KEY_RIGHT
        } else {
            KEY_LEFT
        }
    } else {
        if dy > 0 {
            KEY_DOWN
        } else {
            KEY_UP
        }
    }
}

#[verifier::when_used_as_spec(spec_swipe_key_code)]
pub fn swipe_key_code(dx: i64, dy: i64) -> (code: u32)
    ensures
        code == spec_swipe_key_code(dx, dy),
        Direction::spec_from_key_code(code).is_some(),
{
    let across: i128 = if dx < 0 {
        -(dx as i128)
    } else {
        dx as i128
    };
    let along: i128 = if dy < 0 {
        -(dy as i128)
    } else {
        dy as i128
    };
    if across > along {
        if dx > 0 {
            KEY_RIGHT
        } else {
            KEY_LEFT
        }
    } else {
        if dy > 0 {
            KEY_DOWN
        } else {
            KEY_UP
        }
    }
}

} // verus!
