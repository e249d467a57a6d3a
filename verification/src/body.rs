//! What the player and the adversaries share: a position, a heading, and the
//! step that carries an entity along its heading.

use vstd::prelude::*;
use crate::direction::Direction;
use crate::maze::{Grid, Maze, TILE_SIZE};

verus! {

/// How far an entity moves in one tick, in position units.
pub const SPEED: i32 = 2;

/// `a / b` rounded to the nearest integer, a half rounded up.
pub open spec fn round_div(a: int, b: int) -> int
    recommends
        b > 0,
{
    if 2 * (a % b) >= b {
        a / b + 1
    } else {
        a / b
    }
}

/// Where an entity is and where it is heading, as a mathematical value.
/// `(x, y)` is the top left corner of the entity, `x` growing to the right and
/// `y` downwards.
pub struct Pose {
    pub x: int,
    pub y: int,
    pub heading: Direction,
}

impl Pose {
    /// The entity sits exactly on the corner of a tile.
    pub open spec fn aligned(self) -> bool {
        self.x % (TILE_SIZE as int) == 0 && self.y % (TILE_SIZE as int) == 0
    }

    /// The column of the nearest tile: the position over the tile size, rounded.
    pub open spec fn col(self) -> int {
        round_div(self.x, TILE_SIZE as int)
    }

    /// The row of the nearest tile: the position over the tile size, rounded.
    pub open spec fn row(self) -> int {
        round_div(self.y, TILE_SIZE as int)
    }

    /// The column of the tile that holds the centre of the entity: the centre
    /// over the tile size, rounded down.
    pub open spec fn center_col(self) -> int {
        (self.x + TILE_SIZE / 2) / (TILE_SIZE as int)
    }

    /// The row of the tile that holds the centre of the entity.
    pub open spec fn center_row(self) -> int {
        (self.y + TILE_SIZE / 2) / (TILE_SIZE as int)
    }

    /// The same place with another heading.
    pub open spec fn turn(self, heading: Direction) -> Pose {
        Pose { heading, ..self }
    }

    /// One tick of movement along the heading; `Still` stays where it is.
    pub open spec fn advance(self) -> Pose {
        Pose {
            x: self.x + SPEED * self.heading.dx(),
            y: self.y + SPEED * self.heading.dy(),
            ..self
        }
    }

    /// The entity is where walking the maze can bring it: on the corner of an
    /// open tile, or between two open tiles that are neighbours, heading
    /// from one to the other, and a whole number of steps away from both.
    pub open spec fn on_track(self, grid: Grid) -> bool {
        let c = self.x / (TILE_SIZE as int);
        let r = self.y / (TILE_SIZE as int);
        &&& self.x % (SPEED as int) == 0
        &&& self.y % (SPEED as int) == 0
        &&& grid.open_at(c, r)
        &&& self.x % (TILE_SIZE as int) != 0 ==> {
            &&& self.y % (TILE_SIZE as int) == 0
            &&& grid.open_at(c + 1, r)
            &&& self.heading.is_horizontal()
        }
        &&& self.y % (TILE_SIZE as int) != 0 ==> {
            &&& self.x % (TILE_SIZE as int) == 0
            &&& grid.open_at(c, r + 1)
            &&& self.heading.is_vertical()
        }
    }

    /// The heading does not lead an entity on a tile corner into a wall or out
    /// of the maze.
    pub open spec fn heading_is_legal(self, grid: Grid) -> bool {
        self.aligned() && self.heading != Direction::Still ==> grid.can_move(
            self.heading,
            self.col(),
            self.row(),
        )
    }

    /// Two entities touch: their centres are less than four fifths of a tile apart.
    pub open spec fn touches(self, other: Pose) -> bool {
        25 * ((self.x - other.x) * (self.x - other.x) + (self.y - other.y) * (self.y - other.y))
            < 16 * (TILE_SIZE * TILE_SIZE)
    }
}

/// On a tile corner the nearest tile, the tile of the centre and the tile
/// of the corner are one and the same.
pub proof fn lemma_aligned_cells(pose: Pose)
    requires
        pose.aligned(),
    ensures
        pose.col() == pose.x / (TILE_SIZE as int),
        pose.row() == pose.y / (TILE_SIZE as int),
        pose.center_col() == pose.col(),
        pose.center_row() == pose.row(),
        pose.x == pose.col() * TILE_SIZE,
        pose.y == pose.row() * TILE_SIZE,
{
}

/// An entity on the track lies inside the maze, and so do its coordinates in `i32`.
pub proof fn lemma_on_track_bounds(pose: Pose, grid: Grid)
    requires
        grid.wf(),
        pose.on_track(grid),
    ensures
        0 <= pose.x <= TILE_SIZE * (grid.width - 1),
        0 <= pose.y <= TILE_SIZE * (grid.height - 1),
        pose.x + SPEED <= i32::MAX,
        pose.y + SPEED <= i32::MAX,
{
}

/// The tile that holds the centre of an entity on the track is open, and so
/// is the tile nearest to it.
pub proof fn lemma_on_track_cells_open(pose: Pose, grid: Grid)
    requires
        pose.on_track(grid),
    ensures
        grid.open_at(pose.center_col(), pose.center_row()),
        grid.open_at(pose.col(), pose.row()),
{
}

/// How one step forwards or backwards changes the tile and the offset within
/// it of a coordinate that is a whole number of steps.
pub proof fn lemma_step_coordinate(x: int, forwards: bool)
    requires
        x % (SPEED as int) == 0,
    ensures
        ({
            let t = TILE_SIZE as int;
            let s = SPEED as int;
            let next = if forwards {
                x + s
            } else {
                x - s
            };
            &&& next % s == 0
            &&& forwards && x % t == t - s ==> next / t == x / t + 1 && next % t == 0
            &&& forwards && x % t != t - s ==> next / t == x / t && next % t == x % t + s
            &&& !forwards && x % t == 0 ==> next / t == x / t - 1 && next % t == t - s
            &&& !forwards && x % t != 0 ==> next / t == x / t && next % t == x % t - s
        }),
{
}

/// A step along a legal heading keeps an entity on the track.
pub proof fn lemma_advance_on_track(pose: Pose, grid: Grid)
    requires
        pose.on_track(grid),
        pose.heading_is_legal(grid),
    ensures
        pose.advance().on_track(grid),
{
    let next = pose.advance();
    if pose.aligned() {
        lemma_aligned_cells(pose);
    }
    match pose.heading {
        Direction::Up => {
            lemma_step_coordinate(pose.y, false);
            assert(next.x == pose.x && next.y == pose.y - SPEED);
        },
        Direction::Down => {
            lemma_step_coordinate(pose.y, true);
            assert(next.x == pose.x && next.y == pose.y + SPEED);
        },
        Direction::Left => {
            lemma_step_coordinate(pose.x, false);
            assert(next.y == pose.y && next.x == pose.x - SPEED);
        },
        Direction::Right => {
            lemma_step_coordinate(pose.x, true);
            assert(next.y == pose.y && next.x == pose.x + SPEED);
        },
        Direction::Still => {
            assert(next == pose);
        },
    }
}

/// A step along a legal heading stays within the coordinates that `i32` holds.
pub proof fn lemma_legal_step_in_range(pose: Pose, grid: Grid)
    requires
        grid.wf(),
        pose.on_track(grid),
        pose.heading_is_legal(grid),
    ensures
        0 <= pose.advance().x <= i32::MAX,
        0 <= pose.advance().y <= i32::MAX,
{
    lemma_advance_on_track(pose, grid);
    lemma_on_track_bounds(pose.advance(), grid);
}

/// Whether an entity is on the track depends on the maze only through its
/// walls and its size.
pub proof fn lemma_on_track_same_walls(pose: Pose, before: Grid, after: Grid)
    requires
        forall|c: int, r: int| #[trigger] after.open_at(c, r) == before.open_at(c, r),
    ensures
        pose.on_track(after) == pose.on_track(before),
{
}

/// An entity that stands on the corner of an open tile, a whole number of
/// tiles from the corner of the maze, is on the track.
pub proof fn lemma_corner_on_track(pose: Pose, grid: Grid, col: int, row: int)
    requires
        pose.x == col * TILE_SIZE,
        pose.y == row * TILE_SIZE,
        grid.open_at(col, row),
    ensures
        pose.aligned(),
        pose.on_track(grid),
{
}

/// On a tile corner an entity may take any heading; between two tiles it may
/// turn round.
pub proof fn lemma_turn_on_track(pose: Pose, grid: Grid, heading: Direction)
    requires
        pose.on_track(grid),
        pose.aligned() || heading == pose.heading || heading == pose.heading.spec_opposite(),
    ensures
        pose.turn(heading).on_track(grid),
{
}

/// The position and heading of an entity.
#[derive(Clone, Copy, Debug)]
pub struct Body {
    x: i32,
    y: i32,
    direction: Direction,
}

impl View for Body {
    type V = Pose;

    closed spec fn view(&self) -> Pose {
        Pose { x: self.x as int, y: self.y as int, heading: self.direction }
    }
}

impl Body {
    pub fn new(x: i32, y: i32, direction: Direction) -> (b: Body)
        ensures
            b@ == (Pose { x: x as int, y: y as int, heading: direction }),
    {
        Body { x, y, direction }
    }

    pub fn x(&self) -> (x: i32)
        ensures
            x == self@.x,
    {
        self.x
    }

    pub fn y(&self) -> (y: i32)
        ensures
            y == self@.y,
    {
        self.y
    }

    pub fn direction(&self) -> (d: Direction)
        ensures
            d == self@.heading,
    {
        self.direction
    }

    /// Whether the entity sits exactly on the corner of a tile.
    pub fn aligned(&self) -> (r: bool)
        ensures
            r == self@.aligned(),
    {
        self.x % TILE_SIZE == 0 && self.y % TILE_SIZE == 0
    }

    /// Whether the entity is where walking the maze can bring it.
    pub fn is_on_track(&self, maze: &Maze) -> (r: bool)
        requires
            maze.wf(),
        ensures
            r == self@.on_track(maze@),
    {
        if self.x < 0 || self.y < 0 {
            return false;
        }
        if self.x % SPEED != 0 || self.y % SPEED != 0 {
            return false;
        }
        let c: usize = (self.x / TILE_SIZE) as usize;
        let r: usize = (self.y / TILE_SIZE) as usize;
        if !maze.is_open(c, r) {
            return false;
        }
        if self.x % TILE_SIZE != 0 {
            let horizontal = match self.direction {
                Direction::Left => true,
                Direction::Right => true,
                _ => false,
            };
            if self.y % TILE_SIZE != 0 || !maze.is_open(c + 1, r) || !horizontal {
                return false;
            }
        }
        if self.y % TILE_SIZE != 0 {
            let vertical = match self.direction {
                Direction::Up => true,
                Direction::Down => true,
                _ => false,
            };
            if !maze.is_open(c, r + 1) || !vertical {
                return false;
            }
        }
        true
    }

    /// The nearest tile of an entity on a tile corner: the tile of that corner.
    pub(crate) fn cell(&self) -> (cell: (usize, usize))
        requires
            self@.aligned(),
            0 <= self@.x,
            0 <= self@.y,
        ensures
            cell.0 == self@.col(),
            cell.1 == self@.row(),
    {
        ((self.x / TILE_SIZE) as usize, (self.y / TILE_SIZE) as usize)
    }

    /// The tile that holds the centre of the entity.
    pub(crate) fn center_cell(&self) -> (cell: (usize, usize))
        requires
            0 <= self@.x <= i32::MAX - TILE_SIZE,
            0 <= self@.y <= i32::MAX - TILE_SIZE,
        ensures
            cell.0 == self@.center_col(),
            cell.1 == self@.center_row(),
    {
        (
            ((self.x + TILE_SIZE / 2) / TILE_SIZE) as usize,
            ((self.y + TILE_SIZE / 2) / TILE_SIZE) as usize,
        )
    }

    pub(crate) fn turn(&mut self, direction: Direction)
        ensures
            final(self)@ == old(self)@.turn(direction),
    {
        self.direction = direction;
    }

    /// Moves the entity one step along its heading.
    pub(crate) fn advance(&mut self)
        requires
            0 <= old(self)@.advance().x <= i32::MAX,
            0 <= old(self)@.advance().y <= i32::MAX,
        ensures
            final(self)@ == old(self)@.advance(),
    {
        match self.direction {
            Direction::Up => {
                self.y = self.y - SPEED;
            },
            Direction::Down => {
                self.y = self.y + SPEED;
            },
            Direction::Left => {
                self.x = self.x - SPEED;
            },
            Direction::Right => {
                self.x = self.x + SPEED;
            },
            Direction::Still => {},
        }
    }

    /// Whether two entities touch.
    pub fn touches(&self, other: &Body) -> (r: bool)
        ensures
            r == self@.touches(other@),
    {
        let dx: i64 = self.x as i64 - other.x as i64;
        let dy: i64 = self.y as i64 - other.y as i64;
        assert(0 <= dx * dx <= 0x1_0000_0000 * 0x1_0000_0000) by (nonlinear_arith)
            requires
                -0x1_0000_0000 <= dx <= 0x1_0000_0000,
        ;
        assert(0 <= dy * dy <= 0x1_0000_0000 * 0x1_0000_0000) by (nonlinear_arith)
            requires
                -0x1_0000_0000 <= dy <= 0x1_0000_0000,
        ;
        let dist_sq: i128 = (dx as i128) * (dx as i128) + (dy as i128) * (dy as i128);
        let tile: i128 = TILE_SIZE as i128;
        25 * dist_sq < 16 * (tile * tile)
    }
}

} // verus!
