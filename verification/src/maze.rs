//! The maze: a rectangle of tiles, each a wall, a pellet or empty floor.

use vstd::prelude::*;
use crate::direction::Direction;

verus! {

/// The side of a tile, in position units.
pub const TILE_SIZE: i32 = 16;

/// What eating one pellet adds to the score.
pub const PELLET_REWARD: u32 = 10;

/// The widest and the tallest maze: every position in it fits in `i32`.
pub const MAX_SIDE: usize = 134_217_727;

/// The largest maze: the reward of all its pellets fits in `u32`.
pub const MAX_CELLS: usize = 429_496_729;

/// What a cell of the maze holds.
#[derive(Clone, Copy, PartialEq, Eq, Structural, Debug)]
pub enum Tile {
    Wall,
    Pellet,
    Empty,
}

impl Tile {
    /// The tile that a layout code stands for: 0 a pellet, 1 a wall, anything
    /// else empty floor.
    pub open spec fn spec_from_code(code: u8) -> Tile {
        if code == 1 {
            Tile::Wall
        } else if code == 0 {
            Tile::Pellet
        } else {
            Tile::Empty
        }
    }

    #[verifier::when_used_as_spec(spec_from_code)]
    pub fn from_code(code: u8) -> (t: Tile)
        ensures
            t == Tile::spec_from_code(code),
    {
        if code == 1 {
            Tile::Wall
        } else if code == 0 {
            Tile::Pellet
        } else {
            Tile::Empty
        }
    }
}

/// How many pellets a row-major run of tiles holds.
pub open spec fn count_pellets(cells: Seq<Tile>) -> nat
    decreases cells.len(),
{
    if cells.len() == 0 {
        0
    } else {
        count_pellets(cells.drop_last()) + if cells.last() == Tile::Pellet {
            1nat
        } else {
            0nat
        }
    }
}

/// The maze as a mathematical value: its size and its tiles, row by row.
pub struct Grid {
    pub width: nat,
    pub height: nat,
    pub cells: Seq<Tile>,
}

impl Grid {
    /// A size and a list of codes that make a maze.
    pub open spec fn valid_layout(width: nat, height: nat, codes: Seq<u8>) -> bool {
        &&& width <= MAX_SIDE
        &&& height <= MAX_SIDE
        &&& codes.len() == width * height
        &&& codes.len() <= MAX_CELLS
    }

    /// The maze that a size and a list of codes describe.
    pub open spec fn from_codes(width: nat, height: nat, codes: Seq<u8>) -> Grid {
        Grid { width, height, cells: Seq::new(codes.len(), |i: int| Tile::spec_from_code(codes[i])) }
    }

    pub open spec fn wf(self) -> bool {
        &&& self.width <= MAX_SIDE
        &&& self.height <= MAX_SIDE
        &&& self.cells.len() == self.width * self.height
        &&& self.cells.len() <= MAX_CELLS
    }

    pub open spec fn in_bounds(self, col: int, row: int) -> bool {
        0 <= col < self.width && 0 <= row < self.height
    }

    /// The tile of a cell inside the maze.
    pub open spec fn tile(self, col: int, row: int) -> Tile
        recommends
            self.in_bounds(col, row),
    {
        self.cells[row * self.width + col]
    }

    /// A cell that an entity may stand on: inside the maze and no wall.
    pub open spec fn open_at(self, col: int, row: int) -> bool {
        self.in_bounds(col, row) && self.tile(col, row) != Tile::Wall
    }

    pub open spec fn pellet_at(self, col: int, row: int) -> bool {
        self.in_bounds(col, row) && self.tile(col, row) == Tile::Pellet
    }

    /// Whether one step in `dir` from the cell leads to a cell that is open.
    /// `Still` leads nowhere.
    pub open spec fn can_move(self, dir: Direction, col: int, row: int) -> bool {
        dir != Direction::Still && self.open_at(col + dir.dx(), row + dir.dy())
    }

    /// The maze after the pellet of the cell, if it holds one, was eaten.
    pub open spec fn eat(self, col: int, row: int) -> Grid {
        if self.pellet_at(col, row) {
            Grid { cells: self.cells.update(row * self.width + col, Tile::Empty), ..self }
        } else {
            self
        }
    }

    /// The number of pellets left.
    pub open spec fn pellets(self) -> nat {
        count_pellets(self.cells)
    }
}

/// A cell inside the maze has a place in the row-major list of tiles.
pub proof fn lemma_cell_index(grid: Grid, col: int, row: int)
    requires
        grid.cells.len() == grid.width * grid.height,
        grid.in_bounds(col, row),
    ensures
        0 <= row * grid.width + col < grid.cells.len(),
{
    let w = grid.width as int;
    let h = grid.height as int;
    assert(0 <= row * w && (row + 1) * w <= h * w) by (nonlinear_arith)
        requires
            0 <= row < h,
            0 <= w,
    ;
    assert((row + 1) * w == row * w + w) by (nonlinear_arith);
    assert(h * w == w * h) by (nonlinear_arith);
}

/// Two cells inside the maze share their place in the list only if they are the same cell.
pub proof fn lemma_cell_index_injective(grid: Grid, c1: int, r1: int, c2: int, r2: int)
    requires
        grid.in_bounds(c1, r1),
        grid.in_bounds(c2, r2),
        r1 * grid.width + c1 == r2 * grid.width + c2,
    ensures
        c1 == c2,
        r1 == r2,
{
    let w = grid.width as int;
    if r1 < r2 {
        assert((r1 + 1) * w <= r2 * w) by (nonlinear_arith)
            requires
                r1 + 1 <= r2,
                0 <= w,
        ;
        assert((r1 + 1) * w == r1 * w + w) by (nonlinear_arith);
    } else if r2 < r1 {
        assert((r2 + 1) * w <= r1 * w) by (nonlinear_arith)
            requires
                r2 + 1 <= r1,
                0 <= w,
        ;
        assert((r2 + 1) * w == r2 * w + w) by (nonlinear_arith);
    }
}

/// No run of tiles holds more pellets than tiles.
pub proof fn lemma_count_pellets_bound(cells: Seq<Tile>)
    ensures
        count_pellets(cells) <= cells.len(),
    decreases cells.len(),
{
    if cells.len() > 0 {
        lemma_count_pellets_bound(cells.drop_last());
    }
}

/// Emptying a tile that holds a pellet leaves one pellet fewer.
pub proof fn lemma_count_pellets_update(cells: Seq<Tile>, i: int)
    requires
        0 <= i < cells.len(),
        cells[i] == Tile::Pellet,
    ensures
        count_pellets(cells.update(i, Tile::Empty)) + 1 == count_pellets(cells),
    decreases cells.len(),
{
    let after = cells.update(i, Tile::Empty);
    if i == cells.len() - 1 {
        assert(after.drop_last() =~= cells.drop_last());
    } else {
        assert(after.drop_last() =~= cells.drop_last().update(i, Tile::Empty));
        lemma_count_pellets_update(cells.drop_last(), i);
    }
}

/// Eating keeps the maze well formed, moves no wall, and takes away one pellet
/// where there was one to eat.
pub proof fn lemma_eat(grid: Grid, col: int, row: int)
    requires
        grid.wf(),
    ensures
        grid.eat(col, row).wf(),
        grid.eat(col, row).width == grid.width,
        grid.eat(col, row).height == grid.height,
        !grid.eat(col, row).pellet_at(col, row),
        grid.pellet_at(col, row) ==> grid.eat(col, row).tile(col, row) == Tile::Empty,
        grid.pellet_at(col, row) ==> grid.eat(col, row).pellets() + 1 == grid.pellets(),
        !grid.pellet_at(col, row) ==> grid.eat(col, row) == grid,
        forall|c: int, r: int|
            grid.in_bounds(c, r) && (c != col || r != row) ==> #[trigger] grid.eat(col, row).tile(
                c,
                r,
            ) == grid.tile(c, r),
        forall|c: int, r: int| #[trigger] grid.eat(col, row).open_at(c, r) == grid.open_at(c, r),
        forall|d: Direction, c: int, r: int| #[trigger]
            grid.eat(col, row).can_move(d, c, r) == grid.can_move(d, c, r),
{
    if grid.pellet_at(col, row) {
        let after = grid.eat(col, row);
        lemma_cell_index(grid, col, row);
        lemma_count_pellets_update(grid.cells, row * grid.width + col);
        assert forall|c: int, r: int| grid.in_bounds(c, r) && (c != col || r != row) implies (
        #[trigger] after.tile(c, r)) == grid.tile(c, r) by {
            lemma_cell_index(grid, c, r);
            if r * grid.width + c == row * grid.width + col {
                lemma_cell_index_injective(grid, c, r, col, row);
            }
        }
        assert forall|c: int, r: int| #[trigger] after.open_at(c, r) == grid.open_at(c, r) by {
            if grid.in_bounds(c, r) {
                lemma_cell_index(grid, c, r);
                if c != col || r != row {
                    assert(after.tile(c, r) == grid.tile(c, r));
                }
            }
        }
    }
}

/// The maze of a running game.
pub struct Maze {
    width: usize,
    height: usize,
    cells: Vec<Tile>,
}

impl View for Maze {
    type V = Grid;

    closed spec fn view(&self) -> Grid {
        Grid { width: self.width as nat, height: self.height as nat, cells: self.cells@ }
    }
}

impl Maze {
    pub open spec fn wf(&self) -> bool {
        self@.wf()
    }

    /// Builds a maze of `width` by `height` tiles from a code for each tile, row by row.
    /// There is no maze for a size above the limits, nor for a list of another length.
    pub fn from_codes(width: usize, height: usize, codes: &[u8]) -> (r: Option<Maze>)
        ensures
            r.is_some() <==> Grid::valid_layout(width as nat, height as nat, codes@),
            r matches Some(m) ==> m.wf() && m@ == Grid::from_codes(
                width as nat,
                height as nat,
                codes@,
            ),
    {
        if width > MAX_SIDE || height > MAX_SIDE {
            return None;
        }
        assert(width * height <= 134_217_727 * 134_217_727) by (nonlinear_arith)
            requires
                width <= 134_217_727,
                height <= 134_217_727,
        ;
        let area: u64 = (width as u64) * (height as u64);
        if area > MAX_CELLS as u64 || codes.len() as u64 != area {
            return None;
        }
        let n: usize = codes.len();
        let mut cells: Vec<Tile> = Vec::with_capacity(n);
        let mut i: usize = 0;
        while i < n
            invariant
                i <= n,
                n == codes@.len(),
                cells@.len() == i,
                forall|j: int| 0 <= j < i ==> cells@[j] == Tile::spec_from_code(codes@[j]),
            decreases n - i,
        {
            cells.push(Tile::from_code(codes[i]));
            i = i + 1;
        }
        let m = Maze { width, height, cells };
        assert(m@.cells =~= Grid::from_codes(width as nat, height as nat, codes@).cells);
        Some(m)
    }

    pub fn width(&self) -> (w: usize)
        ensures
            w == self@.width,
    {
        self.width
    }

    pub fn height(&self) -> (h: usize)
        ensures
            h == self@.height,
    {
        self.height
    }

    /// Whether the cell lies inside the maze.
    pub fn in_bounds(&self, col: usize, row: usize) -> (r: bool)
        ensures
            r == self@.in_bounds(col as int, row as int),
    {
        col < self.width && row < self.height
    }

    /// The tile of a cell inside the maze.
    pub fn tile_at(&self, col: usize, row: usize) -> (t: Tile)
        requires
            self.wf(),
            self@.in_bounds(col as int, row as int),
        ensures
            t == self@.tile(col as int, row as int),
    {
        proof {
            lemma_cell_index(self@, col as int, row as int);
        }
        self.cells[row * self.width + col]
    }

    /// Whether an entity may stand on the cell.
    pub fn is_open(&self, col: usize, row: usize) -> (r: bool)
        requires
            self.wf(),
        ensures
            r == self@.open_at(col as int, row as int),
    {
        if col < self.width && row < self.height {
            match self.tile_at(col, row) {
                Tile::Wall => false,
                _ => true,
            }
        } else {
            false
        }
    }

    /// Whether one step in `dir` from the cell leads to an open cell of the maze.
    pub fn can_move_to(&self, dir: Direction, col: usize, row: usize) -> (ok: bool)
        requires
            self.wf(),
        ensures
            ok == self@.can_move(dir, col as int, row as int),
    {
        match dir {
            Direction::Up => row >= 1 && self.is_open(col, row - 1),
            Direction::Down => row < self.height && self.is_open(col, row + 1),
            Direction::Left => col >= 1 && self.is_open(col - 1, row),
            Direction::Right => col < self.width && self.is_open(col + 1, row),
            Direction::Still => false,
        }
    }

    /// Eats the pellet of the cell and says whether there was one. A cell outside
    /// the maze, a wall or empty floor is left as it is.
    pub fn consume_pellet(&mut self, col: usize, row: usize) -> (eaten: bool)
        requires
            old(self).wf(),
        ensures
            final(self).wf(),
            eaten == old(self)@.pellet_at(col as int, row as int),
            final(self)@ == old(self)@.eat(col as int, row as int),
    {
        proof {
            lemma_eat(self@, col as int, row as int);
        }
        if col < self.width && row < self.height {
            proof {
                lemma_cell_index(self@, col as int, row as int);
            }
            let index: usize = row * self.width + col;
            match self.cells[index] {
                Tile::Pellet => {
                    self.cells[index] = Tile::Empty;
                    true
                },
                _ => false,
            }
        } else {
            false
        }
    }
}

} // verus!
