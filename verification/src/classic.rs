//! The game that every player starts with: the classic maze, and where the
//! player and the adversaries stand in it.

use vstd::prelude::*;
use crate::adversary::{views, Adversary, AdversaryView};
use crate::body::{lemma_corner_on_track, Pose};
use crate::direction::Direction;
use crate::game::{Game, GameView};
use crate::maze::{lemma_count_pellets_bound, Grid, Maze, TILE_SIZE};
use crate::player::{Player, PlayerView};

verus! {

pub const CLASSIC_WIDTH: usize = 28;

pub const CLASSIC_HEIGHT: usize = 31;

/// The tiles of the maze, row by row: 1 a wall, 0 a pellet.
pub const CLASSIC_LAYOUT: [u8; 868] = [
    1, 1, 1, 1, 1, 1, 1, 1, 1, 1, 1, 1, 1, 1, 1, 1, 1, 1, 1, 1, 1, 1, 1, 1, 1, 1, 1, 1,
    1, 0, 0, 0, 0, 0, 0, 0, 0, 0, 0, 0, 0, 1, 1, 0, 0, 0, 0, 0, 0, 0, 0, 0, 0, 0, 0, 1,
    1, 0, 1, 1, 1, 1, 0, 1, 1, 1, 1, 1, 0, 1, 1, 0, 1, 1, 1, 1, 1, 0, 1, 1, 1, 1, 0, 1,
    1, 0, 1, 1, 1, 1, 0, 1, 1, 1, 1, 1, 0, 1, 1, 0, 1, 1, 1, 1, 1, 0, 1, 1, 1, 1, 0, 1,
    1, 0, 1, 1, 1, 1, 0, 1, 1, 1, 1, 1, 0, 1, 1, 0, 1, 1, 1, 1, 1, 0, 1, 1, 1, 1, 0, 1,
    1, 0, 0, 0, 0, 0, 0, 0, 0, 0, 0, 0, 0, 0, 0, 0, 0, 0, 0, 0, 0, 0, 0, 0, 0, 0, 0, 1,
    1, 0, 1, 1, 1, 1, 0, 1, 1, 0, 1, 1, 1, 1, 1, 1, 1, 1, 0, 1, 1, 0, 1, 1, 1, 1, 0, 1,
    1, 0, 1, 1, 1, 1, 0, 1, 1, 0, 1, 1, 1, 1, 1, 1, 1, 1, 0, 1, 1, 0, 1, 1, 1, 1, 0, 1,
    1, 0, 0, 0, 0, 0, 0, 1, 1, 0, 0, 0, 0, 1, 1, 0, 0, 0, 0, 1, 1, 0, 0, 0, 0, 0, 0, 1,
    1, 1, 1, 1, 1, 1, 0, 1, 1, 1, 1, 1, 0, 1, 1, 0, 1, 1, 1, 1, 1, 0, 1, 1, 1, 1, 1, 1,
    1, 1, 1, 1, 1, 1, 0, 1, 1, 1, 1, 1, 0, 1, 1, 0, 1, 1, 1, 1, 1, 0, 1, 1, 1, 1, 1, 1,
    1, 1, 1, 1, 1, 1, 0, 1, 1, 0, 0, 0, 0, 0, 0, 0, 0, 0, 0, 1, 1, 0, 1, 1, 1, 1, 1, 1,
    1, 1, 1, 1, 1, 1, 0, 1, 1, 0, 1, 1, 1, 0, 0, 1, 1, 1, 0, 1, 1, 0, 1, 1, 1, 1, 1, 1,
    1, 1, 1, 1, 1, 1, 0, 1, 1, 0, 1, 0, 0, 0, 0, 0, 0, 1, 0, 1, 1, 0, 1, 1, 1, 1, 1, 1,
    0, 0, 0, 0, 0, 0, 0, 0, 0, 0, 1, 0, 0, 0, 0, 0, 0, 1, 0, 0, 0, 0, 0, 0, 0, 0, 0, 0,
    1, 1, 1, 1, 1, 1, 0, 1, 1, 0, 1, 0, 0, 0, 0, 0, 0, 1, 0, 1, 1, 0, 1, 1, 1, 1, 1, 1,
    1, 1, 1, 1, 1, 1, 0, 1, 1, 0, 1, 1, 1, 1, 1, 1, 1, 1, 0, 1, 1, 0, 1, 1, 1, 1, 1, 1,
    1, 1, 1, 1, 1, 1, 0, 1, 1, 0, 0, 0, 0, 0, 0, 0, 0, 0, 0, 1, 1, 0, 1, 1, 1, 1, 1, 1,
    1, 1, 1, 1, 1, 1, 0, 1, 1, 0, 1, 1, 1, 1, 1, 1, 1, 1, 0, 1, 1, 0, 1, 1, 1, 1, 1, 1,
    1, 1, 1, 1, 1, 1, 0, 1, 1, 0, 1, 1, 1, 1, 1, 1, 1, 1, 0, 1, 1, 0, 1, 1, 1, 1, 1, 1,
    1, 0, 0, 0, 0, 0, 0, 0, 0, 0, 0, 0, 0, 1, 1, 0, 0, 0, 0, 0, 0, 0, 0, 0, 0, 0, 0, 1,
    1, 0, 1, 1, 1, 1, 0, 1, 1, 1, 1, 1, 0, 1, 1, 0, 1, 1, 1, 1, 1, 0, 1, 1, 1, 1, 0, 1,
    1, 0, 1, 1, 1, 1, 0, 1, 1, 1, 1, 1, 0, 1, 1, 0, 1, 1, 1, 1, 1, 0, 1, 1, 1, 1, 0, 1,
    1, 0, 0, 0, 1, 1, 0, 0, 0, 0, 0, 0, 0, 0, 0, 0, 0, 0, 0, 0, 0, 0, 1, 1, 0, 0, 0, 1,
    1, 1, 1, 0, 1, 1, 0, 1, 1, 0, 1, 1, 1, 1, 1, 1, 1, 1, 0, 1, 1, 0, 1, 1, 0, 1, 1, 1,
    1, 1, 1, 0, 1, 1, 0, 1, 1, 0, 1, 1, 1, 1, 1, 1, 1, 1, 0, 1, 1, 0, 1, 1, 0, 1, 1, 1,
    1, 0, 0, 0, 0, 0, 0, 1, 1, 0, 0, 0, 0, 1, 1, 0, 0, 0, 0, 1, 1, 0, 0, 0, 0, 0, 0, 1,
    1, 0, 1, 1, 1, 1, 1, 1, 1, 1, 1, 1, 0, 1, 1, 0, 1, 1, 1, 1, 1, 1, 1, 1, 1, 1, 0, 1,
    1, 0, 1, 1, 1, 1, 1, 1, 1, 1, 1, 1, 0, 1, 1, 0, 1, 1, 1, 1, 1, 1, 1, 1, 1, 1, 0, 1,
    1, 0, 0, 0, 0, 0, 0, 0, 0, 0, 0, 0, 0, 0, 0, 0, 0, 0, 0, 0, 0, 0, 0, 0, 0, 0, 0, 1,
    1, 1, 1, 1, 1, 1, 1, 1, 1, 1, 1, 1, 1, 1, 1, 1, 1, 1, 1, 1, 1, 1, 1, 1, 1, 1, 1, 1,
];

impl Grid {
    /// The maze that every new game starts with.
    pub open spec fn classic() -> Grid {
        Grid::from_codes(CLASSIC_WIDTH as nat, CLASSIC_HEIGHT as nat, CLASSIC_LAYOUT@)
    }
}

impl Maze {
    /// The maze that every new game starts with.
    pub fn classic() -> (m: Maze)
        ensures
            m.wf(),
            m@ == Grid::classic(),
    {
        let r = Maze::from_codes(CLASSIC_WIDTH, CLASSIC_HEIGHT, CLASSIC_LAYOUT.as_slice());
        r.unwrap()
    }
}

impl GameView {
    /// The game that `Game::new` starts: the classic maze, the player at its
    /// starting tile, and four adversaries round the middle of the maze.
    pub open spec fn classic() -> GameView {
        GameView::opening(
            Grid::classic(),
            PlayerView::start(),
            seq![
                AdversaryView {
                    pose: Pose { x: 13 * TILE_SIZE, y: 11 * TILE_SIZE, heading: Direction::Left },
                    color: "red"@,
                },
                AdversaryView {
                    pose: Pose { x: 14 * TILE_SIZE, y: 11 * TILE_SIZE, heading: Direction::Left },
                    color: "pink"@,
                },
                AdversaryView {
                    pose: Pose { x: 13 * TILE_SIZE, y: 13 * TILE_SIZE, heading: Direction::Left },
                    color: "cyan"@,
                },
                AdversaryView {
                    pose: Pose { x: 14 * TILE_SIZE, y: 13 * TILE_SIZE, heading: Direction::Left },
                    color: "orange"@,
                },
            ],
        )
    }
}

impl Game {
    /// A new game in the classic maze.
    pub fn new() -> (g: Game)
        ensures
            g.wf(),
            g@ == GameView::classic(),
    {
        let maze = Maze::classic();
        let player = Player::new();
        let mut adversaries: Vec<Adversary> = Vec::new();
        adversaries.push(Adversary::new(13 * TILE_SIZE, 11 * TILE_SIZE, "red"));
        adversaries.push(Adversary::new(14 * TILE_SIZE, 11 * TILE_SIZE, "pink"));
        adversaries.push(Adversary::new(13 * TILE_SIZE, 13 * TILE_SIZE, "cyan"));
        adversaries.push(Adversary::new(14 * TILE_SIZE, 13 * TILE_SIZE, "orange"));
        proof {
            lemma_classic_wf();
            assert(views(adversaries@) =~= GameView::classic().adversaries);
        }
        let game = Game::assemble(maze, player, adversaries);
        game.unwrap()
    }
}

/// The game that every player starts with is well formed.
pub proof fn lemma_classic_wf()
    ensures
        GameView::classic().wf(),
{
    let grid = Grid::classic();
    let start = GameView::classic();
    lemma_classic_starts_open();
    lemma_count_pellets_bound(grid.cells);
    lemma_corner_on_track(start.player.pose, grid, 14, 23);
    lemma_corner_on_track(start.adversaries[0].pose, grid, 13, 11);
    lemma_corner_on_track(start.adversaries[1].pose, grid, 14, 11);
    lemma_corner_on_track(start.adversaries[2].pose, grid, 13, 13);
    lemma_corner_on_track(start.adversaries[3].pose, grid, 14, 13);
}

/// The cells on which the player and the adversaries of a new game start are open.
pub proof fn lemma_classic_starts_open()
    ensures
        Grid::classic().wf(),
        Grid::classic().open_at(14, 23),
        Grid::classic().open_at(13, 11),
        Grid::classic().open_at(14, 11),
        Grid::classic().open_at(13, 13),
        Grid::classic().open_at(14, 13),
{
    assert(CLASSIC_LAYOUT@.len() == 868);
    assert(CLASSIC_LAYOUT[658] == 0);
    assert(CLASSIC_LAYOUT[321] == 0);
    assert(CLASSIC_LAYOUT[322] == 0);
    assert(CLASSIC_LAYOUT[377] == 0);
    assert(CLASSIC_LAYOUT[378] == 0);
}

} // verus!
