//! The player: an entity that turns where the last key press asked it to, as
//! soon as the maze allows it.

use vstd::prelude::*;
use crate::body::{
    lemma_advance_on_track,
    lemma_aligned_cells,
    lemma_legal_step_in_range,
    lemma_on_track_bounds,
    lemma_turn_on_track,
    Body,
    Pose,
};
use crate::direction::Direction;
use crate::maze::{Grid, Maze, TILE_SIZE};

verus! {

/// The column on which the player of a new game starts.
pub const PLAYER_START_COL: i32 = 14;

/// The row on which the player of a new game starts.
pub const PLAYER_START_ROW: i32 = 23;

/// The player as a mathematical value: where it is, and the heading it was
/// last asked to take and has not taken yet (`Still` where there is none).
pub struct PlayerView {
    pub pose: Pose,
    pub next: Direction,
}

impl PlayerView {
    /// The player of a new game.
    pub open spec fn start() -> PlayerView {
        PlayerView {
            pose: Pose {
                x: PLAYER_START_COL * TILE_SIZE,
                y: PLAYER_START_ROW * TILE_SIZE,
                heading: Direction::Still,
            },
            next: Direction::Still,
        }
    }

    /// The player after a key press: an arrow key is remembered in place of
    /// what was remembered before, any other key changes nothing.
    pub open spec fn intend(self, code: u32) -> PlayerView {
        match Direction::spec_from_key_code(code) {
            Some(d) => PlayerView { next: d, ..self },
            None => self,
        }
    }

    /// The player after it has chosen its heading for this tick.
    ///
    /// On a tile corner it takes the remembered heading if the maze lets it go
    /// that way, and forgets it; otherwise it keeps its heading if the maze
    /// lets it go on, and stops if not. Between two tiles it only ever turns
    /// round, at once, when that is what it was asked for.
    pub open spec fn steer(self, grid: Grid) -> PlayerView {
        let pose = self.pose;
        if pose.aligned() {
            if self.next != Direction::Still && grid.can_move(self.next, pose.col(), pose.row()) {
                PlayerView { pose: pose.turn(self.next), next: Direction::Still }
            } else if !grid.can_move(pose.heading, pose.col(), pose.row()) {
                PlayerView { pose: pose.turn(Direction::Still), ..self }
            } else {
                self
            }
        } else if self.next == pose.heading.spec_opposite() {
            PlayerView { pose: pose.turn(self.next), next: Direction::Still }
        } else {
            self
        }
    }

    /// The player after one tick: it chooses its heading, then moves one step.
    pub open spec fn step(self, grid: Grid) -> PlayerView {
        let steered = self.steer(grid);
        PlayerView { pose: steered.pose.advance(), ..steered }
    }
}

/// Choosing a heading keeps the player on the track, and the heading chosen
/// is one that the maze allows.
pub proof fn lemma_steer_on_track(player: PlayerView, grid: Grid)
    requires
        player.pose.on_track(grid),
    ensures
        player.steer(grid).pose.on_track(grid),
        player.steer(grid).pose.heading_is_legal(grid),
        player.steer(grid).pose.x == player.pose.x,
        player.steer(grid).pose.y == player.pose.y,
{
    lemma_turn_on_track(player.pose, grid, player.steer(grid).pose.heading);
}

/// A tick keeps the player on the track.
pub proof fn lemma_step_on_track(player: PlayerView, grid: Grid)
    requires
        player.pose.on_track(grid),
    ensures
        player.step(grid).pose.on_track(grid),
{
    lemma_steer_on_track(player, grid);
    lemma_advance_on_track(player.steer(grid).pose, grid);
}

/// The player of a running game.
#[derive(Clone, Copy, Debug)]
pub struct Player {
    body: Body,
    next_direction: Direction,
}

impl View for Player {
    type V = PlayerView;

    closed spec fn view(&self) -> PlayerView {
        PlayerView { pose: self.body@, next: self.next_direction }
    }
}

impl Player {
    /// The player of a new game: at its starting tile, standing still.
    pub fn new() -> (p: Player)
        ensures
            p@ == PlayerView::start(),
    {
        Player::at(PLAYER_START_COL * TILE_SIZE, PLAYER_START_ROW * TILE_SIZE)
    }

    /// A player at the given position, standing still and asked for nothing.
    pub fn at(x: i32, y: i32) -> (p: Player)
        ensures
            p@ == (PlayerView {
                pose: Pose { x: x as int, y: y as int, heading: Direction::Still },
                next: Direction::Still,
            }),
    {
        Player { body: Body::new(x, y, Direction::Still), next_direction: Direction::Still }
    }

    pub fn body(&self) -> (b: Body)
        ensures
            b@ == self@.pose,
    {
        self.body
    }

    pub fn x(&self) -> (x: i32)
        ensures
            x == self@.pose.x,
    {
        self.body.x()
    }

    pub fn y(&self) -> (y: i32)
        ensures
            y == self@.pose.y,
    {
        self.body.y()
    }

    pub fn direction(&self) -> (d: Direction)
        ensures
            d == self@.pose.heading,
    {
        self.body.direction()
    }

    /// The heading that the player was asked to take and has not taken yet.
    pub fn next_direction(&self) -> (d: Direction)
        ensures
            d == self@.next,
    {
        self.next_direction
    }

    /// Remembers the heading that a key asks for. A key that is no arrow key
    /// changes nothing.
    pub fn set_intended_direction(&mut self, code: u32)
        ensures
            final(self)@ == old(self)@.intend(code),
    {
        match Direction::from_key_code(code) {
            Some(d) => {
                self.next_direction = d;
            },
            None => {},
        }
    }

    /// One tick of the player: it chooses its heading, then moves one step.
    pub fn update(&mut self, maze: &Maze)
        requires
            maze.wf(),
            old(self)@.pose.on_track(maze@),
        ensures
            final(self)@ == old(self)@.step(maze@),
            final(self)@.pose.on_track(maze@),
    {
        proof {
            lemma_on_track_bounds(self@.pose, maze@);
            lemma_steer_on_track(self@, maze@);
            lemma_step_on_track(self@, maze@);
            lemma_legal_step_in_range(self@.steer(maze@).pose, maze@);
        }
        if self.body.aligned() {
            proof {
                lemma_aligned_cells(self@.pose);
            }
            let (col, row) = self.body.cell();
            let mut adopted = false;
            match self.next_direction {
                Direction::Still => {},
                next => {
                    if maze.can_move_to(next, col, row) {
                        self.body.turn(next);
                        self.next_direction = Direction::Still;
                        adopted = true;
                    }
                },
            }
            if !adopted && !maze.can_move_to(self.body.direction(), col, row) {
                self.body.turn(Direction::Still);
            }
        } else {
            let back = self.body.direction().opposite();
            if self.next_direction == back {
                self.body.turn(back);
                self.next_direction = Direction::Still;
            }
        }
        assert(self@ == old(self)@.steer(maze@));
        self.body.advance();
    }
}

} // verus!
