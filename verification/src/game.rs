//! A game in progress: the maze, the player, the adversaries, the score, and
//! whether the game is over.

use vstd::prelude::*;
use crate::adversary::{views, Adversary, AdversaryView};
use crate::body::{lemma_on_track_bounds, lemma_on_track_same_walls, Body};
use crate::maze::{lemma_count_pellets_bound, lemma_eat, Grid, Maze, PELLET_REWARD, TILE_SIZE};
use crate::player::{Player, PlayerView};
use crate::random::{is_unit, random_unit_bits};

verus! {

/// A game as a mathematical value.
pub struct GameView {
    pub grid: Grid,
    pub player: PlayerView,
    pub adversaries: Seq<AdversaryView>,
    pub score: nat,
    pub game_over: bool,
}

/// The draw for the adversary with the given index: its place in the list of
/// draws, or 0 where the list is too short.
pub open spec fn draw_at(draws: Seq<u64>, i: int) -> u64 {
    if 0 <= i < draws.len() {
        draws[i]
    } else {
        0
    }
}

impl GameView {
    /// The player and every adversary are on the track of the maze.
    pub open spec fn on_track(self) -> bool {
        &&& self.player.pose.on_track(self.grid)
        &&& forall|i: int|
            0 <= i < self.adversaries.len() ==> (#[trigger] self.adversaries[i]).pose.on_track(
                self.grid,
            )
    }

    /// The maze is well formed, every entity is on the track, and the score has
    /// room for the reward of every pellet that is left.
    pub open spec fn wf(self) -> bool {
        &&& self.grid.wf()
        &&& self.on_track()
        &&& self.score + PELLET_REWARD * self.grid.pellets() <= u32::MAX
    }

    /// A game that starts: nothing scored, not over.
    pub open spec fn opening(
        grid: Grid,
        player: PlayerView,
        adversaries: Seq<AdversaryView>,
    ) -> GameView {
        GameView { grid, player, adversaries, score: 0, game_over: false }
    }

    /// The game after a key press.
    pub open spec fn intend(self, code: u32) -> GameView {
        GameView { player: self.player.intend(code), ..self }
    }

    /// The game after the pellet under the centre of the player, if there is
    /// one, was eaten and paid for.
    pub open spec fn eat_pellet(self) -> GameView {
        let col = self.player.pose.center_col();
        let row = self.player.pose.center_row();
        GameView {
            grid: self.grid.eat(col, row),
            score: if self.grid.pellet_at(col, row) {
                self.score + PELLET_REWARD as nat
            } else {
                self.score
            },
            ..self
        }
    }

    /// The game after the player has moved and eaten.
    pub open spec fn move_player(self) -> GameView {
        (GameView { player: self.player.step(self.grid), ..self }).eat_pellet()
    }

    /// The adversaries after each has moved, the one with index `i` on the draw
    /// for `i`.
    pub open spec fn moved_adversaries(self, draws: Seq<u64>) -> Seq<AdversaryView> {
        Seq::new(
            self.adversaries.len(),
            |i: int| self.adversaries[i].step(self.grid, draw_at(draws, i)),
        )
    }

    /// Whether the player touches one of the given adversaries.
    pub open spec fn caught_by(self, adversaries: Seq<AdversaryView>) -> bool {
        exists|i: int|
            0 <= i < adversaries.len() && self.player.pose.touches(
                (#[trigger] adversaries[i]).pose,
            )
    }

    /// The game after the adversaries have moved: it is over if one of them
    /// then touches the player.
    pub open spec fn move_adversaries(self, draws: Seq<u64>) -> GameView {
        let adversaries = self.moved_adversaries(draws);
        GameView { adversaries, game_over: self.game_over || self.caught_by(adversaries), ..self }
    }

    /// The game one tick later. A game that is over stays as it is. Otherwise
    /// the player moves and eats, then the adversaries move.
    pub open spec fn tick(self, draws: Seq<u64>) -> GameView {
        if self.game_over {
            self
        } else {
            self.move_player().move_adversaries(draws)
        }
    }
}

/// Moving and eating keeps a game well formed.
pub proof fn lemma_move_player_wf(game: GameView)
    requires
        game.wf(),
    ensures
        game.move_player().wf(),
        game.move_player().adversaries == game.adversaries,
        game.move_player().game_over == game.game_over,
{
    crate::player::lemma_step_on_track(game.player, game.grid);
    let moved = GameView { player: game.player.step(game.grid), ..game };
    lemma_eat(game.grid, moved.player.pose.center_col(), moved.player.pose.center_row());
    let after = game.move_player();
    lemma_on_track_same_walls(after.player.pose, game.grid, after.grid);
    assert forall|i: int| 0 <= i < after.adversaries.len() implies (
    #[trigger] after.adversaries[i]).pose.on_track(after.grid) by {
        assert(game.adversaries[i].pose.on_track(game.grid));
        lemma_on_track_same_walls(game.adversaries[i].pose, game.grid, after.grid);
    }
}

/// The adversaries' move keeps a game well formed.
pub proof fn lemma_move_adversaries_wf(game: GameView, draws: Seq<u64>)
    requires
        game.wf(),
    ensures
        game.move_adversaries(draws).wf(),
{
    let after = game.move_adversaries(draws);
    assert forall|i: int| 0 <= i < after.adversaries.len() implies (
    #[trigger] after.adversaries[i]).pose.on_track(after.grid) by {
        assert(game.adversaries[i].pose.on_track(game.grid));
        crate::adversary::lemma_step_on_track(game.adversaries[i], game.grid, draw_at(draws, i));
    }
}

/// A game in progress.
pub struct Game {
    maze: Maze,
    player: Player,
    adversaries: Vec<Adversary>,
    score: u32,
    game_over: bool,
}

impl View for Game {
    type V = GameView;

    closed spec fn view(&self) -> GameView {
        GameView {
            grid: self.maze@,
            player: self.player@,
            adversaries: views(self.adversaries@),
            score: self.score as nat,
            game_over: self.game_over,
        }
    }
}

impl Game {
    pub open spec fn wf(&self) -> bool {
        self@.wf()
    }

    /// A new game in the given maze, with the given player and adversaries.
    /// There is no game where one of them is not on the track of the maze.
    pub fn assemble(maze: Maze, player: Player, adversaries: Vec<Adversary>) -> (r: Option<Game>)
        requires
            maze.wf(),
        ensures
            r.is_some() <==> GameView::opening(
                maze@,
                player@,
                views(adversaries@),
            ).on_track(),
            r matches Some(g) ==> g.wf() && g@ == GameView::opening(
                maze@,
                player@,
                views(adversaries@),
            ),
    {
        let ghost seen = views(adversaries@);
        proof {
            lemma_count_pellets_bound(maze@.cells);
        }
        if !player.body().is_on_track(&maze) {
            return None;
        }
        let n: usize = adversaries.len();
        let mut i: usize = 0;
        while i < n
            invariant
                i <= n,
                n == adversaries@.len(),
                maze.wf(),
                seen == views(adversaries@),
                forall|j: int| 0 <= j < i ==> (#[trigger] seen[j]).pose.on_track(maze@),
            decreases n - i,
        {
            if !adversaries[i].body().is_on_track(&maze) {
                assert(!seen[i as int].pose.on_track(maze@));
                return None;
            }
            i = i + 1;
        }
        Some(Game { maze, player, adversaries, score: 0, game_over: false })
    }

    pub fn maze(&self) -> (m: &Maze)
        ensures
            m@ == self@.grid,
    {
        &self.maze
    }

    pub fn player(&self) -> (p: &Player)
        ensures
            p@ == self@.player,
    {
        &self.player
    }

    pub fn adversary_count(&self) -> (n: usize)
        ensures
            n == self@.adversaries.len(),
    {
        self.adversaries.len()
    }

    pub fn adversary(&self, i: usize) -> (a: &Adversary)
        requires
            i < self@.adversaries.len(),
        ensures
            a@ == self@.adversaries[i as int],
    {
        &self.adversaries[i]
    }

    pub fn score(&self) -> (s: u32)
        ensures
            s == self@.score,
    {
        self.score
    }

    pub fn is_game_over(&self) -> (over: bool)
        ensures
            over == self@.game_over,
    {
        self.game_over
    }

    /// The width of the maze in position units.
    pub fn width(&self) -> (w: u32)
        requires
            self.wf(),
        ensures
            w == self@.grid.width * TILE_SIZE,
    {
        (self.maze.width() as u32) * (TILE_SIZE as u32)
    }

    /// The height of the maze in position units.
    pub fn height(&self) -> (h: u32)
        requires
            self.wf(),
        ensures
            h == self@.grid.height * TILE_SIZE,
    {
        (self.maze.height() as u32) * (TILE_SIZE as u32)
    }

    /// Hands a key press to the player. A key that is no arrow key changes
    /// nothing.
    pub fn set_direction(&mut self, dir_code: u32)
        ensures
            final(self)@ == old(self)@.intend(dir_code),
            old(self).wf() ==> final(self).wf(),
    {
        self.player.set_intended_direction(dir_code);
    }

    /// Eats the pellet under the centre of the player, if there is one, and
    /// adds its reward to the score.
    fn check_pellet_collision(&mut self)
        requires
            old(self).wf(),
        ensures
            final(self)@ == old(self)@.eat_pellet(),
            final(self).wf(),
    {
        proof {
            lemma_on_track_bounds(self@.player.pose, self@.grid);
            lemma_eat(self@.grid, self@.player.pose.center_col(), self@.player.pose.center_row());
        }
        let (col, row) = self.player.body().center_cell();
        if self.maze.consume_pellet(col, row) {
            self.score = self.score + PELLET_REWARD;
        }
        proof {
            let before = old(self)@;
            let after = self@;
            lemma_on_track_same_walls(after.player.pose, before.grid, after.grid);
            assert forall|i: int| 0 <= i < after.adversaries.len() implies (
            #[trigger] after.adversaries[i]).pose.on_track(after.grid) by {
                assert(before.adversaries[i].pose.on_track(before.grid));
                lemma_on_track_same_walls(before.adversaries[i].pose, before.grid, after.grid);
            }
        }
    }

    /// One tick of the game, with a draw for each adversary: the adversary with
    /// index `i` chooses on `draws[i]`, and on 0 where the list is too short.
    /// A game that is over stays as it is.
    pub fn tick_with(&mut self, draws: &[u64])
        requires
            old(self).wf(),
        ensures
            final(self).wf(),
            final(self)@ == old(self)@.tick(draws@),
            old(self)@.game_over ==> final(self)@ == old(self)@,
    {
        if self.game_over {
            return;
        }
        proof {
            lemma_move_player_wf(self@);
            lemma_move_adversaries_wf(self@.move_player(), draws@);
        }
        self.player.update(&self.maze);
        self.check_pellet_collision();
        let ghost before = self@;
        proof {
            assert forall|i: int| 0 <= i < self.adversaries@.len() implies (
            #[trigger] self.adversaries@[i])@.pose.on_track(self.maze@) by {
                assert(before.adversaries[i].pose.on_track(before.grid));
            }
        }
        let player = self.player.body();
        let caught = step_all(&mut self.adversaries, &self.maze, &player, draws);
        if caught {
            self.game_over = true;
        }
        proof {
            let moved = before.moved_adversaries(draws@);
            assert(self@.adversaries =~= moved);
            if caught {
                let k = choose|k: int|
                    0 <= k < self.adversaries@.len() && player@.touches(
                        (#[trigger] self.adversaries@[k])@.pose,
                    );
                assert(before.player.pose.touches(moved[k].pose));
            }
            if before.caught_by(moved) {
                let k = choose|k: int|
                    0 <= k < moved.len() && before.player.pose.touches((#[trigger] moved[k]).pose);
                assert(player@.touches(self.adversaries@[k]@.pose));
            }
        }
    }

    /// The draws of one tick: one from the host's random number generator for
    /// each adversary that has a heading to choose, and 0 for the others.
    fn draw_for_each(&self) -> (draws: Vec<u64>)
        requires
            self.wf(),
        ensures
            draws@.len() == self@.adversaries.len(),
            forall|i: int| 0 <= i < draws@.len() ==> is_unit(#[trigger] draws@[i]),
            forall|i: int|
                0 <= i < draws@.len() && !self@.adversaries[i].wants_draw(self@.grid)
                    ==> #[trigger] draws@[i] == 0,
    {
        let n: usize = self.adversaries.len();
        let mut draws: Vec<u64> = Vec::new();
        let mut i: usize = 0;
        while i < n
            invariant
                i <= n,
                n == self.adversaries@.len(),
                self.wf(),
                draws@.len() == i,
                forall|j: int| 0 <= j < i ==> is_unit(#[trigger] draws@[j]),
                forall|j: int|
                    0 <= j < i && !self@.adversaries[j].wants_draw(self@.grid)
                        ==> #[trigger] draws@[j] == 0,
            decreases n - i,
        {
            assert(self@.adversaries[i as int].pose.on_track(self@.grid));
            let draw: u64 = if self.adversaries[i].wants_draw(&self.maze) {
                random_unit_bits()
            } else {
                0
            };
            draws.push(draw);
            i = i + 1;
        }
        draws
    }

    /// One tick of the game, in which each adversary that has a heading to
    /// choose draws from the host's random number generator. What the game
    /// is afterwards depends on the draws; it is what `tick_with` makes of it
    /// for some list of draws of numbers from 0 up to, but not including, 1,
    /// one for each adversary, and 0 for each that has nothing to choose.
    /// A game that is over stays as it is, and nothing is drawn.
    pub fn tick(&mut self)
        requires
            old(self).wf(),
        ensures
            final(self).wf(),
            old(self)@.game_over ==> final(self)@ == old(self)@,
            exists|draws: Seq<u64>|
                {
                    &&& draws.len() == old(self)@.adversaries.len()
                    &&& forall|i: int| 0 <= i < draws.len() ==> is_unit(#[trigger] draws[i])
                    &&& forall|i: int|
                        0 <= i < draws.len() && !old(self)@.adversaries[i].wants_draw(
                            old(self)@.grid,
                        ) ==> #[trigger] draws[i] == 0
                    &&& final(self)@ == old(self)@.tick(draws)
                },
    {
        if self.game_over {
            let ghost zeros = Seq::new(self@.adversaries.len(), |i: int| 0u64);
            assert(self@ == old(self)@.tick(zeros));
            return;
        }
        let draws = self.draw_for_each();
        self.tick_with(draws.as_slice());
        assert(self@ == old(self)@.tick(draws@));
    }
}

/// Moves every adversary one tick, the one with index `i` on the draw for `i`,
/// and says whether one of them then touches the player.
fn step_all(adversaries: &mut Vec<Adversary>, maze: &Maze, player: &Body, draws: &[u64]) -> (caught:
    bool)
    requires
        maze.wf(),
        forall|i: int|
            0 <= i < old(adversaries)@.len() ==> (#[trigger] old(adversaries)@[i])@.pose.on_track(
                maze@,
            ),
    ensures
        final(adversaries)@.len() == old(adversaries)@.len(),
        forall|i: int|
            0 <= i < old(adversaries)@.len() ==> (#[trigger] final(adversaries)@[i])@ == old(
                adversaries,
            )@[i]@.step(maze@, draw_at(draws@, i)),
        caught <==> exists|i: int|
            0 <= i < final(adversaries)@.len() && player@.touches(
                (#[trigger] final(adversaries)@[i])@.pose,
            ),
{
    let n: usize = adversaries.len();
    let mut caught = false;
    let mut i: usize = 0;
    while i < n
        invariant
            i <= n,
            n == old(adversaries)@.len(),
            adversaries@.len() == n,
            maze.wf(),
            forall|j: int|
                0 <= j < n ==> (#[trigger] old(adversaries)@[j])@.pose.on_track(maze@),
            forall|j: int|
                0 <= j < i ==> (#[trigger] adversaries@[j])@ == old(adversaries)@[j]@.step(
                    maze@,
                    draw_at(draws@, j),
                ),
            forall|j: int| i <= j < n ==> #[trigger] adversaries@[j] == old(adversaries)@[j],
            caught <==> exists|j: int|
                0 <= j < i && player@.touches((#[trigger] adversaries@[j])@.pose),
        decreases n - i,
    {
        let draw: u64 = if i < draws.len() {
            draws[i]
        } else {
            0
        };
        let ghost earlier = adversaries@;
        assert(old(adversaries)@[i as int]@.pose.on_track(maze@));
        adversaries[i].update_with(maze, draw);
        let touched = player.touches(&adversaries[i].body());
        proof {
            let now = adversaries@;
            assert(forall|j: int| 0 <= j < n && j != i ==> now[j] == earlier[j]);
            if caught {
                let k = choose|k: int|
                    0 <= k < i && player@.touches((#[trigger] earlier[k])@.pose);
                assert(player@.touches(now[k]@.pose));
            }
            if touched {
                assert(player@.touches(now[i as int]@.pose));
            }
            if exists|j: int| 0 <= j < i + 1 && player@.touches((#[trigger] now[j])@.pose) {
                let k = choose|k: int|
                    0 <= k < i + 1 && player@.touches((#[trigger] now[k])@.pose);
                if k < i {
                    assert(player@.touches(earlier[k]@.pose));
                }
            }
        }
        if touched {
            caught = true;
        }
        i = i + 1;
    }
    caught
}

} // verus!
