//! What holds of every game, whatever the keys pressed and the numbers drawn.
//!
//! The laws are stated over the mathematical values that the contracts of the
//! game's functions speak of, so they hold of every tick that the game makes.

use vstd::prelude::*;
use crate::adversary::{candidates, lemma_candidates, lemma_choose_heading, AdversaryView};
use crate::body::{lemma_on_track_cells_open, Pose, SPEED};
use crate::direction::Direction;
use crate::game::{draw_at, lemma_move_adversaries_wf, lemma_move_player_wf, GameView};
use crate::maze::{lemma_eat, Grid, Tile, PELLET_REWARD};
use crate::player::PlayerView;
use crate::random::lemma_unit_index_in_range;

verus! {

impl GameView {
    /// The game after one tick for each list of draws, in order.
    pub open spec fn run(self, rounds: Seq<Seq<u64>>) -> GameView
        decreases rounds.len(),
    {
        if rounds.len() == 0 {
            self
        } else {
            self.run(rounds.drop_last()).tick(rounds.last())
        }
    }
}

/// A player that ends a tick standing still has not moved in it.
pub proof fn law_still_player_stays(player: PlayerView, grid: Grid)
    requires
        player.step(grid).pose.heading == Direction::Still,
    ensures
        player.step(grid).pose.x == player.pose.x,
        player.step(grid).pose.y == player.pose.y,
{
}

/// A player that stands still on a tile corner and has been asked for nothing
/// stays as it is.
pub proof fn law_idle_player_stays(player: PlayerView, grid: Grid)
    requires
        player.pose.aligned(),
        player.pose.heading == Direction::Still,
        player.next == Direction::Still,
    ensures
        player.step(grid) == player,
{
}

/// An adversary that ends a tick standing still has not moved in it.
pub proof fn law_still_adversary_stays(adversary: AdversaryView, grid: Grid, draw: u64)
    requires
        adversary.step(grid, draw).pose.heading == Direction::Still,
    ensures
        adversary.step(grid, draw).pose.x == adversary.pose.x,
        adversary.step(grid, draw).pose.y == adversary.pose.y,
{
}

/// An adversary on a tile corner from which the maze allows no move stops
/// where it is.
pub proof fn law_walled_in_adversary_stays(adversary: AdversaryView, grid: Grid, draw: u64)
    requires
        adversary.pose.aligned(),
        forall|d: Direction| !grid.can_move(d, adversary.pose.col(), adversary.pose.row()),
    ensures
        adversary.step(grid, draw).pose == adversary.pose.turn(Direction::Still),
{
    let pose = adversary.pose;
    lemma_candidates(grid, pose.heading, pose.col(), pose.row());
    let choices = candidates(grid, pose.heading, pose.col(), pose.row());
    if choices.len() > 0 {
        assert(grid.can_move(choices[0], pose.col(), pose.row()));
    }
}

/// In a tick no entity that ends it standing still has moved.
pub proof fn law_still_entities_stay(game: GameView, draws: Seq<u64>)
    ensures
        game.tick(draws).player.pose.heading == Direction::Still ==> {
            &&& game.tick(draws).player.pose.x == game.player.pose.x
            &&& game.tick(draws).player.pose.y == game.player.pose.y
        },
        game.tick(draws).adversaries.len() == game.adversaries.len(),
        forall|i: int|
            0 <= i < game.adversaries.len() && (#[trigger] game.tick(
                draws,
            ).adversaries[i]).pose.heading == Direction::Still ==> {
                &&& game.tick(draws).adversaries[i].pose.x == game.adversaries[i].pose.x
                &&& game.tick(draws).adversaries[i].pose.y == game.adversaries[i].pose.y
            },
{
}

/// A tick keeps a game well formed.
pub proof fn law_tick_keeps_wf(game: GameView, draws: Seq<u64>)
    requires
        game.wf(),
    ensures
        game.tick(draws).wf(),
{
    if !game.game_over {
        lemma_move_player_wf(game);
        lemma_move_adversaries_wf(game.move_player(), draws);
    }
}

/// In a well formed game no entity is in a wall: the tile that holds its
/// centre, and the tile nearest to it, are open tiles of the maze.
pub proof fn law_entities_off_walls(game: GameView)
    requires
        game.wf(),
    ensures
        game.grid.open_at(game.player.pose.center_col(), game.player.pose.center_row()),
        game.grid.open_at(game.player.pose.col(), game.player.pose.row()),
        forall|i: int|
            0 <= i < game.adversaries.len() ==> {
                let pose = (#[trigger] game.adversaries[i]).pose;
                &&& game.grid.open_at(pose.center_col(), pose.center_row())
                &&& game.grid.open_at(pose.col(), pose.row())
            },
{
    lemma_on_track_cells_open(game.player.pose, game.grid);
    assert forall|i: int| 0 <= i < game.adversaries.len() implies {
        let pose = (#[trigger] game.adversaries[i]).pose;
        &&& game.grid.open_at(pose.center_col(), pose.center_row())
        &&& game.grid.open_at(pose.col(), pose.row())
    } by {
        lemma_on_track_cells_open(game.adversaries[i].pose, game.grid);
    }
}

/// However long a well formed game runs, it stays well formed, so that no
/// entity is ever in a wall.
pub proof fn law_run_keeps_wf(game: GameView, rounds: Seq<Seq<u64>>)
    requires
        game.wf(),
    ensures
        game.run(rounds).wf(),
    decreases rounds.len(),
{
    if rounds.len() > 0 {
        law_run_keeps_wf(game, rounds.drop_last());
        law_tick_keeps_wf(game.run(rounds.drop_last()), rounds.last());
    }
}

/// A pellet is eaten once: after a cell was eaten from, it holds no pellet, and
/// eating from it again changes nothing.
pub proof fn law_pellet_eaten_once(grid: Grid, col: int, row: int)
    requires
        grid.wf(),
    ensures
        !grid.eat(col, row).pellet_at(col, row),
        grid.eat(col, row).eat(col, row) == grid.eat(col, row),
{
    lemma_eat(grid, col, row);
}

/// A tick leaves the maze its size, and every tile as it was, but for a pellet
/// that it may turn into empty floor.
pub proof fn law_tick_only_eats(game: GameView, draws: Seq<u64>)
    requires
        game.wf(),
    ensures
        game.tick(draws).grid.width == game.grid.width,
        game.tick(draws).grid.height == game.grid.height,
        forall|c: int, r: int|
            game.grid.in_bounds(c, r) ==> {
                ||| #[trigger] game.tick(draws).grid.tile(c, r) == game.grid.tile(c, r)
                ||| game.grid.tile(c, r) == Tile::Pellet && game.tick(draws).grid.tile(c, r)
                    == Tile::Empty
            },
{
    if !game.game_over {
        let pose = game.player.step(game.grid).pose;
        lemma_eat(game.grid, pose.center_col(), pose.center_row());
    }
}

/// However long a game runs, a tile that is empty floor stays empty floor, and
/// a wall stays a wall.
pub proof fn law_empty_stays_empty(game: GameView, rounds: Seq<Seq<u64>>)
    requires
        game.wf(),
    ensures
        game.run(rounds).grid.width == game.grid.width,
        game.run(rounds).grid.height == game.grid.height,
        forall|c: int, r: int|
            game.grid.in_bounds(c, r) && game.grid.tile(c, r) != Tile::Pellet
                ==> #[trigger] game.run(rounds).grid.tile(c, r) == game.grid.tile(c, r),
    decreases rounds.len(),
{
    if rounds.len() > 0 {
        let earlier = game.run(rounds.drop_last());
        law_empty_stays_empty(game, rounds.drop_last());
        law_run_keeps_wf(game, rounds.drop_last());
        law_tick_only_eats(earlier, rounds.last());
        assert forall|c: int, r: int|
            game.grid.in_bounds(c, r) && game.grid.tile(c, r) != Tile::Pellet implies (
        #[trigger] game.run(rounds).grid.tile(c, r)) == game.grid.tile(c, r) by {
            assert(earlier.grid.tile(c, r) == game.grid.tile(c, r));
            assert(earlier.grid.in_bounds(c, r));
        }
    }
}

/// The score of a tick is the reward of the pellets that it ate: the score and
/// the reward of the pellets that are left add up to what they added up to
/// before.
pub proof fn law_tick_pays_for_pellets(game: GameView, draws: Seq<u64>)
    requires
        game.wf(),
    ensures
        game.tick(draws).score + PELLET_REWARD * game.tick(draws).grid.pellets() == game.score
            + PELLET_REWARD * game.grid.pellets(),
        game.tick(draws).score >= game.score,
        game.tick(draws).score == game.score || game.tick(draws).score == game.score
            + PELLET_REWARD,
{
    if !game.game_over {
        let pose = game.player.step(game.grid).pose;
        lemma_eat(game.grid, pose.center_col(), pose.center_row());
    }
}

/// However long a game runs, its score grows by the reward of each pellet
/// that was eaten, and by nothing else.
pub proof fn law_score_counts_pellets(game: GameView, rounds: Seq<Seq<u64>>)
    requires
        game.wf(),
    ensures
        game.run(rounds).grid.pellets() <= game.grid.pellets(),
        game.run(rounds).score == game.score + PELLET_REWARD * (game.grid.pellets() - game.run(
            rounds,
        ).grid.pellets()),
    decreases rounds.len(),
{
    if rounds.len() > 0 {
        law_score_counts_pellets(game, rounds.drop_last());
        law_run_keeps_wf(game, rounds.drop_last());
        law_tick_pays_for_pellets(game.run(rounds.drop_last()), rounds.last());
    }
}

/// After a tick of a game that was not over, the tile under the centre of
/// the player holds no pellet, and no tile but that one has changed.
pub proof fn law_player_eats_where_it_stands(game: GameView, draws: Seq<u64>)
    requires
        game.wf(),
        !game.game_over,
    ensures
        ({
            let after = game.tick(draws);
            let col = after.player.pose.center_col();
            let row = after.player.pose.center_row();
            &&& after.grid.open_at(col, row)
            &&& after.grid.tile(col, row) == if game.grid.tile(col, row) == Tile::Pellet {
                Tile::Empty
            } else {
                game.grid.tile(col, row)
            }
            &&& forall|c: int, r: int|
                game.grid.in_bounds(c, r) && (c != col || r != row) ==> #[trigger] after.grid.tile(
                    c,
                    r,
                ) == game.grid.tile(c, r)
        }),
{
    let after = game.tick(draws);
    let col = after.player.pose.center_col();
    let row = after.player.pose.center_row();
    lemma_move_player_wf(game);
    lemma_on_track_cells_open(after.player.pose, after.grid);
    lemma_eat(game.grid, col, row);
}

/// A game that was not over is over after a tick exactly if one of the
/// adversaries then touches the player.
pub proof fn law_game_ends_when_caught(game: GameView, draws: Seq<u64>)
    requires
        !game.game_over,
    ensures
        game.tick(draws).game_over <==> exists|i: int|
            0 <= i < game.tick(draws).adversaries.len() && game.tick(draws).player.pose.touches(
                (#[trigger] game.tick(draws).adversaries[i]).pose,
            ),
{
    let after = game.tick(draws);
    assert(after.game_over == game.move_player().caught_by(after.adversaries));
}

/// A game that is over stays exactly as it is, whatever is drawn.
pub proof fn law_over_stays_over(game: GameView, draws: Seq<u64>)
    requires
        game.game_over,
    ensures
        game.tick(draws) == game,
{
}

/// However long a game that is over runs on, it stays exactly as it is.
pub proof fn law_over_for_good(game: GameView, rounds: Seq<Seq<u64>>)
    requires
        game.game_over,
    ensures
        game.run(rounds) == game,
    decreases rounds.len(),
{
    if rounds.len() > 0 {
        law_over_for_good(game, rounds.drop_last());
    }
}

/// An adversary on a tile corner takes a heading that the maze allows, or
/// none where the maze allows none; and it turns round only where the maze
/// allows nothing else.
pub proof fn law_adversary_moves_legally(adversary: AdversaryView, grid: Grid, draw: u64)
    requires
        adversary.pose.aligned(),
    ensures
        ({
            let pose = adversary.pose;
            let taken = adversary.steer(grid, draw).pose.heading;
            &&& taken != Direction::Still ==> grid.can_move(taken, pose.col(), pose.row())
            &&& taken == Direction::Still ==> forall|d: Direction|
                !grid.can_move(d, pose.col(), pose.row())
            &&& taken != Direction::Still && taken == pose.heading.spec_opposite()
                ==> forall|d: Direction| d != taken ==> !grid.can_move(d, pose.col(), pose.row())
        }),
{
    let pose = adversary.pose;
    let choices = candidates(grid, pose.heading, pose.col(), pose.row());
    lemma_candidates(grid, pose.heading, pose.col(), pose.row());
    lemma_choose_heading(choices, draw);
}

/// Between two tiles an adversary keeps its heading.
pub proof fn law_adversary_keeps_heading(adversary: AdversaryView, grid: Grid, draw: u64)
    requires
        !adversary.pose.aligned(),
    ensures
        adversary.steer(grid, draw) == adversary,
{
}

/// A player between two tiles that is asked to turn round does so at once,
/// and its next step is a step back.
pub proof fn law_player_turns_round_at_once(player: PlayerView, grid: Grid)
    requires
        !player.pose.aligned(),
        player.next == player.pose.heading.spec_opposite(),
    ensures
        player.step(grid).pose.heading == player.next,
        player.step(grid).next == Direction::Still,
        player.step(grid).pose.x == player.pose.x + SPEED * player.next.dx(),
        player.step(grid).pose.y == player.pose.y + SPEED * player.next.dy(),
{
}

/// A player on a tile corner that is asked for a heading that the maze does
/// not allow keeps the request, and takes the heading at the first tile corner
/// where the maze allows it.
pub proof fn law_player_keeps_request(player: PlayerView, grid: Grid)
    requires
        player.pose.aligned(),
        player.next != Direction::Still,
    ensures
        !grid.can_move(player.next, player.pose.col(), player.pose.row()) ==> player.step(
            grid,
        ).next == player.next,
        grid.can_move(player.next, player.pose.col(), player.pose.row()) ==> {
            &&& player.step(grid).pose.heading == player.next
            &&& player.step(grid).next == Direction::Still
        },
{
}

/// The draw matters only to an adversary that has more than one heading to
/// choose from.
pub proof fn law_draw_matters_only_to_a_choice(
    adversary: AdversaryView,
    grid: Grid,
    draw: u64,
    other: u64,
)
    requires
        !adversary.wants_draw(grid) || candidates(
            grid,
            adversary.pose.heading,
            adversary.pose.col(),
            adversary.pose.row(),
        ).len() == 1,
    ensures
        adversary.step(grid, draw) == adversary.step(grid, other),
{
    lemma_unit_index_in_range(draw, 1);
    lemma_unit_index_in_range(other, 1);
}

/// The draws move the adversaries and decide whether the player is caught;
/// the player, the maze and the score do not depend on them.
pub proof fn law_draws_move_adversaries_only(game: GameView, draws: Seq<u64>, others: Seq<u64>)
    ensures
        game.tick(draws).player == game.tick(others).player,
        game.tick(draws).grid == game.tick(others).grid,
        game.tick(draws).score == game.tick(others).score,
{
}

/// An entity on the track stands still only on a tile corner.
pub proof fn law_only_corners_rest(pose: Pose, grid: Grid)
    requires
        pose.on_track(grid),
        pose.heading == Direction::Still,
    ensures
        pose.aligned(),
{
}

/// The adversary with the given index moves on the draw of that index.
pub proof fn law_each_adversary_has_its_draw(game: GameView, draws: Seq<u64>, i: int)
    requires
        !game.game_over,
        0 <= i < game.adversaries.len(),
    ensures
        game.tick(draws).adversaries[i] == game.adversaries[i].step(
            game.tick(draws).grid,
            draw_at(draws, i),
        ),
{
}

} // verus!
