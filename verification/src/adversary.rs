//! The adversaries: entities that wander the maze at random and turn round
//! only in a dead end.

use vstd::prelude::*;
use crate::body::{
    lemma_advance_on_track,
    lemma_legal_step_in_range,
    lemma_on_track_bounds,
    lemma_turn_on_track,
    Body,
    Pose,
};
use crate::direction::Direction;
use crate::maze::{Grid, Maze};
use crate::random::{lemma_unit_index_in_range, pick_index, unit_index};

verus! {

/// The four headings, in the order in which an adversary considers them.
pub open spec fn all_headings() -> Seq<Direction> {
    seq![Direction::Up, Direction::Down, Direction::Left, Direction::Right]
}

/// The headings that lead an adversary on: those that the maze allows from
/// the cell, but for turning round.
pub open spec fn leads_on(grid: Grid, heading: Direction, col: int, row: int) -> spec_fn(
    Direction,
) -> bool {
    |d: Direction| d != heading.spec_opposite() && grid.can_move(d, col, row)
}

/// The headings that lead an adversary on from the cell, in the order in
/// which it considers them.
pub open spec fn onward_moves(grid: Grid, heading: Direction, col: int, row: int) -> Seq<
    Direction,
> {
    all_headings().filter(leads_on(grid, heading, col, row))
}

/// The headings among which an adversary on a tile corner chooses: those that
/// lead it on; in a dead end, where there are none, turning round, if the maze
/// allows that; and none at all where it is walled in.
pub open spec fn candidates(grid: Grid, heading: Direction, col: int, row: int) -> Seq<Direction> {
    let onward = onward_moves(grid, heading, col, row);
    if onward.len() > 0 {
        onward
    } else if grid.can_move(heading.spec_opposite(), col, row) {
        seq![heading.spec_opposite()]
    } else {
        Seq::empty()
    }
}

/// The heading that a draw picks among the candidates; `Still` where there
/// are none.
pub open spec fn choose_heading(choices: Seq<Direction>, draw: u64) -> Direction {
    if choices.len() == 0 {
        Direction::Still
    } else {
        choices[unit_index(draw, choices.len()) as int]
    }
}

/// An adversary as a mathematical value: where it is, and the colour it is
/// drawn in.
pub struct AdversaryView {
    pub pose: Pose,
    pub color: Seq<char>,
}

impl AdversaryView {
    /// An adversary on a tile corner that has a heading to choose from needs a
    /// draw this tick.
    pub open spec fn wants_draw(self, grid: Grid) -> bool {
        self.pose.aligned() && candidates(
            grid,
            self.pose.heading,
            self.pose.col(),
            self.pose.row(),
        ).len() > 0
    }

    /// The adversary after it has chosen its heading for this tick: on a tile
    /// corner the draw picks one of the candidates, between two tiles it keeps
    /// its heading.
    pub open spec fn steer(self, grid: Grid, draw: u64) -> AdversaryView {
        let pose = self.pose;
        if pose.aligned() {
            let choices = candidates(grid, pose.heading, pose.col(), pose.row());
            AdversaryView { pose: pose.turn(choose_heading(choices, draw)), ..self }
        } else {
            self
        }
    }

    /// The adversary after one tick: it chooses its heading, then moves one step.
    pub open spec fn step(self, grid: Grid, draw: u64) -> AdversaryView {
        let steered = self.steer(grid, draw);
        AdversaryView { pose: steered.pose.advance(), ..steered }
    }
}

/// The headings that lead on out of the first `n` of the four, one heading
/// further.
proof fn lemma_filter_next(pred: spec_fn(Direction) -> bool, n: int)
    requires
        0 <= n < 4,
    ensures
        all_headings().subrange(0, n + 1).filter(pred) == if pred(all_headings()[n]) {
            all_headings().subrange(0, n).filter(pred).push(all_headings()[n])
        } else {
            all_headings().subrange(0, n).filter(pred)
        },
{
    reveal(Seq::filter);
    assert(all_headings().subrange(0, n + 1).drop_last() =~= all_headings().subrange(0, n));
}

/// Every candidate is a heading that the maze allows, and turning round is a
/// candidate only where it is the only one.
pub proof fn lemma_candidates(grid: Grid, heading: Direction, col: int, row: int)
    ensures
        candidates(grid, heading, col, row).len() <= 4,
        forall|i: int|
            0 <= i < candidates(grid, heading, col, row).len() ==> grid.can_move(
                #[trigger] candidates(grid, heading, col, row)[i],
                col,
                row,
            ),
        forall|i: int|
            0 <= i < candidates(grid, heading, col, row).len() && #[trigger] candidates(
                grid,
                heading,
                col,
                row,
            )[i] == heading.spec_opposite() ==> candidates(grid, heading, col, row) == seq![
                heading.spec_opposite(),
            ] && forall|d: Direction|
                d != heading.spec_opposite() ==> !grid.can_move(d, col, row),
        forall|d: Direction|
            grid.can_move(d, col, row) ==> candidates(grid, heading, col, row).len() > 0,
{
    let pred = leads_on(grid, heading, col, row);
    let onward = onward_moves(grid, heading, col, row);
    broadcast use vstd::seq_lib::group_filter_ensures;
    if onward.len() == 0 {
        assert forall|d: Direction| d != heading.spec_opposite() implies !grid.can_move(
            d,
            col,
            row,
        ) by {
            if grid.can_move(d, col, row) {
                let k = choose|k: int| 0 <= k < 4 && all_headings()[k] == d;
                assert(all_headings()[0] == Direction::Up);
                assert(all_headings()[1] == Direction::Down);
                assert(all_headings()[2] == Direction::Left);
                assert(all_headings()[3] == Direction::Right);
                assert(0 <= k < 4 && all_headings()[k] == d);
                assert(pred(all_headings()[k]));
                assert(onward.contains(all_headings()[k]));
            }
        }
    }
}

/// The heading chosen by any draw is a candidate, or `Still` where there is none.
pub proof fn lemma_choose_heading(choices: Seq<Direction>, draw: u64)
    ensures
        choices.len() == 0 ==> choose_heading(choices, draw) == Direction::Still,
        choices.len() > 0 ==> choices.contains(choose_heading(choices, draw)),
{
    if choices.len() > 0 {
        lemma_unit_index_in_range(draw, choices.len());
    }
}

/// Choosing a heading keeps an adversary on the track, and the heading chosen
/// is one that the maze allows.
pub proof fn lemma_steer_on_track(adversary: AdversaryView, grid: Grid, draw: u64)
    requires
        adversary.pose.on_track(grid),
    ensures
        adversary.steer(grid, draw).pose.on_track(grid),
        adversary.steer(grid, draw).pose.heading_is_legal(grid),
        adversary.steer(grid, draw).pose.x == adversary.pose.x,
        adversary.steer(grid, draw).pose.y == adversary.pose.y,
{
    let pose = adversary.pose;
    lemma_turn_on_track(pose, grid, adversary.steer(grid, draw).pose.heading);
    if pose.aligned() {
        let choices = candidates(grid, pose.heading, pose.col(), pose.row());
        lemma_candidates(grid, pose.heading, pose.col(), pose.row());
        lemma_choose_heading(choices, draw);
    }
}

/// A tick keeps an adversary on the track.
pub proof fn lemma_step_on_track(adversary: AdversaryView, grid: Grid, draw: u64)
    requires
        adversary.pose.on_track(grid),
    ensures
        adversary.step(grid, draw).pose.on_track(grid),
{
    lemma_steer_on_track(adversary, grid, draw);
    lemma_advance_on_track(adversary.steer(grid, draw).pose, grid);
}

/// An adversary of a running game.
#[derive(Debug)]
pub struct Adversary {
    body: Body,
    color: String,
}

impl View for Adversary {
    type V = AdversaryView;

    closed spec fn view(&self) -> AdversaryView {
        AdversaryView { pose: self.body@, color: self.color@ }
    }
}

/// The adversaries of a list as mathematical values.
pub open spec fn views(list: Seq<Adversary>) -> Seq<AdversaryView> {
    list.map_values(|a: Adversary| a@)
}

impl Adversary {
    /// An adversary at the given position, heading left.
    pub fn new(x: i32, y: i32, color: &str) -> (a: Adversary)
        ensures
            a@ == (AdversaryView {
                pose: Pose { x: x as int, y: y as int, heading: Direction::Left },
                color: color@,
            }),
    {
        Adversary { body: Body::new(x, y, Direction::Left), color: color.to_string() }
    }

    pub fn body(&self) -> (b: Body)
        ensures
            b@ == self@.pose,
    {
        self.body
    }

    pub fn x(&self) -> (x: i32)
        ensures
            x == self@.pose.x,
    {
        self.body.x()
    }

    pub fn y(&self) -> (y: i32)
        ensures
            y == self@.pose.y,
    {
        self.body.y()
    }

    pub fn direction(&self) -> (d: Direction)
        ensures
            d == self@.pose.heading,
    {
        self.body.direction()
    }

    pub fn color(&self) -> (c: &str)
        ensures
            c@ == self@.color,
    {
        self.color.as_str()
    }

    /// The headings that lead the adversary, on a tile corner, on: those that
    /// the maze allows, but for turning round.
    pub fn onward_moves(&self, maze: &Maze) -> (moves: Vec<Direction>)
        requires
            maze.wf(),
            self@.pose.on_track(maze@),
            self@.pose.aligned(),
        ensures
            moves@ == onward_moves(maze@, self@.pose.heading, self@.pose.col(), self@.pose.row()),
    {
        proof {
            lemma_on_track_bounds(self@.pose, maze@);
        }
        let (col, row) = self.body.cell();
        let back = self.body.direction().opposite();
        let order = [Direction::Up, Direction::Down, Direction::Left, Direction::Right];
        let ghost pred = leads_on(maze@, self@.pose.heading, col as int, row as int);
        let mut moves: Vec<Direction> = Vec::new();
        let mut i: usize = 0;
        assert(order@ =~= all_headings());
        proof {
            reveal(Seq::filter);
            assert(all_headings().subrange(0, 0) =~= Seq::<Direction>::empty());
        }
        while i < 4
            invariant
                i <= 4,
                maze.wf(),
                order@ == all_headings(),
                back == self@.pose.heading.spec_opposite(),
                pred == leads_on(maze@, self@.pose.heading, col as int, row as int),
                moves@ == all_headings().subrange(0, i as int).filter(pred),
            decreases 4 - i,
        {
            let dir = order[i];
            proof {
                lemma_filter_next(pred, i as int);
            }
            if dir != back && maze.can_move_to(dir, col, row) {
                moves.push(dir);
            }
            i = i + 1;
        }
        assert(all_headings().subrange(0, 4) =~= all_headings());
        moves
    }

    /// The headings among which the adversary, on a tile corner, chooses.
    pub fn candidates(&self, maze: &Maze) -> (choices: Vec<Direction>)
        requires
            maze.wf(),
            self@.pose.on_track(maze@),
            self@.pose.aligned(),
        ensures
            choices@ == candidates(maze@, self@.pose.heading, self@.pose.col(), self@.pose.row()),
    {
        proof {
            lemma_on_track_bounds(self@.pose, maze@);
        }
        let mut choices = self.onward_moves(maze);
        if choices.len() == 0 {
            let (col, row) = self.body.cell();
            let back = self.body.direction().opposite();
            if maze.can_move_to(back, col, row) {
                choices.push(back);
                assert(choices@ =~= seq![back]);
            }
        }
        choices
    }

    /// Whether the adversary needs a draw this tick: it is on a tile corner and
    /// has a heading to choose from.
    pub fn wants_draw(&self, maze: &Maze) -> (r: bool)
        requires
            maze.wf(),
            self@.pose.on_track(maze@),
        ensures
            r == self@.wants_draw(maze@),
    {
        self.body.aligned() && self.candidates(maze).len() > 0
    }

    /// One tick of the adversary: on a tile corner the draw picks its heading
    /// among the candidates, then it moves one step.
    pub fn update_with(&mut self, maze: &Maze, draw: u64)
        requires
            maze.wf(),
            old(self)@.pose.on_track(maze@),
        ensures
            final(self)@ == old(self)@.step(maze@, draw),
            final(self)@.pose.on_track(maze@),
    {
        proof {
            lemma_steer_on_track(self@, maze@, draw);
            lemma_step_on_track(self@, maze@, draw);
            lemma_legal_step_in_range(self@.steer(maze@, draw).pose, maze@);
        }
        if self.body.aligned() {
            let choices = self.candidates(maze);
            if choices.len() > 0 {
                let index = pick_index(draw, choices.len());
                self.body.turn(choices[index]);
            } else {
                self.body.turn(Direction::Still);
            }
        }
        assert(self@ == old(self)@.steer(maze@, draw));
        self.body.advance();
    }
}

} // verus!
