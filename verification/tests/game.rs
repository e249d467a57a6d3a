use pacman::adversary::Adversary;
use pacman::direction::Direction;
use pacman::maze::{Maze, Tile};
use pacman::player::Player;
use pacman::{Direction as RootDirection, Game};

/// A corridor of five open tiles within walls.
fn corridor() -> Maze {
    let codes: Vec<u8> = vec![
        1, 1, 1, 1, 1, 1, 1, //
        1, 0, 0, 0, 0, 0, 1, //
        1, 1, 1, 1, 1, 1, 1, //
    ];
    Maze::from_codes(7, 3, &codes).unwrap()
}

/// A ring of open tiles round a block of wall.
fn ring() -> Maze {
    let codes: Vec<u8> = vec![
        1, 1, 1, 1, 1, //
        1, 0, 0, 0, 1, //
        1, 0, 1, 0, 1, //
        1, 0, 0, 0, 1, //
        1, 1, 1, 1, 1, //
    ];
    Maze::from_codes(5, 5, &codes).unwrap()
}

fn draw(u: f64) -> u64 {
    u.to_bits()
}

fn count(maze: &Maze, tile: Tile) -> u32 {
    let mut n = 0;
    for row in 0..maze.height() {
        for col in 0..maze.width() {
            if maze.tile_at(col, row) == tile {
                n += 1;
            }
        }
    }
    n
}

/// Everything of a game that a tick could change.
fn snapshot(game: &Game) -> (Vec<(i32, i32, Direction)>, Direction, u32, bool, u32) {
    let mut bodies = vec![(game.player().x(), game.player().y(), game.player().direction())];
    for i in 0..game.adversary_count() {
        let a = game.adversary(i);
        bodies.push((a.x(), a.y(), a.direction()));
    }
    (
        bodies,
        game.player().next_direction(),
        game.score(),
        game.is_game_over(),
        count(game.maze(), Tile::Pellet),
    )
}

#[test]
fn root_names_are_those_of_the_modules() {
    assert_eq!(RootDirection::Up, Direction::Up);
}

#[test]
fn new_game_is_the_classic_one() {
    let game = Game::new();
    assert_eq!(game.score(), 0);
    assert!(!game.is_game_over());
    assert_eq!(game.width(), 448);
    assert_eq!(game.height(), 496);
    assert_eq!(game.maze().width(), 28);
    assert_eq!(game.maze().height(), 31);
    assert_eq!((game.player().x(), game.player().y()), (224, 368));
    assert_eq!(game.player().direction(), Direction::Still);
    assert_eq!(game.player().next_direction(), Direction::Still);
    assert_eq!(game.adversary_count(), 4);
    let expected = [(208, 176, "red"), (224, 176, "pink"), (208, 208, "cyan"), (224, 208, "orange")];
    for (i, (x, y, color)) in expected.iter().enumerate() {
        let adversary = game.adversary(i);
        assert_eq!((adversary.x(), adversary.y()), (*x, *y));
        assert_eq!(adversary.color(), *color);
        assert_eq!(adversary.direction(), Direction::Left);
    }
    assert_eq!(count(game.maze(), Tile::Pellet), 320);
    assert_eq!(count(game.maze(), Tile::Wall), 548);
}

#[test]
fn game_needs_its_player_on_the_track() {
    assert!(Game::assemble(corridor(), Player::at(16, 16), Vec::new()).is_some());
    assert!(Game::assemble(corridor(), Player::at(80, 16), Vec::new()).is_some());
    assert!(Game::assemble(corridor(), Player::at(0, 0), Vec::new()).is_none());
    assert!(Game::assemble(corridor(), Player::at(96, 16), Vec::new()).is_none());
    assert!(Game::assemble(corridor(), Player::at(17, 16), Vec::new()).is_none());
    // a player between two tiles would have to be heading somewhere
    assert!(Game::assemble(corridor(), Player::at(18, 16), Vec::new()).is_none());
    assert!(Game::assemble(corridor(), Player::at(-16, 16), Vec::new()).is_none());
    assert!(Game::assemble(corridor(), Player::at(16, 160), Vec::new()).is_none());
}

#[test]
fn game_needs_its_adversaries_on_the_track() {
    let good = vec![Adversary::new(32, 16, "red"), Adversary::new(34, 16, "pink")];
    let game = Game::assemble(corridor(), Player::at(16, 16), good).unwrap();
    assert_eq!(game.adversary_count(), 2);
    assert_eq!(game.adversary(1).x(), 34);
    assert_eq!(game.adversary(1).color(), "pink");
    assert_eq!(game.score(), 0);
    assert!(!game.is_game_over());
    let in_wall = vec![Adversary::new(32, 16, "red"), Adversary::new(32, 0, "pink")];
    assert!(Game::assemble(corridor(), Player::at(16, 16), in_wall).is_none());
    let off_step = vec![Adversary::new(33, 16, "red")];
    assert!(Game::assemble(corridor(), Player::at(16, 16), off_step).is_none());
    let outside = vec![Adversary::new(32, 16, "red"), Adversary::new(160, 16, "pink")];
    assert!(Game::assemble(corridor(), Player::at(16, 16), outside).is_none());
}

#[test]
fn game_starts_even_where_adversary_and_player_touch() {
    let adversaries = vec![Adversary::new(16, 16, "red")];
    let game = Game::assemble(corridor(), Player::at(16, 16), adversaries).unwrap();
    assert!(!game.is_game_over());
}

#[test]
fn set_direction_buffers_the_key() {
    let mut game = Game::new();
    game.set_direction(37);
    assert_eq!(game.player().next_direction(), Direction::Left);
    assert_eq!(game.player().direction(), Direction::Still);
    game.set_direction(1000);
    assert_eq!(game.player().next_direction(), Direction::Left);
    game.set_direction(40);
    assert_eq!(game.player().next_direction(), Direction::Down);
}

#[test]
fn first_tick_eats_the_pellet_under_the_player() {
    let mut game = Game::assemble(corridor(), Player::at(16, 16), Vec::new()).unwrap();
    assert_eq!(game.maze().tile_at(1, 1), Tile::Pellet);
    game.tick_with(&[]);
    assert_eq!(game.score(), 10);
    assert_eq!(game.maze().tile_at(1, 1), Tile::Empty);
    game.tick_with(&[]);
    assert_eq!(game.score(), 10);
    assert_eq!(game.maze().tile_at(1, 1), Tile::Empty);
    assert_eq!(count(game.maze(), Tile::Pellet), 4);
}

#[test]
fn pellet_is_eaten_when_the_centre_enters_its_tile() {
    let mut game = Game::assemble(corridor(), Player::at(16, 16), Vec::new()).unwrap();
    game.set_direction(39);
    // the centre is at x + 8: it is in tile 1 up to x = 22 and in tile 2 from x = 24
    for tick in 1..=3 {
        game.tick_with(&[]);
        assert_eq!(game.player().x(), 16 + 2 * tick);
        assert_eq!(game.score(), 10);
        assert_eq!(game.maze().tile_at(2, 1), Tile::Pellet);
    }
    game.tick_with(&[]);
    assert_eq!(game.player().x(), 24);
    assert_eq!(game.score(), 20);
    assert_eq!(game.maze().tile_at(2, 1), Tile::Empty);
    for _ in 5..=11 {
        game.tick_with(&[]);
        assert_eq!(game.score(), 20);
    }
    game.tick_with(&[]);
    assert_eq!(game.player().x(), 40);
    assert_eq!(game.score(), 30);
}

#[test]
fn score_is_ten_for_each_pellet_eaten() {
    let mut game = Game::assemble(corridor(), Player::at(16, 16), Vec::new()).unwrap();
    game.set_direction(39);
    for _ in 0..60 {
        let before = count(game.maze(), Tile::Pellet);
        let score = game.score();
        game.tick_with(&[]);
        let eaten = before - count(game.maze(), Tile::Pellet);
        assert!(eaten <= 1);
        assert_eq!(game.score(), score + 10 * eaten);
    }
    assert_eq!(game.score(), 50);
    assert_eq!(count(game.maze(), Tile::Pellet), 0);
    assert_eq!(count(game.maze(), Tile::Empty), 5);
    assert_eq!(count(game.maze(), Tile::Wall), 16);
    // back over the empty tiles: nothing more to earn
    game.set_direction(37);
    for _ in 0..60 {
        game.tick_with(&[]);
    }
    assert_eq!(game.player().x(), 16);
    assert_eq!(game.score(), 50);
    assert_eq!(count(game.maze(), Tile::Empty), 5);
}

#[test]
fn player_and_adversary_meet() {
    // sixty four units apart, closing in by four a tick
    let adversaries = vec![Adversary::new(80, 16, "red")];
    let mut game = Game::assemble(corridor(), Player::at(16, 16), adversaries).unwrap();
    game.set_direction(39);
    for tick in 1..=12 {
        game.tick_with(&[draw(0.5)]);
        assert_eq!(game.player().x(), 16 + 2 * tick);
        assert_eq!(game.adversary(0).x(), 80 - 2 * tick);
        assert!(!game.is_game_over());
    }
    // sixteen apart is too far, twelve is near enough
    game.tick_with(&[draw(0.5)]);
    assert_eq!(game.adversary(0).x() - game.player().x(), 12);
    assert!(game.is_game_over());
}

#[test]
fn adversary_catches_a_player_that_stands() {
    let adversaries = vec![Adversary::new(80, 16, "red")];
    let mut game = Game::assemble(corridor(), Player::at(16, 16), adversaries).unwrap();
    for tick in 1..=25 {
        game.tick_with(&[draw(0.0)]);
        assert_eq!(game.adversary(0).x(), 80 - 2 * tick);
        assert!(!game.is_game_over());
    }
    game.tick_with(&[draw(0.0)]);
    assert_eq!(game.adversary(0).x(), 28);
    assert!(game.is_game_over());
}

#[test]
fn game_over_is_for_good() {
    let adversaries = vec![Adversary::new(32, 16, "red"), Adversary::new(80, 16, "pink")];
    let mut game = Game::assemble(corridor(), Player::at(16, 16), adversaries).unwrap();
    game.set_direction(39);
    game.tick_with(&[draw(0.5), draw(0.5)]);
    assert!(game.is_game_over());
    let frozen = snapshot(&game);
    for round in 0..50 {
        game.tick_with(&[draw(round as f64 / 50.0), draw(0.25)]);
        assert_eq!(snapshot(&game), frozen);
    }
    game.tick();
    assert_eq!(snapshot(&game), frozen);
}

#[test]
fn later_adversaries_still_move_in_the_tick_that_ends_the_game() {
    let adversaries = vec![Adversary::new(32, 16, "red"), Adversary::new(80, 16, "pink")];
    let mut game = Game::assemble(corridor(), Player::at(16, 16), adversaries).unwrap();
    game.set_direction(39);
    game.tick_with(&[draw(0.5), draw(0.5)]);
    assert!(game.is_game_over());
    assert_eq!(game.player().x(), 18);
    assert_eq!(game.adversary(0).x(), 30);
    assert_eq!(game.adversary(1).x(), 78);
}

#[test]
fn key_press_after_the_end_is_remembered_and_not_acted_on() {
    let adversaries = vec![Adversary::new(16, 16, "red")];
    let mut game = Game::assemble(corridor(), Player::at(16, 16), adversaries).unwrap();
    game.tick_with(&[draw(0.5)]);
    assert!(game.is_game_over());
    let x = game.player().x();
    game.set_direction(39);
    assert_eq!(game.player().next_direction(), Direction::Right);
    game.tick_with(&[draw(0.5)]);
    assert_eq!(game.player().x(), x);
    assert_eq!(game.player().direction(), Direction::Still);
    assert_eq!(game.player().next_direction(), Direction::Right);
}

#[test]
fn single_candidate_is_taken_whatever_the_draw() {
    // two adversaries walk up the left side of the ring to its top left
    // corner, where the only way on is to the right
    let walk = |color: &str| {
        let maze = ring();
        let mut adversary = Adversary::new(16, 48, color);
        for _ in 0..16 {
            adversary.update_with(&maze, draw(0.0));
        }
        adversary
    };
    let adversaries = vec![walk("red"), walk("pink")];
    assert_eq!((adversaries[0].x(), adversaries[0].y()), (16, 16));
    assert_eq!(adversaries[0].direction(), Direction::Up);
    assert_eq!(adversaries[0].candidates(&ring()), vec![Direction::Right]);
    let mut game = Game::assemble(ring(), Player::at(48, 48), adversaries).unwrap();
    game.tick_with(&[draw(0.1), draw(0.9)]);
    assert_eq!(game.adversary(0).direction(), Direction::Right);
    assert_eq!(game.adversary(1).direction(), Direction::Right);
    assert_eq!((game.adversary(0).x(), game.adversary(0).y()), (18, 16));
    assert_eq!((game.adversary(1).x(), game.adversary(1).y()), (18, 16));
}

#[test]
fn draws_are_matched_to_adversaries_by_index() {
    let open: Vec<u8> = vec![0; 25];
    let maze = || Maze::from_codes(5, 5, &open).unwrap();
    // in the middle of an open field, heading left: [Up, Down, Left]
    let adversaries =
        vec![Adversary::new(32, 32, "a"), Adversary::new(32, 32, "b"), Adversary::new(32, 32, "c")];
    let mut game = Game::assemble(maze(), Player::at(0, 0), adversaries).unwrap();
    game.tick_with(&[draw(0.9), draw(0.5), draw(0.1)]);
    assert_eq!(game.adversary(0).direction(), Direction::Left);
    assert_eq!(game.adversary(1).direction(), Direction::Down);
    assert_eq!(game.adversary(2).direction(), Direction::Up);
    assert_eq!((game.adversary(0).x(), game.adversary(0).y()), (30, 32));
    assert_eq!((game.adversary(1).x(), game.adversary(1).y()), (32, 34));
    assert_eq!((game.adversary(2).x(), game.adversary(2).y()), (32, 30));
}

#[test]
fn missing_draws_count_as_zero() {
    let open: Vec<u8> = vec![0; 25];
    let maze = Maze::from_codes(5, 5, &open).unwrap();
    let adversaries = vec![Adversary::new(32, 32, "a"), Adversary::new(32, 32, "b")];
    let mut game = Game::assemble(maze, Player::at(0, 0), adversaries).unwrap();
    game.tick_with(&[draw(0.9)]);
    assert_eq!(game.adversary(0).direction(), Direction::Left);
    assert_eq!(game.adversary(1).direction(), Direction::Up);
}

#[test]
fn tick_without_a_choice_to_make_needs_no_draw() {
    // no adversary at all
    let mut alone = Game::assemble(corridor(), Player::at(16, 16), Vec::new()).unwrap();
    alone.set_direction(39);
    alone.tick();
    assert_eq!(alone.player().x(), 18);
    assert_eq!(alone.score(), 10);
    // an adversary between two tiles
    let adversaries = vec![Adversary::new(78, 16, "red")];
    let mut game = Game::assemble(corridor(), Player::at(16, 16), adversaries).unwrap();
    for tick in 1..=7 {
        game.tick();
        assert_eq!(game.adversary(0).x(), 78 - 2 * tick);
    }
}

#[test]
fn walled_in_adversary_needs_no_draw() {
    let codes: Vec<u8> = vec![
        1, 1, 1, 1, 1, //
        1, 0, 1, 0, 1, //
        1, 1, 1, 1, 1, //
    ];
    let maze = Maze::from_codes(5, 3, &codes).unwrap();
    let adversaries = vec![Adversary::new(48, 16, "red")];
    let mut game = Game::assemble(maze, Player::at(16, 16), adversaries).unwrap();
    game.tick();
    assert_eq!(game.adversary(0).direction(), Direction::Still);
    assert_eq!(game.adversary(0).x(), 48);
    assert_eq!(game.score(), 10);
    assert!(!game.is_game_over());
}

#[test]
fn no_entity_ever_enters_a_wall() {
    let mut game = Game::new();
    let keys = [37u32, 38, 39, 40, 65];
    let mut seed: u64 = 2024;
    let mut next = move || {
        seed = seed.wrapping_mul(6364136223846793005).wrapping_add(1442695040888963407);
        seed >> 11
    };
    let pellets = count(game.maze(), Tile::Pellet);
    for tick in 0..4000 {
        if tick % 5 == 0 {
            game.set_direction(keys[(next() % 5) as usize]);
        }
        let draws: Vec<u64> = (0..4).map(|_| draw(next() as f64 / (1u64 << 53) as f64)).collect();
        let over = game.is_game_over();
        let before = snapshot(&game);
        game.tick_with(&draws);
        if over {
            assert_eq!(snapshot(&game), before);
        }
        let mut bodies = vec![game.player().body()];
        for i in 0..game.adversary_count() {
            bodies.push(game.adversary(i).body());
        }
        for body in bodies {
            assert!(body.is_on_track(game.maze()));
            let col = ((body.x() + 8) / 16) as usize;
            let row = ((body.y() + 8) / 16) as usize;
            assert!(game.maze().in_bounds(col, row));
            assert_ne!(game.maze().tile_at(col, row), Tile::Wall);
            if body.direction() == Direction::Still {
                assert!(body.aligned());
            }
        }
        assert_eq!(game.score(), 10 * (pellets - count(game.maze(), Tile::Pellet)));
        assert_eq!(count(game.maze(), Tile::Wall), 548);
    }
}

#[test]
fn still_entities_do_not_move() {
    let mut game = Game::new();
    // the player of a new game has a wall above: asked to go up, it stays
    game.set_direction(38);
    for _ in 0..10 {
        let draws = [draw(0.3), draw(0.6), draw(0.1), draw(0.8)];
        game.tick_with(&draws);
        assert_eq!(game.player().direction(), Direction::Still);
        assert_eq!((game.player().x(), game.player().y()), (224, 368));
        assert_eq!(game.player().next_direction(), Direction::Up);
    }
}
