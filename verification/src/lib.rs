//! The simulation core of a maze-chase arcade game.
//!
//! A player walks a tile maze and eats pellets while adversaries wander it at
//! random; touching one ends the game. The library advances a game tick by
//! tick and answers what a front end needs to draw it; drawing, input and
//! pacing are the front end's business.
//!
//! Positions are whole units. Every entity starts on a tile corner and moves
//! a fixed number of units per tick, so an entity is on a tile corner exactly
//! when both coordinates are multiples of the tile size.
//!
//! Each type has a mathematical value, its view, and the contracts of the
//! functions are stated over these values:
//!
//! - `direction`: the headings, and the keys and swipes that ask for them;
//! - `maze`: the tiles, and which moves the walls allow;
//! - `body`: position and heading, and the track that the walls leave;
//! - `random`: random draws, and how a draw picks among choices;
//! - `player` and `adversary`: how each chooses its heading and moves;
//! - `game`: a tick of the whole game;
//! - `classic`: the game that every player starts with;
//! - `laws`: what holds of every game, whatever is pressed and drawn.

pub mod direction;
pub mod maze;
pub mod body;
pub mod random;
pub mod player;
pub mod adversary;
pub mod game;
pub mod classic;
pub mod laws;

pub use crate::direction::Direction;
pub use crate::game::Game;
