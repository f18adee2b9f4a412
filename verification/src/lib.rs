//! Core simulation of a breakout-style arcade game: a paddle deflects a
//! bouncing ball to destroy rows of colored blocks, tracking score and
//! win/lose state. The simulation is a deterministic, frame-locked state
//! transition; rendering, input and audio live outside this crate and talk to
//! it only through [`model::Game`] and its queue of requested sounds.

pub mod game;
pub mod geometry;
pub mod model;
pub mod props;

pub use geometry::is_intersect;
pub use model::Block;
pub use model::Bullet;
pub use model::Color;
pub use model::Command;
pub use model::Game;
pub use model::Player;
pub use model::Sound;
