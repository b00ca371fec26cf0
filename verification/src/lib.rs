//! A snake-style grid game: a segmented actor moves on a square grid once per
//! tick, grows when it reaches a pickup, and the round ends when it leaves the
//! grid or runs into itself.
//!
//! The crate holds the rules of the game and the in-memory side of rendering.
//! Reading keys, writing to the terminal and pacing the frames are left to the
//! program that drives it.

pub mod controller;
pub mod game;
pub mod pickup;
pub mod player;
pub mod renderer;
