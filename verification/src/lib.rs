//! Mineplacer: minesweeper turned around. The board hides a set of mines; the
//! player places mines of their own until every cell sees as many placed mines
//! around it as hidden ones.
//!
//! The crate holds the puzzle and the way the pointer plays it:
//!
//! - [`level`] and [`query`]: the presets, and the custom level that a query
//!   string asks for;
//! - [`board`] and [`model`]: the cells, the count that a cell shows, the
//!   mines left to place, and when the game is won;
//! - [`reach`]: which games can be won at all;
//! - [`view`] and [`event`]: the buttons and the window, and what the
//!   pointer does to them;
//! - [`render`] and [`asset`]: the picture of the game as a list of sprites;
//! - [`game`] and [`tag`]: the game as a host drives it.
//!
//! Clocks, timers and the screen are the host's. The one thing the crate
//! does not decide itself is the order in which a board is dealt: that is
//! left to the generator of [`random`].

pub mod asset;
pub mod board;
pub mod event;
pub mod game;
pub mod level;
pub mod model;
pub mod query;
pub mod random;
pub mod reach;
pub mod render;
pub mod spatial;
pub mod tag;
pub mod time;
pub mod view;
