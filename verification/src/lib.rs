//! Conway's Game of Life on a torus, with a third, inert cell state (the
//! block), as an interactive session: a grid that is edited with a cursor
//! and a selection, stepped in real time, stamped with patterns, and copied
//! to and pasted from a compact text.
//!
//! The session is [`game::Game`]. What each of its commands does is stated
//! over [`state::GameState`], the session as a mathematical value. The
//! rules of the automaton are in [`life`], and the step that follows the
//! list of live cells in [`engine`]. Keys and mouse buttons become commands
//! in [`command`]. The frame is drawn by [`canvas`], [`glyphs`], [`overlay`]
//! and [`status`]; the text of a pattern is made and read by [`codec`]. The
//! clock that paces the simulation is read in [`clock`], and random fills
//! draw from [`rng`].

pub mod canvas;
pub mod cell;
pub mod clock;
pub mod codec;
pub mod command;
pub mod config;
pub mod engine;
pub mod game;
pub mod glyphs;
pub mod laws;
pub mod life;
pub mod neighbors;
pub mod overlay;
pub mod patterns;
pub mod region;
pub mod rng;
pub mod shapes;
pub mod state;
pub mod status;
pub mod torus;
