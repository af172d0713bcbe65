//! Core simulation of a toroidal grid-maze chase game: the maze grid with
//! its passability rules and pickup consumption, the continuous-within-discrete
//! movement automaton shared by the player and the pursuing ghosts, the
//! per-personality ghost targeting heuristics, and the per-tick orchestration
//! that ties them together.
//!
//! All positions are discrete grid cells plus a fractional `progress` towards
//! the next cell, kept in fixed-point milli-cell units so that every movement
//! rule is exact integer arithmetic. Rendering, audio and input live outside
//! this crate; they consume the draw-position and event queries exposed here.

pub mod actor;
pub mod config;
pub mod game_logic;
pub mod ghost;
pub mod maze;
