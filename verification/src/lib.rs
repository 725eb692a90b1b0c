//! Core rules of a two-player game on a hexagonal grid whose tiles decay.

pub mod board;
pub mod config;
pub mod control;
pub mod drag;
pub mod game_controller;
pub mod game_state;
pub mod hexcoord;
pub mod moves;
pub mod object;
pub mod outcome;
pub mod picking;
pub mod player;
pub mod screencoord;
pub mod sorting;
pub mod standard_board;
pub mod statuses;
pub mod transforms;
