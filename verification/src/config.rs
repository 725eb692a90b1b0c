//! The rules and timings that a match is played by.

use crate::player::Player;
use vstd::prelude::*;

verus! {

/// The rules and timings of a match. Times are in milliseconds.
#[derive(Debug, Clone, Copy)]
pub struct Config {
    pub starting_player: Player,
    pub game_start_countdown: u64,
    pub play_move_timeout: u64,
    pub move_application_time: u64,
    pub kill_duration: u64,
    /// whether a dasher slides on over cells that have no tile
    pub dasher_can_fly: bool,
}

impl Config {
    /// The side that starts is one of the two that compete.
    pub open spec fn wf(self) -> bool {
        self.starting_player.competes()
    }

    pub open spec fn spec_default() -> Config {
        Config {
            starting_player: Player::A,
            game_start_countdown: 2500,
            play_move_timeout: 5000,
            move_application_time: 250,
            kill_duration: 400,
            dasher_can_fly: false,
        }
    }
}

impl Default for Config {
    fn default() -> (c: Config)
        ensures
            c == Config::spec_default(),
            c.wf(),
    {
        Config {
            starting_player: Player::A,
            game_start_countdown: 2500,
            play_move_timeout: 5000,
            move_application_time: 250,
            kill_duration: 400,
            dasher_can_fly: false,
        }
    }
}

/// The timings of a match and the side that starts it.
#[derive(Debug, Clone, Copy)]
pub struct GameSettings {
    pub play_move_timeout: u64,
    pub game_start_countdown: u64,
    pub starting_player: Player,
}

impl Default for GameSettings {
    fn default() -> (s: GameSettings)
        ensures
            s.play_move_timeout == Config::spec_default().play_move_timeout,
            s.game_start_countdown == Config::spec_default().game_start_countdown,
            s.starting_player == Player::A,
    {
        let conf = Config::default();
        GameSettings {
            play_move_timeout: conf.play_move_timeout,
            game_start_countdown: conf.game_start_countdown,
            starting_player: Player::A,
        }
    }
}

} // verus!
