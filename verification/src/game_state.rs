//! The states a match goes through.

use crate::player::Player;
use vstd::prelude::*;

verus! {

/// Where a match stands. Times are in milliseconds.
#[derive(Copy, Clone, Debug, Eq, PartialEq, Structural)]
pub enum GameState {
    Editing,
    Waiting,
    Countdown { started_at: u64 },
    Playing { current_player: Player, move_start: u64, move_nr: usize },
    GameOver { winner: Player },
}

/// Whether more than `limit` has passed at `now` since `start`.
pub open spec fn spec_elapsed(start: u64, now: u64, limit: u64) -> bool {
    now - start > limit
}

/// Whether more than `limit` has passed at `now` since `start`.
pub fn elapsed(start: u64, now: u64, limit: u64) -> (r: bool)
    ensures
        r == spec_elapsed(start, now, limit),
{
    now > start && now - start > limit
}

impl GameState {
    /// While a match is played, it is the turn of one of the two sides that
    /// compete.
    pub open spec fn wf(self) -> bool {
        self matches GameState::Playing { current_player, .. } ==> current_player.competes()
    }

    /// Whether the count of moves can still grow.
    pub open spec fn can_advance(self) -> bool {
        self matches GameState::Playing { move_nr, .. } ==> move_nr < usize::MAX
    }

    pub open spec fn spec_allows_moves(self) -> bool {
        !(self is Waiting || self is Countdown)
    }

    /// The state after a move made at `now`: while a match is played the
    /// turn passes to the other side, the move's clock starts anew and the
    /// count of moves grows by one. Any other state stays.
    pub open spec fn spec_on_apply_move(self, now: u64) -> GameState {
        match self {
            GameState::Playing { current_player, move_nr, .. } => GameState::Playing {
                current_player: current_player.spec_opponent(),
                move_start: now,
                move_nr: (move_nr + 1) as usize,
            },
            _ => self,
        }
    }

    pub open spec fn spec_winner(self) -> Option<Player> {
        match self {
            GameState::GameOver { winner } => Some(winner),
            _ => None,
        }
    }

    /// The side to move: whose turn it is while a match is played, the
    /// winner when it is over, and side A before.
    pub open spec fn spec_current_player(self) -> Player {
        match self {
            GameState::Playing { current_player, .. } => current_player,
            GameState::GameOver { winner } => winner,
            _ => Player::A,
        }
    }

    pub fn allows_moves(&self) -> (r: bool)
        ensures
            r == self.spec_allows_moves(),
    {
        !matches!(self, GameState::Waiting | GameState::Countdown { .. })
    }

    pub fn on_apply_move(&self, now: u64) -> (next: GameState)
        requires
            self.wf(),
            self.can_advance(),
        ensures
            next == self.spec_on_apply_move(now),
            next.wf(),
            *self matches GameState::Playing { current_player, move_nr, .. } ==> next
                == (GameState::Playing {
                current_player: current_player.spec_opponent(),
                move_start: now,
                move_nr: (move_nr + 1) as usize,
            }) && current_player.spec_opponent() != current_player,
    {
        match self {
            GameState::Playing { current_player, move_nr, .. } => GameState::Playing {
                current_player: current_player.opponent(),
                move_start: now,
                move_nr: *move_nr + 1,
            },
            _ => *self,
        }
    }

    pub fn winner(&self) -> (r: Option<Player>)
        ensures
            r == self.spec_winner(),
    {
        if let GameState::GameOver { winner } = self {
            Some(*winner)
        } else {
            None
        }
    }
}

} // verus!
