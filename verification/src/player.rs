//! The sides of a match.

use vstd::prelude::*;

verus! {

/// A side of the match. `God` owns the neutral objects (tiles and walls).
#[derive(Debug, Clone, Copy, PartialEq, Eq, Hash, Structural)]
pub enum Player {
    A,
    B,
    God,
}

impl Player {
    /// Whether this side competes, that is, whether it is not `God`.
    pub open spec fn competes(self) -> bool {
        self != Player::God
    }

    /// The competing side that faces this one.
    pub open spec fn spec_opponent(self) -> Player {
        match self {
            Player::A => Player::B,
            _ => Player::A,
        }
    }

    /// The side that faces this one. Nobody opposes `God`.
    pub fn opponent(&self) -> (r: Player)
        requires
            self.competes(),
        ensures
            r == self.spec_opponent(),
            r.competes(),
            r != *self,
    {
        match self {
            Player::A => Player::B,
            _ => Player::A,
        }
    }
}

/// Opposing twice gives the side back.
pub proof fn opponent_is_involution(p: Player)
    requires
        p.competes(),
    ensures
        p.spec_opponent().spec_opponent() == p,
        p.spec_opponent().competes(),
{
}

} // verus!
