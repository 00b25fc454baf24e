use vstd::prelude::*;

verus! {

/// One of the two sides of a game.
#[derive(Copy, Clone, Debug, PartialEq, Eq, Structural)]
pub enum Player {
    P1,
    P2,
}

impl Player {
    /// The other side.
    pub open spec fn spec_opponent(self) -> Player {
        match self {
            Player::P1 => Player::P2,
            Player::P2 => Player::P1,
        }
    }

    /// Returns the other side.
    pub fn opponent(self) -> (r: Player)
        ensures
            r == self.spec_opponent(),
            r != self,
    {
        match self {
            Player::P1 => Player::P2,
            Player::P2 => Player::P1,
        }
    }
}

impl core::ops::Neg for Player {
    type Output = Player;

    /// The other side.
    fn neg(self) -> (r: Player) {
        self.opponent()
    }
}

impl vstd::std_specs::ops::NegSpecImpl for Player {
    open spec fn obeys_neg_spec() -> bool {
        true
    }

    open spec fn neg_req(self) -> bool {
        true
    }

    open spec fn neg_spec(self) -> Player {
        self.spec_opponent()
    }
}

} // verus!
