use crate::coordinates::Coord;
use crate::piece::PieceType;
use vstd::prelude::*;

verus! {

/// What a player may do on their turn.
#[derive(Clone, Debug, PartialEq, Eq)]
pub enum Command {
    Move { from: Coord, to: Coord },
    Recruit { piece_type: PieceType, coord: Coord },
    Battle {
        target: Coord,
        target_is_defending: bool,
        initiator: BattleActor,
        attack_supporters: Vec<BattleActor>,
        defence_supporters: Vec<BattleActor>,
    },
    EndTurn,
}

/// A piece that lends its power to one side of a battle.
#[derive(Copy, Clone, Debug, PartialEq, Eq, Structural)]
pub enum BattleActor {
    /// Stays where it stands.
    Static { coord: Coord },
    /// Moves as a `Move` would while contributing.
    Moving { from: Coord, to: Coord },
}

impl BattleActor {
    /// Where the actor's piece stands before the battle.
    pub open spec fn source(self) -> Coord {
        match self {
            BattleActor::Static { coord } => coord,
            BattleActor::Moving { from, .. } => from,
        }
    }

    /// Where the actor's piece stands after the battle.
    pub open spec fn end(self) -> Coord {
        match self {
            BattleActor::Static { coord } => coord,
            BattleActor::Moving { to, .. } => to,
        }
    }
}

} // verus!
