use crate::piece::Piece;
use crate::player::Player;
use vstd::prelude::*;

verus! {

/// The terrain of a tile.
#[derive(Copy, Clone, Debug, PartialEq, Eq, Structural)]
pub enum TileType {
    Empty,
    Town,
    City,
    /// A border tile, controlled by one side.
    Border(Player),
}

/// A place on the board: its terrain and the piece standing on it, if any.
#[derive(Copy, Clone, Debug, PartialEq, Eq, Structural)]
pub struct Tile {
    pub kind: TileType,
    pub piece_option: Option<Piece>,
}

impl Tile {
    pub open spec fn spec_income_bonus(self) -> u8 {
        match self.kind {
            TileType::Empty | TileType::Border(_) => 0,
            TileType::Town => 1,
            TileType::City => 3,
        }
    }

    pub open spec fn spec_defence_bonus(self) -> u8 {
        match self.kind {
            TileType::Empty | TileType::Border(_) => 0,
            TileType::Town => 1,
            TileType::City => 2,
        }
    }

    /// Only a border tile controlled by `player` lets that player recruit.
    pub open spec fn spec_can_recruit(self, player: Player) -> bool {
        self.kind == TileType::Border(player)
    }

    pub fn income_bonus(self) -> (r: u8)
        ensures
            r == self.spec_income_bonus(),
    {
        match self.kind {
            TileType::Empty | TileType::Border(_) => 0,
            TileType::Town => 1,
            TileType::City => 3,
        }
    }

    pub fn defence_bonus(self) -> (r: u8)
        ensures
            r == self.spec_defence_bonus(),
    {
        match self.kind {
            TileType::Empty | TileType::Border(_) => 0,
            TileType::Town => 1,
            TileType::City => 2,
        }
    }

    pub fn can_recruit(self, player: Player) -> (r: bool)
        ensures
            r == self.spec_can_recruit(player),
    {
        match self.kind {
            TileType::Empty | TileType::Town | TileType::City => false,
            TileType::Border(controller) => player == controller,
        }
    }
}

} // verus!
