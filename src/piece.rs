use crate::player::Player;
use std::ops::Range;
use vstd::prelude::*;

verus! {

/// The kind of a unit, which fixes all of its statistics.
#[derive(Copy, Clone, Debug, PartialEq, Eq, Structural)]
pub enum PieceType {
    Artillery,
    Convoy,
    Infantry,
    Recon,
}

impl PieceType {
    pub open spec fn spec_speed(self) -> u8 {
        match self {
            PieceType::Artillery | PieceType::Infantry => 2,
            PieceType::Convoy | PieceType::Recon => 3,
        }
    }

    pub open spec fn spec_power(self) -> u8 {
        match self {
            PieceType::Artillery | PieceType::Infantry => 2,
            PieceType::Convoy => 0,
            PieceType::Recon => 1,
        }
    }

    /// Lower (inclusive) bound of the engagement range.
    pub open spec fn spec_range_start(self) -> u8 {
        match self {
            PieceType::Artillery => 2,
            PieceType::Convoy => 0,
            PieceType::Infantry | PieceType::Recon => 1,
        }
    }

    /// Upper (exclusive) bound of the engagement range.
    pub open spec fn spec_range_end(self) -> u8 {
        match self {
            PieceType::Artillery => 4,
            PieceType::Convoy => 0,
            PieceType::Infantry | PieceType::Recon => 2,
        }
    }

    /// Whether a distance lies within the engagement range.
    pub open spec fn in_range(self, d: int) -> bool {
        self.spec_range_start() <= d < self.spec_range_end()
    }

    pub open spec fn spec_cost(self) -> u8 {
        match self {
            PieceType::Artillery | PieceType::Convoy => 3,
            PieceType::Infantry => 2,
            PieceType::Recon => 4,
        }
    }

    pub open spec fn spec_can_initiate(self) -> bool {
        self is Infantry || self is Recon
    }

    pub open spec fn spec_can_defend(self) -> bool {
        self is Infantry || self is Recon
    }

    pub open spec fn spec_can_support(self, is_attacking: bool, is_moving: bool) -> bool {
        match self {
            PieceType::Artillery => !is_moving,
            PieceType::Convoy => false,
            PieceType::Infantry => !is_moving || is_attacking,
            PieceType::Recon => true,
        }
    }

    /// How many tiles a piece of this type may move in one action.
    pub fn speed(self) -> (r: u8)
        ensures
            r == self.spec_speed(),
    {
        match self {
            PieceType::Artillery | PieceType::Infantry => 2,
            PieceType::Convoy | PieceType::Recon => 3,
        }
    }

    /// What a piece of this type adds to a battle.
    pub fn power(self) -> (r: u8)
        ensures
            r == self.spec_power(),
    {
        match self {
            PieceType::Artillery | PieceType::Infantry => 2,
            PieceType::Convoy => 0,
            PieceType::Recon => 1,
        }
    }

    /// Distances (low inclusive, high exclusive) at which a piece of this type
    /// takes part in a battle.
    pub fn range(self) -> (r: Range<u8>)
        ensures
            r.start == self.spec_range_start(),
            r.end == self.spec_range_end(),
    {
        match self {
            PieceType::Artillery => Range { start: 2, end: 4 },
            PieceType::Convoy => Range { start: 0, end: 0 },
            PieceType::Infantry | PieceType::Recon => Range { start: 1, end: 2 },
        }
    }

    /// What recruiting a piece of this type takes from the treasury.
    pub fn cost(self) -> (r: u8)
        ensures
            r == self.spec_cost(),
    {
        match self {
            PieceType::Artillery | PieceType::Convoy => 3,
            PieceType::Infantry => 2,
            PieceType::Recon => 4,
        }
    }

    pub fn can_initiate(self) -> (r: bool)
        ensures
            r == self.spec_can_initiate(),
    {
        matches!(self, PieceType::Infantry | PieceType::Recon)
    }

    pub fn can_defend(self) -> (r: bool)
        ensures
            r == self.spec_can_defend(),
    {
        matches!(self, PieceType::Infantry | PieceType::Recon)
    }

    /// Whether a piece of this type may contribute to a battle on the given
    /// side, staying put or moving.
    pub fn can_support(self, is_attacking: bool, is_moving: bool) -> (r: bool)
        ensures
            r == self.spec_can_support(is_attacking, is_moving),
    {
        match self {
            PieceType::Artillery => !is_moving,
            PieceType::Convoy => false,
            PieceType::Infantry => !is_moving || is_attacking,
            PieceType::Recon => true,
        }
    }
}

/// A unit on the board.
#[derive(Copy, Clone, Debug, PartialEq, Eq, Structural)]
pub struct Piece {
    pub kind: PieceType,
    /// Set once the piece has acted; it may not act again until resupplied.
    pub exhausted: bool,
    pub owner: Player,
}

impl Piece {
    /// A fresh piece, which starts exhausted.
    pub fn new(kind: PieceType, owner: Player) -> (r: Piece)
        ensures
            r == (Piece { kind, exhausted: true, owner }),
    {
        Piece { kind, exhausted: true, owner }
    }

    pub fn kind(self) -> (r: PieceType)
        ensures
            r == self.kind,
    {
        self.kind
    }

    pub fn exhausted(self) -> (r: bool)
        ensures
            r == self.exhausted,
    {
        self.exhausted
    }

    pub fn owner(self) -> (r: Player)
        ensures
            r == self.owner,
    {
        self.owner
    }

    pub fn speed(self) -> (r: u8)
        ensures
            r == self.kind.spec_speed(),
    {
        self.kind.speed()
    }

    pub fn power(self) -> (r: u8)
        ensures
            r == self.kind.spec_power(),
    {
        self.kind.power()
    }

    pub fn range(self) -> (r: Range<u8>)
        ensures
            r.start == self.kind.spec_range_start(),
            r.end == self.kind.spec_range_end(),
    {
        self.kind.range()
    }

    pub fn cost(self) -> (r: u8)
        ensures
            r == self.kind.spec_cost(),
    {
        self.kind.cost()
    }

    pub fn can_initiate(self) -> (r: bool)
        ensures
            r == self.kind.spec_can_initiate(),
    {
        self.kind.can_initiate()
    }

    pub fn can_defend(self) -> (r: bool)
        ensures
            r == self.kind.spec_can_defend(),
    {
        self.kind.can_defend()
    }

    pub fn can_support(self, is_attacking: bool, is_moving: bool) -> (r: bool)
        ensures
            r == self.kind.spec_can_support(is_attacking, is_moving),
    {
        self.kind.can_support(is_attacking, is_moving)
    }
}

} // verus!
