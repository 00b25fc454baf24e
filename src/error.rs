use vstd::prelude::*;

verus! {

/// Why a command was rejected.
#[derive(Copy, Clone, Debug, PartialEq, Eq, Structural)]
pub enum GameError {
    /// The address lies outside the grid.
    OutOfBounds,
    /// The address lies inside the grid, but no tile was placed there.
    NoTileAt,
    /// The destination or recruiting tile already holds a piece.
    TileOccupied,
    /// The source or target tile holds no piece.
    TileEmpty,
    /// The acting piece belongs to the other side.
    NotOwner,
    /// The acting piece has already acted.
    PieceExhausted,
    /// The move is longer than the piece's speed.
    OutOfSpeedRange,
    /// The tile is not a border tile of the acting side.
    CannotRecruitHere,
    /// The treasury holds less than the piece costs.
    InsufficientFunds,
    /// The battle's target belongs to the acting side.
    TargetNotEnemy,
    /// The target was said to defend, but its type cannot.
    TargetCannotDefend,
    /// The actor would end outside its engagement range of the target.
    ActorOutOfRange,
    /// The actor's type may not contribute in this way.
    ActorCannotSupport,
    /// Two actors of one battle (the defending target included) share an
    /// address: the same piece twice, one destination twice, or a
    /// destination where another actor's piece starts.
    ActorsOverlap,
}

} // verus!
