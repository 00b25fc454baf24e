use crate::board::Board;
use vstd::prelude::*;

verus! {

/// Manhattan distance between two grid addresses.
pub open spec fn manhattan(a: Coord, b: Coord) -> int {
    let dr = a.rank - b.rank;
    let df = a.file - b.file;
    (if dr < 0 { -dr } else { dr }) + (if df < 0 { -df } else { df })
}

/// Manhattan distance, saturated to what a `u8` holds.
pub open spec fn spec_distance(a: Coord, b: Coord) -> u8 {
    if manhattan(a, b) > 255 {
        255
    } else {
        manhattan(a, b) as u8
    }
}

/// A value that names a grid address.
pub trait Coordinate: Copy + core::fmt::Debug + Default + Eq + PartialEq {
    /// The address this value names.
    spec fn spec_coord(&self) -> Coord;

    fn rank(self) -> (r: u8)
        ensures
            r == self.spec_coord().rank,
    ;

    fn file(self) -> (r: u8)
        ensures
            r == self.spec_coord().file,
    ;

    /// Number of orthogonal steps between two addresses (saturated at 255).
    fn distance(self, other: Coord) -> (r: u8)
        ensures
            r == spec_distance(self.spec_coord(), other),
    ;
}

/// A grid address: rank (row) and file (column).
#[derive(Copy, Clone, Debug, Default, PartialEq, Eq, Structural)]
pub struct Coord {
    pub rank: u8,
    pub file: u8,
}

/// `a - b` for `a >= b`, and `b - a` otherwise.
fn abs_diff(a: u8, b: u8) -> (r: u8)
    ensures
        r == (if a >= b { a - b } else { b - a }),
{
    if a >= b {
        a - b
    } else {
        b - a
    }
}

impl Coord {
    pub fn new(rank: u8, file: u8) -> (r: Coord)
        ensures
            r == (Coord { rank, file }),
    {
        Coord { rank, file }
    }

    /// The address one step away in the given direction, when it exists.
    pub open spec fn step(self, dir: int) -> Option<Coord> {
        if dir == 0 {
            if self.rank < 255 { Some(Coord { rank: (self.rank + 1) as u8, file: self.file }) } else { None }
        } else if dir == 1 {
            if self.rank > 0 { Some(Coord { rank: (self.rank - 1) as u8, file: self.file }) } else { None }
        } else if dir == 2 {
            if self.file < 255 { Some(Coord { rank: self.rank, file: (self.file + 1) as u8 }) } else { None }
        } else {
            if self.file > 0 { Some(Coord { rank: self.rank, file: (self.file - 1) as u8 }) } else { None }
        }
    }

    /// The four orthogonal neighbours (rank up, rank down, file up, file
    /// down); a step that would leave `0..=255` gives `None`.
    pub fn adjacent(self) -> (r: [Option<Coord>; 4])
        ensures
            forall|i: int| 0 <= i < 4 ==> #[trigger] r@[i] == self.step(i),
    {
        let up = if self.rank < 255 { Some(Coord { rank: self.rank + 1, file: self.file }) } else { None };
        let down = if self.rank > 0 { Some(Coord { rank: self.rank - 1, file: self.file }) } else { None };
        let right = if self.file < 255 { Some(Coord { rank: self.rank, file: self.file + 1 }) } else { None };
        let left = if self.file > 0 { Some(Coord { rank: self.rank, file: self.file - 1 }) } else { None };
        [up, down, right, left]
    }
}

impl Coordinate for Coord {
    open spec fn spec_coord(&self) -> Coord {
        *self
    }

    fn rank(self) -> (r: u8) {
        self.rank
    }

    fn file(self) -> (r: u8) {
        self.file
    }

    fn distance(self, other: Coord) -> (r: u8) {
        let dr = abs_diff(self.rank, other.rank);
        let df = abs_diff(self.file, other.file);
        dr.saturating_add(df)
    }
}


/// An address that referred to a tile of the board it was made against.
/// Nothing keeps it valid once that board changes: check it again before
/// each use.
#[derive(Copy, Clone, Debug, Default, PartialEq, Eq, Structural)]
pub struct TileCoord(Coord);

impl TileCoord {
    /// `(rank, file)`, when it holds a tile of `board`.
    pub fn new(rank: u8, file: u8, board: &Board) -> (r: Option<TileCoord>)
        requires
            board.wf(),
        ensures
            r is Some <==> board@.contains_key(Coord { rank, file }),
            r matches Some(t) ==> t.spec_coord() == (Coord { rank, file }),
    {
        TileCoord::new_from_coord(Coord::new(rank, file), board)
    }

    /// `coord`, when it holds a tile of `board`.
    pub fn new_from_coord(coord: Coord, board: &Board) -> (r: Option<TileCoord>)
        requires
            board.wf(),
        ensures
            r is Some <==> board@.contains_key(coord),
            r matches Some(t) ==> t.spec_coord() == coord,
    {
        match board.get(coord) {
            Some(_) => Some(TileCoord(coord)),
            None => None,
        }
    }

    pub fn as_coord(self) -> (r: Coord)
        ensures
            r == self.spec_coord(),
    {
        self.0
    }
}

impl Coordinate for TileCoord {
    closed spec fn spec_coord(&self) -> Coord {
        self.0
    }

    fn rank(self) -> (r: u8) {
        self.0.rank
    }

    fn file(self) -> (r: u8) {
        self.0.file
    }

    fn distance(self, other: Coord) -> (r: u8) {
        self.0.distance(other)
    }
}

/// An address that referred to a tile holding a piece on the board it was
/// made against. Nothing keeps it valid once that board changes: check it
/// again before each use.
#[derive(Copy, Clone, Debug, Default, PartialEq, Eq, Structural)]
pub struct PieceCoord(Coord);

impl PieceCoord {
    /// `(rank, file)`, when a piece of `board` stands there.
    pub fn new(rank: u8, file: u8, board: &Board) -> (r: Option<PieceCoord>)
        requires
            board.wf(),
        ensures
            r is Some <==> board.piece_at(Coord { rank, file }) is Some,
            r matches Some(t) ==> t.spec_coord() == (Coord { rank, file }),
    {
        PieceCoord::new_from_coord(Coord::new(rank, file), board)
    }

    /// `coord`, when a piece of `board` stands there.
    pub fn new_from_coord(coord: Coord, board: &Board) -> (r: Option<PieceCoord>)
        requires
            board.wf(),
        ensures
            r is Some <==> board.piece_at(coord) is Some,
            r matches Some(t) ==> t.spec_coord() == coord,
    {
        match board.get(coord) {
            Some(tile) => match tile.piece_option {
                Some(_) => Some(PieceCoord(coord)),
                None => None,
            },
            None => None,
        }
    }

    pub fn as_coord(self) -> (r: Coord)
        ensures
            r == self.spec_coord(),
    {
        self.0
    }

    pub fn as_tile_coord(self) -> (r: TileCoord)
        ensures
            r.spec_coord() == self.spec_coord(),
    {
        TileCoord(self.0)
    }
}

impl Coordinate for PieceCoord {
    closed spec fn spec_coord(&self) -> Coord {
        self.0
    }

    fn rank(self) -> (r: u8) {
        self.0.rank
    }

    fn file(self) -> (r: u8) {
        self.0.file
    }

    fn distance(self, other: Coord) -> (r: u8) {
        self.0.distance(other)
    }
}

} // verus!
