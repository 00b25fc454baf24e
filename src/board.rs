use crate::coordinates::Coord;
use crate::piece::Piece;
use crate::tile::Tile;
use vstd::prelude::*;

verus! {

/// `r * files + f` is a distinct position below `ranks * files` for each
/// address inside a `ranks` by `files` grid.
pub proof fn lemma_cell_index(ranks: int, files: int, r1: int, f1: int, r2: int, f2: int)
    requires
        0 <= r1 < ranks,
        0 <= f1 < files,
        0 <= r2 < ranks,
        0 <= f2 < files,
    ensures
        0 <= r1 * files + f1 < ranks * files,
        (r1 * files + f1 == r2 * files + f2) ==> (r1 == r2 && f1 == f2),
{
    assert(0 <= r1 * files + f1 < ranks * files) by (nonlinear_arith)
        requires
            0 <= r1 < ranks,
            0 <= f1 < files,
    ;
    if r1 < r2 {
        assert(r1 * files + f1 < r2 * files + f2) by (nonlinear_arith)
            requires
                0 <= r1 < r2,
                0 <= f1 < files,
                0 <= f2,
        ;
    } else if r2 < r1 {
        assert(r2 * files + f2 < r1 * files + f1) by (nonlinear_arith)
            requires
                0 <= r2 < r1,
                0 <= f2 < files,
                0 <= f1,
        ;
    }
}

/// The tiles among `cells`, in order.
pub open spec fn tiles_of(cells: Seq<Option<Tile>>) -> Seq<Tile>
    decreases cells.len(),
{
    if cells.len() == 0 {
        Seq::empty()
    } else {
        let s = tiles_of(cells.drop_last());
        match cells.last() {
            Some(t) => s.push(t),
            None => s,
        }
    }
}

/// An element of `a + b` is an element of `a` or of `b`.
proof fn lemma_concat_contains(a: Seq<Coord>, b: Seq<Coord>, x: Coord)
    ensures
        (a + b).contains(x) <==> a.contains(x) || b.contains(x),
{
    if a.contains(x) {
        let i = choose|i: int| 0 <= i < a.len() && a[i] == x;
        assert((a + b)[i] == x);
    }
    if b.contains(x) {
        let i = choose|i: int| 0 <= i < b.len() && b[i] == x;
        assert((a + b)[a.len() + i] == x);
    }
    if (a + b).contains(x) {
        let i = choose|i: int| 0 <= i < (a + b).len() && (a + b)[i] == x;
        if i < a.len() {
            assert(a[i] == x);
        } else {
            assert(b[i - a.len()] == x);
        }
    }
}

/// An element of `s.push(y)` is `y` or an element of `s`.
proof fn lemma_push_contains(s: Seq<Coord>, y: Coord, x: Coord)
    ensures
        s.push(y).contains(x) <==> s.contains(x) || x == y,
{
    lemma_concat_contains(s, seq![y], x);
    assert(s.push(y) =~= s + seq![y]);
    if x == y {
        assert(seq![y][0] == x);
    }
}

/// A grid of at most 255 by 255 addresses has at most 65025 of them.
proof fn lemma_grid_size(ranks: u8, files: u8)
    ensures
        ranks * files <= 65025,
{
    assert(ranks * files <= 255 * 255) by (nonlinear_arith)
        requires
            ranks <= 255,
            files <= 255,
    ;
}

/// A rectangular grid of `ranks` by `files` addresses, each holding a tile or
/// nothing (outside the playable area).
#[derive(Clone, Debug, PartialEq, Eq)]
pub struct Board {
    /// The cells, rank after rank.
    map: Vec<Option<Tile>>,
    ranks: u8,
    files: u8,
}

impl Board {
    pub closed spec fn spec_ranks(&self) -> u8 {
        self.ranks
    }

    pub closed spec fn spec_files(&self) -> u8 {
        self.files
    }

    /// The cells, rank after rank.
    pub closed spec fn cells(&self) -> Seq<Option<Tile>> {
        self.map@
    }

    /// The grid holds exactly one cell per address.
    pub open spec fn wf(&self) -> bool {
        self.cells().len() == self.spec_ranks() * self.spec_files()
    }

    pub open spec fn in_bounds(&self, c: Coord) -> bool {
        c.rank < self.spec_ranks() && c.file < self.spec_files()
    }

    /// Position of an address among the cells.
    pub open spec fn cell_index(&self, c: Coord) -> int {
        c.rank * self.spec_files() + c.file
    }

    /// The tile at `c`; `None` outside the grid or where no tile was placed.
    pub open spec fn tile_at(&self, c: Coord) -> Option<Tile> {
        if self.in_bounds(c) {
            self.cells()[self.cell_index(c)]
        } else {
            None
        }
    }

    /// The piece at `c`, if there is a tile holding one.
    pub open spec fn piece_at(&self, c: Coord) -> Option<Piece> {
        match self.tile_at(c) {
            Some(t) => t.piece_option,
            None => None,
        }
    }

    /// The two boards have the same dimensions.
    pub open spec fn same_shape(&self, other: &Board) -> bool {
        self.spec_ranks() == other.spec_ranks() && self.spec_files() == other.spec_files()
    }

    /// The empty board, with no address at all.
    pub fn new() -> (r: Board)
        ensures
            r.wf(),
            r.spec_ranks() == 0,
            r.spec_files() == 0,
            r@ == Map::<Coord, Tile>::empty(),
    {
        let r = Board { map: Vec::new(), ranks: 0, files: 0 };
        assert(r@ =~= Map::<Coord, Tile>::empty());
        r
    }

    /// A board of `ranks` by `files` addresses whose cells, rank after rank,
    /// are `tiles`; `None` when `tiles` does not hold one cell per address.
    pub fn from_tiles(ranks: u8, files: u8, tiles: Vec<Option<Tile>>) -> (r: Option<Board>)
        ensures
            r is Some <==> tiles@.len() == ranks * files,
            r matches Some(b) ==> {
                &&& b.wf()
                &&& b.spec_ranks() == ranks
                &&& b.spec_files() == files
                &&& b.cells() == tiles@
            },
    {
        proof {
            lemma_grid_size(ranks, files);
        }
        let n: usize = ranks as usize * files as usize;
        if tiles.len() == n {
            Some(Board { map: tiles, ranks, files })
        } else {
            None
        }
    }

    pub fn ranks(&self) -> (r: u8)
        ensures
            r == self.spec_ranks(),
    {
        self.ranks
    }

    pub fn files(&self) -> (r: u8)
        ensures
            r == self.spec_files(),
    {
        self.files
    }

    /// The address `(rank, file)`, when it lies inside the grid.
    pub fn new_coord(&self, rank: u8, file: u8) -> (r: Option<Coord>)
        ensures
            r is Some <==> self.in_bounds(Coord { rank, file }),
            r matches Some(c) ==> c == (Coord { rank, file }),
    {
        if rank < self.ranks && file < self.files {
            Some(Coord { rank, file })
        } else {
            None
        }
    }

    pub fn coord_in_bounds(&self, coord: Coord) -> (r: bool)
        ensures
            r == self.in_bounds(coord),
    {
        coord.rank < self.ranks && coord.file < self.files
    }

    /// Position of an in-bounds address among the cells.
    fn index_of(&self, coord: Coord) -> (r: usize)
        requires
            self.wf(),
            self.in_bounds(coord),
        ensures
            r == self.cell_index(coord),
            r < self.cells().len(),
    {
        proof {
            lemma_grid_size(self.ranks, self.files);
            lemma_cell_index(
                self.ranks as int,
                self.files as int,
                coord.rank as int,
                coord.file as int,
                coord.rank as int,
                coord.file as int,
            );
        }
        coord.rank as usize * self.files as usize + coord.file as usize
    }

    /// A copy of the tile at `coord`; `None` outside the grid or where no
    /// tile was placed.
    pub fn get(&self, coord: Coord) -> (r: Option<Tile>)
        requires
            self.wf(),
        ensures
            r == self.tile_at(coord),
    {
        if self.coord_in_bounds(coord) {
            let i = self.index_of(coord);
            self.map[i]
        } else {
            None
        }
    }

    /// Addresses `(rank, 0)` to `(rank, f - 1)` that hold a piece, in order.
    pub open spec fn pieces_in_row(&self, rank: int, f: int) -> Seq<Coord>
        decreases f,
    {
        if f <= 0 {
            Seq::empty()
        } else {
            let s = self.pieces_in_row(rank, f - 1);
            let c = Coord { rank: rank as u8, file: (f - 1) as u8 };
            if self.piece_at(c) is Some {
                s.push(c)
            } else {
                s
            }
        }
    }

    /// Addresses of ranks `0` to `r - 1` that hold a piece, rank after rank.
    pub open spec fn pieces_in_rows(&self, r: int) -> Seq<Coord>
        decreases r,
    {
        if r <= 0 {
            Seq::empty()
        } else {
            self.pieces_in_rows(r - 1) + self.pieces_in_row(r - 1, self.spec_files() as int)
        }
    }

    /// Of the first `k` steps away from `c` (see `Coord::step`), those that
    /// land on a tile, in order.
    pub open spec fn neighbours_upto(&self, c: Coord, k: int) -> Seq<Coord>
        decreases k,
    {
        if k <= 0 {
            Seq::empty()
        } else {
            let s = self.neighbours_upto(c, k - 1);
            match c.step(k - 1) {
                Some(n) => if self@.contains_key(n) {
                    s.push(n)
                } else {
                    s
                },
                None => s,
            }
        }
    }

    /// The tiles of the board, rank after rank.
    pub fn tiles(&self) -> (r: Vec<Tile>)
        ensures
            r@ == tiles_of(self.cells()),
    {
        let mut r: Vec<Tile> = Vec::new();
        let mut i: usize = 0;
        while i < self.map.len()
            invariant
                i <= self.map@.len(),
                r@ == tiles_of(self.map@.take(i as int)),
            decreases self.map@.len() - i,
        {
            assert(self.map@.take(i + 1).drop_last() =~= self.map@.take(i as int));
            if let Some(t) = self.map[i] {
                r.push(t);
            }
            i += 1;
        }
        assert(self.map@.take(i as int) =~= self.map@);
        r
    }

    /// The addresses of `coord`'s orthogonal neighbours that hold a tile, in
    /// the order rank up, rank down, file up, file down; `None` when `coord`
    /// lies outside the grid.
    pub fn coord_neighbours(&self, coord: Coord) -> (r: Option<Vec<Coord>>)
        requires
            self.wf(),
        ensures
            r is Some <==> self.in_bounds(coord),
            r matches Some(v) ==> v@ == self.neighbours_upto(coord, 4),
    {
        if !self.coord_in_bounds(coord) {
            return None;
        }
        let adjacent = coord.adjacent();
        let mut v: Vec<Coord> = Vec::new();
        let mut k: usize = 0;
        while k < 4
            invariant
                k <= 4,
                self.wf(),
                forall|i: int| 0 <= i < 4 ==> #[trigger] adjacent@[i] == coord.step(i),
                v@ == self.neighbours_upto(coord, k as int),
            decreases 4 - k,
        {
            if let Some(n) = adjacent[k] {
                if self.get(n).is_some() {
                    v.push(n);
                }
            }
            k += 1;
        }
        Some(v)
    }

    /// The addresses that hold a piece, rank after rank.
    pub fn piece_coords(&self) -> (r: Vec<Coord>)
        requires
            self.wf(),
        ensures
            r@ == self.pieces_in_rows(self.spec_ranks() as int),
    {
        let mut r: Vec<Coord> = Vec::new();
        let mut rank: u8 = 0;
        while rank < self.ranks
            invariant
                self.wf(),
                rank <= self.ranks,
                r@ == self.pieces_in_rows(rank as int),
            decreases self.ranks - rank,
        {
            let ghost before = r@;
            let mut file: u8 = 0;
            while file < self.files
                invariant
                    self.wf(),
                    rank < self.ranks,
                    file <= self.files,
                    r@ == before + self.pieces_in_row(rank as int, file as int),
                decreases self.files - file,
            {
                let c = Coord { rank, file };
                if let Some(t) = self.get(c) {
                    if t.piece_option.is_some() {
                        r.push(c);
                    }
                }
                proof {
                    assert(before + self.pieces_in_row(rank as int, file + 1) =~= r@);
                }
                file += 1;
            }
            rank += 1;
        }
        r
    }

    /// The first `f` files of rank `rank` list exactly their addresses that
    /// hold a piece.
    proof fn lemma_row_lists_pieces(&self, rank: int, f: int, c: Coord)
        requires
            0 <= rank < 256,
            0 <= f <= 256,
        ensures
            self.pieces_in_row(rank, f).contains(c) <==> (c.rank == rank && c.file < f
                && self.piece_at(c) is Some),
        decreases f,
    {
        if f > 0 {
            self.lemma_row_lists_pieces(rank, f - 1, c);
            let d = Coord { rank: rank as u8, file: (f - 1) as u8 };
            if self.piece_at(d) is Some {
                lemma_push_contains(self.pieces_in_row(rank, f - 1), d, c);
            }
        }
    }

    /// The first `r` ranks list exactly their addresses that hold a piece.
    proof fn lemma_rows_list_pieces(&self, r: int, c: Coord)
        requires
            0 <= r < 256,
        ensures
            self.pieces_in_rows(r).contains(c) <==> (c.rank < r && self.piece_at(c) is Some),
        decreases r,
    {
        if r > 0 {
            self.lemma_rows_list_pieces(r - 1, c);
            self.lemma_row_lists_pieces(r - 1, self.spec_files() as int, c);
            lemma_concat_contains(
                self.pieces_in_rows(r - 1),
                self.pieces_in_row(r - 1, self.spec_files() as int),
                c,
            );
        }
    }

    /// The addresses that `piece_coords` lists are exactly those that hold a
    /// piece.
    pub proof fn lemma_piece_coords_complete(&self, c: Coord)
        ensures
            self.pieces_in_rows(self.spec_ranks() as int).contains(c) <==> self.piece_at(c) is Some,
    {
        self.lemma_rows_list_pieces(self.spec_ranks() as int, c);
    }

    /// Replacing the cell of an address that holds a tile replaces that
    /// address's tile and nothing else.
    pub proof fn lemma_replace_cell(old_b: &Board, new_b: &Board, coord: Coord, t: Tile)
        requires
            old_b.wf(),
            old_b@.contains_key(coord),
            new_b.same_shape(old_b),
            new_b.cells() == old_b.cells().update(old_b.cell_index(coord), Some(t)),
        ensures
            new_b.wf(),
            new_b@ == old_b@.insert(coord, t),
    {
        lemma_cell_index(
            old_b.ranks as int,
            old_b.files as int,
            coord.rank as int,
            coord.file as int,
            coord.rank as int,
            coord.file as int,
        );
        assert forall|c: Coord| #[trigger] new_b.tile_at(c) == (if c == coord {
            Some(t)
        } else {
            old_b.tile_at(c)
        }) by {
            if new_b.in_bounds(c) {
                lemma_cell_index(
                    old_b.ranks as int,
                    old_b.files as int,
                    c.rank as int,
                    c.file as int,
                    coord.rank as int,
                    coord.file as int,
                );
            }
        }
        assert(new_b@ =~= old_b@.insert(coord, t));
    }

    /// Puts `piece` (or nothing) on the tile at `coord`, which keeps its
    /// terrain.
    pub fn set_piece(&mut self, coord: Coord, piece: Option<Piece>)
        requires
            old(self).wf(),
            old(self)@.contains_key(coord),
        ensures
            final(self).wf(),
            final(self).same_shape(old(self)),
            final(self)@ == old(self)@.insert(
                coord,
                Tile { kind: old(self)@[coord].kind, piece_option: piece },
            ),
    {
        let i = self.index_of(coord);
        let kind = match self.map[i] {
            Some(t) => t.kind,
            None => {
                proof {
                    assert(false);
                }
                return;
            },
        };
        let ghost old_b = *self;
        self.map.set(i, Some(Tile { kind, piece_option: piece }));
        proof {
            Board::lemma_replace_cell(&old_b, self, coord, Tile { kind, piece_option: piece });
        }
    }

    /// The tile at `coord`, which must hold one.
    pub fn tile(&self, coord: Coord) -> (r: &Tile)
        requires
            self.wf(),
            self@.contains_key(coord),
        ensures
            *r == self@[coord],
    {
        let i = self.index_of(coord);
        self.map[i].as_ref().unwrap()
    }

    /// A mutable reference to the tile at `coord`; `None` outside the grid
    /// or where no tile was placed.
    pub fn get_mut(&mut self, coord: Coord) -> (r: Option<&mut Tile>)
        requires
            old(self).wf(),
        ensures
            r is Some <==> old(self)@.contains_key(coord),
            r is None ==> *final(self) == *old(self),
            r matches Some(t) ==> {
                &&& *t == old(self)@[coord]
                &&& final(self).wf()
                &&& final(self).same_shape(old(self))
                &&& final(self).cells() == old(self).cells().update(
                    old(self).cell_index(coord),
                    Some(*final(t)),
                )
                &&& final(self)@ == old(self)@.insert(coord, *final(t))
            },
    {
        if self.coord_in_bounds(coord) && self.map[self.index_of(coord)].is_some() {
            let i = self.index_of(coord);
            let ghost old_b = *self;
            proof {
                assert forall|nb: Board, x: Tile|
                    #![trigger nb.cells(), old_b@.insert(coord, x)]
                    nb.same_shape(&old_b) && nb.cells() == old_b.cells().update(
                        i as int,
                        Some(x),
                    ) implies nb@ == old_b@.insert(coord, x) by {
                    Board::lemma_replace_cell(&old_b, &nb, coord, x);
                }
            }
            match &mut self.map[i] {
                Some(t) => Some(t),
                None => None,
            }
        } else {
            None
        }
    }
}

impl Default for Board {
    fn default() -> (r: Board)
        ensures
            r.wf(),
            r.spec_ranks() == 0,
            r.spec_files() == 0,
            r@ == Map::<Coord, Tile>::empty(),
    {
        Board::new()
    }
}

impl View for Board {
    type V = Map<Coord, Tile>;

    /// The tiles, by address.
    open spec fn view(&self) -> Map<Coord, Tile> {
        Map::new(|c: Coord| self.tile_at(c) is Some, |c: Coord| self.tile_at(c).unwrap())
    }
}

} // verus!
