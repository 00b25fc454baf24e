use wargame::board::Board;
use wargame::coordinates::{Coord, Coordinate, PieceCoord, TileCoord};
use wargame::piece::{Piece, PieceType};
use wargame::player::Player;
use wargame::tile::{Tile, TileType};

fn c(rank: u8, file: u8) -> Coord {
    Coord::new(rank, file)
}

fn tile(kind: TileType) -> Option<Tile> {
    Some(Tile { kind, piece_option: None })
}

/// 2 ranks by 3 files:
///   rank 0: Empty, Town (P1 infantry), none
///   rank 1: City, Border(P2) (P2 recon), Empty
fn two_by_three() -> Board {
    let infantry = Piece::new(PieceType::Infantry, Player::P1);
    let recon = Piece::new(PieceType::Recon, Player::P2);
    let tiles = vec![
        tile(TileType::Empty),
        Some(Tile { kind: TileType::Town, piece_option: Some(infantry) }),
        None,
        tile(TileType::City),
        Some(Tile { kind: TileType::Border(Player::P2), piece_option: Some(recon) }),
        tile(TileType::Empty),
    ];
    Board::from_tiles(2, 3, tiles).unwrap()
}

#[test]
fn from_tiles_needs_one_cell_per_address() {
    assert!(Board::from_tiles(2, 3, vec![None; 5]).is_none());
    assert!(Board::from_tiles(2, 3, vec![None; 7]).is_none());
    assert!(Board::from_tiles(0, 5, vec![]).is_some());
    let b = two_by_three();
    assert_eq!((b.ranks(), b.files()), (2, 3));
}

#[test]
fn get_outside_grid_is_none() {
    let b = two_by_three();
    for (rank, file) in [(2, 0), (0, 3), (255, 255), (5, 1)] {
        assert_eq!(b.get(c(rank, file)), None);
        assert!(!b.coord_in_bounds(c(rank, file)));
    }
    assert!(b.coord_in_bounds(c(0, 2)));
    assert_eq!(b.get(c(0, 2)), None);
}

#[test]
fn get_returns_what_was_placed() {
    let b = two_by_three();
    assert_eq!(b.get(c(0, 0)), tile(TileType::Empty));
    assert_eq!(b.get(c(1, 0)), tile(TileType::City));
    assert_eq!(b.get(c(1, 2)), tile(TileType::Empty));
    assert_eq!(b.get(c(0, 1)).unwrap().kind, TileType::Town);
    assert_eq!(b.tile(c(0, 1)).kind, TileType::Town);
    assert_eq!(*b.tile(c(1, 0)), Tile { kind: TileType::City, piece_option: None });
    assert_eq!(
        b.get(c(1, 1)).unwrap().piece_option,
        Some(Piece::new(PieceType::Recon, Player::P2))
    );
}

#[test]
fn get_mut_and_set_piece() {
    let mut b = two_by_three();
    assert!(b.get_mut(c(0, 2)).is_none());
    assert!(b.get_mut(c(4, 0)).is_none());
    let artillery = Piece::new(PieceType::Artillery, Player::P1);
    b.get_mut(c(1, 2)).unwrap().piece_option = Some(artillery);
    assert_eq!(b.get(c(1, 2)).unwrap().piece_option, Some(artillery));
    b.set_piece(c(0, 1), None);
    assert_eq!(b.get(c(0, 1)), tile(TileType::Town));
    assert_eq!(b.piece_coords(), vec![c(1, 1), c(1, 2)]);
}

#[test]
fn new_coord_inside_grid_only() {
    let b = two_by_three();
    assert_eq!(b.new_coord(1, 2), Some(c(1, 2)));
    assert_eq!(b.new_coord(2, 0), None);
    assert_eq!(b.new_coord(0, 3), None);
}

#[test]
fn tiles_and_pieces_in_order() {
    let b = two_by_three();
    let kinds: Vec<TileType> = b.tiles().iter().map(|t| t.kind).collect();
    assert_eq!(
        kinds,
        vec![TileType::Empty, TileType::Town, TileType::City, TileType::Border(Player::P2), TileType::Empty]
    );
    assert_eq!(b.piece_coords(), vec![c(0, 1), c(1, 1)]);
    assert!(Board::new().piece_coords().is_empty());
    assert!(Board::new().tiles().is_empty());
}

#[test]
fn neighbours_with_tiles() {
    let b = two_by_three();
    assert_eq!(b.coord_neighbours(c(0, 0)), Some(vec![c(1, 0), c(0, 1)]));
    assert_eq!(b.coord_neighbours(c(1, 1)), Some(vec![c(0, 1), c(1, 2), c(1, 0)]));
    // (0, 2) has no tile of its own but lies inside the grid
    assert_eq!(b.coord_neighbours(c(0, 2)), Some(vec![c(1, 2), c(0, 1)]));
    assert_eq!(b.coord_neighbours(c(2, 0)), None);
}

#[test]
fn adjacent_stays_on_the_grid_of_addresses() {
    assert_eq!(
        c(3, 4).adjacent(),
        [Some(c(4, 4)), Some(c(2, 4)), Some(c(3, 5)), Some(c(3, 3))]
    );
    assert_eq!(c(0, 0).adjacent(), [Some(c(1, 0)), None, Some(c(0, 1)), None]);
    assert_eq!(c(255, 255).adjacent(), [None, Some(c(254, 255)), None, Some(c(255, 254))]);
}

#[test]
fn distance_is_manhattan() {
    assert_eq!(c(0, 0).distance(c(0, 0)), 0);
    assert_eq!(c(1, 5).distance(c(4, 1)), 7);
    assert_eq!(c(4, 1).distance(c(1, 5)), 7);
    assert_eq!(c(0, 0).distance(c(200, 100)), 255);
    assert_eq!(c(2, 7).rank(), 2);
    assert_eq!(c(2, 7).file(), 7);
    assert_eq!(Coord::default(), c(0, 0));
}

#[test]
fn checked_coordinates() {
    let b = two_by_three();
    assert!(TileCoord::new(0, 2, &b).is_none());
    assert!(TileCoord::new(3, 0, &b).is_none());
    let t = TileCoord::new(1, 0, &b).unwrap();
    assert_eq!(t.as_coord(), c(1, 0));
    assert_eq!((t.rank(), t.file()), (1, 0));
    assert_eq!(t.distance(c(0, 2)), 3);
    assert!(PieceCoord::new(1, 0, &b).is_none());
    assert!(PieceCoord::new_from_coord(c(0, 2), &b).is_none());
    let p = PieceCoord::new_from_coord(c(1, 1), &b).unwrap();
    assert_eq!(p.as_coord(), c(1, 1));
    assert_eq!(p.as_tile_coord(), TileCoord::new_from_coord(c(1, 1), &b).unwrap());
    assert_eq!((p.rank(), p.file()), (1, 1));
    assert_eq!(p.distance(c(0, 0)), 2);
}
