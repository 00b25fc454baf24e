use wargame::actions::BattleActor;
use wargame::board::Board;
use wargame::coordinates::Coord;
use wargame::error::GameError;
use wargame::game::{NoTurnPhases, TurnPhases, TurnStart};
use wargame::piece::{Piece, PieceType};
use wargame::player::Player;
use wargame::tile::{Tile, TileType};
use wargame::Game;

fn ready(kind: PieceType, owner: Player) -> Piece {
    Piece { kind, exhausted: false, owner }
}

/// A 3 by 3 board: (2, 2) has no tile, (0, 2) is a border of P1, (2, 0) a
/// border of P2, the rest empty terrain; `pieces` stand where given.
fn small_board(pieces: &[(u8, u8, Piece)]) -> Board {
    let mut tiles = Vec::new();
    for rank in 0..3u8 {
        for file in 0..3u8 {
            if rank == 2 && file == 2 {
                tiles.push(None);
                continue;
            }
            let kind = match (rank, file) {
                (0, 2) => TileType::Border(Player::P1),
                (2, 0) => TileType::Border(Player::P2),
                _ => TileType::Empty,
            };
            let piece_option = pieces
                .iter()
                .find(|(r, f, _)| *r == rank && *f == file)
                .map(|(_, _, p)| *p);
            tiles.push(Some(Tile { kind, piece_option }));
        }
    }
    Board::from_tiles(3, 3, tiles).unwrap()
}

fn c(rank: u8, file: u8) -> Coord {
    Coord::new(rank, file)
}

#[test]
fn move_errors() {
    let board = small_board(&[
        (0, 0, ready(PieceType::Infantry, Player::P1)),
        (0, 1, ready(PieceType::Infantry, Player::P1)),
        (1, 0, Piece::new(PieceType::Recon, Player::P1)),
        (1, 1, ready(PieceType::Recon, Player::P2)),
    ]);
    let mut game = Game::from_parts(board, Player::P1, [5, 5]);
    let before = game.clone();
    assert_eq!(game.do_move(c(3, 0), c(0, 0)), Err(GameError::OutOfBounds));
    assert_eq!(game.do_move(c(0, 0), c(0, 9)), Err(GameError::OutOfBounds));
    assert_eq!(game.do_move(c(0, 0), c(2, 2)), Err(GameError::NoTileAt));
    assert_eq!(game.do_move(c(0, 0), c(0, 1)), Err(GameError::TileOccupied));
    assert_eq!(game.do_move(c(2, 1), c(2, 0)), Err(GameError::TileEmpty));
    assert_eq!(game.do_move(c(1, 0), c(2, 0)), Err(GameError::PieceExhausted));
    assert_eq!(game.do_move(c(1, 1), c(1, 2)), Err(GameError::NotOwner));
    // infantry moves at most 2 steps; (0, 1) to (2, 1) is 2, (0, 0) to (2, 1) is 3
    assert_eq!(game.do_move(c(0, 0), c(2, 1)), Err(GameError::OutOfSpeedRange));
    assert!(!game.can_do_move(c(0, 0), c(2, 1)));
    assert_eq!(game, before);
    assert!(game.can_do_move(c(0, 1), c(2, 1)));
    assert_eq!(game.do_move(c(0, 1), c(2, 1)), Ok(()));
}

#[test]
fn move_changes_nothing_else() {
    let board = small_board(&[
        (0, 0, ready(PieceType::Recon, Player::P1)),
        (1, 1, ready(PieceType::Recon, Player::P2)),
    ]);
    let mut game = Game::from_parts(board, Player::P1, [7, 9]);
    assert_eq!(game.do_move(c(0, 0), c(2, 1)), Ok(()));
    assert_eq!(game.money(Player::P1), 7);
    assert_eq!(game.money(Player::P2), 9);
    assert_eq!(game.current_player(), Player::P1);
    let b = game.board();
    assert_eq!(b.get(c(0, 0)), Some(Tile { kind: TileType::Empty, piece_option: None }));
    assert_eq!(
        b.get(c(2, 1)),
        Some(Tile {
            kind: TileType::Empty,
            piece_option: Some(Piece::new(PieceType::Recon, Player::P1)),
        })
    );
    assert_eq!(b.get(c(1, 1)).unwrap().piece_option, Some(ready(PieceType::Recon, Player::P2)));
    assert_eq!(b.piece_coords(), vec![c(1, 1), c(2, 1)]);
}

#[test]
fn recruit_errors() {
    let board = small_board(&[(1, 1, ready(PieceType::Recon, Player::P2))]);
    let mut game = Game::from_parts(board, Player::P1, [3, 3]);
    let before = game.clone();
    assert_eq!(game.do_recruit(PieceType::Infantry, c(5, 5)), Err(GameError::OutOfBounds));
    assert_eq!(game.do_recruit(PieceType::Infantry, c(2, 2)), Err(GameError::NoTileAt));
    assert_eq!(game.do_recruit(PieceType::Infantry, c(1, 1)), Err(GameError::CannotRecruitHere));
    assert_eq!(game.do_recruit(PieceType::Infantry, c(2, 0)), Err(GameError::CannotRecruitHere));
    assert_eq!(game.do_recruit(PieceType::Recon, c(0, 2)), Err(GameError::InsufficientFunds));
    assert!(!game.can_do_recruit(PieceType::Recon, c(0, 2)));
    assert_eq!(game, before);
    assert!(game.can_do_recruit(PieceType::Artillery, c(0, 2)));
    assert_eq!(game.do_recruit(PieceType::Artillery, c(0, 2)), Ok(()));
    assert_eq!(game.money(Player::P1), 0);
    assert_eq!(game.money(Player::P2), 3);
    game.do_end_turn();
    assert_eq!(game.do_recruit(PieceType::Convoy, c(2, 0)), Ok(()));
    assert_eq!(game.money(Player::P2), 0);
    assert_eq!(
        game.board().get(c(2, 0)).unwrap().piece_option,
        Some(Piece::new(PieceType::Convoy, Player::P2))
    );
}

#[test]
fn recruit_on_occupied_border() {
    let board = small_board(&[(0, 2, ready(PieceType::Recon, Player::P1))]);
    let mut game = Game::from_parts(board, Player::P1, [4, 0]);
    assert_eq!(game.do_recruit(PieceType::Recon, c(0, 2)), Err(GameError::TileOccupied));
    assert_eq!(game.money(Player::P1), 4);
}

#[test]
fn battle_target_errors() {
    let board = small_board(&[
        (0, 0, ready(PieceType::Infantry, Player::P1)),
        (0, 1, ready(PieceType::Artillery, Player::P2)),
        (1, 0, ready(PieceType::Infantry, Player::P1)),
    ]);
    let mut game = Game::from_parts(board, Player::P1, [0, 0]);
    let before = game.clone();
    let init = BattleActor::Static { coord: c(0, 0) };
    assert_eq!(game.do_battle(c(7, 0), false, init, &[], &[]), Err(GameError::OutOfBounds));
    assert_eq!(game.do_battle(c(2, 2), false, init, &[], &[]), Err(GameError::NoTileAt));
    assert_eq!(game.do_battle(c(1, 1), false, init, &[], &[]), Err(GameError::TileEmpty));
    assert_eq!(game.do_battle(c(1, 0), false, init, &[], &[]), Err(GameError::TargetNotEnemy));
    assert_eq!(game.do_battle(c(0, 1), true, init, &[], &[]), Err(GameError::TargetCannotDefend));
    assert_eq!(game, before);
    assert!(game.can_do_battle(c(0, 1), false, init, &[], &[]));
}

#[test]
fn battle_actor_errors() {
    let board = small_board(&[
        (0, 0, ready(PieceType::Infantry, Player::P1)),
        (0, 1, ready(PieceType::Infantry, Player::P2)),
        (1, 0, Piece::new(PieceType::Infantry, Player::P1)),
        (2, 0, ready(PieceType::Infantry, Player::P1)),
        (1, 2, ready(PieceType::Infantry, Player::P2)),
    ]);
    let mut game = Game::from_parts(board, Player::P1, [0, 0]);
    let before = game.clone();
    let t = c(0, 1);
    let good = BattleActor::Static { coord: c(0, 0) };
    let exhausted = BattleActor::Static { coord: c(1, 0) };
    let empty = BattleActor::Static { coord: c(1, 1) };
    let far = BattleActor::Static { coord: c(2, 0) };
    let theirs = BattleActor::Static { coord: c(1, 2) };
    let too_fast = BattleActor::Moving { from: c(2, 0), to: c(0, 2) };
    let infantry_defending_on_the_move = BattleActor::Moving { from: c(1, 2), to: c(1, 1) };
    assert_eq!(game.do_battle(t, true, exhausted, &[], &[]), Err(GameError::PieceExhausted));
    assert_eq!(game.do_battle(t, true, empty, &[], &[]), Err(GameError::TileEmpty));
    assert_eq!(game.do_battle(t, true, far, &[], &[]), Err(GameError::ActorOutOfRange));
    assert_eq!(game.do_battle(t, true, theirs, &[], &[]), Err(GameError::NotOwner));
    assert_eq!(game.do_battle(t, true, good, &[too_fast], &[]), Err(GameError::OutOfSpeedRange));
    assert_eq!(game.do_battle(t, true, good, &[good, far], &[]), Err(GameError::ActorOutOfRange));
    assert_eq!(game.do_battle(t, true, good, &[], &[good]), Err(GameError::NotOwner));
    assert_eq!(
        game.do_battle(t, true, good, &[], &[infantry_defending_on_the_move]),
        Err(GameError::ActorCannotSupport)
    );
    assert_eq!(game, before);
}

#[test]
fn piece_table() {
    let (artillery, convoy, infantry, recon) =
        (PieceType::Artillery, PieceType::Convoy, PieceType::Infantry, PieceType::Recon);
    let kinds = [artillery, convoy, infantry, recon];
    let speed: Vec<u8> = kinds.iter().map(|k| k.speed()).collect();
    let power: Vec<u8> = kinds.iter().map(|k| k.power()).collect();
    let cost: Vec<u8> = kinds.iter().map(|k| k.cost()).collect();
    assert_eq!(speed, vec![2, 3, 2, 3]);
    assert_eq!(power, vec![2, 0, 2, 1]);
    assert_eq!(cost, vec![3, 3, 2, 4]);
    assert_eq!(artillery.range(), 2..4);
    assert_eq!(convoy.range(), 0..0);
    assert_eq!(infantry.range(), 1..2);
    assert_eq!(recon.range(), 1..2);
    let initiate: Vec<bool> = kinds.iter().map(|k| k.can_initiate()).collect();
    let defend: Vec<bool> = kinds.iter().map(|k| k.can_defend()).collect();
    assert_eq!(initiate, vec![false, false, true, true]);
    assert_eq!(defend, vec![false, false, true, true]);
    // (attacking, moving) in the order (t, t), (t, f), (f, t), (f, f)
    let modes = [(true, true), (true, false), (false, true), (false, false)];
    let support = |k: PieceType| -> Vec<bool> { modes.iter().map(|(a, m)| k.can_support(*a, *m)).collect() };
    assert_eq!(support(artillery), vec![false, true, false, true]);
    assert_eq!(support(convoy), vec![false, false, false, false]);
    assert_eq!(support(infantry), vec![true, true, false, true]);
    assert_eq!(support(recon), vec![true, true, true, true]);
    let p = Piece::new(recon, Player::P2);
    assert!(p.exhausted());
    assert_eq!(p.kind(), recon);
    assert_eq!(p.owner(), Player::P2);
    assert_eq!((p.speed(), p.power(), p.cost()), (3, 1, 4));
    assert_eq!(p.range(), 1..2);
    assert!(p.can_initiate() && p.can_defend() && p.can_support(false, true));
}

#[test]
fn tile_bonuses_and_recruiting() {
    let tile = |kind| Tile { kind, piece_option: None };
    let kinds = [TileType::Empty, TileType::Town, TileType::City, TileType::Border(Player::P1)];
    let income: Vec<u8> = kinds.iter().map(|k| tile(*k).income_bonus()).collect();
    let defence: Vec<u8> = kinds.iter().map(|k| tile(*k).defence_bonus()).collect();
    assert_eq!(income, vec![0, 1, 3, 0]);
    assert_eq!(defence, vec![0, 1, 2, 0]);
    assert!(tile(TileType::Border(Player::P1)).can_recruit(Player::P1));
    assert!(!tile(TileType::Border(Player::P1)).can_recruit(Player::P2));
    assert!(!tile(TileType::City).can_recruit(Player::P1));
    assert!(!tile(TileType::Town).can_recruit(Player::P2));
}

#[test]
fn players_alternate() {
    assert_eq!(Player::P1.opponent(), Player::P2);
    assert_eq!(Player::P2.opponent(), Player::P1);
    assert_eq!(-Player::P1, Player::P2);
    assert_eq!(-(-Player::P2), Player::P2);
}

struct PayAndResupply;

impl TurnPhases for PayAndResupply {
    fn turn_start(&self, board: &Board, _side: Player) -> TurnStart {
        TurnStart { resupplied: board.piece_coords(), income: 250 }
    }
}

#[test]
fn turn_phases() {
    let board = small_board(&[
        (0, 0, Piece::new(PieceType::Infantry, Player::P1)),
        (1, 1, Piece::new(PieceType::Infantry, Player::P2)),
    ]);
    let mut game = Game::from_parts(board.clone(), Player::P1, [1, 10]);
    game.do_end_turn_with(&NoTurnPhases);
    assert_eq!(game.current_player(), Player::P2);
    assert_eq!(game.board(), &board);
    assert_eq!((game.money(Player::P1), game.money(Player::P2)), (1, 10));
    game.do_end_turn_with(&PayAndResupply);
    assert_eq!(game.current_player(), Player::P1);
    assert_eq!((game.money(Player::P1), game.money(Player::P2)), (251, 10));
    assert!(!game.board().get(c(0, 0)).unwrap().piece_option.unwrap().exhausted());
    assert!(game.board().get(c(1, 1)).unwrap().piece_option.unwrap().exhausted());
    game.apply_turn_start(&TurnStart { resupplied: vec![c(2, 2), c(9, 9)], income: 10 });
    assert_eq!(game.money(Player::P1), 255);
}

#[test]
fn default_game() {
    let game = Game::default();
    assert_eq!(game, Game::new());
    assert_eq!(game.current_player(), Player::P1);
    assert_eq!(game.money(Player::P1), 0);
    assert_eq!(game.board().ranks(), 0);
    assert_eq!(game.board().files(), 0);
    assert_eq!(game.board().get(c(0, 0)), None);
    assert_eq!(Board::default(), Board::new());
}
