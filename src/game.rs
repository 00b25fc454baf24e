use crate::actions::{BattleActor, Command};
use crate::board::Board;
use crate::coordinates::{manhattan, Coord, Coordinate};
use crate::error::GameError;
use crate::piece::{Piece, PieceType};
use crate::player::Player;
use crate::tile::Tile;
use vstd::prelude::*;

verus! {

/// `Ok(())` when there is no error, else the error.
pub open spec fn as_result(e: Option<GameError>) -> Result<(), GameError> {
    match e {
        Some(e) => Err(e),
        None => Ok(()),
    }
}

/// Why `c` cannot be addressed on `b`, if it cannot.
pub open spec fn tile_error(b: Board, c: Coord) -> Option<GameError> {
    if !b.in_bounds(c) {
        Some(GameError::OutOfBounds)
    } else if b.tile_at(c) is None {
        Some(GameError::NoTileAt)
    } else {
        None
    }
}

/// Why `player` may not move the piece at `from` to `to` on `b`, if they may
/// not; the checks come in this order.
pub open spec fn move_error(b: Board, from: Coord, to: Coord, player: Player) -> Option<GameError> {
    if tile_error(b, from) is Some {
        tile_error(b, from)
    } else if tile_error(b, to) is Some {
        tile_error(b, to)
    } else if b.piece_at(to) is Some {
        Some(GameError::TileOccupied)
    } else if b.piece_at(from) is None {
        Some(GameError::TileEmpty)
    } else if b.piece_at(from).unwrap().exhausted {
        Some(GameError::PieceExhausted)
    } else if b.piece_at(from).unwrap().owner != player {
        Some(GameError::NotOwner)
    } else if manhattan(from, to) > b.piece_at(from).unwrap().kind.spec_speed() {
        Some(GameError::OutOfSpeedRange)
    } else {
        None
    }
}

/// Why the piece at `c` may not act for `player` without moving, if it may
/// not.
pub open spec fn static_error(b: Board, c: Coord, player: Player) -> Option<GameError> {
    if tile_error(b, c) is Some {
        tile_error(b, c)
    } else if b.piece_at(c) is None {
        Some(GameError::TileEmpty)
    } else if b.piece_at(c).unwrap().exhausted {
        Some(GameError::PieceExhausted)
    } else if b.piece_at(c).unwrap().owner != player {
        Some(GameError::NotOwner)
    } else {
        None
    }
}

/// Why `player` may not recruit a `kind` at `c` on `b` with `money` in the
/// treasury, if they may not: the tile's terrain and the price are checked
/// before whether the tile is free.
pub open spec fn recruit_error(
    b: Board,
    money: u8,
    player: Player,
    kind: PieceType,
    c: Coord,
) -> Option<GameError> {
    if tile_error(b, c) is Some {
        tile_error(b, c)
    } else if !b.tile_at(c).unwrap().spec_can_recruit(player) {
        Some(GameError::CannotRecruitHere)
    } else if money < kind.spec_cost() {
        Some(GameError::InsufficientFunds)
    } else if b.piece_at(c) is Some {
        Some(GameError::TileOccupied)
    } else {
        None
    }
}

/// Why `a` may not contribute for `player` to a battle over `target`, on the
/// attacking side or on the defending one, if it may not.
pub open spec fn actor_error(
    b: Board,
    a: BattleActor,
    target: Coord,
    player: Player,
    is_attacking: bool,
) -> Option<GameError> {
    let first = match a {
        BattleActor::Static { coord } => static_error(b, coord, player),
        BattleActor::Moving { from, to } => move_error(b, from, to, player),
    };
    if first is Some {
        first
    } else {
        let kind = b.piece_at(a.source()).unwrap().kind;
        if !kind.spec_can_support(is_attacking, a is Moving) {
            Some(GameError::ActorCannotSupport)
        } else if !kind.in_range(manhattan(a.end(), target)) {
            Some(GameError::ActorOutOfRange)
        } else {
            None
        }
    }
}

/// The error of the first actor of `s` that may not contribute, if any.
pub open spec fn actors_error(
    b: Board,
    s: Seq<BattleActor>,
    target: Coord,
    player: Player,
    is_attacking: bool,
) -> Option<GameError>
    decreases s.len(),
{
    if s.len() == 0 {
        None
    } else {
        let e = actors_error(b, s.drop_last(), target, player, is_attacking);
        if e is Some {
            e
        } else {
            actor_error(b, s.last(), target, player, is_attacking)
        }
    }
}

/// Whether resolving `a` may change the tile at `c`: `c` is where its piece
/// starts or where it ends.
pub open spec fn touches(a: BattleActor, c: Coord) -> bool {
    c == a.source() || c == a.end()
}

/// `a` and `b` touch a common address.
pub open spec fn overlap(a: BattleActor, b: BattleActor) -> bool {
    touches(b, a.source()) || touches(b, a.end())
}

/// No two actors of `s` touch a common address.
pub open spec fn actors_apart(s: Seq<BattleActor>) -> bool {
    forall|i: int, j: int|
        0 <= i < s.len() && 0 <= j < s.len() && i != j ==> !#[trigger] overlap(s[i], s[j])
}

/// Why `player` may not start the described battle on `b`, if they may not.
/// Every actor is checked on its own first; then no two actors of the
/// battle, the defending target included, may touch a common address.
pub open spec fn battle_error(
    b: Board,
    player: Player,
    target: Coord,
    target_is_defending: bool,
    initiator: BattleActor,
    attack_supporters: Seq<BattleActor>,
    defence_supporters: Seq<BattleActor>,
) -> Option<GameError> {
    if tile_error(b, target) is Some {
        tile_error(b, target)
    } else if b.piece_at(target) is None {
        Some(GameError::TileEmpty)
    } else if b.piece_at(target).unwrap().owner == player {
        Some(GameError::TargetNotEnemy)
    } else if target_is_defending && !b.piece_at(target).unwrap().kind.spec_can_defend() {
        Some(GameError::TargetCannotDefend)
    } else if actor_error(b, initiator, target, player, true) is Some {
        actor_error(b, initiator, target, player, true)
    } else if actors_error(b, attack_supporters, target, player, true) is Some {
        actors_error(b, attack_supporters, target, player, true)
    } else if actors_error(b, defence_supporters, target, player.spec_opponent(), false) is Some {
        actors_error(b, defence_supporters, target, player.spec_opponent(), false)
    } else if !actors_apart(
        attackers(initiator, attack_supporters) + defenders(
            target,
            target_is_defending,
            defence_supporters,
        ),
    ) {
        Some(GameError::ActorsOverlap)
    } else {
        None
    }
}

/// `p`, having acted.
pub open spec fn exhaust(p: Piece) -> Piece {
    Piece { exhausted: true, ..p }
}

/// `m` with the piece at `c` replaced by `p`.
pub open spec fn put(m: Map<Coord, Tile>, c: Coord, p: Option<Piece>) -> Map<Coord, Tile> {
    m.insert(c, Tile { piece_option: p, ..m[c] })
}

/// `m` after the piece at `from` went to `to` and became exhausted.
pub open spec fn moved(m: Map<Coord, Tile>, from: Coord, to: Coord) -> Map<Coord, Tile> {
    put(put(m, to, Some(exhaust(m[from].piece_option.unwrap()))), from, None)
}

/// The piece at `c` in `m`, if any.
pub open spec fn piece_in(m: Map<Coord, Tile>, c: Coord) -> Option<Piece> {
    if m.contains_key(c) {
        m[c].piece_option
    } else {
        None
    }
}

/// Resolving one actor on `m`: its piece is exhausted and, for a moving
/// actor, relocated; the second value is the power it adds. An actor whose
/// piece is gone changes nothing and adds nothing (in an accepted battle no
/// two actors touch one address, so this does not happen there).
pub open spec fn resolve_step(m: Map<Coord, Tile>, a: BattleActor) -> (Map<Coord, Tile>, int) {
    match a {
        BattleActor::Static { coord } => match piece_in(m, coord) {
            Some(p) => (put(m, coord, Some(exhaust(p))), p.kind.spec_power() as int),
            None => (m, 0),
        },
        BattleActor::Moving { from, to } => match piece_in(m, from) {
            Some(p) => if m.contains_key(to) {
                (moved(m, from, to), p.kind.spec_power() as int)
            } else {
                (m, 0)
            },
            None => (m, 0),
        },
    }
}

/// Resolving the actors of `s` one after the other: the resulting tiles and
/// the sum of the powers.
pub open spec fn resolve_all(m: Map<Coord, Tile>, s: Seq<BattleActor>) -> (Map<Coord, Tile>, int)
    decreases s.len(),
{
    if s.len() == 0 {
        (m, 0)
    } else {
        let (m1, p1) = resolve_all(m, s.drop_last());
        let (m2, p2) = resolve_step(m1, s.last());
        (m2, p1 + p2)
    }
}

/// The attacking actors of a battle, in the order they resolve.
pub open spec fn attackers(initiator: BattleActor, attack_supporters: Seq<BattleActor>) -> Seq<
    BattleActor,
> {
    seq![initiator] + attack_supporters
}

/// The defending actors of a battle, in the order they resolve: the target
/// itself first, when it defends.
pub open spec fn defenders(
    target: Coord,
    target_is_defending: bool,
    defence_supporters: Seq<BattleActor>,
) -> Seq<BattleActor> {
    if target_is_defending {
        seq![BattleActor::Static { coord: target }] + defence_supporters
    } else {
        defence_supporters
    }
}

/// The tiles after a battle on `m`: every attacking actor resolves, then
/// every defending one; the target's piece is removed when the attack power
/// strictly exceeds the defence power.
pub open spec fn battle_result(
    m: Map<Coord, Tile>,
    target: Coord,
    target_is_defending: bool,
    initiator: BattleActor,
    attack_supporters: Seq<BattleActor>,
    defence_supporters: Seq<BattleActor>,
) -> Map<Coord, Tile> {
    let (m1, attack) = resolve_all(m, attackers(initiator, attack_supporters));
    let (m2, defence) = resolve_all(m1, defenders(target, target_is_defending, defence_supporters));
    if attack > defence && m2.contains_key(target) {
        put(m2, target, None)
    } else {
        m2
    }
}

/// Resolving `a` and then the actors of `s` is resolving `seq![a] + s`.
pub proof fn lemma_resolve_all_prepend(m: Map<Coord, Tile>, a: BattleActor, s: Seq<BattleActor>)
    ensures
        resolve_all(m, seq![a] + s).0 == resolve_all(resolve_step(m, a).0, s).0,
        resolve_all(m, seq![a] + s).1 == resolve_step(m, a).1 + resolve_all(
            resolve_step(m, a).0,
            s,
        ).1,
    decreases s.len(),
{
    let full = seq![a] + s;
    let m1 = resolve_step(m, a).0;
    if s.len() == 0 {
        assert(full.drop_last() =~= Seq::<BattleActor>::empty());
        assert(full.last() == a);
        assert(resolve_all(m, Seq::<BattleActor>::empty()) == (m, 0int));
        assert(resolve_all(m1, s) == (m1, 0int));
    } else {
        assert(full.drop_last() =~= seq![a] + s.drop_last());
        assert(full.last() == s.last());
        lemma_resolve_all_prepend(m, a, s.drop_last());
        let r = resolve_all(m1, s.drop_last());
        assert(resolve_all(m1, s) == (
            resolve_step(r.0, s.last()).0,
            r.1 + resolve_step(r.0, s.last()).1,
        ));
    }
}

/// Once some actor of the first `k` of `s` may not contribute, the first
/// error of `s` is the first error of those `k`.
proof fn lemma_actors_error_prefix(
    b: Board,
    s: Seq<BattleActor>,
    k: int,
    target: Coord,
    player: Player,
    is_attacking: bool,
)
    requires
        0 <= k <= s.len(),
        actors_error(b, s.take(k), target, player, is_attacking) is Some,
    ensures
        actors_error(b, s, target, player, is_attacking) == actors_error(
            b,
            s.take(k),
            target,
            player,
            is_attacking,
        ),
    decreases s.len(),
{
    if k == s.len() {
        assert(s.take(k) =~= s);
    } else {
        assert(s.drop_last().take(k) =~= s.take(k));
        lemma_actors_error_prefix(b, s.drop_last(), k, target, player, is_attacking);
    }
}

/// A step adds at most 2 to the power.
proof fn lemma_step_power(m: Map<Coord, Tile>, a: BattleActor)
    ensures
        0 <= resolve_step(m, a).1 <= 2,
{
}

/// `m` after each piece of `side` at an address of `coords` was resupplied,
/// in order.
pub open spec fn resupply_all(m: Map<Coord, Tile>, coords: Seq<Coord>, side: Player) -> Map<
    Coord,
    Tile,
>
    decreases coords.len(),
{
    if coords.len() == 0 {
        m
    } else {
        let m1 = resupply_all(m, coords.drop_last(), side);
        let c = coords.last();
        match piece_in(m1, c) {
            Some(p) => if p.owner == side {
                put(m1, c, Some(Piece { exhausted: false, ..p }))
            } else {
                m1
            },
            None => m1,
        }
    }
}

/// What the start of a side's turn brings: the addresses of the pieces of
/// that side to resupply, and what that side earns.
#[derive(Clone, Debug)]
pub struct TurnStart {
    pub resupplied: Vec<Coord>,
    pub income: u8,
}

/// The phases that run when a side's turn starts (resupply, then income).
/// They are left to the embedding application; `NoTurnPhases` does nothing.
pub trait TurnPhases {
    /// What the start of `side`'s turn brings on `board`.
    fn turn_start(&self, board: &Board, side: Player) -> TurnStart;
}

/// Turn phases that resupply nothing and pay nothing.
#[derive(Copy, Clone, Debug)]
pub struct NoTurnPhases;

impl TurnPhases for NoTurnPhases {
    fn turn_start(&self, board: &Board, side: Player) -> (r: TurnStart) {
        TurnStart { resupplied: Vec::new(), income: 0 }
    }
}

/// Whether `a` and `b` touch a common address.
fn actors_overlap(a: BattleActor, b: BattleActor) -> (r: bool)
    ensures
        r == overlap(a, b),
{
    let (a_source, a_end) = match a {
        BattleActor::Static { coord } => (coord, coord),
        BattleActor::Moving { from, to } => (from, to),
    };
    let (b_source, b_end) = match b {
        BattleActor::Static { coord } => (coord, coord),
        BattleActor::Moving { from, to } => (from, to),
    };
    a_source == b_source || a_source == b_end || a_end == b_source || a_end == b_end
}

/// Whether no two actors of `s` touch a common address.
fn all_apart(s: &Vec<BattleActor>) -> (r: bool)
    ensures
        r == actors_apart(s@),
{
    let n = s.len();
    let mut i: usize = 0;
    while i < n
        invariant
            n == s@.len(),
            i <= n,
            forall|x: int, y: int| 0 <= x < i && 0 <= y < n && x != y ==> !#[trigger] overlap(s@[x], s@[y]),
        decreases n - i,
    {
        let mut j: usize = 0;
        while j < n
            invariant
                n == s@.len(),
                i < n,
                j <= n,
                forall|x: int, y: int|
                    0 <= x < i && 0 <= y < n && x != y ==> !#[trigger] overlap(s@[x], s@[y]),
                forall|y: int| 0 <= y < j && i != y ==> !#[trigger] overlap(s@[i as int], s@[y]),
            decreases n - j,
        {
            if i != j && actors_overlap(s[i], s[j]) {
                assert(overlap(s@[i as int], s@[j as int]));
                return false;
            }
            j += 1;
        }
        i += 1;
    }
    true
}

/// Position of a side's entry in the treasury.
fn side_index(p: Player) -> (r: usize)
    ensures
        r == spec_side_index(p),
{
    match p {
        Player::P1 => 0,
        Player::P2 => 1,
    }
}

pub open spec fn spec_side_index(p: Player) -> int {
    match p {
        Player::P1 => 0,
        Player::P2 => 1,
    }
}

/// A game: the board, the side whose turn it is, and each side's treasury.
#[derive(Clone, Debug, PartialEq, Eq)]
pub struct Game {
    board: Board,
    current_player: Player,
    money: [u8; 2],
}

impl Game {
    pub closed spec fn spec_board(&self) -> Board {
        self.board
    }

    pub closed spec fn spec_current_player(&self) -> Player {
        self.current_player
    }

    /// What `p` holds in the treasury.
    pub closed spec fn spec_money(&self, p: Player) -> u8 {
        self.money@[spec_side_index(p)]
    }

    pub open spec fn wf(&self) -> bool {
        self.spec_board().wf()
    }

    /// `next` differs from `self` at most in its board's tiles.
    pub open spec fn same_but_tiles(&self, next: &Game) -> bool {
        &&& next.wf()
        &&& next.spec_board().same_shape(&self.spec_board())
        &&& next.spec_current_player() == self.spec_current_player()
        &&& next.spec_money(Player::P1) == self.spec_money(Player::P1)
        &&& next.spec_money(Player::P2) == self.spec_money(Player::P2)
    }

    /// `next` is `self` after the current player moved from `from` to `to`.
    pub open spec fn move_applied(&self, next: &Game, from: Coord, to: Coord) -> bool {
        &&& self.same_but_tiles(next)
        &&& next.spec_board()@ == moved(self.spec_board()@, from, to)
    }

    /// `next` is `self` after the current player recruited a `kind` at `c`.
    pub open spec fn recruit_applied(&self, next: &Game, kind: PieceType, c: Coord) -> bool {
        let player = self.spec_current_player();
        &&& next.wf()
        &&& next.spec_board().same_shape(&self.spec_board())
        &&& next.spec_current_player() == player
        &&& next.spec_money(player) == self.spec_money(player) - kind.spec_cost()
        &&& next.spec_money(player.spec_opponent()) == self.spec_money(player.spec_opponent())
        &&& next.spec_board()@ == put(
            self.spec_board()@,
            c,
            Some(Piece { kind, exhausted: true, owner: player }),
        )
    }

    /// `next` is `self` after the described battle.
    pub open spec fn battle_applied(
        &self,
        next: &Game,
        target: Coord,
        target_is_defending: bool,
        initiator: BattleActor,
        attack_supporters: Seq<BattleActor>,
        defence_supporters: Seq<BattleActor>,
    ) -> bool {
        &&& self.same_but_tiles(next)
        &&& next.spec_board()@ == battle_result(
            self.spec_board()@,
            target,
            target_is_defending,
            initiator,
            attack_supporters,
            defence_supporters,
        )
    }

    /// `next` is `self` with the turn passed to the other side.
    pub open spec fn end_turn_applied(&self, next: &Game) -> bool {
        &&& next.spec_board() == self.spec_board()
        &&& next.spec_current_player() == self.spec_current_player().spec_opponent()
        &&& next.spec_money(Player::P1) == self.spec_money(Player::P1)
        &&& next.spec_money(Player::P2) == self.spec_money(Player::P2)
    }

    /// A game on the empty board, with P1 to play and empty treasuries.
    pub fn new() -> (r: Game)
        ensures
            r.wf(),
            r.spec_board().spec_ranks() == 0,
            r.spec_board().spec_files() == 0,
            r.spec_board()@ == Map::<Coord, Tile>::empty(),
            r.spec_current_player() == Player::P1,
            r.spec_money(Player::P1) == 0,
            r.spec_money(Player::P2) == 0,
    {
        Game { board: Board::new(), current_player: Player::P1, money: [0, 0] }
    }

    /// A game on `board`, with `current_player` to play and `money[0]` and
    /// `money[1]` in the treasuries of P1 and P2.
    pub fn from_parts(board: Board, current_player: Player, money: [u8; 2]) -> (r: Game)
        requires
            board.wf(),
        ensures
            r.wf(),
            r.spec_board() == board,
            r.spec_current_player() == current_player,
            r.spec_money(Player::P1) == money@[0],
            r.spec_money(Player::P2) == money@[1],
    {
        Game { board, current_player, money }
    }

    pub fn board(&self) -> (r: &Board)
        ensures
            *r == self.spec_board(),
    {
        &self.board
    }

    pub fn current_player(&self) -> (r: Player)
        ensures
            r == self.spec_current_player(),
    {
        self.current_player
    }

    /// What `player` holds in the treasury.
    pub fn money(&self, player: Player) -> (r: u8)
        ensures
            r == self.spec_money(player),
    {
        self.money[side_index(player)]
    }

    /// Checks that `coord` holds a tile.
    fn check_tile(&self, coord: Coord) -> (r: Result<Tile, GameError>)
        requires
            self.wf(),
        ensures
            r is Err <==> tile_error(self.spec_board(), coord) is Some,
            r matches Err(e) ==> tile_error(self.spec_board(), coord) == Some(e),
            r matches Ok(t) ==> self.spec_board().tile_at(coord) == Some(t),
    {
        if !self.board.coord_in_bounds(coord) {
            return Err(GameError::OutOfBounds);
        }
        match self.board.get(coord) {
            Some(t) => Ok(t),
            None => Err(GameError::NoTileAt),
        }
    }

    /// Checks that `player` may move the piece at `from` to `to`.
    fn check_move(&self, from: Coord, to: Coord, player: Player) -> (r: Result<(), GameError>)
        requires
            self.wf(),
        ensures
            r == as_result(move_error(self.spec_board(), from, to, player)),
    {
        let from_tile = self.check_tile(from)?;
        let to_tile = self.check_tile(to)?;
        if to_tile.piece_option.is_some() {
            return Err(GameError::TileOccupied);
        }
        let piece = match from_tile.piece_option {
            Some(p) => p,
            None => {
                return Err(GameError::TileEmpty);
            },
        };
        if piece.exhausted() {
            return Err(GameError::PieceExhausted);
        }
        if piece.owner() != player {
            return Err(GameError::NotOwner);
        }
        if from.distance(to) > piece.speed() {
            return Err(GameError::OutOfSpeedRange);
        }
        Ok(())
    }

    /// Whether the current player may move the piece at `from` to `to`.
    pub fn can_do_move(&self, from: Coord, to: Coord) -> (r: bool)
        requires
            self.wf(),
        ensures
            r == (move_error(self.spec_board(), from, to, self.spec_current_player()) is None),
    {
        self.check_move(from, to, self.current_player).is_ok()
    }

    /// Moves the current player's piece from `from` to `to`, where it becomes
    /// exhausted; nothing changes when the move is not allowed.
    pub fn do_move(&mut self, from: Coord, to: Coord) -> (r: Result<(), GameError>)
        requires
            old(self).wf(),
        ensures
            r == as_result(
                move_error(old(self).spec_board(), from, to, old(self).spec_current_player()),
            ),
            r is Ok ==> old(self).move_applied(final(self), from, to),
            r is Err ==> *final(self) == *old(self),
    {
        self.check_move(from, to, self.current_player)?;
        self.relocate(from, to);
        Ok(())
    }

    /// Puts the piece at `from` on `to`, exhausted, and empties `from`.
    fn relocate(&mut self, from: Coord, to: Coord)
        requires
            old(self).wf(),
            old(self).spec_board()@.contains_key(to),
            old(self).spec_board().piece_at(from) is Some,
        ensures
            old(self).move_applied(final(self), from, to),
    {
        let mut piece = match self.board.get(from) {
            Some(t) => t.piece_option.unwrap(),
            None => {
                proof {
                    assert(false);
                }
                return;
            },
        };
        piece.exhausted = true;
        self.board.set_piece(to, Some(piece));
        self.board.set_piece(from, None);
    }

    /// Checks that the current player may recruit a `piece_type` at `coord`.
    fn check_recruit(&self, piece_type: PieceType, coord: Coord) -> (r: Result<(), GameError>)
        requires
            self.wf(),
        ensures
            r == as_result(
                recruit_error(
                    self.spec_board(),
                    self.spec_money(self.spec_current_player()),
                    self.spec_current_player(),
                    piece_type,
                    coord,
                ),
            ),
    {
        let tile = self.check_tile(coord)?;
        if !tile.can_recruit(self.current_player) {
            return Err(GameError::CannotRecruitHere);
        }
        if self.money(self.current_player) < piece_type.cost() {
            return Err(GameError::InsufficientFunds);
        }
        if tile.piece_option.is_some() {
            return Err(GameError::TileOccupied);
        }
        Ok(())
    }

    /// Whether the current player may recruit a `piece_type` at `coord`.
    pub fn can_do_recruit(&self, piece_type: PieceType, coord: Coord) -> (r: bool)
        requires
            self.wf(),
        ensures
            r == (recruit_error(
                self.spec_board(),
                self.spec_money(self.spec_current_player()),
                self.spec_current_player(),
                piece_type,
                coord,
            ) is None),
    {
        self.check_recruit(piece_type, coord).is_ok()
    }

    /// Pays for a `piece_type` from the current player's treasury and puts a
    /// new, exhausted one of theirs at `coord`; nothing changes when the
    /// recruit is not allowed.
    pub fn do_recruit(&mut self, piece_type: PieceType, coord: Coord) -> (r: Result<(), GameError>)
        requires
            old(self).wf(),
        ensures
            r == as_result(
                recruit_error(
                    old(self).spec_board(),
                    old(self).spec_money(old(self).spec_current_player()),
                    old(self).spec_current_player(),
                    piece_type,
                    coord,
                ),
            ),
            r is Ok ==> old(self).recruit_applied(final(self), piece_type, coord),
            r is Err ==> *final(self) == *old(self),
    {
        self.check_recruit(piece_type, coord)?;
        let player = self.current_player;
        let left = self.money(player) - piece_type.cost();
        self.money = match player {
            Player::P1 => [left, self.money[1]],
            Player::P2 => [self.money[0], left],
        };
        self.board.set_piece(coord, Some(Piece::new(piece_type, player)));
        Ok(())
    }

    /// Checks that `actor` may contribute for `player` to a battle over
    /// `target`, on the attacking side or on the defending one.
    fn validate_actor(
        &self,
        actor: BattleActor,
        target: Coord,
        player: Player,
        is_attacking: bool,
    ) -> (r: Result<(), GameError>)
        requires
            self.wf(),
        ensures
            r == as_result(actor_error(self.spec_board(), actor, target, player, is_attacking)),
    {
        let (piece, end, is_moving) = match actor {
            BattleActor::Static { coord } => {
                let tile = self.check_tile(coord)?;
                let piece = match tile.piece_option {
                    Some(p) => p,
                    None => {
                        return Err(GameError::TileEmpty);
                    },
                };
                if piece.exhausted() {
                    return Err(GameError::PieceExhausted);
                }
                if piece.owner() != player {
                    return Err(GameError::NotOwner);
                }
                (piece, coord, false)
            },
            BattleActor::Moving { from, to } => {
                self.check_move(from, to, player)?;
                let piece = match self.board.get(from) {
                    Some(t) => t.piece_option.unwrap(),
                    None => {
                        proof {
                            assert(false);
                        }
                        return Err(GameError::NoTileAt);
                    },
                };
                (piece, to, true)
            },
        };
        if !piece.can_support(is_attacking, is_moving) {
            return Err(GameError::ActorCannotSupport);
        }
        let range = piece.range();
        let d = end.distance(target);
        if !(range.start <= d && d < range.end) {
            return Err(GameError::ActorOutOfRange);
        }
        Ok(())
    }

    /// Checks the actors of `actors` in order, and gives the first error.
    fn validate_actors(
        &self,
        actors: &[BattleActor],
        target: Coord,
        player: Player,
        is_attacking: bool,
    ) -> (r: Result<(), GameError>)
        requires
            self.wf(),
        ensures
            r == as_result(actors_error(self.spec_board(), actors@, target, player, is_attacking)),
    {
        let mut i: usize = 0;
        while i < actors.len()
            invariant
                self.wf(),
                i <= actors@.len(),
                actors_error(self.spec_board(), actors@.take(i as int), target, player, is_attacking)
                    is None,
            decreases actors@.len() - i,
        {
            assert(actors@.take(i + 1).drop_last() =~= actors@.take(i as int));
            if let Err(e) = self.validate_actor(actors[i], target, player, is_attacking) {
                proof {
                    lemma_actors_error_prefix(
                        self.spec_board(),
                        actors@,
                        i + 1,
                        target,
                        player,
                        is_attacking,
                    );
                }
                return Err(e);
            }
            i += 1;
        }
        assert(actors@.take(i as int) =~= actors@);
        Ok(())
    }

    /// Checks that the current player may start the described battle.
    fn check_battle(
        &self,
        target: Coord,
        target_is_defending: bool,
        initiator: BattleActor,
        attack_supporters: &[BattleActor],
        defence_supporters: &[BattleActor],
    ) -> (r: Result<(), GameError>)
        requires
            self.wf(),
        ensures
            r == as_result(
                battle_error(
                    self.spec_board(),
                    self.spec_current_player(),
                    target,
                    target_is_defending,
                    initiator,
                    attack_supporters@,
                    defence_supporters@,
                ),
            ),
    {
        let tile = self.check_tile(target)?;
        let target_piece = match tile.piece_option {
            Some(p) => p,
            None => {
                return Err(GameError::TileEmpty);
            },
        };
        if target_piece.owner() == self.current_player {
            return Err(GameError::TargetNotEnemy);
        }
        if target_is_defending && !target_piece.can_defend() {
            return Err(GameError::TargetCannotDefend);
        }
        self.validate_actor(initiator, target, self.current_player, true)?;
        self.validate_actors(attack_supporters, target, self.current_player, true)?;
        self.validate_actors(defence_supporters, target, self.current_player.opponent(), false)?;
        let mut all: Vec<BattleActor> = Vec::new();
        all.push(initiator);
        let mut i: usize = 0;
        while i < attack_supporters.len()
            invariant
                i <= attack_supporters@.len(),
                all@ == seq![initiator] + attack_supporters@.take(i as int),
            decreases attack_supporters@.len() - i,
        {
            all.push(attack_supporters[i]);
            assert(seq![initiator] + attack_supporters@.take(i + 1) =~= all@);
            i += 1;
        }
        assert(attack_supporters@.take(i as int) =~= attack_supporters@);
        let ghost att = all@;
        if target_is_defending {
            all.push(BattleActor::Static { coord: target });
        }
        let ghost own = all@;
        let mut i: usize = 0;
        while i < defence_supporters.len()
            invariant
                i <= defence_supporters@.len(),
                all@ == own + defence_supporters@.take(i as int),
            decreases defence_supporters@.len() - i,
        {
            all.push(defence_supporters[i]);
            assert(own + defence_supporters@.take(i + 1) =~= all@);
            i += 1;
        }
        assert(defence_supporters@.take(i as int) =~= defence_supporters@);
        assert(all@ =~= attackers(initiator, attack_supporters@) + defenders(
            target,
            target_is_defending,
            defence_supporters@,
        ));
        if !all_apart(&all) {
            return Err(GameError::ActorsOverlap);
        }
        Ok(())
    }

    /// Whether the current player may start the described battle.
    pub fn can_do_battle(
        &self,
        target: Coord,
        target_is_defending: bool,
        initiator: BattleActor,
        attack_supporters: &[BattleActor],
        defence_supporters: &[BattleActor],
    ) -> (r: bool)
        requires
            self.wf(),
        ensures
            r == (battle_error(
                self.spec_board(),
                self.spec_current_player(),
                target,
                target_is_defending,
                initiator,
                attack_supporters@,
                defence_supporters@,
            ) is None),
    {
        self.check_battle(
            target,
            target_is_defending,
            initiator,
            attack_supporters,
            defence_supporters,
        ).is_ok()
    }

    /// Exhausts the actor's piece, relocating it for a moving actor, and
    /// gives the power it adds.
    fn resolve_actor(&mut self, actor: BattleActor) -> (r: u8)
        requires
            old(self).wf(),
        ensures
            old(self).same_but_tiles(final(self)),
            (final(self).spec_board()@, r as int) == resolve_step(old(self).spec_board()@, actor),
    {
        match actor {
            BattleActor::Static { coord } => {
                let piece = match self.board.get(coord) {
                    Some(t) => match t.piece_option {
                        Some(p) => p,
                        None => {
                            return 0;
                        },
                    },
                    None => {
                        return 0;
                    },
                };
                let mut exhausted = piece;
                exhausted.exhausted = true;
                self.board.set_piece(coord, Some(exhausted));
                piece.power()
            },
            BattleActor::Moving { from, to } => {
                let piece = match self.board.get(from) {
                    Some(t) => match t.piece_option {
                        Some(p) => p,
                        None => {
                            return 0;
                        },
                    },
                    None => {
                        return 0;
                    },
                };
                if self.board.get(to).is_none() {
                    return 0;
                }
                self.relocate(from, to);
                piece.power()
            },
        }
    }

    /// Resolves the actors of `actors` in order, and gives the sum of their
    /// powers.
    fn resolve_actors(&mut self, actors: &[BattleActor]) -> (r: u128)
        requires
            old(self).wf(),
        ensures
            old(self).same_but_tiles(final(self)),
            (final(self).spec_board()@, r as int) == resolve_all(
                old(self).spec_board()@,
                actors@,
            ),
            r <= 2 * actors.len(),
    {
        let ghost m = self.board@;
        let mut total: u128 = 0;
        let mut i: usize = 0;
        while i < actors.len()
            invariant
                old(self).same_but_tiles(self),
                i <= actors@.len(),
                total <= 2 * i,
                (self.spec_board()@, total as int) == resolve_all(m, actors@.take(i as int)),
            decreases actors@.len() - i,
        {
            assert(actors@.take(i + 1).drop_last() =~= actors@.take(i as int));
            let ghost before = self.spec_board()@;
            let p = self.resolve_actor(actors[i]);
            proof {
                lemma_step_power(before, actors@[i as int]);
            }
            total = total + p as u128;
            i += 1;
        }
        assert(actors@.take(i as int) =~= actors@);
        total
    }

    /// Resolves the described battle for the current player: every attacking
    /// actor and then every defending one is exhausted (and relocated, when
    /// moving), and the target's piece is removed when the attack power
    /// strictly exceeds the defence power. Nothing changes when the battle
    /// is not allowed, in particular when two of its actors (the defending
    /// target included) touch a common address.
    pub fn do_battle(
        &mut self,
        target: Coord,
        target_is_defending: bool,
        initiator: BattleActor,
        attack_supporters: &[BattleActor],
        defence_supporters: &[BattleActor],
    ) -> (r: Result<(), GameError>)
        requires
            old(self).wf(),
        ensures
            r == as_result(
                battle_error(
                    old(self).spec_board(),
                    old(self).spec_current_player(),
                    target,
                    target_is_defending,
                    initiator,
                    attack_supporters@,
                    defence_supporters@,
                ),
            ),
            r is Ok ==> old(self).battle_applied(
                final(self),
                target,
                target_is_defending,
                initiator,
                attack_supporters@,
                defence_supporters@,
            ),
            r is Err ==> *final(self) == *old(self),
    {
        self.check_battle(
            target,
            target_is_defending,
            initiator,
            attack_supporters,
            defence_supporters,
        )?;
        let ghost m = self.board@;
        let first = self.resolve_actor(initiator) as u128;
        let rest = self.resolve_actors(attack_supporters);
        proof {
            lemma_step_power(m, initiator);
            lemma_resolve_all_prepend(m, initiator, attack_supporters@);
        }
        let attack: u128 = first + rest;
        assert(resolve_all(m, attackers(initiator, attack_supporters@)) == (self.board@, attack as int));
        let ghost m_att = self.board@;
        let mut own: u128 = 0;
        if target_is_defending {
            own = self.resolve_actor(BattleActor::Static { coord: target }) as u128;
            proof {
                lemma_step_power(m_att, BattleActor::Static { coord: target });
            }
        }
        let rest = self.resolve_actors(defence_supporters);
        let defence: u128 = own + rest;
        proof {
            if target_is_defending {
                lemma_resolve_all_prepend(m_att, BattleActor::Static { coord: target }, defence_supporters@);
            }
        }
        assert(resolve_all(m_att, defenders(target, target_is_defending, defence_supporters@)) == (
            self.board@,
            defence as int,
        ));
        if attack > defence {
            if self.board.get(target).is_some() {
                self.board.set_piece(target, None);
            }
        }
        Ok(())
    }

    /// Applies `command` for the current player; nothing changes when it is
    /// not allowed.
    pub fn do_command(&mut self, command: &Command) -> (r: Result<(), GameError>)
        requires
            old(self).wf(),
        ensures
            r is Err ==> *final(self) == *old(self),
            match *command {
                Command::Move { from, to } => {
                    &&& r == as_result(
                        move_error(old(self).spec_board(), from, to, old(self).spec_current_player()),
                    )
                    &&& r is Ok ==> old(self).move_applied(final(self), from, to)
                },
                Command::Recruit { piece_type, coord } => {
                    &&& r == as_result(
                        recruit_error(
                            old(self).spec_board(),
                            old(self).spec_money(old(self).spec_current_player()),
                            old(self).spec_current_player(),
                            piece_type,
                            coord,
                        ),
                    )
                    &&& r is Ok ==> old(self).recruit_applied(final(self), piece_type, coord)
                },
                Command::Battle {
                    target,
                    target_is_defending,
                    initiator,
                    attack_supporters,
                    defence_supporters,
                } => {
                    &&& r == as_result(
                        battle_error(
                            old(self).spec_board(),
                            old(self).spec_current_player(),
                            target,
                            target_is_defending,
                            initiator,
                            attack_supporters@,
                            defence_supporters@,
                        ),
                    )
                    &&& r is Ok ==> old(self).battle_applied(
                        final(self),
                        target,
                        target_is_defending,
                        initiator,
                        attack_supporters@,
                        defence_supporters@,
                    )
                },
                Command::EndTurn => {
                    &&& r is Ok
                    &&& old(self).end_turn_applied(final(self))
                },
            },
    {
        match command {
            Command::Move { from, to } => self.do_move(*from, *to),
            Command::Recruit { piece_type, coord } => self.do_recruit(*piece_type, *coord),
            Command::Battle {
                target,
                target_is_defending,
                initiator,
                attack_supporters,
                defence_supporters,
            } => self.do_battle(
                *target,
                *target_is_defending,
                *initiator,
                attack_supporters.as_slice(),
                defence_supporters.as_slice(),
            ),
            Command::EndTurn => {
                self.do_end_turn();
                Ok(())
            },
        }
    }

    /// Resupplies the current player's pieces at the addresses that `start`
    /// names (others are left alone) and adds its income to their treasury,
    /// saturating at 255.
    pub fn apply_turn_start(&mut self, start: &TurnStart)
        requires
            old(self).wf(),
        ensures
            final(self).wf(),
            final(self).spec_board().same_shape(&old(self).spec_board()),
            final(self).spec_board()@ == resupply_all(
                old(self).spec_board()@,
                start.resupplied@,
                old(self).spec_current_player(),
            ),
            final(self).spec_current_player() == old(self).spec_current_player(),
            final(self).spec_money(old(self).spec_current_player()) == (if old(self).spec_money(
                old(self).spec_current_player(),
            ) + start.income > 255 {
                255
            } else {
                old(self).spec_money(old(self).spec_current_player()) + start.income
            }),
            final(self).spec_money(old(self).spec_current_player().spec_opponent()) == old(
                self,
            ).spec_money(old(self).spec_current_player().spec_opponent()),
    {
        let side = self.current_player;
        let ghost m = self.board@;
        let mut i: usize = 0;
        while i < start.resupplied.len()
            invariant
                old(self).same_but_tiles(self),
                side == old(self).spec_current_player(),
                i <= start.resupplied@.len(),
                self.spec_board()@ == resupply_all(m, start.resupplied@.take(i as int), side),
            decreases start.resupplied@.len() - i,
        {
            assert(start.resupplied@.take(i + 1).drop_last() =~= start.resupplied@.take(i as int));
            let c = start.resupplied[i];
            if let Some(tile) = self.board.get(c) {
                if let Some(piece) = tile.piece_option {
                    if piece.owner == side {
                        self.board.set_piece(c, Some(Piece { exhausted: false, ..piece }));
                    }
                }
            }
            i += 1;
        }
        assert(start.resupplied@.take(i as int) =~= start.resupplied@);
        let earned = self.money(side).saturating_add(start.income);
        self.money = match side {
            Player::P1 => [earned, self.money[1]],
            Player::P2 => [self.money[0], earned],
        };
    }

    /// Passes the turn to the other side, then runs `phases` for that side:
    /// its pieces that they name are resupplied and its treasury is credited.
    /// Whatever they name, no piece changes but by being resupplied, the
    /// new side's treasury does not shrink and the other one is unchanged.
    pub fn do_end_turn_with<P: TurnPhases>(&mut self, phases: &P)
        requires
            old(self).wf(),
        ensures
            final(self).wf(),
            final(self).spec_current_player() == old(self).spec_current_player().spec_opponent(),
            final(self).spec_board().same_shape(&old(self).spec_board()),
            final(self).spec_money(old(self).spec_current_player()) == old(self).spec_money(
                old(self).spec_current_player(),
            ),
            final(self).spec_money(final(self).spec_current_player()) >= old(self).spec_money(
                final(self).spec_current_player(),
            ),
            exists|coords: Seq<Coord>|
                final(self).spec_board()@ == #[trigger] resupply_all(
                    old(self).spec_board()@,
                    coords,
                    final(self).spec_current_player(),
                ),
    {
        self.do_end_turn();
        let start = phases.turn_start(&self.board, self.current_player);
        self.apply_turn_start(&start);
    }

    /// Passes the turn to the other side, running no turn phases (see
    /// `do_end_turn_with`).
    pub fn do_end_turn(&mut self)
        ensures
            old(self).end_turn_applied(final(self)),
    {
        self.current_player = self.current_player.opponent();
    }
}

impl Default for Game {
    fn default() -> (r: Game)
        ensures
            r.wf(),
            r.spec_board().spec_ranks() == 0,
            r.spec_board().spec_files() == 0,
            r.spec_board()@ == Map::<Coord, Tile>::empty(),
            r.spec_current_player() == Player::P1,
            r.spec_money(Player::P1) == 0,
            r.spec_money(Player::P2) == 0,
    {
        Game::new()
    }
}

} // verus!
