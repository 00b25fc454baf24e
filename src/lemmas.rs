use crate::actions::BattleActor;
use crate::board::Board;
use crate::coordinates::Coord;
use crate::game::{
    actor_error, actors_error, attackers, battle_error, battle_result, defenders, exhaust, move_error,
    overlap, piece_in, recruit_error, resolve_all, resolve_step, touches, actors_apart, Game,
};
use crate::piece::{Piece, PieceType};
use crate::player::Player;
use crate::tile::Tile;
use vstd::prelude::*;

verus! {

/// No actor of `s` touches `c`.
pub open spec fn untouched(s: Seq<BattleActor>, c: Coord) -> bool {
    forall|i: int| 0 <= i < s.len() ==> !touches(#[trigger] s[i], c)
}

/// Resolving actors never adds or removes a tile.
pub proof fn lemma_resolve_keeps_tiles(m: Map<Coord, Tile>, s: Seq<BattleActor>)
    ensures
        resolve_all(m, s).0.dom() == m.dom(),
    decreases s.len(),
{
    if s.len() > 0 {
        lemma_resolve_keeps_tiles(m, s.drop_last());
        let m1 = resolve_all(m, s.drop_last()).0;
        assert(resolve_step(m1, s.last()).0.dom() =~= m1.dom());
    }
}

/// Resolving actors that do not touch `c` leaves the tile at `c` as it was.
pub proof fn lemma_resolve_frame(m: Map<Coord, Tile>, s: Seq<BattleActor>, c: Coord)
    requires
        untouched(s, c),
    ensures
        resolve_all(m, s).0.contains_key(c) == m.contains_key(c),
        m.contains_key(c) ==> resolve_all(m, s).0[c] == m[c],
    decreases s.len(),
{
    if s.len() > 0 {
        assert(untouched(s.drop_last(), c)) by {
            assert forall|i: int| 0 <= i < s.drop_last().len() implies !touches(
                #[trigger] s.drop_last()[i],
                c,
            ) by {
                assert(s.drop_last()[i] == s[i]);
            }
        }
        assert(!touches(s[s.len() - 1], c));
        lemma_resolve_frame(m, s.drop_last(), c);
    }
}

/// Resolving `a + b` is resolving `a`, then `b`.
pub proof fn lemma_resolve_concat(m: Map<Coord, Tile>, a: Seq<BattleActor>, b: Seq<BattleActor>)
    ensures
        resolve_all(m, a + b).0 == resolve_all(resolve_all(m, a).0, b).0,
        resolve_all(m, a + b).1 == resolve_all(m, a).1 + resolve_all(resolve_all(m, a).0, b).1,
    decreases b.len(),
{
    if b.len() == 0 {
        assert(a + b =~= a);
        let ma = resolve_all(m, a).0;
        assert(resolve_all(ma, b) == (ma, 0int));
    } else {
        assert((a + b).drop_last() =~= a + b.drop_last());
        assert((a + b).last() == b.last());
        lemma_resolve_concat(m, a, b.drop_last());
    }
}

/// Resolving a single actor.
pub proof fn lemma_resolve_one(m: Map<Coord, Tile>, a: BattleActor)
    ensures
        resolve_all(m, seq![a]) == resolve_step(m, a),
{
    let s = seq![a];
    assert(s.drop_last() =~= Seq::<BattleActor>::empty());
    assert(resolve_all(m, Seq::<BattleActor>::empty()) == (m, 0int));
}

/// A tile of the board's view is the tile at that address.
pub proof fn lemma_view_tile(b: Board, c: Coord)
    ensures
        b@.contains_key(c) <==> b.tile_at(c) is Some,
        b@.contains_key(c) ==> Some(b@[c]) == b.tile_at(c),
        piece_in(b@, c) == b.piece_at(c),
{
}

/// No distance of zero lies within any engagement range.
pub proof fn lemma_range_excludes_zero(kind: PieceType)
    ensures
        !kind.in_range(0),
{
}

/// An actor that may contribute has its piece where it starts and a tile
/// where it ends, other than the target; a moving one ends on an empty tile.
pub proof fn lemma_actor_ok(b: Board, a: BattleActor, target: Coord, player: Player, is_attacking: bool)
    requires
        actor_error(b, a, target, player, is_attacking) is None,
    ensures
        piece_in(b@, a.source()) is Some,
        b@.contains_key(a.end()),
        a is Moving ==> piece_in(b@, a.end()) is None,
        a.end() != target,
        b.piece_at(a.source()).unwrap().owner == player,
{
    lemma_view_tile(b, a.source());
    lemma_view_tile(b, a.end());
    lemma_range_excludes_zero(b.piece_at(a.source()).unwrap().kind);
}

/// When no actor of `s` is refused, none of them is.
pub proof fn lemma_actors_ok(
    b: Board,
    s: Seq<BattleActor>,
    target: Coord,
    player: Player,
    is_attacking: bool,
    i: int,
)
    requires
        actors_error(b, s, target, player, is_attacking) is None,
        0 <= i < s.len(),
    ensures
        actor_error(b, s[i], target, player, is_attacking) is None,
    decreases s.len(),
{
    if i < s.len() - 1 {
        assert(s.drop_last()[i] == s[i]);
        lemma_actors_ok(b, s.drop_last(), target, player, is_attacking, i);
    }
}

/// In a sequence of actors that stay apart, the actor at `k` leaves its
/// piece, exhausted, where it ends, and a moving one leaves its start empty.
pub proof fn lemma_resolve_actor_at(m: Map<Coord, Tile>, s: Seq<BattleActor>, k: int)
    requires
        0 <= k < s.len(),
        actors_apart(s),
        piece_in(m, s[k].source()) is Some,
        m.contains_key(s[k].end()),
        s[k] is Moving ==> piece_in(m, s[k].end()) is None,
    ensures
        piece_in(resolve_all(m, s).0, s[k].end()) == Some(exhaust(piece_in(m, s[k].source()).unwrap())),
        s[k] is Moving ==> piece_in(resolve_all(m, s).0, s[k].source()) is None,
{
    let a = s[k];
    let pre = s.take(k);
    let post = s.skip(k + 1);
    assert(s =~= pre + seq![a] + post);
    assert(touches(a, a.source()) && touches(a, a.end()));
    assert(untouched(pre, a.source()) && untouched(pre, a.end())) by {
        assert forall|i: int| 0 <= i < pre.len() implies !touches(#[trigger] pre[i], a.source())
            && !touches(pre[i], a.end()) by {
            assert(pre[i] == s[i]);
            assert(!overlap(s[k], s[i]));
        }
    }
    assert(untouched(post, a.source()) && untouched(post, a.end())) by {
        assert forall|i: int| 0 <= i < post.len() implies !touches(#[trigger] post[i], a.source())
            && !touches(post[i], a.end()) by {
            assert(post[i] == s[k + 1 + i]);
            assert(!overlap(s[k], s[k + 1 + i]));
        }
    }
    lemma_resolve_concat(m, pre + seq![a], post);
    lemma_resolve_concat(m, pre, seq![a]);
    let mk = resolve_all(m, pre).0;
    lemma_resolve_frame(m, pre, a.source());
    lemma_resolve_frame(m, pre, a.end());
    lemma_resolve_one(mk, a);
    let ma = resolve_step(mk, a).0;
    lemma_resolve_frame(ma, post, a.source());
    lemma_resolve_frame(ma, post, a.end());
}

/// What the battle leaves: the attacking actors resolve, then the defending
/// ones, as one sequence.
pub proof fn lemma_battle_resolves_in_order(
    m: Map<Coord, Tile>,
    target: Coord,
    target_is_defending: bool,
    initiator: BattleActor,
    attack_supporters: Seq<BattleActor>,
    defence_supporters: Seq<BattleActor>,
)
    ensures
        ({
            let all = attackers(initiator, attack_supporters) + defenders(
                target,
                target_is_defending,
                defence_supporters,
            );
            let r = battle_result(
                m,
                target,
                target_is_defending,
                initiator,
                attack_supporters,
                defence_supporters,
            );
            ||| r == resolve_all(m, all).0
            ||| (resolve_all(m, all).0.contains_key(target) && r == resolve_all(m, all).0.insert(
                target,
                Tile { piece_option: None, ..resolve_all(m, all).0[target] },
            ))
        }),
{
    lemma_resolve_concat(
        m,
        attackers(initiator, attack_supporters),
        defenders(target, target_is_defending, defence_supporters),
    );
}

/// Law: after a legal move, `from` is empty and `to` holds the moved piece,
/// exhausted; both tiles keep their terrain, and every other tile, the side
/// to play and both treasuries are unchanged.
pub proof fn lemma_move_effect(g: Game, next: Game, from: Coord, to: Coord)
    requires
        g.wf(),
        move_error(g.spec_board(), from, to, g.spec_current_player()) is None,
        g.move_applied(&next, from, to),
    ensures
        next.spec_board().piece_at(from) is None,
        next.spec_board().piece_at(to) == Some(exhaust(g.spec_board().piece_at(from).unwrap())),
        next.spec_board().tile_at(from).unwrap().kind == g.spec_board().tile_at(from).unwrap().kind,
        next.spec_board().tile_at(to).unwrap().kind == g.spec_board().tile_at(to).unwrap().kind,
        forall|c: Coord|
            c != from && c != to ==> #[trigger] next.spec_board().tile_at(c) == g.spec_board().tile_at(c),
        next.spec_current_player() == g.spec_current_player(),
        next.spec_money(Player::P1) == g.spec_money(Player::P1),
        next.spec_money(Player::P2) == g.spec_money(Player::P2),
{
    let b = g.spec_board();
    let nb = next.spec_board();
    lemma_view_tile(b, from);
    lemma_view_tile(b, to);
    lemma_view_tile(nb, from);
    lemma_view_tile(nb, to);
    assert forall|c: Coord| c != from && c != to implies #[trigger] nb.tile_at(c) == b.tile_at(c) by {
        lemma_view_tile(b, c);
        lemma_view_tile(nb, c);
    }
}

/// Law: a legal recruit takes exactly the piece's cost from the current
/// player's treasury and puts a new, exhausted piece of theirs at `c`; the
/// tile keeps its terrain, and every other tile, the other treasury and the
/// side to play are unchanged.
pub proof fn lemma_recruit_effect(g: Game, next: Game, kind: PieceType, c: Coord)
    requires
        g.wf(),
        recruit_error(
            g.spec_board(),
            g.spec_money(g.spec_current_player()),
            g.spec_current_player(),
            kind,
            c,
        ) is None,
        g.recruit_applied(&next, kind, c),
    ensures
        next.spec_money(g.spec_current_player()) + kind.spec_cost() == g.spec_money(
            g.spec_current_player(),
        ),
        next.spec_money(g.spec_current_player().spec_opponent()) == g.spec_money(
            g.spec_current_player().spec_opponent(),
        ),
        next.spec_board().piece_at(c) == Some(
            Piece { kind, exhausted: true, owner: g.spec_current_player() },
        ),
        next.spec_board().tile_at(c).unwrap().kind == g.spec_board().tile_at(c).unwrap().kind,
        forall|x: Coord| x != c ==> #[trigger] next.spec_board().tile_at(x) == g.spec_board().tile_at(x),
        next.spec_current_player() == g.spec_current_player(),
{
    let b = g.spec_board();
    let nb = next.spec_board();
    lemma_view_tile(b, c);
    lemma_view_tile(nb, c);
    assert forall|x: Coord| x != c implies #[trigger] nb.tile_at(x) == b.tile_at(x) by {
        lemma_view_tile(b, x);
        lemma_view_tile(nb, x);
    }
}

/// The actors of a battle, in the order they resolve.
pub open spec fn battle_actors(
    target: Coord,
    target_is_defending: bool,
    initiator: BattleActor,
    attack_supporters: Seq<BattleActor>,
    defence_supporters: Seq<BattleActor>,
) -> Seq<BattleActor> {
    attackers(initiator, attack_supporters) + defenders(
        target,
        target_is_defending,
        defence_supporters,
    )
}

/// The sum of the powers of the pieces that stand, on `m`, where the actors
/// of `s` start.
pub open spec fn listed_power(m: Map<Coord, Tile>, s: Seq<BattleActor>) -> int
    decreases s.len(),
{
    if s.len() == 0 {
        0
    } else {
        listed_power(m, s.drop_last()) + match piece_in(m, s.last().source()) {
            Some(p) => p.kind.spec_power() as int,
            None => 0,
        }
    }
}

/// The listed power of `a + b` is that of `a` plus that of `b`.
proof fn lemma_listed_power_concat(m: Map<Coord, Tile>, a: Seq<BattleActor>, b: Seq<BattleActor>)
    ensures
        listed_power(m, a + b) == listed_power(m, a) + listed_power(m, b),
    decreases b.len(),
{
    if b.len() == 0 {
        assert(a + b =~= a);
    } else {
        assert((a + b).drop_last() =~= a + b.drop_last());
        assert((a + b).last() == b.last());
        lemma_listed_power_concat(m, a, b.drop_last());
    }
}

/// The first `n` actors of a sequence that stays apart stay apart.
proof fn lemma_apart_prefix(s: Seq<BattleActor>, n: int)
    requires
        actors_apart(s),
        0 <= n <= s.len(),
    ensures
        actors_apart(s.take(n)),
{
    assert forall|i: int, j: int|
        0 <= i < n && 0 <= j < n && i != j implies !#[trigger] overlap(s.take(n)[i], s.take(n)[j]) by {
        assert(s.take(n)[i] == s[i] && s.take(n)[j] == s[j]);
    }
}

/// When actors stay apart and each finds its piece and a tile where it ends,
/// resolving them adds up the powers of exactly the listed pieces.
proof fn lemma_power_listed(m: Map<Coord, Tile>, s: Seq<BattleActor>)
    requires
        actors_apart(s),
        forall|i: int|
            0 <= i < s.len() ==> piece_in(m, (#[trigger] s[i]).source()) is Some && m.contains_key(
                s[i].end(),
            ),
    ensures
        resolve_all(m, s).1 == listed_power(m, s),
    decreases s.len(),
{
    if s.len() > 0 {
        let n = s.len() - 1;
        let rest = s.drop_last();
        let last = s.last();
        assert(rest =~= s.take(n));
        lemma_apart_prefix(s, n);
        assert forall|i: int| 0 <= i < rest.len() implies piece_in(m, (#[trigger] rest[i]).source())
            is Some && m.contains_key(rest[i].end()) by {
            assert(rest[i] == s[i]);
        }
        lemma_power_listed(m, rest);
        assert(untouched(rest, last.source()) && untouched(rest, last.end())) by {
            assert forall|i: int| 0 <= i < rest.len() implies !touches(#[trigger] rest[i], last.source())
                && !touches(rest[i], last.end()) by {
                assert(rest[i] == s[i]);
                assert(!overlap(s[n], s[i]));
            }
        }
        assert(piece_in(m, s[n].source()) is Some && m.contains_key(s[n].end()));
        lemma_resolve_frame(m, rest, last.source());
        lemma_resolve_frame(m, rest, last.end());
    }
}

/// Each actor of an accepted battle (the defending target included) finds
/// its side's piece where it starts and a tile where it ends; a moving one
/// ends on an empty tile; only the target itself ends on the target.
proof fn lemma_battle_actor_ok(
    b: Board,
    player: Player,
    target: Coord,
    target_is_defending: bool,
    initiator: BattleActor,
    attack_supporters: Seq<BattleActor>,
    defence_supporters: Seq<BattleActor>,
    j: int,
)
    requires
        battle_error(
            b,
            player,
            target,
            target_is_defending,
            initiator,
            attack_supporters,
            defence_supporters,
        ) is None,
        0 <= j < battle_actors(
            target,
            target_is_defending,
            initiator,
            attack_supporters,
            defence_supporters,
        ).len(),
    ensures
        ({
            let a = battle_actors(
                target,
                target_is_defending,
                initiator,
                attack_supporters,
                defence_supporters,
            )[j];
            &&& piece_in(b@, a.source()) is Some
            &&& b@.contains_key(a.end())
            &&& a is Moving ==> piece_in(b@, a.end()) is None
            &&& a != (BattleActor::Static { coord: target }) ==> a.end() != target
            &&& j < 1 + attack_supporters.len() ==> b.piece_at(a.source()).unwrap().owner == player
        }),
{
    let att = attackers(initiator, attack_supporters);
    let def = defenders(target, target_is_defending, defence_supporters);
    let all = att + def;
    let a = all[j];
    let na = att.len();
    if j == 0 {
        lemma_actor_ok(b, a, target, player, true);
    } else if j < na {
        assert(a == attack_supporters[j - 1]);
        lemma_actors_ok(b, attack_supporters, target, player, true, j - 1);
        lemma_actor_ok(b, a, target, player, true);
    } else if target_is_defending && j == na {
        assert(a == BattleActor::Static { coord: target });
        lemma_view_tile(b, target);
    } else {
        let d = if target_is_defending {
            j - na - 1
        } else {
            j - na
        };
        assert(a == defence_supporters[d]);
        lemma_actors_ok(b, defence_supporters, target, player.spec_opponent(), false, d);
        lemma_actor_ok(b, a, target, player.spec_opponent(), false);
    }
}

/// In an accepted battle, the attack power is the sum of the powers of the
/// initiator's and the attack supporters' pieces, and the defence power that
/// of the defence supporters' pieces plus, when it defends, the target's.
pub proof fn lemma_battle_powers(
    b: Board,
    player: Player,
    target: Coord,
    target_is_defending: bool,
    initiator: BattleActor,
    attack_supporters: Seq<BattleActor>,
    defence_supporters: Seq<BattleActor>,
)
    requires
        b.wf(),
        battle_error(
            b,
            player,
            target,
            target_is_defending,
            initiator,
            attack_supporters,
            defence_supporters,
        ) is None,
    ensures
        ({
            let att = attackers(initiator, attack_supporters);
            let def = defenders(target, target_is_defending, defence_supporters);
            let (m1, attack) = resolve_all(b@, att);
            let (m2, defence) = resolve_all(m1, def);
            &&& attack == listed_power(b@, att)
            &&& defence == listed_power(b@, def)
        }),
{
    let m = b@;
    let att = attackers(initiator, attack_supporters);
    let def = defenders(target, target_is_defending, defence_supporters);
    let all = att + def;
    assert forall|i: int| 0 <= i < all.len() implies piece_in(m, (#[trigger] all[i]).source())
        is Some && m.contains_key(all[i].end()) by {
        lemma_battle_actor_ok(
            b,
            player,
            target,
            target_is_defending,
            initiator,
            attack_supporters,
            defence_supporters,
            i,
        );
    }
    lemma_power_listed(m, all);
    lemma_apart_prefix(all, att.len() as int);
    assert(all.take(att.len() as int) =~= att);
    assert forall|i: int| 0 <= i < att.len() implies piece_in(m, (#[trigger] att[i]).source())
        is Some && m.contains_key(att[i].end()) by {
        assert(att[i] == all[i]);
    }
    lemma_power_listed(m, att);
    lemma_resolve_concat(m, att, def);
    lemma_listed_power_concat(m, att, def);
}

/// Law: in an accepted battle where the attack power does not exceed the
/// defence power, a tie in particular (both summed over the pieces the
/// battle lists, as they stood before it), nothing is removed: the tiles are
/// those that the actors' own moves and exhaustion left. When no defence
/// supporter starts on the target, the target's piece is still there
/// (exhausted, when it defended).
pub proof fn lemma_battle_tie_keeps_target(
    g: Game,
    next: Game,
    target: Coord,
    target_is_defending: bool,
    initiator: BattleActor,
    attack_supporters: Seq<BattleActor>,
    defence_supporters: Seq<BattleActor>,
)
    requires
        g.wf(),
        battle_error(
            g.spec_board(),
            g.spec_current_player(),
            target,
            target_is_defending,
            initiator,
            attack_supporters,
            defence_supporters,
        ) is None,
        g.battle_applied(
            &next,
            target,
            target_is_defending,
            initiator,
            attack_supporters,
            defence_supporters,
        ),
        listed_power(g.spec_board()@, attackers(initiator, attack_supporters)) <= listed_power(
            g.spec_board()@,
            defenders(target, target_is_defending, defence_supporters),
        ),
    ensures
        next.spec_board()@ == resolve_all(
            g.spec_board()@,
            battle_actors(
                target,
                target_is_defending,
                initiator,
                attack_supporters,
                defence_supporters,
            ),
        ).0,
        (forall|i: int|
            0 <= i < defence_supporters.len() ==> (#[trigger] defence_supporters[i]).source()
                != target) ==> next.spec_board().piece_at(target) == Some(
            if target_is_defending {
                exhaust(g.spec_board().piece_at(target).unwrap())
            } else {
                g.spec_board().piece_at(target).unwrap()
            },
        ),
{
    let b = g.spec_board();
    let m = b@;
    let player = g.spec_current_player();
    let att = attackers(initiator, attack_supporters);
    let def = defenders(target, target_is_defending, defence_supporters);
    let all = att + def;
    lemma_battle_powers(
        b,
        player,
        target,
        target_is_defending,
        initiator,
        attack_supporters,
        defence_supporters,
    );
    lemma_resolve_concat(m, att, def);
    if forall|i: int|
        0 <= i < defence_supporters.len() ==> (#[trigger] defence_supporters[i]).source() != target {
        lemma_view_tile(b, target);
        lemma_view_tile(next.spec_board(), target);
        assert(untouched(att, target)) by {
            assert forall|i: int| 0 <= i < att.len() implies !touches(#[trigger] att[i], target) by {
                assert(att[i] == all[i]);
                lemma_battle_actor_ok(
                    b,
                    player,
                    target,
                    target_is_defending,
                    initiator,
                    attack_supporters,
                    defence_supporters,
                    i,
                );
            }
        }
        assert(untouched(defence_supporters, target)) by {
            assert forall|i: int| 0 <= i < defence_supporters.len() implies !touches(
                #[trigger] defence_supporters[i],
                target,
            ) by {
                let j = if target_is_defending {
                    att.len() + 1 + i
                } else {
                    att.len() + i
                };
                assert(all[j] == defence_supporters[i]);
                lemma_battle_actor_ok(
                    b,
                    player,
                    target,
                    target_is_defending,
                    initiator,
                    attack_supporters,
                    defence_supporters,
                    j,
                );
            }
        }
        lemma_resolve_frame(m, att, target);
        let m1 = resolve_all(m, att).0;
        if target_is_defending {
            lemma_resolve_all_prepend_frame(
                m1,
                BattleActor::Static { coord: target },
                defence_supporters,
                target,
            );
        } else {
            lemma_resolve_frame(m1, defence_supporters, target);
        }
    }
}

/// Resolving the target's own static actor and then actors that do not
/// touch the target leaves the target's piece there, exhausted.
proof fn lemma_resolve_all_prepend_frame(
    m: Map<Coord, Tile>,
    own: BattleActor,
    s: Seq<BattleActor>,
    target: Coord,
)
    requires
        own == (BattleActor::Static { coord: target }),
        untouched(s, target),
        piece_in(m, target) is Some,
    ensures
        piece_in(resolve_all(m, seq![own] + s).0, target) == Some(exhaust(piece_in(m, target).unwrap())),
{
    lemma_resolve_concat(m, seq![own], s);
    lemma_resolve_one(m, own);
    lemma_resolve_frame(resolve_step(m, own).0, s, target);
}

/// Law: in every accepted battle, each actor (the initiator and each
/// supporter, on either side) ends up exhausted where it ends, and a moving
/// one has left its start, whatever the outcome.
pub proof fn lemma_battle_exhausts_actors(
    g: Game,
    next: Game,
    target: Coord,
    target_is_defending: bool,
    initiator: BattleActor,
    attack_supporters: Seq<BattleActor>,
    defence_supporters: Seq<BattleActor>,
    k: int,
)
    requires
        g.wf(),
        battle_error(
            g.spec_board(),
            g.spec_current_player(),
            target,
            target_is_defending,
            initiator,
            attack_supporters,
            defence_supporters,
        ) is None,
        g.battle_applied(
            &next,
            target,
            target_is_defending,
            initiator,
            attack_supporters,
            defence_supporters,
        ),
        0 <= k < 1 + attack_supporters.len() + defence_supporters.len(),
    ensures
        ({
            let a = (seq![initiator] + attack_supporters + defence_supporters)[k];
            &&& next.spec_board().piece_at(a.end()) == Some(
                exhaust(g.spec_board().piece_at(a.source()).unwrap()),
            )
            &&& a is Moving ==> next.spec_board().piece_at(a.source()) is None
        }),
{
    let b = g.spec_board();
    let m = b@;
    let player = g.spec_current_player();
    let att = attackers(initiator, attack_supporters);
    let def = defenders(target, target_is_defending, defence_supporters);
    let all = att + def;
    let listed = seq![initiator] + attack_supporters + defence_supporters;
    let a = listed[k];
    let na = att.len();
    // where `a` stands in `all`
    let j = if k < na || !target_is_defending {
        k
    } else {
        k + 1
    };
    assert(all[j] == a) by {
        if k >= na && target_is_defending {
            assert(def[k + 1 - na] == defence_supporters[k - na]);
        }
    }
    lemma_battle_actor_ok(
        b,
        player,
        target,
        target_is_defending,
        initiator,
        attack_supporters,
        defence_supporters,
        j,
    );
    if k >= na {
        // a defence supporter never stands on the target
        let d = k - na;
        assert(a == defence_supporters[d]);
        lemma_actors_ok(b, defence_supporters, target, player.spec_opponent(), false, d);
        lemma_actor_ok(b, a, target, player.spec_opponent(), false);
    }
    lemma_resolve_actor_at(m, all, j);
    lemma_battle_resolves_in_order(
        m,
        target,
        target_is_defending,
        initiator,
        attack_supporters,
        defence_supporters,
    );
    let nb = next.spec_board();
    lemma_view_tile(nb, a.end());
    lemma_view_tile(nb, a.source());
    lemma_view_tile(b, a.source());
}

/// Law: ending the turn twice gives the turn back to the side that had it,
/// with the board and both treasuries unchanged.
pub proof fn lemma_end_turn_twice(g: Game, g1: Game, g2: Game)
    requires
        g.end_turn_applied(&g1),
        g1.end_turn_applied(&g2),
    ensures
        g1.spec_current_player() != g.spec_current_player(),
        g2.spec_current_player() == g.spec_current_player(),
        g2.spec_board() == g.spec_board(),
        g2.spec_money(Player::P1) == g.spec_money(Player::P1),
        g2.spec_money(Player::P2) == g.spec_money(Player::P2),
{
}

/// Law: outside the grid a board holds no tile; inside it, the tile at an
/// address is the cell placed there.
pub proof fn lemma_tile_at_grid(b: Board, c: Coord)
    requires
        b.wf(),
    ensures
        !b.in_bounds(c) ==> b.tile_at(c) is None && !b@.contains_key(c),
        b.in_bounds(c) ==> b.tile_at(c) == b.cells()[c.rank * b.spec_files() + c.file],
{
}

} // verus!
