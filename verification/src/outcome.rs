//! What holds of every move and every tick, whatever the match.

use crate::board::{clash, clash_free, first_match, has_oid, lemma_first_match, Shared};
use crate::config::Config;
use crate::game_controller::{
    apply_effect, apply_effects, moved_to, side_alive, spec_winner, swept, tick_all_effects,
    ticked_all, GameView,
};
use crate::game_state::{spec_elapsed, GameState};
use crate::hexcoord::HexCoord;
use crate::moves::MoveView;
use crate::object::{first_of_kind, with_status, without_kind, ObjectType, ObjectView};
use crate::player::Player;
use crate::statuses::{Effect, Status, StatusKind};
use vstd::prelude::*;

verus! {

/// Where an object stands and whether it lives: what a match's outcome is
/// made of, without what only shows it.
pub struct Placement {
    pub oid: usize,
    pub otype: ObjectType,
    pub player: Player,
    pub coord: HexCoord,
    pub dead: bool,
}

/// The placement of the object `o`.
pub open spec fn placement(o: ObjectView) -> Placement {
    Placement {
        oid: o.props.oid,
        otype: o.otype,
        player: o.player,
        coord: o.coord,
        dead: o.props.dead,
    }
}

/// The placements of the objects of `objs`, in their order.
pub open spec fn placements(objs: Seq<ObjectView>) -> Seq<Placement> {
    objs.map_values(|o: ObjectView| placement(o))
}

/// Whether the objects of `a` and `b` are placed alike and have the same
/// delayed effects to come.
pub open spec fn alike(a: Seq<ObjectView>, b: Seq<ObjectView>) -> bool {
    &&& placements(a) == placements(b)
    &&& forall|i: int|
        0 <= i < a.len() ==> first_of_kind((#[trigger] a[i]).statuses, StatusKind::DelayedEffect)
            == first_of_kind(b[i].statuses, StatusKind::DelayedEffect)
}

proof fn lemma_placements(a: Seq<ObjectView>, b: Seq<ObjectView>)
    requires
        placements(a) == placements(b),
    ensures
        a.len() == b.len(),
        forall|i: int|
            0 <= i < a.len() ==> (#[trigger] a[i]).props.oid == b[i].props.oid && a[i].otype
                == b[i].otype && a[i].player == b[i].player && a[i].coord == b[i].coord
                && a[i].props.dead == b[i].props.dead,
{
    assert(placements(a).len() == a.len());
    assert(placements(b).len() == b.len());
    assert forall|i: int| 0 <= i < a.len() implies (#[trigger] a[i]).props.oid == b[i].props.oid
        && a[i].otype == b[i].otype && a[i].player == b[i].player && a[i].coord == b[i].coord
        && a[i].props.dead == b[i].props.dead by {
        assert(placements(a)[i] == placement(a[i]));
        assert(placements(b)[i] == placement(b[i]));
    }
}

proof fn lemma_same_first_match(a: Seq<ObjectView>, b: Seq<ObjectView>, oid: usize)
    requires
        placements(a) == placements(b),
    ensures
        first_match(a, has_oid(oid)) == first_match(b, has_oid(oid)),
{
    lemma_placements(a, b);
    lemma_first_match(a, has_oid(oid));
    lemma_first_match(b, has_oid(oid));
    match (first_match(a, has_oid(oid)), first_match(b, has_oid(oid))) {
        (Some(i), Some(j)) => {
            if i < j {
                assert(!has_oid(oid)(b[i]));
            }
            if j < i {
                assert(!has_oid(oid)(a[j]));
            }
        },
        (Some(i), None) => {
            assert(!has_oid(oid)(b[i]));
        },
        (None, Some(j)) => {
            assert(!has_oid(oid)(a[j]));
        },
        (None, None) => {},
    }
}

proof fn lemma_first_of_kind_push(s: Seq<Status>, x: Status, k: StatusKind)
    ensures
        first_of_kind(s.push(x), k) == match first_of_kind(s, k) {
            Some(y) => Some(y),
            None => if x.stype.spec_kind() == k {
                Some(x)
            } else {
                None
            },
        },
    decreases s.len(),
{
    if s.len() == 0 {
        assert(s.push(x).drop_first() =~= s);
    } else {
        assert(s.push(x).drop_first() =~= s.drop_first().push(x));
        lemma_first_of_kind_push(s.drop_first(), x, k);
    }
}

proof fn lemma_first_of_kind_without(s: Seq<Status>, gone: StatusKind, k: StatusKind)
    requires
        gone != k,
    ensures
        first_of_kind(without_kind(s, gone), k) == first_of_kind(s, k),
    decreases s.len(),
{
    if s.len() > 0 {
        let front = s.drop_last();
        assert(s =~= front.push(s.last()));
        lemma_first_of_kind_without(front, gone, k);
        lemma_first_of_kind_push(front, s.last(), k);
        lemma_first_of_kind_push(without_kind(front, gone), s.last(), k);
    }
}

proof fn lemma_first_of_kind_with(s: Seq<Status>, x: Status, k: StatusKind)
    requires
        x.stype.spec_kind() != k,
    ensures
        first_of_kind(with_status(s, x), k) == first_of_kind(s, k),
{
    lemma_first_of_kind_without(s, x.stype.spec_kind(), k);
    lemma_first_of_kind_push(without_kind(s, x.stype.spec_kind()), x, k);
}

proof fn lemma_moved_alike(
    a: Seq<ObjectView>,
    b: Seq<ObjectView>,
    oid: usize,
    to: HexCoord,
    t1: u64,
    d1: u64,
    t2: u64,
    d2: u64,
)
    requires
        alike(a, b),
    ensures
        alike(moved_to(a, oid, to, t1, d1), moved_to(b, oid, to, t2, d2)),
{
    let ma = moved_to(a, oid, to, t1, d1);
    let mb = moved_to(b, oid, to, t2, d2);
    lemma_placements(a, b);
    lemma_same_first_match(a, b, oid);
    lemma_first_match(a, has_oid(oid));
    assert(ma.len() == mb.len());
    assert forall|i: int| 0 <= i < ma.len() implies placements(ma)[i] == placements(mb)[i] by {
        assert(placements(ma)[i] == placement(ma[i]));
        assert(placements(mb)[i] == placement(mb[i]));
        assert(a[i].props.oid == b[i].props.oid);
    }
    assert(placements(ma) =~= placements(mb));
    match first_match(a, has_oid(oid)) {
        Some(i) => {
            lemma_first_of_kind_with(
                a[i].statuses,
                crate::game_controller::move_status(a[i], to, t1, d1),
                StatusKind::DelayedEffect,
            );
            lemma_first_of_kind_with(
                b[i].statuses,
                crate::game_controller::move_status(b[i], to, t2, d2),
                StatusKind::DelayedEffect,
            );
            assert forall|k: int| 0 <= k < ma.len() implies first_of_kind(
                (#[trigger] ma[k]).statuses,
                StatusKind::DelayedEffect,
            ) == first_of_kind(mb[k].statuses, StatusKind::DelayedEffect) by {
                assert(first_of_kind(a[k].statuses, StatusKind::DelayedEffect) == first_of_kind(
                    b[k].statuses,
                    StatusKind::DelayedEffect,
                ));
            }
        },
        None => {},
    }
}

proof fn lemma_tick_alike(a: Seq<ObjectView>, b: Seq<ObjectView>, move_nr: usize)
    requires
        alike(a, b),
    ensures
        tick_all_effects(a, move_nr) == tick_all_effects(b, move_nr),
        placements(ticked_all(a, move_nr)) == placements(ticked_all(b, move_nr)),
    decreases a.len(),
{
    lemma_placements(a, b);
    assert(placements(ticked_all(a, move_nr)) =~= placements(ticked_all(b, move_nr))) by {
        assert forall|i: int| 0 <= i < a.len() implies placements(ticked_all(a, move_nr))[i]
            == placements(ticked_all(b, move_nr))[i] by {
            assert(a[i].ticked(move_nr).coord == a[i].coord);
            assert(b[i].ticked(move_nr).coord == b[i].coord);
        }
    }
    if a.len() > 0 {
        let fa = a.drop_last();
        let fb = b.drop_last();
        assert(placements(fa) =~= placements(fb)) by {
            assert forall|i: int| 0 <= i < fa.len() implies placements(fa)[i] == placements(
                fb,
            )[i] by {
                assert(fa[i] == a[i] && fb[i] == b[i]);
            }
        }
        assert forall|i: int| 0 <= i < fa.len() implies first_of_kind(
            (#[trigger] fa[i]).statuses,
            StatusKind::DelayedEffect,
        ) == first_of_kind(fb[i].statuses, StatusKind::DelayedEffect) by {
            assert(fa[i] == a[i] && fb[i] == b[i]);
        }
        lemma_tick_alike(fa, fb, move_nr);
        assert(a.last() == a[a.len() - 1]);
        assert(b.last() == b[a.len() - 1]);
    }
}

proof fn lemma_effect_keeps_places(
    a: Seq<ObjectView>,
    b: Seq<ObjectView>,
    effect: Effect,
    t1: u64,
    t2: u64,
    kill_duration: u64,
)
    requires
        placements(a) == placements(b),
    ensures
        placements(apply_effect(a, effect, t1, kill_duration)) == placements(
            apply_effect(b, effect, t2, kill_duration),
        ),
{
    lemma_placements(a, b);
    let ra = apply_effect(a, effect, t1, kill_duration);
    let rb = apply_effect(b, effect, t2, kill_duration);
    match effect {
        Effect::Kill { victim, .. } => {
            lemma_same_first_match(a, b, victim.oid);
            lemma_first_match(a, has_oid(victim.oid));
        },
        Effect::SetStatus { object, .. } => {
            lemma_same_first_match(a, b, object.oid);
            lemma_first_match(a, has_oid(object.oid));
        },
        _ => {},
    }
    assert(ra.len() == rb.len());
    assert forall|i: int| 0 <= i < ra.len() implies placements(ra)[i] == placements(rb)[i] by {
        assert(a[i].props.oid == b[i].props.oid);
    }
    assert(placements(ra) =~= placements(rb));
}

proof fn lemma_effects_keep_places(
    a: Seq<ObjectView>,
    b: Seq<ObjectView>,
    effects: Seq<Effect>,
    t1: u64,
    t2: u64,
    kill_duration: u64,
)
    requires
        placements(a) == placements(b),
    ensures
        placements(apply_effects(a, effects, t1, kill_duration)) == placements(
            apply_effects(b, effects, t2, kill_duration),
        ),
    decreases effects.len(),
{
    if effects.len() > 0 {
        lemma_effects_keep_places(a, b, effects.drop_last(), t1, t2, kill_duration);
        lemma_effect_keeps_places(
            apply_effects(a, effects.drop_last(), t1, kill_duration),
            apply_effects(b, effects.drop_last(), t2, kill_duration),
            effects.last(),
            t1,
            t2,
            kill_duration,
        );
    }
}

proof fn lemma_side_alive(a: Seq<ObjectView>, b: Seq<ObjectView>, player: Player)
    requires
        placements(a) == placements(b),
        side_alive(a, player),
    ensures
        side_alive(b, player),
{
    lemma_placements(a, b);
    let i = choose|i: int|
        0 <= i < a.len() && (#[trigger] a[i]).living_piece() && a[i].player == player;
    assert(b[i].living_piece() && b[i].player == player);
}

/// Who has won depends on the placements alone.
pub proof fn winner_depends_on_placements(a: Seq<ObjectView>, b: Seq<ObjectView>)
    requires
        placements(a) == placements(b),
    ensures
        spec_winner(a) == spec_winner(b),
{
    if side_alive(a, Player::A) {
        lemma_side_alive(a, b, Player::A);
    }
    if side_alive(b, Player::A) {
        lemma_side_alive(b, a, Player::A);
    }
    if side_alive(a, Player::B) {
        lemma_side_alive(a, b, Player::B);
    }
    if side_alive(b, Player::B) {
        lemma_side_alive(b, a, Player::B);
    }
}

/// The state without its clock: a countdown without the time it began, a
/// move without the time it began.
pub open spec fn timeless(state: GameState) -> GameState {
    match state {
        GameState::Countdown { .. } => GameState::Countdown { started_at: 0 },
        GameState::Playing { current_player, move_nr, .. } => GameState::Playing {
            current_player,
            move_start: 0,
            move_nr,
        },
        _ => state,
    }
}

/// The outcome of a move does not depend on when it is made, nor on how
/// long it is shown. Take two matches whose objects are placed alike, with
/// the same delayed effects to come, and whose states differ in their clocks
/// at most. The same move, made at whatever times and shown for whatever
/// durations, leaves every object of the one where it leaves that of the
/// other, as dead or alive, and the states again differ in their clocks at
/// most: the same side is to move, as many moves are counted, the same side
/// has won.
pub proof fn move_outcome_ignores_time(
    game_a: GameView,
    game_b: GameView,
    config: Config,
    m: MoveView,
    time_a: u64,
    duration_a: u64,
    time_b: u64,
    duration_b: u64,
)
    requires
        alike(game_a.objs, game_b.objs),
        timeless(game_a.state) == timeless(game_b.state),
    ensures
        ({
            let a = game_a.after_move(config, m, time_a, duration_a);
            let b = game_b.after_move(config, m, time_b, duration_b);
            &&& placements(a.objs) == placements(b.objs)
            &&& timeless(a.state) == timeless(b.state)
            &&& a.state.spec_current_player() == b.state.spec_current_player()
            &&& a.state.spec_winner() == b.state.spec_winner()
        }),
{
    if game_a.accepts(m) {
        assert(game_b.accepts(m));
        let oid = m.object.props.oid;
        let ma = moved_to(game_a.objs, oid, m.target(), time_a, duration_a);
        let mb = moved_to(game_b.objs, oid, m.target(), time_b, duration_b);
        lemma_moved_alike(
            game_a.objs,
            game_b.objs,
            oid,
            m.target(),
            time_a,
            duration_a,
            time_b,
            duration_b,
        );
        match game_a.state {
            GameState::Playing { move_nr, .. } => {
                lemma_tick_alike(ma, mb, move_nr);
                lemma_effects_keep_places(
                    ticked_all(ma, move_nr),
                    ticked_all(mb, move_nr),
                    m.effects + tick_all_effects(ma, move_nr),
                    time_a,
                    time_b,
                    config.kill_duration,
                );
            },
            _ => {
                lemma_effects_keep_places(
                    ma,
                    mb,
                    m.effects,
                    time_a,
                    time_b,
                    config.kill_duration,
                );
            },
        }
        let a = game_a.after_move(config, m, time_a, duration_a);
        let b = game_b.after_move(config, m, time_b, duration_b);
        winner_depends_on_placements(a.objs, b.objs);
    } else {
        assert(!game_b.accepts(m));
    }
}

/// A board on which side B has no living piece and side A has one is won by
/// A, and the other way round; one on which neither has a living piece is
/// won by `God`; one on which both have is won by nobody.
pub proof fn winner_is_the_side_left(objs: Seq<ObjectView>)
    ensures
        side_alive(objs, Player::A) && !side_alive(objs, Player::B) ==> spec_winner(objs) == Some(
            Player::A,
        ),
        !side_alive(objs, Player::A) && side_alive(objs, Player::B) ==> spec_winner(objs) == Some(
            Player::B,
        ),
        !side_alive(objs, Player::A) && !side_alive(objs, Player::B) ==> spec_winner(objs)
            == Some(Player::God),
        side_alive(objs, Player::A) && side_alive(objs, Player::B) ==> spec_winner(objs)
            is None,
{
}

/// A side that lets its time for a move run out forfeits the move: at a
/// tick later than the timeout after the move began, the turn passes to the
/// other side and the count of moves grows by one, though no move was made,
/// unless the decay of that move leaves a side without living pieces, which
/// ends the match.
pub proof fn timeout_passes_the_turn(game: GameView, config: Config, time: u64)
    requires
        game.state is Playing,
        game.state.wf(),
        game.state.can_advance(),
        spec_elapsed(game.state->move_start, time, config.play_move_timeout),
    ensures
        ({
            let after = game.after_tick(config, time);
            let kept = swept(game.objs, time);
            &&& after.objs == apply_effects(
                ticked_all(kept, game.state->move_nr),
                tick_all_effects(kept, game.state->move_nr),
                time,
                config.kill_duration,
            )
            &&& spec_winner(after.objs) is None ==> after.state == (GameState::Playing {
                current_player: game.state->current_player.spec_opponent(),
                move_start: time,
                move_nr: (game.state->move_nr + 1) as usize,
            }) && after.state.spec_current_player() != game.state.spec_current_player()
            &&& spec_winner(after.objs) is Some ==> after.state == (GameState::GameOver {
                winner: spec_winner(after.objs)->0,
            })
        }),
{
}

/// Before the timeout a tick leaves the turn and the count of moves as they
/// are.
pub proof fn no_timeout_keeps_the_turn(game: GameView, config: Config, time: u64)
    requires
        game.state is Playing,
        !spec_elapsed(game.state->move_start, time, config.play_move_timeout),
    ensures
        ({
            let after = game.after_tick(config, time);
            &&& after.objs == swept(game.objs, time)
            &&& spec_winner(after.objs) is None ==> after.state == game.state
        }),
{
}

/// How far a match has come.
pub open spec fn stage(state: GameState) -> int {
    match state {
        GameState::Editing => 0,
        GameState::Waiting => 1,
        GameState::Countdown { .. } => 2,
        GameState::Playing { .. } => 3,
        GameState::GameOver { .. } => 4,
    }
}

/// A match only goes forward: neither a move nor a tick takes the state
/// back to an earlier stage, a match that is over stays over, and while a
/// match is played the count of moves does not fall.
pub proof fn states_only_advance(
    game: GameView,
    config: Config,
    m: MoveView,
    time: u64,
    move_duration: u64,
)
    requires
        game.state.can_advance(),
    ensures
        stage(game.after_move(config, m, time, move_duration).state) >= stage(game.state),
        stage(game.after_tick(config, time).state) >= stage(game.state),
        game.state matches GameState::Playing { move_nr, .. } ==> {
            &&& game.after_move(config, m, time, move_duration).state matches GameState::Playing {
                move_nr: later,
                ..
            } ==> later >= move_nr
            &&& game.after_tick(config, time).state matches GameState::Playing {
                move_nr: later,
                ..
            } ==> later >= move_nr
        },
{
}

/// Whether `after` holds the objects of `before`, one for one, each with
/// its id, type and side, and dead if it was dead.
pub open spec fn none_revived(before: Seq<ObjectView>, after: Seq<ObjectView>) -> bool {
    &&& after.len() == before.len()
    &&& forall|i: int|
        0 <= i < before.len() ==> {
            &&& (#[trigger] after[i]).props.oid == before[i].props.oid
            &&& after[i].otype == before[i].otype
            &&& after[i].player == before[i].player
            &&& before[i].props.dead ==> after[i].props.dead
        }
}

proof fn lemma_effects_revive_none(
    objs: Seq<ObjectView>,
    effects: Seq<Effect>,
    time: u64,
    kill_duration: u64,
)
    ensures
        none_revived(objs, apply_effects(objs, effects, time, kill_duration)),
    decreases effects.len(),
{
    if effects.len() > 0 {
        let mid = apply_effects(objs, effects.drop_last(), time, kill_duration);
        lemma_effects_revive_none(objs, effects.drop_last(), time, kill_duration);
        let after = apply_effect(mid, effects.last(), time, kill_duration);
        match effects.last() {
            Effect::Kill { victim, .. } => {
                lemma_first_match(mid, has_oid(victim.oid));
            },
            Effect::SetStatus { object, .. } => {
                lemma_first_match(mid, has_oid(object.oid));
            },
            _ => {},
        }
        assert(none_revived(mid, after));
    }
}

/// A move takes nothing off the board and revives nothing: after it the
/// board holds the same objects, each with its id, type and side, and what
/// was dead is dead.
pub proof fn moves_revive_none(
    game: GameView,
    config: Config,
    m: MoveView,
    time: u64,
    move_duration: u64,
)
    ensures
        none_revived(game.objs, game.after_move(config, m, time, move_duration).objs),
{
    if game.accepts(m) {
        let at_target = moved_to(game.objs, m.object.props.oid, m.target(), time, move_duration);
        lemma_first_match(game.objs, has_oid(m.object.props.oid));
        assert(none_revived(game.objs, at_target));
        match game.state {
            GameState::Playing { move_nr, .. } => {
                let ticked = ticked_all(at_target, move_nr);
                assert(none_revived(at_target, ticked));
                lemma_effects_revive_none(
                    ticked,
                    m.effects + tick_all_effects(at_target, move_nr),
                    time,
                    config.kill_duration,
                );
            },
            _ => {
                lemma_effects_revive_none(at_target, m.effects, time, config.kill_duration);
            },
        }
    }
}

proof fn lemma_swept(objs: Seq<ObjectView>, time: u64)
    ensures
        swept(objs, time).len() <= objs.len(),
        forall|i: int|
            0 <= i < swept(objs, time).len() ==> exists|j: int|
                0 <= j < objs.len() && (#[trigger] swept(objs, time)[i]) == objs[j].pruned(time),
        clash_free(objs, Shared::Oid) ==> clash_free(swept(objs, time), Shared::Oid),
    decreases objs.len(),
{
    let out = swept(objs, time);
    if objs.len() > 0 {
        let front = objs.drop_last();
        let rest = swept(front, time);
        lemma_swept(front, time);
        assert forall|i: int| 0 <= i < out.len() implies exists|j: int|
            0 <= j < objs.len() && (#[trigger] out[i]) == objs[j].pruned(time) by {
            if i < rest.len() {
                let j = choose|j: int| 0 <= j < front.len() && rest[i] == front[j].pruned(time);
                assert(out[i] == objs[j].pruned(time));
            } else {
                assert(out[i] == objs[objs.len() - 1].pruned(time));
            }
        }
        if clash_free(objs, Shared::Oid) {
            assert forall|i: int, j: int| 0 <= i < j < front.len() implies !clash(
                #[trigger] front[i],
                #[trigger] front[j],
                Shared::Oid,
            ) by {
                assert(front[i] == objs[i] && front[j] == objs[j]);
            }
            assert forall|i: int, j: int| 0 <= i < j < out.len() implies !clash(
                #[trigger] out[i],
                #[trigger] out[j],
                Shared::Oid,
            ) by {
                if j < rest.len() {
                    assert(out[i] == rest[i] && out[j] == rest[j]);
                } else {
                    let k = choose|k: int| 0 <= k < front.len() && rest[i] == front[k].pruned(time);
                    assert(!clash(objs[k], objs[objs.len() - 1], Shared::Oid));
                }
            }
        }
    }
}

proof fn lemma_ids_carried(before: Seq<ObjectView>, after: Seq<ObjectView>)
    requires
        none_revived(before, after),
        clash_free(before, Shared::Oid),
    ensures
        clash_free(after, Shared::Oid),
{
    assert forall|i: int, j: int| 0 <= i < j < after.len() implies !clash(
        #[trigger] after[i],
        #[trigger] after[j],
        Shared::Oid,
    ) by {
        assert(!clash(before[i], before[j], Shared::Oid));
    }
}

/// Ids stay apart: on a board where no two objects share an id, none do
/// after a move, nor after a tick. A tick brings no new object: what is on
/// the board after it was there before.
pub proof fn ids_stay_apart(
    game: GameView,
    config: Config,
    m: MoveView,
    time: u64,
    move_duration: u64,
)
    requires
        clash_free(game.objs, Shared::Oid),
    ensures
        clash_free(game.after_move(config, m, time, move_duration).objs, Shared::Oid),
        clash_free(game.after_tick(config, time).objs, Shared::Oid),
        game.after_tick(config, time).objs.len() <= game.objs.len(),
{
    moves_revive_none(game, config, m, time, move_duration);
    lemma_ids_carried(game.objs, game.after_move(config, m, time, move_duration).objs);
    let kept = swept(game.objs, time);
    lemma_swept(game.objs, time);
    match game.state {
        GameState::Playing { move_start, move_nr, .. } => {
            if spec_elapsed(move_start, time, config.play_move_timeout) {
                let ticked = ticked_all(kept, move_nr);
                assert(none_revived(kept, ticked));
                lemma_ids_carried(kept, ticked);
                lemma_effects_revive_none(
                    ticked,
                    tick_all_effects(kept, move_nr),
                    time,
                    config.kill_duration,
                );
                lemma_ids_carried(
                    ticked,
                    apply_effects(
                        ticked,
                        tick_all_effects(kept, move_nr),
                        time,
                        config.kill_duration,
                    ),
                );
            }
        },
        _ => {},
    }
}

} // verus!
