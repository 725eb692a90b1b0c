//! The match: moves are taken, effects applied, time goes by, and somebody
//! wins. Each step is stated as a function from the match before to the
//! match after.

use crate::board::{all_killed_at, first_match, has_oid, Board};
use crate::config::Config;
use crate::game_state::{elapsed, spec_elapsed, GameState};
use crate::hexcoord::HexCoord;
use crate::moves::{Move, MoveView};
use crate::object::{with_status, Object, ObjectType, ObjectView};
use crate::player::Player;
use crate::standard_board::{standard_objects, STANDARD_SIZE};
use crate::statuses::{Effect, Status, StatusType};
use vstd::prelude::*;

verus! {

/// Height of a jumper's leap, in thousandths of the way it goes.
pub const JUMP_HEIGHT: u64 = 500;

/// The status that shows `o` on its way to the cell `to`.
pub open spec fn move_status(o: ObjectView, to: HexCoord, time: u64, duration: u64) -> Status {
    Status {
        stype: StatusType::Move {
            from: o.coord,
            to,
            height: if o.otype == ObjectType::Jumper {
                JUMP_HEIGHT
            } else {
                0
            },
        },
        start_time: Some(time),
        duration: Some(duration),
    }
}

/// The object `o` moved to the cell `to`, with the status that shows it on
/// its way in place of an earlier one.
pub open spec fn moved(o: ObjectView, to: HexCoord, time: u64, duration: u64) -> ObjectView {
    ObjectView {
        coord: to,
        statuses: with_status(o.statuses, move_status(o, to, time, duration)),
        ..o
    }
}

/// `objs` with the first object of id `oid` moved to the cell `to`.
pub open spec fn moved_to(
    objs: Seq<ObjectView>,
    oid: usize,
    to: HexCoord,
    time: u64,
    duration: u64,
) -> Seq<ObjectView> {
    match first_match(objs, has_oid(oid)) {
        Some(i) => objs.update(i, moved(objs[i], to, time, duration)),
        None => objs,
    }
}

/// The effects that the objects of `objs` hand out at move `move_nr`, in the
/// order of the objects.
pub open spec fn tick_all_effects(objs: Seq<ObjectView>, move_nr: usize) -> Seq<Effect>
    decreases objs.len(),
{
    if objs.len() == 0 {
        Seq::empty()
    } else {
        tick_all_effects(objs.drop_last(), move_nr) + objs.last().tick_effects(move_nr)
    }
}

/// The objects of `objs` after move `move_nr`.
pub open spec fn ticked_all(objs: Seq<ObjectView>, move_nr: usize) -> Seq<ObjectView> {
    objs.map_values(|o: ObjectView| o.ticked(move_nr))
}

/// `objs` after `effect` was applied at `time`: a kill marks the first
/// object with the victim's id dead, a kill of all on a cell marks every
/// object there dead, each with the status the effect brings; a status is
/// set on the first object with the given id.
pub open spec fn apply_effect(
    objs: Seq<ObjectView>,
    effect: Effect,
    time: u64,
    kill_duration: u64,
) -> Seq<ObjectView> {
    let status = effect.spec_applying_status(time, kill_duration);
    match effect {
        Effect::Kill { victim, .. } => match first_match(objs, has_oid(victim.oid)) {
            Some(i) => objs.update(i, objs[i].killed(status)),
            None => objs,
        },
        Effect::KillAllOn { coord, .. } => all_killed_at(objs, coord, status),
        Effect::SetStatus { object, .. } => match first_match(objs, has_oid(object.oid)) {
            Some(i) => objs.update(
                i,
                objs[i].with_statuses(with_status(objs[i].statuses, status->0)),
            ),
            None => objs,
        },
        Effect::NoOp => objs,
    }
}

/// `objs` after `effects` were applied at `time`, one after the other.
pub open spec fn apply_effects(
    objs: Seq<ObjectView>,
    effects: Seq<Effect>,
    time: u64,
    kill_duration: u64,
) -> Seq<ObjectView>
    decreases effects.len(),
{
    if effects.len() == 0 {
        objs
    } else {
        apply_effect(
            apply_effects(objs, effects.drop_last(), time, kill_duration),
            effects.last(),
            time,
            kill_duration,
        )
    }
}

/// Whether `player` has a living piece among `objs`.
pub open spec fn side_alive(objs: Seq<ObjectView>, player: Player) -> bool {
    exists|i: int|
        0 <= i < objs.len() && (#[trigger] objs[i]).living_piece() && objs[i].player == player
}

/// Who has won on a board with objects `objs`: the side that alone has
/// living pieces, `God` where neither has, nobody where both have.
pub open spec fn spec_winner(objs: Seq<ObjectView>) -> Option<Player> {
    match (side_alive(objs, Player::A), side_alive(objs, Player::B)) {
        (false, false) => Some(Player::God),
        (true, false) => Some(Player::A),
        (false, true) => Some(Player::B),
        (true, true) => None,
    }
}

/// `objs` at `time`: the objects that are gone have left, the others have
/// lost the statuses that expired.
pub open spec fn swept(objs: Seq<ObjectView>, time: u64) -> Seq<ObjectView>
    decreases objs.len(),
{
    if objs.len() == 0 {
        objs
    } else if objs.last().gone(time) {
        swept(objs.drop_last(), time)
    } else {
        swept(objs.drop_last(), time).push(objs.last().pruned(time))
    }
}

/// The state at a move's end: over where somebody has won on `objs`, else
/// `otherwise`.
pub open spec fn settled(objs: Seq<ObjectView>, otherwise: GameState) -> GameState {
    match spec_winner(objs) {
        Some(winner) => GameState::GameOver { winner },
        None => otherwise,
    }
}

/// A match as a mathematical value: the objects on the board and the state.
pub struct GameView {
    pub objs: Seq<ObjectView>,
    pub state: GameState,
}

impl GameView {
    /// Whether the move `m` is taken: the state allows moves and the piece
    /// is of the side to move.
    pub open spec fn accepts(self, m: MoveView) -> bool {
        self.state.spec_allows_moves() && m.object.player == self.state.spec_current_player()
    }

    /// The match after the move `m` was handed in at `time`. A move that is
    /// not taken changes nothing. Else the piece goes to the move's target,
    /// the effects of the move are applied, then those that the objects
    /// hand out at this move while a match is played, and the state goes on.
    pub open spec fn after_move(
        self,
        config: Config,
        m: MoveView,
        time: u64,
        move_duration: u64,
    ) -> GameView {
        if !self.accepts(m) {
            self
        } else {
            let at_target = moved_to(self.objs, m.object.props.oid, m.target(), time, move_duration);
            let objs = match self.state {
                GameState::Playing { move_nr, .. } => apply_effects(
                    ticked_all(at_target, move_nr),
                    m.effects + tick_all_effects(at_target, move_nr),
                    time,
                    config.kill_duration,
                ),
                _ => apply_effects(at_target, m.effects, time, config.kill_duration),
            };
            GameView { objs, state: settled(objs, self.state.spec_on_apply_move(time)) }
        }
    }

    /// The match after a tick at `time`. What is gone leaves the board and
    /// expired statuses leave the objects. A countdown that has run out
    /// starts the play. A move whose time has run out is forfeited: the
    /// state goes on as after a move and the objects hand out their effects
    /// of that move.
    pub open spec fn after_tick(self, config: Config, time: u64) -> GameView {
        let kept = swept(self.objs, time);
        match self.state {
            GameState::Countdown { started_at } => {
                let state = if spec_elapsed(started_at, time, config.game_start_countdown) {
                    GameState::Playing {
                        current_player: config.starting_player,
                        move_start: time,
                        move_nr: 0,
                    }
                } else {
                    self.state
                };
                GameView { objs: kept, state: settled(kept, state) }
            },
            GameState::Playing { move_start, move_nr, .. } => {
                if spec_elapsed(move_start, time, config.play_move_timeout) {
                    let objs = apply_effects(
                        ticked_all(kept, move_nr),
                        tick_all_effects(kept, move_nr),
                        time,
                        config.kill_duration,
                    );
                    GameView { objs, state: settled(objs, self.state.spec_on_apply_move(time)) }
                } else {
                    GameView { objs: kept, state: settled(kept, self.state) }
                }
            },
            _ => GameView { objs: kept, state: settled(kept, self.state) },
        }
    }
}

/// The match: its board, its state, and the rules it is played by.
#[derive(Debug)]
pub struct GameController {
    pub board: Board,
    pub game_state: GameState,
    pub config: Config,
}

impl View for GameController {
    type V = GameView;

    open spec fn view(&self) -> GameView {
        GameView { objs: self.board@, state: self.game_state }
    }
}

fn copy_effects(effects: &Vec<Effect>) -> (out: Vec<Effect>)
    ensures
        out@ == effects@,
{
    let mut out: Vec<Effect> = Vec::new();
    let mut k: usize = 0;
    while k < effects.len()
        invariant
            k <= effects.len(),
            out@ == effects@.take(k as int),
        decreases effects.len() - k,
    {
        out.push(effects[k].clone());
        assert(out@ =~= effects@.take(k + 1));
        k = k + 1;
    }
    assert(effects@.take(effects.len() as int) =~= effects@);
    out
}

fn sweep(board: &mut Board, time: u64)
    ensures
        final(board)@ == swept(old(board)@, time),
        final(board).size == old(board).size,
        old(board).wf() ==> final(board).wf(),
{
    let mut kept: Vec<Object> = Vec::new();
    let mut i: usize = 0;
    while i < board.objects.len()
        invariant
            i <= board.objects.len(),
            *board == *old(board),
            crate::board::views(kept@) == swept(board@.take(i as int), time),
            old(board).wf() ==> forall|k: int|
                0 <= k < kept.len() ==> (#[trigger] crate::board::views(kept@)[k]).wf(),
        decreases board.objects.len() - i,
    {
        assert(board@.take(i + 1).drop_last() =~= board@.take(i as int));
        assert(board@.take(i + 1).last() == board@[i as int]);
        if !board.objects[i].is_gone(time) {
            let mut o = board.objects[i].clone();
            o.prune(time);
            let ghost before = crate::board::views(kept@);
            kept.push(o);
            assert(crate::board::views(kept@) =~= before.push(board@[i as int].pruned(time)));
            assert(old(board).wf() ==> board@[i as int].wf());
        }
        i = i + 1;
    }
    assert(board@.take(board.objects.len() as int) =~= board@);
    board.objects = kept;
}

impl Default for GameController {
    fn default() -> (game: GameController)
        ensures
            game.board@ == standard_objects(),
            game.board.size == STANDARD_SIZE,
            game.config == Config::spec_default(),
            game.game_state == GameState::Waiting,
            game.wf(),
            game.board.wf(),
    {
        GameController::new()
    }
}

impl GameController {
    /// It is the turn of a side that competes, and one such side starts:
    /// what every move and every tick of a match keeps.
    pub open spec fn wf(self) -> bool {
        self.game_state.wf() && self.config.wf()
    }

    /// A match on the standard board by the default rules, not yet started.
    pub fn new() -> (game: GameController)
        ensures
            game.board@ == standard_objects(),
            game.board.size == STANDARD_SIZE,
            game.config == Config::spec_default(),
            game.game_state == GameState::Waiting,
            game.wf(),
            game.board.wf(),
    {
        GameController {
            board: Board::test_square(),
            game_state: GameState::Waiting,
            config: Config::default(),
        }
    }

    /// A match on `board` by the rules of `config`, not yet started.
    pub fn with_config(board: Board, config: Config) -> (game: GameController)
        ensures
            game.board == board,
            game.config == config,
            game.game_state == GameState::Waiting,
            config.wf() ==> game.wf(),
    {
        GameController { board, game_state: GameState::Waiting, config }
    }

    /// Starts the countdown to the match at `time`. To start a match that
    /// does not wait to be started is an error of the caller.
    pub fn start_game(&mut self, time: u64)
        requires
            old(self).game_state is Waiting,
        ensures
            final(self).game_state == (GameState::Countdown { started_at: time }),
            final(self).board == old(self).board,
            final(self).config == old(self).config,
    {
        self.game_state = GameState::Countdown { started_at: time };
    }

    pub fn current_player(&self) -> (p: Player)
        ensures
            p == self.game_state.spec_current_player(),
    {
        match self.game_state {
            GameState::Playing { current_player, .. } => current_player,
            GameState::GameOver { winner } => winner,
            _ => Player::A,
        }
    }

    /// Who has won on the board as it stands.
    pub fn winner(&self) -> (r: Option<Player>)
        ensures
            r == spec_winner(self.board@),
    {
        let mut a_alive = false;
        let mut b_alive = false;
        let mut i: usize = 0;
        while i < self.board.objects.len()
            invariant
                i <= self.board.objects.len(),
                a_alive == side_alive(self.board@.take(i as int), Player::A),
                b_alive == side_alive(self.board@.take(i as int), Player::B),
            decreases self.board.objects.len() - i,
        {
            let ghost before = self.board@.take(i as int);
            let ghost now = self.board@.take(i + 1);
            let o = &self.board.objects[i];
            proof {
                assert(now[i as int] == self.board@[i as int]);
                assert forall|p: Player| side_alive(before, p) implies side_alive(now, p) by {
                    let k = choose|k: int|
                        0 <= k < before.len() && (#[trigger] before[k]).living_piece()
                            && before[k].player == p;
                    assert(now[k] == before[k]);
                }
                assert forall|p: Player|
                    side_alive(now, p) && !(now[i as int].living_piece() && now[i as int].player
                        == p) implies side_alive(before, p) by {
                    let k = choose|k: int|
                        0 <= k < now.len() && (#[trigger] now[k]).living_piece() && now[k].player
                            == p;
                    assert(before[k] == now[k]);
                }
            }
            if !o.is_tile() && !o.props.dead {
                if o.owned_by(&Player::A) {
                    a_alive = true;
                }
                if o.owned_by(&Player::B) {
                    b_alive = true;
                }
            }
            i = i + 1;
        }
        assert(self.board@.take(self.board.objects.len() as int) =~= self.board@);
        match (a_alive, b_alive) {
            (false, false) => Some(Player::God),
            (true, false) => Some(Player::A),
            (false, true) => Some(Player::B),
            (true, true) => None,
        }
    }

    /// Puts the board's object with the id of `object` on the cell `to`,
    /// and shows it on its way there from `time` for `duration`.
    pub fn move_to(&mut self, object: &Object, to: &HexCoord, time: u64, duration: u64)
        ensures
            final(self).board@ == moved_to(
                old(self).board@,
                object.props.oid,
                *to,
                time,
                duration,
            ),
            final(self).board.size == old(self).board.size,
            final(self).game_state == old(self).game_state,
            final(self).config == old(self).config,
            old(self).board.wf() ==> final(self).board.wf(),
    {
        if let Some(i) = self.board.index_of(object.props.oid) {
            let ghost before = self.board@;
            let obj = &mut self.board.objects[i];
            let height: u64 = if obj.otype == ObjectType::Jumper {
                JUMP_HEIGHT
            } else {
                0
            };
            let status = Status::new_move(obj.coord, *to, time, duration, height);
            obj.replace_status(&status);
            obj.set_coord(to);
            assert(self.board@ =~= before.update(
                i as int,
                moved(before[i as int], *to, time, duration),
            ));
            assert(old(self).board.wf() ==> before[i as int].wf());
        }
    }

    /// Lets every object do what it does at move `move_nr`, and gathers the
    /// effects they hand out.
    pub fn tick_objects(&mut self, move_nr: usize, time: u64) -> (effects: Vec<Effect>)
        ensures
            effects@ == tick_all_effects(old(self).board@, move_nr),
            final(self).board@ == ticked_all(old(self).board@, move_nr),
            final(self).board.size == old(self).board.size,
            final(self).game_state == old(self).game_state,
            final(self).config == old(self).config,
            old(self).board.wf() ==> final(self).board.wf(),
    {
        let mut effects: Vec<Effect> = Vec::new();
        let mut i: usize = 0;
        while i < self.board.objects.len()
            invariant
                i <= self.board.objects.len(),
                self.board.size == old(self).board.size,
                self.game_state == old(self).game_state,
                self.config == old(self).config,
                self.board@.len() == old(self).board@.len(),
                effects@ == tick_all_effects(old(self).board@.take(i as int), move_nr),
                forall|k: int|
                    0 <= k < i ==> (#[trigger] self.board@[k]) == old(self).board@[k].ticked(
                        move_nr,
                    ),
                forall|k: int|
                    i <= k < self.board@.len() ==> (#[trigger] self.board@[k]) == old(
                        self,
                    ).board@[k],
                old(self).board.wf() ==> self.board.wf(),
            decreases self.board.objects.len() - i,
        {
            let ghost before = self.board@;
            assert(old(self).board@.take(i + 1).drop_last() =~= old(self).board@.take(i as int));
            assert(old(self).board@.take(i + 1).last() == old(self).board@[i as int]);
            let mut handed = self.board.objects[i].tick(move_nr, time);
            assert(self.board@ =~= before.update(i as int, before[i as int].ticked(move_nr)));
            effects.append(&mut handed);
            i = i + 1;
        }
        assert(old(self).board@.take(self.board.objects.len() as int) =~= old(self).board@);
        assert(self.board@ =~= ticked_all(old(self).board@, move_nr));
        effects
    }

    /// Applies `effects` at `time`, one after the other.
    pub fn apply_effects(&mut self, effects: &Vec<Effect>, time: u64)
        ensures
            final(self).board@ == apply_effects(
                old(self).board@,
                effects@,
                time,
                old(self).config.kill_duration,
            ),
            final(self).board.size == old(self).board.size,
            final(self).game_state == old(self).game_state,
            final(self).config == old(self).config,
            old(self).board.wf() ==> final(self).board.wf(),
    {
        let mut k: usize = 0;
        while k < effects.len()
            invariant
                k <= effects.len(),
                self.board.size == old(self).board.size,
                self.game_state == old(self).game_state,
                self.config == old(self).config,
                self.board@ == apply_effects(
                    old(self).board@,
                    effects@.take(k as int),
                    time,
                    self.config.kill_duration,
                ),
                old(self).board.wf() ==> self.board.wf(),
            decreases effects.len() - k,
        {
            assert(effects@.take(k + 1).drop_last() =~= effects@.take(k as int));
            assert(effects@.take(k + 1).last() == effects@[k as int]);
            self.apply_effect(&effects[k], time);
            k = k + 1;
        }
        assert(effects@.take(effects.len() as int) =~= effects@);
    }

    fn apply_effect(&mut self, effect: &Effect, time: u64)
        ensures
            final(self).board@ == apply_effect(
                old(self).board@,
                *effect,
                time,
                old(self).config.kill_duration,
            ),
            final(self).board.size == old(self).board.size,
            final(self).game_state == old(self).game_state,
            final(self).config == old(self).config,
            old(self).board.wf() ==> final(self).board.wf(),
    {
        let status = effect.applying_status(time, self.config.kill_duration);
        match effect {
            Effect::Kill { victim, .. } => {
                if let Some(i) = self.board.index_of(victim.oid) {
                    let ghost before = self.board@;
                    self.board.objects[i].set_killed(status.as_ref());
                    assert(self.board@ =~= before.update(i as int, before[i as int].killed(status)));
                }
            },
            Effect::KillAllOn { coord, .. } => {
                self.board.kill_all_at(coord, status);
            },
            Effect::SetStatus { object, .. } => {
                if let Some(i) = self.board.index_of(object.oid) {
                    if let Some(s) = status {
                        let ghost before = self.board@;
                        self.board.objects[i].replace_status(&s);
                        assert(self.board@ =~= before.update(
                            i as int,
                            before[i as int].with_statuses(
                                with_status(before[i as int].statuses, s),
                            ),
                        ));
                    }
                }
            },
            Effect::NoOp => {},
        }
    }

    /// Takes the move `m` at `time`, if the state allows moves and the
    /// piece is of the side to move; else nothing happens.
    pub fn apply_move(&mut self, m: &Move, time: u64, move_duration: u64)
        requires
            m.wf(),
            old(self).game_state.wf(),
            old(self).game_state.can_advance(),
        ensures
            final(self)@ == old(self)@.after_move(old(self).config, m@, time, move_duration),
            final(self).config == old(self).config,
            final(self).board.size == old(self).board.size,
            final(self).game_state.wf(),
            old(self).board.wf() ==> final(self).board.wf(),
    {
        if !self.game_state.allows_moves() || !m.object.owned_by(&self.current_player()) {
            return ;
        }
        self.move_to(&m.object, m.target(), time, move_duration);
        let mut effects = copy_effects(&m.effects);
        if let GameState::Playing { move_nr, .. } = self.game_state {
            let mut handed = self.tick_objects(move_nr, time);
            effects.append(&mut handed);
        }
        self.apply_effects(&effects, time);
        self.settle(self.game_state.on_apply_move(time));
    }

    fn settle(&mut self, otherwise: GameState)
        ensures
            final(self).game_state == settled(old(self).board@, otherwise),
            otherwise.wf() ==> final(self).game_state.wf(),
            final(self).board == old(self).board,
            final(self).config == old(self).config,
    {
        match self.winner() {
            Some(winner) => {
                self.game_state = GameState::GameOver { winner };
            },
            None => {
                self.game_state = otherwise;
            },
        }
    }

    /// What happens as time goes by, to be called over and over: what is
    /// gone leaves the board, a countdown that has run out starts the play,
    /// and a side that lets its time for a move run out forfeits the move.
    pub fn tick(&mut self, time: u64)
        requires
            old(self).game_state.wf(),
            old(self).game_state.can_advance(),
        ensures
            final(self)@ == old(self)@.after_tick(old(self).config, time),
            final(self).config == old(self).config,
            final(self).board.size == old(self).board.size,
            old(self).config.wf() ==> final(self).game_state.wf(),
            old(self).board.wf() ==> final(self).board.wf(),
    {
        sweep(&mut self.board, time);
        let mut next = self.game_state;
        match self.game_state {
            GameState::Countdown { started_at } => {
                if elapsed(started_at, time, self.config.game_start_countdown) {
                    next =
                    GameState::Playing {
                        current_player: self.config.starting_player,
                        move_start: time,
                        move_nr: 0,
                    };
                }
            },
            GameState::Playing { move_start, move_nr, .. } => {
                if elapsed(move_start, time, self.config.play_move_timeout) {
                    next = self.game_state.on_apply_move(time);
                    let effects = self.tick_objects(move_nr, time);
                    self.apply_effects(&effects, time);
                }
            },
            _ => {},
        }
        self.settle(next);
    }
}

} // verus!
