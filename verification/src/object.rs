//! Tiles and pieces, and the statuses they carry.

use crate::hexcoord::HexCoord;
use crate::player::Player;
use crate::statuses::{Effect, ObjectRef, Status, StatusKind, StatusType};
use vstd::prelude::*;
use vstd::std_specs::cmp::PartialEqSpecImpl;

verus! {

/// Size of an ordinary piece, in thousandths of a cell.
pub const PIECE_SIZE: u64 = 1000;

/// Size of a tile or a wall, in thousandths of a cell.
pub const TILE_SIZE: u64 = 1100;

/// Number of moves before its collapse at which a tile starts to wobble.
pub const TILE_WARNING_MOVES: usize = 2;

/// Milliseconds for which what stood on a collapsed tile keeps falling.
pub const FALL_DURATION: u64 = 2000;

/// Amplitude of the warning wobble, in thousandths.
pub const WOBBLE_AMPLITUDE: u64 = 200;

/// Speed of the warning wobble, in thousandths.
pub const WOBBLE_SPEED: u64 = 37100;

#[derive(Debug, Clone, Copy, PartialEq, Eq, Hash, Structural)]
pub enum ObjectType {
    Tile,
    Wall,
    Dasher,
    Jumper,
}

#[derive(Debug, Clone, Copy)]
pub struct ObjectProps {
    pub oid: usize,
    pub selectable: bool,
    pub draggable: bool,
    pub dead: bool,
    /// in thousandths of a cell
    pub size: u64,
}

/// A tile or a piece of the board.
#[derive(Debug)]
pub struct Object {
    pub otype: ObjectType,
    pub coord: HexCoord,
    pub props: ObjectProps,
    pub statuses: Vec<Status>,
    pub player: Player,
}

/// An object as a mathematical value.
pub struct ObjectView {
    pub otype: ObjectType,
    pub coord: HexCoord,
    pub props: ObjectProps,
    pub statuses: Seq<Status>,
    pub player: Player,
}

impl View for Object {
    type V = ObjectView;

    open spec fn view(&self) -> ObjectView {
        ObjectView {
            otype: self.otype,
            coord: self.coord,
            props: self.props,
            statuses: self.statuses@,
            player: self.player,
        }
    }
}

/// Whether some status in `statuses` is of kind `kind`.
pub open spec fn has_kind(statuses: Seq<Status>, kind: StatusKind) -> bool {
    exists|i: int| 0 <= i < statuses.len() && (#[trigger] statuses[i]).stype.spec_kind() == kind
}

/// Whether no two statuses in `statuses` are of one kind.
pub open spec fn distinct_kinds(statuses: Seq<Status>) -> bool {
    forall|i: int, j: int|
        0 <= i < j < statuses.len() ==> (#[trigger] statuses[i]).stype.spec_kind() != (
        #[trigger] statuses[j]).stype.spec_kind()
}

/// The first status of kind `kind` in `statuses`.
pub open spec fn first_of_kind(statuses: Seq<Status>, kind: StatusKind) -> Option<Status>
    decreases statuses.len(),
{
    if statuses.len() == 0 {
        None
    } else if statuses[0].stype.spec_kind() == kind {
        Some(statuses[0])
    } else {
        first_of_kind(statuses.drop_first(), kind)
    }
}

/// `statuses` without those of kind `kind`, the others in their order.
pub open spec fn without_kind(statuses: Seq<Status>, kind: StatusKind) -> Seq<Status>
    decreases statuses.len(),
{
    if statuses.len() == 0 {
        statuses
    } else if statuses.last().stype.spec_kind() == kind {
        without_kind(statuses.drop_last(), kind)
    } else {
        without_kind(statuses.drop_last(), kind).push(statuses.last())
    }
}

/// `statuses` with `status` at the end, in place of any other of its kind.
pub open spec fn with_status(statuses: Seq<Status>, status: Status) -> Seq<Status> {
    without_kind(statuses, status.stype.spec_kind()).push(status)
}

/// `statuses` without those that have expired at `time`, the others in
/// their order.
pub open spec fn unexpired(statuses: Seq<Status>, time: u64) -> Seq<Status>
    decreases statuses.len(),
{
    if statuses.len() == 0 {
        statuses
    } else if statuses.last().spec_is_expired(time) {
        unexpired(statuses.drop_last(), time)
    } else {
        unexpired(statuses.drop_last(), time).push(statuses.last())
    }
}

/// Whether every status in `statuses` has expired at `time`.
pub open spec fn all_expired(statuses: Seq<Status>, time: u64) -> bool {
    forall|i: int| 0 <= i < statuses.len() ==> (#[trigger] statuses[i]).spec_is_expired(time)
}

/// What removing a kind leaves: statuses of other kinds, each one of those
/// that were there, and kinds stay distinct where they were.
pub proof fn lemma_without_kind(statuses: Seq<Status>, kind: StatusKind)
    ensures
        !has_kind(without_kind(statuses, kind), kind),
        without_kind(statuses, kind).len() <= statuses.len(),
        forall|i: int|
            0 <= i < without_kind(statuses, kind).len() ==> statuses.contains(
                #[trigger] without_kind(statuses, kind)[i],
            ),
        forall|k: StatusKind|
            k != kind ==> (has_kind(without_kind(statuses, kind), k) <==> has_kind(statuses, k)),
        distinct_kinds(statuses) ==> distinct_kinds(without_kind(statuses, kind)),
        !has_kind(statuses, kind) ==> without_kind(statuses, kind) == statuses,
    decreases statuses.len(),
{
    let out = without_kind(statuses, kind);
    if statuses.len() > 0 {
        let front = statuses.drop_last();
        let last = statuses.last();
        let rest = without_kind(front, kind);
        lemma_without_kind(front, kind);
        assert forall|i: int| 0 <= i < out.len() implies statuses.contains(#[trigger] out[i]) by {
            if i < rest.len() {
                let j = choose|j: int| 0 <= j < front.len() && front[j] == rest[i];
                assert(statuses[j] == out[i]);
            } else {
                assert(statuses[statuses.len() - 1] == out[i]);
            }
        }
        assert forall|k: StatusKind| k != kind implies (has_kind(out, k) <==> has_kind(
            statuses,
            k,
        )) by {
            if has_kind(out, k) {
                let i = choose|i: int| 0 <= i < out.len() && out[i].stype.spec_kind() == k;
                let j = choose|j: int| 0 <= j < statuses.len() && statuses[j] == out[i];
                assert(statuses[j].stype.spec_kind() == k);
            }
            if has_kind(statuses, k) {
                let j = choose|j: int| 0 <= j < statuses.len() && statuses[j].stype.spec_kind() == k;
                if j < front.len() {
                    assert(front[j].stype.spec_kind() == k);
                    assert(has_kind(front, k));
                    assert(has_kind(rest, k));
                    let i = choose|i: int| 0 <= i < rest.len() && rest[i].stype.spec_kind() == k;
                    assert(out[i].stype.spec_kind() == k);
                } else {
                    assert(out[out.len() - 1].stype.spec_kind() == k);
                }
            }
        }
        if has_kind(out, kind) {
            let i = choose|i: int| 0 <= i < out.len() && out[i].stype.spec_kind() == kind;
            assert(rest[i].stype.spec_kind() == kind);
        }
        if distinct_kinds(statuses) {
            assert forall|i: int, j: int| 0 <= i < j < front.len() implies (
            #[trigger] front[i]).stype.spec_kind() != (#[trigger] front[j]).stype.spec_kind() by {
                assert(front[i] == statuses[i] && front[j] == statuses[j]);
            }
            assert forall|i: int, j: int| 0 <= i < j < out.len() implies (
            #[trigger] out[i]).stype.spec_kind() != (#[trigger] out[j]).stype.spec_kind() by {
                if j < rest.len() {
                    assert(out[i] == rest[i] && out[j] == rest[j]);
                } else {
                    let m = choose|m: int| 0 <= m < front.len() && front[m] == rest[i];
                    assert(statuses[m] == out[i]);
                    assert(statuses[statuses.len() - 1] == out[j]);
                }
            }
        }
        if !has_kind(statuses, kind) {
            assert(statuses[statuses.len() - 1].stype.spec_kind() != kind);
            if has_kind(front, kind) {
                let i = choose|i: int| 0 <= i < front.len() && front[i].stype.spec_kind() == kind;
                assert(statuses[i].stype.spec_kind() == kind);
            }
            assert(out =~= statuses);
        }
    }
}

/// Putting a status in place of its kind keeps kinds distinct.
pub proof fn lemma_with_status(statuses: Seq<Status>, status: Status)
    requires
        distinct_kinds(statuses),
    ensures
        distinct_kinds(with_status(statuses, status)),
        has_kind(with_status(statuses, status), status.stype.spec_kind()),
        !has_kind(statuses, status.stype.spec_kind()) ==> with_status(statuses, status)
            == statuses.push(status),
{
    let kind = status.stype.spec_kind();
    let rest = without_kind(statuses, kind);
    let out = with_status(statuses, status);
    lemma_without_kind(statuses, kind);
    assert forall|i: int, j: int| 0 <= i < j < out.len() implies (
    #[trigger] out[i]).stype.spec_kind() != (#[trigger] out[j]).stype.spec_kind() by {
        if j < rest.len() {
            assert(out[i] == rest[i] && out[j] == rest[j]);
        } else {
            assert(rest[i].stype.spec_kind() != kind);
        }
    }
    assert(out[out.len() - 1].stype.spec_kind() == kind);
}

/// The first status of a kind is one of that kind, and there is one
/// exactly where the kind occurs.
pub proof fn lemma_first_of_kind(statuses: Seq<Status>, kind: StatusKind)
    ensures
        first_of_kind(statuses, kind) is Some <==> has_kind(statuses, kind),
        first_of_kind(statuses, kind) is Some ==> first_of_kind(
            statuses,
            kind,
        )->0.stype.spec_kind() == kind && statuses.contains(first_of_kind(statuses, kind)->0),
    decreases statuses.len(),
{
    if statuses.len() > 0 {
        let tail = statuses.drop_first();
        lemma_first_of_kind(tail, kind);
        if statuses[0].stype.spec_kind() == kind {
            assert(statuses.contains(statuses[0]));
        } else {
            if has_kind(statuses, kind) {
                let i = choose|i: int| 0 <= i < statuses.len() && statuses[i].stype.spec_kind() == kind;
                assert(tail[i - 1].stype.spec_kind() == kind);
            }
            if has_kind(tail, kind) {
                let i = choose|i: int| 0 <= i < tail.len() && tail[i].stype.spec_kind() == kind;
                assert(statuses[i + 1].stype.spec_kind() == kind);
            }
            if first_of_kind(tail, kind) is Some {
                let f = first_of_kind(tail, kind)->0;
                let i = choose|i: int| 0 <= i < tail.len() && tail[i] == f;
                assert(statuses[i + 1] == f);
            }
        }
    }
}

/// What the expiry of statuses leaves: each one of those that were there,
/// kinds distinct where they were, and nothing exactly where all have
/// expired.
pub proof fn lemma_unexpired(statuses: Seq<Status>, time: u64)
    ensures
        unexpired(statuses, time).len() <= statuses.len(),
        forall|i: int|
            0 <= i < unexpired(statuses, time).len() ==> statuses.contains(
                #[trigger] unexpired(statuses, time)[i],
            ) && !unexpired(statuses, time)[i].spec_is_expired(time),
        distinct_kinds(statuses) ==> distinct_kinds(unexpired(statuses, time)),
        all_expired(statuses, time) <==> unexpired(statuses, time).len() == 0,
    decreases statuses.len(),
{
    let out = unexpired(statuses, time);
    if statuses.len() > 0 {
        let front = statuses.drop_last();
        let rest = unexpired(front, time);
        lemma_unexpired(front, time);
        assert forall|i: int| 0 <= i < out.len() implies statuses.contains(#[trigger] out[i])
            && !out[i].spec_is_expired(time) by {
            if i < rest.len() {
                let j = choose|j: int| 0 <= j < front.len() && front[j] == rest[i];
                assert(statuses[j] == out[i]);
            } else {
                assert(statuses[statuses.len() - 1] == out[i]);
            }
        }
        if distinct_kinds(statuses) {
            assert forall|i: int, j: int| 0 <= i < j < front.len() implies (
            #[trigger] front[i]).stype.spec_kind() != (#[trigger] front[j]).stype.spec_kind() by {
                assert(front[i] == statuses[i] && front[j] == statuses[j]);
            }
            assert forall|i: int, j: int| 0 <= i < j < out.len() implies (
            #[trigger] out[i]).stype.spec_kind() != (#[trigger] out[j]).stype.spec_kind() by {
                if j < rest.len() {
                    assert(out[i] == rest[i] && out[j] == rest[j]);
                } else {
                    let m = choose|m: int| 0 <= m < front.len() && front[m] == rest[i];
                    assert(statuses[m] == out[i]);
                    assert(statuses[statuses.len() - 1] == out[j]);
                }
            }
        }
        if all_expired(statuses, time) {
            assert(statuses[statuses.len() - 1].spec_is_expired(time));
            assert forall|i: int| 0 <= i < front.len() implies (#[trigger] front[i]).spec_is_expired(
                time,
            ) by {
                assert(front[i] == statuses[i]);
            }
        }
        if out.len() == 0 {
            assert forall|i: int| 0 <= i < statuses.len() implies (
            #[trigger] statuses[i]).spec_is_expired(time) by {
                if i < front.len() {
                    assert(front[i] == statuses[i]);
                }
            }
        }
    }
}


impl ObjectProps {
    pub fn new(oid: usize, selectable: bool, draggable: bool, dead: bool, size: u64) -> (p:
        ObjectProps)
        ensures
            p == (ObjectProps { oid, selectable, draggable, dead, size }),
    {
        ObjectProps { oid, selectable, draggable, dead, size }
    }
}

impl Default for ObjectProps {
    fn default() -> (p: ObjectProps)
        ensures
            p == (ObjectProps {
                oid: 0,
                selectable: true,
                draggable: true,
                dead: false,
                size: PIECE_SIZE,
            }),
    {
        ObjectProps { oid: 0, selectable: true, draggable: true, dead: false, size: PIECE_SIZE }
    }
}

/// The status that makes a tile at `coord` with id `oid` collapse at move
/// `lifespan`, with a wobble as warning `TILE_WARNING_MOVES` moves earlier
/// where the tile lives that long.
pub open spec fn spec_tile_decay(oid: usize, coord: HexCoord, lifespan: usize) -> Status {
    let collapse = Effect::KillAllOn {
        coord,
        apply: Some(Box::new(StatusType::Falling)),
        duration: Some(FALL_DURATION),
    };
    let warning = Effect::SetStatus {
        object: ObjectRef { oid, coord },
        stype: Box::new(StatusType::Wobble { amplitude: WOBBLE_AMPLITUDE, speed: WOBBLE_SPEED }),
        duration: None,
    };
    if lifespan >= TILE_WARNING_MOVES {
        Status {
            stype: StatusType::DelayedEffect {
                move_nr: lifespan,
                effect: collapse,
                indicator_move_nr: Some((lifespan - TILE_WARNING_MOVES) as usize),
                indicator: Some(warning),
            },
            start_time: None,
            duration: None,
        }
    } else {
        Status {
            stype: StatusType::DelayedEffect {
                move_nr: lifespan,
                effect: collapse,
                indicator_move_nr: None,
                indicator: None,
            },
            start_time: None,
            duration: None,
        }
    }
}

impl ObjectView {
    /// No two statuses of the object are of one kind.
    pub open spec fn wf(self) -> bool {
        distinct_kinds(self.statuses)
    }

    pub open spec fn is_tile(self) -> bool {
        self.otype == ObjectType::Tile
    }

    /// Whether the object stands on the cell `coord`.
    pub open spec fn at(self, coord: HexCoord) -> bool {
        self.coord.same_cell(coord)
    }

    /// A piece that is not dead.
    pub open spec fn living_piece(self) -> bool {
        !self.is_tile() && !self.props.dead
    }

    pub open spec fn reference(self) -> ObjectRef {
        ObjectRef { oid: self.props.oid, coord: self.coord }
    }

    pub open spec fn spec_new(
        oid: usize,
        otype: ObjectType,
        coord: HexCoord,
        player: Player,
    ) -> ObjectView {
        ObjectView {
            otype,
            coord,
            props: ObjectProps {
                oid,
                selectable: true,
                draggable: true,
                dead: false,
                size: PIECE_SIZE,
            },
            statuses: Seq::empty(),
            player,
        }
    }

    pub open spec fn spec_new_wall(oid: usize, coord: HexCoord) -> ObjectView {
        ObjectView {
            otype: ObjectType::Wall,
            coord,
            props: ObjectProps {
                oid,
                selectable: false,
                draggable: false,
                dead: false,
                size: TILE_SIZE,
            },
            statuses: Seq::empty(),
            player: Player::God,
        }
    }

    pub open spec fn spec_new_tile(oid: usize, coord: HexCoord, lifespan: usize) -> ObjectView {
        ObjectView {
            otype: ObjectType::Tile,
            coord,
            props: ObjectProps {
                oid,
                selectable: false,
                draggable: false,
                dead: false,
                size: TILE_SIZE,
            },
            statuses: seq![spec_tile_decay(oid, coord, lifespan)],
            player: Player::God,
        }
    }

    /// The object on the cell `coord`.
    pub open spec fn with_coord(self, coord: HexCoord) -> ObjectView {
        ObjectView { coord, ..self }
    }

    /// The object with `statuses` for its statuses.
    pub open spec fn with_statuses(self, statuses: Seq<Status>) -> ObjectView {
        ObjectView { statuses, ..self }
    }

    /// The object dead, with `status`, if there is one, in place of any
    /// status of its kind.
    pub open spec fn killed(self, status: Option<Status>) -> ObjectView {
        ObjectView {
            props: ObjectProps { dead: true, ..self.props },
            statuses: match status {
                Some(s) => with_status(self.statuses, s),
                None => self.statuses,
            },
            ..self
        }
    }

    /// The effects that fall due at move `move_nr`: the indicator of the
    /// object's delayed effect, then the delayed effect itself.
    pub open spec fn tick_effects(self, move_nr: usize) -> Seq<Effect> {
        match first_of_kind(self.statuses, StatusKind::DelayedEffect) {
            Some(
                Status {
                    stype: StatusType::DelayedEffect {
                        move_nr: due,
                        effect,
                        indicator_move_nr,
                        indicator,
                    },
                    ..
                },
            ) => {
                let first = if indicator_move_nr == Some(move_nr) && indicator is Some {
                    seq![indicator->0]
                } else {
                    Seq::<Effect>::empty()
                };
                if due == move_nr {
                    first.push(effect)
                } else {
                    first
                }
            },
            _ => Seq::<Effect>::empty(),
        }
    }

    /// The object after move `move_nr`: a delayed effect that fell due has
    /// left its statuses.
    pub open spec fn ticked(self, move_nr: usize) -> ObjectView {
        match first_of_kind(self.statuses, StatusKind::DelayedEffect) {
            Some(Status { stype: StatusType::DelayedEffect { move_nr: due, .. }, .. }) => {
                if due == move_nr {
                    self.with_statuses(without_kind(self.statuses, StatusKind::DelayedEffect))
                } else {
                    self
                }
            },
            _ => self,
        }
    }

    /// The object at `time`, the statuses that have expired by then gone.
    pub open spec fn pruned(self, time: u64) -> ObjectView {
        self.with_statuses(unexpired(self.statuses, time))
    }

    /// Whether the object is dead and all its statuses have expired at
    /// `time`, so that it leaves the board.
    pub open spec fn gone(self, time: u64) -> bool {
        self.props.dead && all_expired(self.statuses, time)
    }
}

fn position_of_kind(statuses: &Vec<Status>, kind: StatusKind) -> (r: Option<usize>)
    ensures
        match r {
            Some(i) => i < statuses.len() && first_of_kind(statuses@, kind) == Some(
                statuses@[i as int],
            ) && statuses@[i as int].stype.spec_kind() == kind,
            None => first_of_kind(statuses@, kind) is None,
        },
{
    let mut i: usize = 0;
    assert(statuses@.skip(0) =~= statuses@);
    while i < statuses.len()
        invariant
            i <= statuses.len(),
            first_of_kind(statuses@, kind) == first_of_kind(statuses@.skip(i as int), kind),
        decreases statuses.len() - i,
    {
        assert(statuses@.skip(i as int)[0] == statuses@[i as int]);
        assert(statuses@.skip(i as int).drop_first() =~= statuses@.skip(i + 1));
        if statuses[i].stype.kind() == kind {
            return Some(i);
        }
        i = i + 1;
    }
    None
}

fn copy_statuses(statuses: &Vec<Status>) -> (out: Vec<Status>)
    ensures
        out@ == statuses@,
{
    let mut out: Vec<Status> = Vec::new();
    let mut i: usize = 0;
    while i < statuses.len()
        invariant
            i <= statuses.len(),
            out@ == statuses@.take(i as int),
        decreases statuses.len() - i,
    {
        out.push(statuses[i].clone());
        assert(out@ =~= statuses@.take(i + 1));
        i = i + 1;
    }
    assert(statuses@.take(statuses.len() as int) =~= statuses@);
    out
}

fn remove_kind(statuses: &mut Vec<Status>, kind: StatusKind)
    ensures
        final(statuses)@ == without_kind(old(statuses)@, kind),
{
    let mut out: Vec<Status> = Vec::new();
    let mut i: usize = 0;
    while i < statuses.len()
        invariant
            i <= statuses.len(),
            statuses@ == old(statuses)@,
            out@ == without_kind(statuses@.take(i as int), kind),
        decreases statuses.len() - i,
    {
        assert(statuses@.take(i + 1).drop_last() =~= statuses@.take(i as int));
        assert(statuses@.take(i + 1).last() == statuses@[i as int]);
        if statuses[i].stype.kind() != kind {
            out.push(statuses[i].clone());
        }
        i = i + 1;
    }
    assert(statuses@.take(statuses.len() as int) =~= statuses@);
    *statuses = out;
}

impl Object {
    pub open spec fn wf(self) -> bool {
        self@.wf()
    }

    pub fn new(oid: usize, otype: ObjectType, coord: HexCoord, player: Player) -> (o: Object)
        ensures
            o@ == ObjectView::spec_new(oid, otype, coord, player),
            o.wf(),
    {
        Object {
            otype,
            coord,
            props: ObjectProps {
                oid,
                selectable: true,
                draggable: true,
                dead: false,
                size: PIECE_SIZE,
            },
            statuses: Vec::new(),
            player,
        }
    }

    /// A tile that collapses at move `lifespan`.
    pub fn new_tile(oid: usize, coord: HexCoord, lifespan: usize) -> (tile: Object)
        ensures
            tile@ == ObjectView::spec_new_tile(oid, coord, lifespan),
            tile.wf(),
    {
        let collapse = Effect::KillAllOn {
            coord,
            apply: Some(Box::new(StatusType::Falling)),
            duration: Some(FALL_DURATION),
        };
        let decay = if lifespan >= TILE_WARNING_MOVES {
            Status::new_delayed_effect_with_indicator(
                lifespan,
                collapse,
                lifespan - TILE_WARNING_MOVES,
                Effect::SetStatus {
                    object: ObjectRef { oid, coord },
                    stype: Box::new(
                        StatusType::Wobble { amplitude: WOBBLE_AMPLITUDE, speed: WOBBLE_SPEED },
                    ),
                    duration: None,
                },
            )
        } else {
            Status::new_delayed_effect(lifespan, collapse)
        };
        let mut statuses: Vec<Status> = Vec::new();
        statuses.push(decay);
        assert(statuses@ =~= seq![spec_tile_decay(oid, coord, lifespan)]);
        Object {
            otype: ObjectType::Tile,
            coord,
            props: ObjectProps {
                oid,
                selectable: false,
                draggable: false,
                dead: false,
                size: TILE_SIZE,
            },
            statuses,
            player: Player::God,
        }
    }

    pub fn new_wall(oid: usize, coord: HexCoord) -> (wall: Object)
        ensures
            wall@ == ObjectView::spec_new_wall(oid, coord),
            wall.wf(),
    {
        Object {
            otype: ObjectType::Wall,
            coord,
            props: ObjectProps {
                oid,
                selectable: false,
                draggable: false,
                dead: false,
                size: TILE_SIZE,
            },
            statuses: Vec::new(),
            player: Player::God,
        }
    }

    /// What the object does when move `curr_move_nr` is applied: it hands
    /// out the effects of its delayed effect that fall due, and drops a
    /// delayed effect that has fired.
    pub fn tick(&mut self, curr_move_nr: usize, _time: u64) -> (effects: Vec<Effect>)
        ensures
            effects@ == old(self)@.tick_effects(curr_move_nr),
            final(self)@ == old(self)@.ticked(curr_move_nr),
            old(self).wf() ==> final(self).wf(),
    {
        let mut effects: Vec<Effect> = Vec::new();
        proof {
            lemma_without_kind(self.statuses@, StatusKind::DelayedEffect);
        }
        match position_of_kind(&self.statuses, StatusKind::DelayedEffect) {
            Some(i) => {
                let mut fired = false;
                match &self.statuses[i].stype {
                    StatusType::DelayedEffect { move_nr, effect, indicator_move_nr, indicator } => {
                        match (indicator_move_nr, indicator) {
                            (Some(nr), Some(ind)) => {
                                if *nr == curr_move_nr {
                                    effects.push(ind.clone());
                                }
                            },
                            _ => {},
                        }
                        if *move_nr == curr_move_nr {
                            effects.push(effect.clone());
                            fired = true;
                        }
                    },
                    _ => {},
                }
                assert(effects@ =~= old(self)@.tick_effects(curr_move_nr));
                if fired {
                    remove_kind(&mut self.statuses, StatusKind::DelayedEffect);
                }
            },
            None => {
                assert(effects@ =~= old(self)@.tick_effects(curr_move_nr));
            },
        }
        effects
    }

    pub fn is_tile(&self) -> (r: bool)
        ensures
            r == self@.is_tile(),
    {
        self.otype == ObjectType::Tile
    }

    pub fn owned_by(&self, player: &Player) -> (r: bool)
        ensures
            r == (self.player == *player),
    {
        *player == self.player
    }

    pub fn set_coord(&mut self, coord: &HexCoord)
        ensures
            final(self)@ == old(self)@.with_coord(*coord),
    {
        self.coord = *coord;
    }

    /// Attaches `status`. An object has one status of a kind at most: to
    /// add a second one is an error of the caller.
    pub fn add_status(&mut self, status: &Status)
        requires
            !has_kind(old(self).statuses@, status.stype.spec_kind()),
        ensures
            final(self)@ == old(self)@.with_statuses(old(self).statuses@.push(*status)),
            final(self).statuses@ == with_status(old(self).statuses@, *status),
            old(self).wf() ==> final(self).wf(),
    {
        proof {
            lemma_without_kind(self.statuses@, status.stype.spec_kind());
            if self.wf() {
                lemma_with_status(self.statuses@, *status);
            }
        }
        self.statuses.push(status.clone());
    }

    /// Attaches `statuses`, one after the other.
    pub fn add_statuses(&mut self, statuses: Vec<&Status>)
        requires
            forall|i: int|
                0 <= i < statuses.len() ==> !has_kind(
                    old(self).statuses@,
                    (#[trigger] statuses@[i]).stype.spec_kind(),
                ),
            forall|i: int, j: int|
                0 <= i < j < statuses.len() ==> (#[trigger] statuses@[i]).stype.spec_kind() != (
                #[trigger] statuses@[j]).stype.spec_kind(),
        ensures
            final(self)@ == old(self)@.with_statuses(
                old(self).statuses@ + statuses@.map_values(|s: &Status| *s),
            ),
            old(self).wf() ==> final(self).wf(),
    {
        let ghost added = statuses@.map_values(|s: &Status| *s);
        let mut n: usize = 0;
        while n < statuses.len()
            invariant
                n <= statuses.len(),
                added == statuses@.map_values(|s: &Status| *s),
                self@ == old(self)@.with_statuses(old(self).statuses@ + added.take(n as int)),
                old(self).wf() ==> self.wf(),
                forall|i: int|
                    0 <= i < statuses.len() ==> !has_kind(
                        old(self).statuses@,
                        (#[trigger] statuses@[i]).stype.spec_kind(),
                    ),
                forall|i: int, j: int|
                    0 <= i < j < statuses.len() ==> (#[trigger] statuses@[i]).stype.spec_kind()
                        != (#[trigger] statuses@[j]).stype.spec_kind(),
            decreases statuses.len() - n,
        {
            let ghost before = self.statuses@;
            let kind = statuses[n].stype.kind();
            proof {
                if has_kind(before, kind) {
                    let i = choose|i: int|
                        0 <= i < before.len() && before[i].stype.spec_kind() == kind;
                    if i < old(self).statuses@.len() {
                        assert(old(self).statuses@[i].stype.spec_kind() == kind);
                    } else {
                        let k = i - old(self).statuses@.len();
                        assert(added[k] == *statuses@[k]);
                        assert(statuses@[k].stype.spec_kind() == kind);
                    }
                    assert(false);
                }
            }
            self.add_status(statuses[n]);
            assert(added.take(n + 1) =~= added.take(n as int).push(*statuses@[n as int]));
            assert(self.statuses@ =~= old(self).statuses@ + added.take(n + 1));
            n = n + 1;
        }
        assert(added.take(statuses.len() as int) =~= added);
    }

    /// Takes away the status of the kind of `stype`, if there is one.
    pub fn remove_status(&mut self, stype: &StatusType)
        ensures
            final(self)@ == old(self)@.with_statuses(
                without_kind(old(self).statuses@, stype.spec_kind()),
            ),
            old(self).wf() ==> final(self).wf(),
    {
        proof {
            lemma_without_kind(self.statuses@, stype.spec_kind());
        }
        remove_kind(&mut self.statuses, stype.kind());
    }

    /// Attaches `status` in place of any status of its kind.
    pub fn replace_status(&mut self, status: &Status)
        ensures
            final(self)@ == old(self)@.with_statuses(with_status(old(self).statuses@, *status)),
            old(self).wf() ==> final(self).wf(),
    {
        proof {
            if self.wf() {
                lemma_with_status(self.statuses@, *status);
            }
        }
        remove_kind(&mut self.statuses, status.stype.kind());
        self.statuses.push(status.clone());
    }

    /// Marks the object dead and attaches `status`, if there is one, in
    /// place of any status of its kind.
    pub fn set_killed(&mut self, status: Option<&Status>)
        ensures
            final(self)@ == old(self)@.killed(
                match status {
                    Some(s) => Some(*s),
                    None => None,
                },
            ),
            old(self).wf() ==> final(self).wf(),
    {
        self.props.dead = true;
        if let Some(s) = status {
            self.replace_status(s);
        }
    }

    /// The status of the kind of `stype` that the object carries.
    pub fn get_status(&self, stype: &StatusType) -> (r: Option<&Status>)
        ensures
            match r {
                Some(s) => first_of_kind(self.statuses@, stype.spec_kind()) == Some(*s),
                None => first_of_kind(self.statuses@, stype.spec_kind()) is None,
            },
    {
        match position_of_kind(&self.statuses, stype.kind()) {
            Some(i) => Some(&self.statuses[i]),
            None => None,
        }
    }

    /// Whether the object carries a status of kind `kind`.
    pub fn has_status(&self, kind: StatusKind) -> (r: bool)
        ensures
            r == has_kind(self.statuses@, kind),
    {
        proof {
            lemma_first_of_kind(self.statuses@, kind);
        }
        position_of_kind(&self.statuses, kind).is_some()
    }

    /// Drops the statuses that have expired at `time`.
    pub fn prune(&mut self, time: u64)
        ensures
            final(self)@ == old(self)@.pruned(time),
            old(self).wf() ==> final(self).wf(),
    {
        proof {
            lemma_unexpired(self.statuses@, time);
        }
        let mut out: Vec<Status> = Vec::new();
        let mut i: usize = 0;
        while i < self.statuses.len()
            invariant
                i <= self.statuses.len(),
                *self == *old(self),
                out@ == unexpired(self.statuses@.take(i as int), time),
            decreases self.statuses.len() - i,
        {
            assert(self.statuses@.take(i + 1).drop_last() =~= self.statuses@.take(i as int));
            assert(self.statuses@.take(i + 1).last() == self.statuses@[i as int]);
            if !self.statuses[i].is_expired(time) {
                out.push(self.statuses[i].clone());
            }
            i = i + 1;
        }
        assert(self.statuses@.take(self.statuses.len() as int) =~= self.statuses@);
        self.statuses = out;
    }

    /// Whether the object is dead and all its statuses have expired at
    /// `time`.
    pub fn is_gone(&self, time: u64) -> (r: bool)
        ensures
            r == self@.gone(time),
    {
        if !self.props.dead {
            return false;
        }
        let mut i: usize = 0;
        while i < self.statuses.len()
            invariant
                i <= self.statuses.len(),
                forall|k: int| 0 <= k < i ==> (#[trigger] self.statuses@[k]).spec_is_expired(time),
            decreases self.statuses.len() - i,
        {
            if !self.statuses[i].is_expired(time) {
                return false;
            }
            i = i + 1;
        }
        true
    }

    /// The object's id with the cell it stands on.
    pub fn reference(&self) -> (r: ObjectRef)
        ensures
            r == self@.reference(),
    {
        ObjectRef { oid: self.props.oid, coord: self.coord }
    }
}

impl Clone for Object {
    fn clone(&self) -> (r: Self)
        ensures
            r@ == self@,
    {
        Object {
            otype: self.otype,
            coord: self.coord,
            props: self.props,
            statuses: copy_statuses(&self.statuses),
            player: self.player,
        }
    }
}

impl PartialEq for Object {
    fn eq(&self, other: &Self) -> (r: bool) {
        self.props.oid == other.props.oid
    }
}

impl PartialEqSpecImpl for Object {
    open spec fn obeys_eq_spec() -> bool {
        true
    }

    open spec fn eq_spec(&self, other: &Self) -> bool {
        self.props.oid == other.props.oid
    }
}

/// A fresh tile with lifespan `lifespan` hands out, at move `lifespan`, the
/// one effect that kills all on its own cell, and loses its delayed effect;
/// `TILE_WARNING_MOVES` moves earlier it hands out its warning; at every
/// other move it hands out nothing and stays as it is.
pub proof fn tile_decays_at_lifespan(oid: usize, coord: HexCoord, lifespan: usize, move_nr: usize)
    ensures
        ({
            let tile = ObjectView::spec_new_tile(oid, coord, lifespan);
            let collapse = Effect::KillAllOn {
                coord,
                apply: Some(Box::new(StatusType::Falling)),
                duration: Some(FALL_DURATION),
            };
            let warning = Effect::SetStatus {
                object: ObjectRef { oid, coord },
                stype: Box::new(
                    StatusType::Wobble { amplitude: WOBBLE_AMPLITUDE, speed: WOBBLE_SPEED },
                ),
                duration: None,
            };
            &&& move_nr == lifespan ==> tile.tick_effects(move_nr) == seq![collapse]
                && tile.ticked(move_nr).statuses == Seq::<Status>::empty()
            &&& move_nr != lifespan ==> tile.ticked(move_nr) == tile
            &&& move_nr + TILE_WARNING_MOVES == lifespan ==> tile.tick_effects(move_nr)
                == seq![warning]
            &&& move_nr != lifespan && move_nr + TILE_WARNING_MOVES != lifespan
                ==> tile.tick_effects(move_nr) == Seq::<Effect>::empty()
        }),
{
    let tile = ObjectView::spec_new_tile(oid, coord, lifespan);
    let decay = spec_tile_decay(oid, coord, lifespan);
    assert(tile.statuses[0] == decay);
    assert(first_of_kind(tile.statuses, StatusKind::DelayedEffect) == Some(decay));
    assert(tile.statuses.drop_last() =~= Seq::<Status>::empty());
    assert(without_kind(tile.statuses.drop_last(), StatusKind::DelayedEffect)
        =~= Seq::<Status>::empty());
    assert(without_kind(tile.statuses, StatusKind::DelayedEffect) =~= Seq::<Status>::empty());
    if move_nr == lifespan {
        assert(tile.tick_effects(move_nr) =~= seq![
            Effect::KillAllOn {
                coord,
                apply: Some(Box::new(StatusType::Falling)),
                duration: Some(FALL_DURATION),
            },
        ]);
    } else if move_nr + TILE_WARNING_MOVES == lifespan {
        assert(tile.tick_effects(move_nr) =~= seq![
            Effect::SetStatus {
                object: ObjectRef { oid, coord },
                stype: Box::new(
                    StatusType::Wobble { amplitude: WOBBLE_AMPLITUDE, speed: WOBBLE_SPEED },
                ),
                duration: None,
            },
        ]);
    }
}

} // verus!
