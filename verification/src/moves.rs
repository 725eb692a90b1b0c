//! The moves a piece may make: a dasher slides, a jumper hooks, and
//! whatever ends on a piece of the other side captures it.

use crate::board::{found, living_piece_on, tile_on, Board};
use crate::config::Config;
use crate::hexcoord::{dir_dx, dir_dy, HexCoord, DIRECTIONS};
use crate::object::{Object, ObjectType, ObjectView};
use crate::player::Player;
use crate::statuses::Effect;
use vstd::prelude::*;

verus! {

/// How far into a dasher's move its last capture happens, in thousandths.
pub const DASHER_KILL_DELAY: u64 = 650;

/// How far into a jumper's move its capture happens, in thousandths.
pub const JUMPER_KILL_DELAY: u64 = 450;

/// Number of cells a jumper goes straight before it hooks.
pub const JUMPER_REACH: usize = 2;

/// A move of a piece: the piece as it stood, the cells it passes from its
/// own to its target, and what the move does to others.
#[derive(Debug)]
pub struct Move {
    pub object: Object,
    pub path: Vec<HexCoord>,
    pub effects: Vec<Effect>,
}

/// A move as a mathematical value.
pub struct MoveView {
    pub object: ObjectView,
    pub path: Seq<HexCoord>,
    pub effects: Seq<Effect>,
}

impl View for Move {
    type V = MoveView;

    open spec fn view(&self) -> MoveView {
        MoveView { object: self.object@, path: self.path@, effects: self.effects@ }
    }
}

impl MoveView {
    /// A move takes its piece at least one cell away.
    pub open spec fn wf(self) -> bool {
        self.path.len() >= 2
    }

    pub open spec fn target(self) -> HexCoord {
        self.path.last()
    }
}

/// The moves of a sequence as mathematical values.
pub open spec fn move_views(moves: Seq<Move>) -> Seq<MoveView> {
    moves.map_values(|m: Move| m@)
}

impl Move {
    pub open spec fn wf(self) -> bool {
        self@.wf()
    }

    /// A move of `object` along `path`. A path of fewer than two cells is an
    /// error of the caller.
    pub fn new(object: Object, path: Vec<HexCoord>, effects: Vec<Effect>) -> (m: Move)
        requires
            path.len() >= 2,
        ensures
            m.object == object,
            m.path == path,
            m.effects == effects,
            m.wf(),
    {
        Move { object, path, effects }
    }

    /// The cell on which the move ends.
    pub fn target(&self) -> (t: &HexCoord)
        requires
            self.wf(),
        ensures
            *t == self@.target(),
    {
        &self.path[self.path.len() - 1]
    }
}

impl Clone for Move {
    fn clone(&self) -> (r: Self)
        ensures
            r@ == self@,
    {
        let mut path: Vec<HexCoord> = Vec::new();
        let mut i: usize = 0;
        while i < self.path.len()
            invariant
                i <= self.path.len(),
                path@ == self.path@.take(i as int),
            decreases self.path.len() - i,
        {
            path.push(self.path[i]);
            assert(path@ =~= self.path@.take(i + 1));
            i = i + 1;
        }
        assert(self.path@.take(self.path.len() as int) =~= self.path@);
        let mut effects: Vec<Effect> = Vec::new();
        let mut k: usize = 0;
        while k < self.effects.len()
            invariant
                k <= self.effects.len(),
                effects@ == self.effects@.take(k as int),
            decreases self.effects.len() - k,
        {
            effects.push(self.effects[k].clone());
            assert(effects@ =~= self.effects@.take(k + 1));
            k = k + 1;
        }
        assert(self.effects@.take(self.effects.len() as int) =~= self.effects@);
        Move { object: self.object.clone(), path, effects }
    }
}

/// Whether a piece may step on the cell `coord`: a tile is there that is not
/// dead and, where `tolerated` names a side, the cell is free of living
/// pieces or its living piece is of that side.
pub open spec fn spec_available(
    objs: Seq<ObjectView>,
    coord: HexCoord,
    tolerated: Option<Player>,
) -> bool {
    &&& found(objs, tile_on(coord)) is Some
    &&& !found(objs, tile_on(coord))->0.props.dead
    &&& tolerated is Some ==> spec_occupant_allows(objs, coord, tolerated->0)
}

/// Whether the cell `coord` is free of living pieces or its living piece is
/// of the side `tolerated`.
pub open spec fn spec_occupant_allows(
    objs: Seq<ObjectView>,
    coord: HexCoord,
    tolerated: Player,
) -> bool {
    match found(objs, living_piece_on(coord)) {
        Some(p) => p.player == tolerated,
        None => true,
    }
}

/// Whether a dasher of the side `mover` may slide on to the cell `coord`:
/// the cell is available to it, or dashers fly, no tile is there, and no
/// living piece but one of the other side.
pub open spec fn dasher_may_enter(
    objs: Seq<ObjectView>,
    coord: HexCoord,
    mover: Player,
    can_fly: bool,
) -> bool {
    ||| spec_available(objs, coord, Some(mover.spec_opponent()))
    ||| (can_fly && found(objs, tile_on(coord)) is None && spec_occupant_allows(
        objs,
        coord,
        mover.spec_opponent(),
    ))
}

/// A bound on the number of steps from `from` in direction `dir` that stay
/// on the board.
pub open spec fn room(from: HexCoord, dir: int) -> nat {
    if !from.on_board() {
        from.board_size as nat + 1
    } else if dir_dx(dir) == 1 {
        (from.board_size - from.x) as nat
    } else if dir_dx(dir) == -1 {
        from.x as nat
    } else if dir_dy(dir) == 1 {
        (from.board_size - from.y) as nat
    } else {
        from.y as nat
    }
}

/// The cells over which a dasher of the side `mover` slides from `from` in
/// direction `dir`: it goes on while there is a next cell that it may enter,
/// and stops on the first that holds a living piece.
pub open spec fn slide(
    objs: Seq<ObjectView>,
    from: HexCoord,
    dir: int,
    mover: Player,
    can_fly: bool,
) -> Seq<HexCoord>
    decreases room(from, dir),
{
    match from.spec_neighbor(dir) {
        Some(next) => {
            if dasher_may_enter(objs, next, mover, can_fly) {
                if found(objs, living_piece_on(next)) is Some {
                    seq![next]
                } else {
                    seq![next] + slide(objs, next, dir, mover, can_fly)
                }
            } else {
                Seq::empty()
            }
        },
        None => Seq::empty(),
    }
}

/// How far into a move a capture happens, in thousandths: the victim's share
/// of the way, times the delay of a capture at the move's end.
pub open spec fn spec_delay_frac(victim_steps: nat, total_steps: nat) -> u64 {
    if 0 < total_steps && victim_steps <= total_steps {
        ((DASHER_KILL_DELAY * victim_steps) / (total_steps as int)) as u64
    } else {
        0
    }
}

/// The effects of a move of `mover` that ends on the cell `target`: the
/// living piece there, if it is of the other side, is killed.
pub open spec fn capture_effects(
    objs: Seq<ObjectView>,
    target: HexCoord,
    mover: ObjectView,
    delay: u64,
) -> Seq<Effect> {
    match found(objs, living_piece_on(target)) {
        Some(victim) => if victim.player == mover.player.spec_opponent() {
            seq![
                Effect::Kill {
                    victim: victim.reference(),
                    killer: Some(mover.reference()),
                    animation_delay_frac: Some(delay),
                },
            ]
        } else {
            Seq::empty()
        },
        None => Seq::empty(),
    }
}

/// The move of the dasher `obj` in direction `dir`, if it has one.
pub open spec fn dasher_move(
    objs: Seq<ObjectView>,
    obj: ObjectView,
    dir: int,
    can_fly: bool,
) -> Option<MoveView> {
    let cells = slide(objs, obj.coord, dir, obj.player, can_fly);
    if cells.len() > 0 {
        Some(
            MoveView {
                object: obj,
                path: seq![obj.coord] + cells,
                effects: capture_effects(
                    objs,
                    cells.last(),
                    obj,
                    spec_delay_frac(cells.len(), cells.len()),
                ),
            },
        )
    } else {
        None
    }
}

/// The moves of the dasher `obj` in the directions below `n`, in their
/// order.
pub open spec fn dasher_moves_below(
    objs: Seq<ObjectView>,
    obj: ObjectView,
    can_fly: bool,
    n: nat,
) -> Seq<MoveView>
    decreases n,
{
    if n == 0 {
        Seq::empty()
    } else {
        let rest = dasher_moves_below(objs, obj, can_fly, (n - 1) as nat);
        match dasher_move(objs, obj, n - 1, can_fly) {
            Some(m) => rest.push(m),
            None => rest,
        }
    }
}

/// The direction of a jumper's hook after it went in direction `dir`: one
/// further round, or one back.
pub open spec fn hook_dir(dir: int, forward: bool) -> int {
    if forward {
        (dir + 1) % 6
    } else {
        (dir + 5) % 6
    }
}

/// The move of the jumper `obj` that goes `JUMPER_REACH` cells in direction
/// `dir` and then hooks, if it has that move. The cell where it turns needs
/// to be on the board and nothing more.
pub open spec fn jumper_move(
    objs: Seq<ObjectView>,
    obj: ObjectView,
    dir: int,
    forward: bool,
) -> Option<MoveView> {
    match obj.coord.spec_get_neighbor(dir, JUMPER_REACH as nat) {
        Some(turn) => match turn.spec_neighbor(hook_dir(dir, forward)) {
            Some(target) => if spec_available(objs, target, Some(obj.player.spec_opponent())) {
                Some(
                    MoveView {
                        object: obj,
                        path: seq![obj.coord, turn, target],
                        effects: capture_effects(objs, target, obj, JUMPER_KILL_DELAY),
                    },
                )
            } else {
                None
            },
            None => None,
        },
        None => None,
    }
}

/// The `k`-th of the twelve moves a jumper may have: for each direction the
/// hook back, then the hook forward.
pub open spec fn jumper_hook(objs: Seq<ObjectView>, obj: ObjectView, k: int) -> Option<MoveView> {
    jumper_move(objs, obj, k / 2, k % 2 == 1)
}

/// The first `n` of the twelve moves a jumper may have, as far as it has
/// them.
pub open spec fn jumper_moves_below(objs: Seq<ObjectView>, obj: ObjectView, n: nat) -> Seq<
    MoveView,
>
    decreases n,
{
    if n == 0 {
        Seq::empty()
    } else {
        let rest = jumper_moves_below(objs, obj, (n - 1) as nat);
        match jumper_hook(objs, obj, n - 1) {
            Some(m) => rest.push(m),
            None => rest,
        }
    }
}

/// The moves of the dasher `obj` on a board with objects `objs`.
pub open spec fn spec_dasher_moves(objs: Seq<ObjectView>, obj: ObjectView, can_fly: bool) -> Seq<
    MoveView,
> {
    if obj.player.competes() {
        dasher_moves_below(objs, obj, can_fly, DIRECTIONS as nat)
    } else {
        Seq::empty()
    }
}

/// The moves of the jumper `obj` on a board with objects `objs`.
pub open spec fn spec_jumper_moves(objs: Seq<ObjectView>, obj: ObjectView) -> Seq<MoveView> {
    if obj.player.competes() {
        jumper_moves_below(objs, obj, (2 * DIRECTIONS) as nat)
    } else {
        Seq::empty()
    }
}

/// The legal moves of `obj`: those of a dasher or of a jumper. Tiles and
/// walls do not move.
pub open spec fn spec_legal_moves(objs: Seq<ObjectView>, obj: ObjectView, can_fly: bool) -> Seq<
    MoveView,
> {
    match obj.otype {
        ObjectType::Dasher => spec_dasher_moves(objs, obj, can_fly),
        ObjectType::Jumper => spec_jumper_moves(objs, obj),
        _ => Seq::empty(),
    }
}

/// Whether the move `m` is one of the piece `obj` as it stands, begins on
/// its cell and takes it at least one cell away.
pub open spec fn leaves_from(m: MoveView, obj: ObjectView) -> bool {
    m.wf() && m.object == obj && m.path[0] == obj.coord
}

proof fn lemma_dasher_moves_below(objs: Seq<ObjectView>, obj: ObjectView, can_fly: bool, n: nat)
    ensures
        dasher_moves_below(objs, obj, can_fly, n).len() <= n,
        forall|i: int|
            0 <= i < dasher_moves_below(objs, obj, can_fly, n).len() ==> leaves_from(
                #[trigger] dasher_moves_below(objs, obj, can_fly, n)[i],
                obj,
            ),
    decreases n,
{
    if n > 0 {
        lemma_dasher_moves_below(objs, obj, can_fly, (n - 1) as nat);
    }
}

proof fn lemma_jumper_moves_below(objs: Seq<ObjectView>, obj: ObjectView, n: nat)
    ensures
        jumper_moves_below(objs, obj, n).len() <= n,
        forall|i: int|
            0 <= i < jumper_moves_below(objs, obj, n).len() ==> leaves_from(
                #[trigger] jumper_moves_below(objs, obj, n)[i],
                obj,
            ),
    decreases n,
{
    if n > 0 {
        lemma_jumper_moves_below(objs, obj, (n - 1) as nat);
    }
}

/// Every legal move is one of the piece as it stands, begins on its cell
/// and takes it at least one cell away. A dasher has six moves at most, a
/// jumper twelve.
pub proof fn legal_moves_leave_the_cell(objs: Seq<ObjectView>, obj: ObjectView, can_fly: bool)
    ensures
        forall|i: int|
            0 <= i < spec_legal_moves(objs, obj, can_fly).len() ==> leaves_from(
                #[trigger] spec_legal_moves(objs, obj, can_fly)[i],
                obj,
            ),
        spec_dasher_moves(objs, obj, can_fly).len() <= DIRECTIONS,
        spec_jumper_moves(objs, obj).len() <= 2 * DIRECTIONS,
{
    lemma_dasher_moves_below(objs, obj, can_fly, DIRECTIONS as nat);
    lemma_jumper_moves_below(objs, obj, (2 * DIRECTIONS) as nat);
}

/// Whether each cell of `path` is the neighbour of the one before it in
/// direction `dir`.
pub open spec fn straight(path: Seq<HexCoord>, dir: int) -> bool {
    forall|k: int|
        0 <= k < path.len() - 1 ==> (#[trigger] path[k]).spec_neighbor(dir) == Some(path[k + 1])
}

proof fn lemma_slide(
    objs: Seq<ObjectView>,
    from: HexCoord,
    dir: int,
    mover: Player,
    can_fly: bool,
)
    ensures
        straight(seq![from] + slide(objs, from, dir, mover, can_fly), dir),
        forall|k: int|
            0 <= k < slide(objs, from, dir, mover, can_fly).len() ==> dasher_may_enter(
                objs,
                #[trigger] slide(objs, from, dir, mover, can_fly)[k],
                mover,
                can_fly,
            ),
        forall|k: int|
            0 <= k < slide(objs, from, dir, mover, can_fly).len() - 1 ==> found(
                objs,
                living_piece_on(#[trigger] slide(objs, from, dir, mover, can_fly)[k]),
            ) is None,
    decreases room(from, dir),
{
    let cells = slide(objs, from, dir, mover, can_fly);
    let path = seq![from] + cells;
    match from.spec_neighbor(dir) {
        Some(next) => {
            if dasher_may_enter(objs, next, mover, can_fly) {
                if found(objs, living_piece_on(next)) is Some {
                    assert(cells =~= seq![next]);
                    assert forall|k: int| 0 <= k < path.len() - 1 implies (
                    #[trigger] path[k]).spec_neighbor(dir) == Some(path[k + 1]) by {
                        assert(path[0] == from && path[1] == next);
                    }
                } else {
                    let rest = slide(objs, next, dir, mover, can_fly);
                    lemma_slide(objs, next, dir, mover, can_fly);
                    let tail = seq![next] + rest;
                    assert(cells =~= tail);
                    assert forall|k: int| 0 <= k < path.len() - 1 implies (
                    #[trigger] path[k]).spec_neighbor(dir) == Some(path[k + 1]) by {
                        if k == 0 {
                            assert(path[0] == from && path[1] == next);
                        } else {
                            assert(path[k] == tail[k - 1] && path[k + 1] == tail[k]);
                        }
                    }
                    assert forall|k: int| 0 <= k < cells.len() implies dasher_may_enter(
                        objs,
                        #[trigger] cells[k],
                        mover,
                        can_fly,
                    ) by {
                        if k > 0 {
                            assert(cells[k] == rest[k - 1]);
                        }
                    }
                    assert forall|k: int| 0 <= k < cells.len() - 1 implies found(
                        objs,
                        living_piece_on(#[trigger] cells[k]),
                    ) is None by {
                        if k > 0 {
                            assert(cells[k] == rest[k - 1]);
                        }
                    }
                }
            } else {
                assert(path =~= seq![from]);
            }
        },
        None => {
            assert(path =~= seq![from]);
        },
    }
}

/// A dasher goes straight, over cells it may enter, and passes no living
/// piece: only the cell on which its move ends may hold one. That one is of
/// the other side, and the move kills it, and nothing else, at 65 hundredths
/// of its course.
pub proof fn dasher_stops_where_it_captures(
    objs: Seq<ObjectView>,
    obj: ObjectView,
    dir: int,
    can_fly: bool,
)
    requires
        obj.player.competes(),
        dasher_move(objs, obj, dir, can_fly) is Some,
    ensures
        ({
            let m = dasher_move(objs, obj, dir, can_fly)->0;
            &&& straight(m.path, dir)
            &&& forall|k: int|
                1 <= k < m.path.len() ==> dasher_may_enter(
                    objs,
                    #[trigger] m.path[k],
                    obj.player,
                    can_fly,
                )
            &&& forall|k: int|
                1 <= k < m.path.len() - 1 ==> found(objs, living_piece_on(#[trigger] m.path[k]))
                    is None
            &&& match found(objs, living_piece_on(m.target())) {
                Some(victim) => victim.player == obj.player.spec_opponent() && m.effects == seq![
                    Effect::Kill {
                        victim: victim.reference(),
                        killer: Some(obj.reference()),
                        animation_delay_frac: Some(DASHER_KILL_DELAY),
                    },
                ],
                None => m.effects == Seq::<Effect>::empty(),
            }
        }),
{
    let cells = slide(objs, obj.coord, dir, obj.player, can_fly);
    let m = dasher_move(objs, obj, dir, can_fly)->0;
    lemma_slide(objs, obj.coord, dir, obj.player, can_fly);
    assert forall|k: int| 1 <= k < m.path.len() implies dasher_may_enter(
        objs,
        #[trigger] m.path[k],
        obj.player,
        can_fly,
    ) by {
        assert(m.path[k] == cells[k - 1]);
    }
    assert forall|k: int| 1 <= k < m.path.len() - 1 implies found(
        objs,
        living_piece_on(#[trigger] m.path[k]),
    ) is None by {
        assert(m.path[k] == cells[k - 1]);
    }
    assert(m.target() == cells.last());
    assert(dasher_may_enter(objs, cells[cells.len() - 1], obj.player, can_fly));
    let n = cells.len();
    assert((DASHER_KILL_DELAY * n) / (n as int) == DASHER_KILL_DELAY) by (nonlinear_arith)
        requires
            n > 0,
    ;
}

/// A living piece that is not of the other side, next to a dasher, takes
/// the dasher's move in that direction away.
pub proof fn dasher_is_blocked_by_its_own_side(
    objs: Seq<ObjectView>,
    obj: ObjectView,
    dir: int,
    can_fly: bool,
)
    requires
        obj.coord.spec_neighbor(dir) is Some,
        found(objs, living_piece_on(obj.coord.spec_neighbor(dir)->0)) is Some,
        found(objs, living_piece_on(obj.coord.spec_neighbor(dir)->0))->0.player
            != obj.player.spec_opponent(),
    ensures
        dasher_move(objs, obj, dir, can_fly) is None,
{
}

proof fn lemma_jumper_count(objs: Seq<ObjectView>, obj: ObjectView, n: nat)
    ensures
        jumper_moves_below(objs, obj, n).len() == n <==> forall|k: int|
            0 <= k < n ==> (#[trigger] jumper_hook(objs, obj, k)) is Some,
    decreases n,
{
    if n > 0 {
        lemma_jumper_count(objs, obj, (n - 1) as nat);
        lemma_jumper_moves_below(objs, obj, (n - 1) as nat);
        if jumper_moves_below(objs, obj, n).len() == n {
            assert(jumper_hook(objs, obj, n - 1) is Some);
        }
    }
}

proof fn lemma_dasher_count(objs: Seq<ObjectView>, obj: ObjectView, can_fly: bool, n: nat)
    ensures
        dasher_moves_below(objs, obj, can_fly, n).len() == n <==> forall|d: int|
            0 <= d < n ==> (#[trigger] dasher_move(objs, obj, d, can_fly)) is Some,
    decreases n,
{
    if n > 0 {
        lemma_dasher_count(objs, obj, can_fly, (n - 1) as nat);
        lemma_dasher_moves_below(objs, obj, can_fly, (n - 1) as nat);
        if dasher_moves_below(objs, obj, can_fly, n).len() == n {
            assert(dasher_move(objs, obj, n - 1, can_fly) is Some);
        }
    }
}

/// A jumper has twelve moves exactly where each of its twelve hooks lands,
/// and a dasher six exactly where it can slide in each of the six
/// directions.
pub proof fn full_count_of_moves(objs: Seq<ObjectView>, obj: ObjectView, can_fly: bool)
    requires
        obj.player.competes(),
    ensures
        spec_jumper_moves(objs, obj).len() == 2 * DIRECTIONS <==> forall|k: int|
            0 <= k < 2 * DIRECTIONS ==> (#[trigger] jumper_hook(objs, obj, k)) is Some,
        spec_dasher_moves(objs, obj, can_fly).len() == DIRECTIONS <==> forall|d: int|
            0 <= d < DIRECTIONS ==> (#[trigger] dasher_move(objs, obj, d, can_fly)) is Some,
{
    lemma_jumper_count(objs, obj, (2 * DIRECTIONS) as nat);
    lemma_dasher_count(objs, obj, can_fly, DIRECTIONS as nat);
}

proof fn lemma_straight_offset(path: Seq<HexCoord>, dir: int, k: int)
    requires
        straight(path, dir),
        0 <= k < path.len(),
    ensures
        path[k].x == path[0].x + k * dir_dx(dir),
        path[k].y == path[0].y + k * dir_dy(dir),
    decreases k,
{
    if k > 0 {
        lemma_straight_offset(path, dir, k - 1);
        assert(path[k - 1].spec_neighbor(dir) == Some(path[k]));
        assert(k * dir_dx(dir) == (k - 1) * dir_dx(dir) + dir_dx(dir)) by (nonlinear_arith);
        assert(k * dir_dy(dir) == (k - 1) * dir_dy(dir) + dir_dy(dir)) by (nonlinear_arith);
    }
}

/// Moves of one dasher in two directions end on two cells.
pub proof fn dashes_end_apart(
    objs: Seq<ObjectView>,
    obj: ObjectView,
    dir_a: int,
    dir_b: int,
    can_fly: bool,
)
    requires
        dir_a != dir_b,
        dasher_move(objs, obj, dir_a, can_fly) is Some,
        dasher_move(objs, obj, dir_b, can_fly) is Some,
    ensures
        !dasher_move(objs, obj, dir_a, can_fly)->0.target().same_cell(
            dasher_move(objs, obj, dir_b, can_fly)->0.target(),
        ),
{
    let a = dasher_move(objs, obj, dir_a, can_fly)->0;
    let b = dasher_move(objs, obj, dir_b, can_fly)->0;
    lemma_slide(objs, obj.coord, dir_a, obj.player, can_fly);
    lemma_slide(objs, obj.coord, dir_b, obj.player, can_fly);
    let na = a.path.len() - 1;
    let nb = b.path.len() - 1;
    lemma_straight_offset(a.path, dir_a, na);
    lemma_straight_offset(b.path, dir_b, nb);
    assert(a.path[0] == obj.coord && b.path[0] == obj.coord);
    assert(a.path[0].spec_neighbor(dir_a) is Some);
    assert(b.path[0].spec_neighbor(dir_b) is Some);
    assert(0 <= dir_a < 6 && 0 <= dir_b < 6);
    let (ax, ay) = (dir_dx(dir_a), dir_dy(dir_a));
    let (bx, by) = (dir_dx(dir_b), dir_dy(dir_b));
    assert(na * ax != nb * bx || na * ay != nb * by) by (nonlinear_arith)
        requires
            na >= 1,
            nb >= 1,
            -1 <= ax <= 1,
            -1 <= ay <= 1,
            -1 <= bx <= 1,
            -1 <= by <= 1,
            ax != bx || ay != by,
            ax != 0 || ay != 0,
            bx != 0 || by != 0,
            ax + ay != 2 && ax + ay != -2,
            bx + by != 2 && bx + by != -2,
    ;
}

/// Two of the twelve hooks of one jumper land on two cells.
pub proof fn hooks_end_apart(objs: Seq<ObjectView>, obj: ObjectView, k_a: int, k_b: int)
    requires
        0 <= k_a < k_b < 2 * DIRECTIONS,
        jumper_hook(objs, obj, k_a) is Some,
        jumper_hook(objs, obj, k_b) is Some,
    ensures
        !jumper_hook(objs, obj, k_a)->0.target().same_cell(jumper_hook(objs, obj, k_b)->0.target()),
{
    crate::hexcoord::walk_arrives_at_offset(obj.coord, k_a / 2, JUMPER_REACH as nat);
    crate::hexcoord::walk_arrives_at_offset(obj.coord, k_b / 2, JUMPER_REACH as nat);
    let a = jumper_hook(objs, obj, k_a)->0;
    let b = jumper_hook(objs, obj, k_b)->0;
    assert(a.target() == a.path[2]);
    assert(b.target() == b.path[2]);
}

proof fn lemma_dasher_targets(objs: Seq<ObjectView>, obj: ObjectView, can_fly: bool, n: nat)
    ensures
        forall|i: int|
            0 <= i < dasher_moves_below(objs, obj, can_fly, n).len() ==> exists|d: int|
                0 <= d < n && dasher_move(objs, obj, d, can_fly) == Some(
                    #[trigger] dasher_moves_below(objs, obj, can_fly, n)[i],
                ),
        ends_apart(dasher_moves_below(objs, obj, can_fly, n)),
    decreases n,
{
    let moves = dasher_moves_below(objs, obj, can_fly, n);
    if n > 0 {
        let rest = dasher_moves_below(objs, obj, can_fly, (n - 1) as nat);
        lemma_dasher_targets(objs, obj, can_fly, (n - 1) as nat);
        assert forall|i: int| 0 <= i < moves.len() implies exists|d: int|
            0 <= d < n && dasher_move(objs, obj, d, can_fly) == Some(#[trigger] moves[i]) by {
            if i < rest.len() {
                let d = choose|d: int|
                    0 <= d < n - 1 && dasher_move(objs, obj, d, can_fly) == Some(rest[i]);
                assert(0 <= d < n && dasher_move(objs, obj, d, can_fly) == Some(moves[i]));
            } else {
                assert(dasher_move(objs, obj, n - 1, can_fly) == Some(moves[i]));
            }
        }
        assert forall|i: int, j: int| 0 <= i < j < moves.len() implies !(
        #[trigger] moves[i]).target().same_cell((#[trigger] moves[j]).target()) by {
            if j < rest.len() {
                assert(moves[i] == rest[i] && moves[j] == rest[j]);
            } else {
                let d = choose|d: int|
                    0 <= d < n - 1 && dasher_move(objs, obj, d, can_fly) == Some(rest[i]);
                dashes_end_apart(objs, obj, d, n - 1, can_fly);
            }
        }
    }
}

proof fn lemma_jumper_targets(objs: Seq<ObjectView>, obj: ObjectView, n: nat)
    requires
        n <= 2 * DIRECTIONS,
    ensures
        forall|i: int|
            0 <= i < jumper_moves_below(objs, obj, n).len() ==> exists|k: int|
                0 <= k < n && jumper_hook(objs, obj, k) == Some(
                    #[trigger] jumper_moves_below(objs, obj, n)[i],
                ),
        ends_apart(jumper_moves_below(objs, obj, n)),
    decreases n,
{
    let moves = jumper_moves_below(objs, obj, n);
    if n > 0 {
        let rest = jumper_moves_below(objs, obj, (n - 1) as nat);
        lemma_jumper_targets(objs, obj, (n - 1) as nat);
        assert forall|i: int| 0 <= i < moves.len() implies exists|k: int|
            0 <= k < n && jumper_hook(objs, obj, k) == Some(#[trigger] moves[i]) by {
            if i < rest.len() {
                let k = choose|k: int| 0 <= k < n - 1 && jumper_hook(objs, obj, k) == Some(rest[i]);
                assert(0 <= k < n && jumper_hook(objs, obj, k) == Some(moves[i]));
            } else {
                assert(jumper_hook(objs, obj, n - 1) == Some(moves[i]));
            }
        }
        assert forall|i: int, j: int| 0 <= i < j < moves.len() implies !(
        #[trigger] moves[i]).target().same_cell((#[trigger] moves[j]).target()) by {
            if j < rest.len() {
                assert(moves[i] == rest[i] && moves[j] == rest[j]);
            } else {
                let k = choose|k: int| 0 <= k < n - 1 && jumper_hook(objs, obj, k) == Some(rest[i]);
                hooks_end_apart(objs, obj, k, n - 1);
            }
        }
    }
}

/// Whether no two moves of `moves` end on one cell.
pub open spec fn ends_apart(moves: Seq<MoveView>) -> bool {
    forall|i: int, j: int|
        0 <= i < j < moves.len() ==> !(#[trigger] moves[i]).target().same_cell(
            (#[trigger] moves[j]).target(),
        )
}

/// No two legal moves of a piece end on one cell: a target names its move.
pub proof fn legal_moves_end_apart(objs: Seq<ObjectView>, obj: ObjectView, can_fly: bool)
    ensures
        ends_apart(spec_legal_moves(objs, obj, can_fly)),
{
    lemma_dasher_targets(objs, obj, can_fly, DIRECTIONS as nat);
    lemma_jumper_targets(objs, obj, (2 * DIRECTIONS) as nat);
}

/// Tells if a piece may step on the cell `tile_coord`.
pub fn tile_available_for_step(
    tile_coord: &HexCoord,
    board: &Board,
    tolerated_player: Option<Player>,
) -> (r: bool)
    ensures
        r == spec_available(board@, *tile_coord, tolerated_player),
{
    match board.tile_at(tile_coord) {
        Some(tile) => {
            if tile.props.dead {
                return false;
            }
        },
        None => {
            return false;
        },
    }
    match tolerated_player {
        Some(tolerated) => occupant_allows(tile_coord, board, tolerated),
        None => true,
    }
}

fn occupant_allows(coord: &HexCoord, board: &Board, tolerated: Player) -> (r: bool)
    ensures
        r == spec_occupant_allows(board@, *coord, tolerated),
{
    match board.contents(coord) {
        Some(p) => p.owned_by(&tolerated),
        None => true,
    }
}

fn delay_frac(victim_steps: usize, total_steps: usize) -> (r: u64)
    requires
        0 < total_steps,
        victim_steps <= total_steps,
    ensures
        r == spec_delay_frac(victim_steps as nat, total_steps as nat),
        victim_steps == total_steps ==> r == DASHER_KILL_DELAY,
{
    assert(DASHER_KILL_DELAY * victim_steps <= 650 * 0xffff_ffff_ffff_ffff) by (nonlinear_arith)
        requires
            DASHER_KILL_DELAY == 650,
            victim_steps <= 0xffff_ffff_ffff_ffff,
    ;
    let whole: u128 = DASHER_KILL_DELAY as u128 * victim_steps as u128;
    assert(whole / (total_steps as u128) <= DASHER_KILL_DELAY) by (nonlinear_arith)
        requires
            whole == DASHER_KILL_DELAY * victim_steps,
            0 < total_steps,
            victim_steps <= total_steps,
    ;
    assert(victim_steps == total_steps ==> whole / (total_steps as u128) == DASHER_KILL_DELAY)
        by (nonlinear_arith)
        requires
            whole == DASHER_KILL_DELAY * victim_steps,
            0 < total_steps,
    ;
    (whole / total_steps as u128) as u64
}

fn capture(board: &Board, target: &HexCoord, object: &Object, delay: u64) -> (effects: Vec<Effect>)
    requires
        object.player.competes(),
    ensures
        effects@ == capture_effects(board@, *target, object@, delay),
{
    let mut effects: Vec<Effect> = Vec::new();
    match board.contents(target) {
        Some(victim) => {
            if victim.owned_by(&object.player.opponent()) {
                effects.push(
                    Effect::Kill {
                        victim: victim.reference(),
                        killer: Some(object.reference()),
                        animation_delay_frac: Some(delay),
                    },
                );
            }
        },
        None => {},
    }
    assert(effects@ =~= capture_effects(board@, *target, object@, delay));
    effects
}

fn dasher_path(object: &Object, dir: usize, board: &Board, can_fly: bool) -> (path: Vec<HexCoord>)
    requires
        object.player.competes(),
    ensures
        path@ == seq![object.coord] + slide(
            board@,
            object.coord,
            dir as int,
            object.player,
            can_fly,
        ),
{
    let mut path: Vec<HexCoord> = Vec::new();
    path.push(object.coord);
    let mut curr: HexCoord = object.coord;
    let opponent = object.player.opponent();
    let ghost whole = seq![object.coord] + slide(
        board@,
        object.coord,
        dir as int,
        object.player,
        can_fly,
    );
    assert(path@ + slide(board@, curr, dir as int, object.player, can_fly) =~= whole);
    loop
        invariant_except_break
            whole == path@ + slide(board@, curr, dir as int, object.player, can_fly),
        invariant
            opponent == object.player.spec_opponent(),
        ensures
            whole == path@,
        decreases room(curr, dir as int),
    {
        let ghost rest = slide(board@, curr, dir as int, object.player, can_fly);
        match curr.neighbor(dir) {
            Some(next) => {
                let tile_missing = board.tile_at(&next).is_none();
                if tile_available_for_step(&next, board, Some(opponent)) || (can_fly
                    && tile_missing && occupant_allows(&next, board, opponent)) {
                    let ghost before = path@;
                    path.push(next);
                    if board.contents(&next).is_some() {
                        assert(path@ =~= before + rest);
                        break ;
                    }
                    assert(before + rest =~= path@ + slide(
                        board@,
                        next,
                        dir as int,
                        object.player,
                        can_fly,
                    ));
                    curr = next;
                } else {
                    assert(path@ + rest =~= path@);
                    break ;
                }
            },
            None => {
                assert(path@ + rest =~= path@);
                break ;
            },
        }
    }
    path
}

/// The moves of the dasher `object`: in each direction it slides while the
/// next cell can be entered, and stops where it captures.
pub fn dasher_moves(object: &Object, board: &Board, can_fly: bool) -> (moves: Vec<Move>)
    ensures
        move_views(moves@) == spec_dasher_moves(board@, object@, can_fly),
{
    let mut moves: Vec<Move> = Vec::new();
    if object.player == Player::God {
        assert(move_views(moves@) =~= spec_dasher_moves(board@, object@, can_fly));
        return moves;
    }
    let mut dir: usize = 0;
    assert(move_views(moves@) =~= dasher_moves_below(board@, object@, can_fly, 0));
    while dir < DIRECTIONS
        invariant
            dir <= DIRECTIONS,
            object.player.competes(),
            move_views(moves@) == dasher_moves_below(board@, object@, can_fly, dir as nat),
        decreases DIRECTIONS - dir,
    {
        let path = dasher_path(object, dir, board, can_fly);
        let ghost cells = slide(board@, object.coord, dir as int, object.player, can_fly);
        if path.len() > 1 {
            let steps = path.len() - 1;
            assert(path@.last() == cells.last());
            let effects = capture(board, &path[steps], object, delay_frac(steps, steps));
            let ghost before = move_views(moves@);
            let m = Move::new(object.clone(), path, effects);
            assert(Some(m@) == dasher_move(board@, object@, dir as int, can_fly));
            moves.push(m);
            assert(move_views(moves@) =~= before.push(m@));
        }
        dir = dir + 1;
    }
    moves
}

/// The moves of the jumper `object`: two cells straight, then a hook of one
/// cell to either side, on to a cell that is available.
pub fn jumper_moves(object: &Object, board: &Board) -> (moves: Vec<Move>)
    ensures
        move_views(moves@) == spec_jumper_moves(board@, object@),
{
    let mut moves: Vec<Move> = Vec::new();
    if object.player == Player::God {
        assert(move_views(moves@) =~= spec_jumper_moves(board@, object@));
        return moves;
    }
    let opponent = object.player.opponent();
    let mut k: usize = 0;
    assert(move_views(moves@) =~= jumper_moves_below(board@, object@, 0));
    while k < 2 * DIRECTIONS
        invariant
            k <= 2 * DIRECTIONS,
            object.player.competes(),
            opponent == object.player.spec_opponent(),
            move_views(moves@) == jumper_moves_below(board@, object@, k as nat),
        decreases 2 * DIRECTIONS - k,
    {
        let dir: usize = k / 2;
        let forward = k % 2 == 1;
        let hook: usize = if forward {
            (dir + 1) % 6
        } else {
            (dir + 5) % 6
        };
        match object.coord.get_neighbor(dir, JUMPER_REACH) {
            Some(turn) => match turn.neighbor(hook) {
                Some(target) => {
                    if tile_available_for_step(&target, board, Some(opponent)) {
                        let effects = capture(board, &target, object, JUMPER_KILL_DELAY);
                        let mut path: Vec<HexCoord> = Vec::new();
                        path.push(object.coord);
                        path.push(turn);
                        path.push(target);
                        assert(path@ =~= seq![object.coord, turn, target]);
                        let ghost before = move_views(moves@);
                        let m = Move::new(object.clone(), path, effects);
                        assert(Some(m@) == jumper_move(board@, object@, dir as int, forward));
                        moves.push(m);
                        assert(move_views(moves@) =~= before.push(m@));
                    }
                },
                None => {},
            },
            None => {},
        }
        k = k + 1;
    }
    moves
}

/// The legal moves of `object` on `board`.
pub fn legal_moves(object: &Object, board: &Board, config: &Config) -> (moves: Vec<Move>)
    ensures
        move_views(moves@) == spec_legal_moves(board@, object@, config.dasher_can_fly),
        forall|i: int| 0 <= i < moves.len() ==> leaves_from((#[trigger] moves@[i])@, object@),
        ends_apart(move_views(moves@)),
{
    let moves = match object.otype {
        ObjectType::Dasher => dasher_moves(object, board, config.dasher_can_fly),
        ObjectType::Jumper => jumper_moves(object, board),
        _ => {
            let none: Vec<Move> = Vec::new();
            assert(move_views(none@) =~= Seq::<MoveView>::empty());
            none
        },
    };
    proof {
        legal_moves_end_apart(board@, object@, config.dasher_can_fly);
        legal_moves_leave_the_cell(board@, object@, config.dasher_can_fly);
        assert forall|i: int| 0 <= i < moves.len() implies leaves_from(
            (#[trigger] moves@[i])@,
            object@,
        ) by {
            let legal = spec_legal_moves(board@, object@, config.dasher_can_fly);
            assert(move_views(moves@)[i] == moves@[i]@);
            assert(legal[i] == moves@[i]@);
            assert(leaves_from(legal[i], object@));
        }
    }
    moves
}

} // verus!
