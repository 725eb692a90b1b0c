//! A piece picked up, with the moves it may make.

use crate::board::{first_match, has_oid};
use crate::game_controller::GameController;
use crate::hexcoord::HexCoord;
use crate::moves::{legal_moves, leaves_from, move_views, spec_legal_moves, Move, MoveView};
use crate::object::{with_status, Object, ObjectView};
use crate::statuses::{Status, StatusType};
use vstd::prelude::*;

verus! {

/// A piece picked up, with the moves it can make and the cells they end on.
#[derive(Debug)]
pub struct Drag {
    pub object: Object,
    pub targets: Vec<HexCoord>,
    pub moves: Vec<Move>,
}

/// The cells on which the moves of `moves` end, in their order.
pub open spec fn targets_of(moves: Seq<MoveView>) -> Seq<HexCoord> {
    moves.map_values(|m: MoveView| m.target())
}

/// `objs` with the first object of id `oid` marked as dragged.
pub open spec fn picked_up(objs: Seq<ObjectView>, oid: usize) -> Seq<ObjectView> {
    match first_match(objs, has_oid(oid)) {
        Some(i) => objs.update(
            i,
            objs[i].with_statuses(
                with_status(
                    objs[i].statuses,
                    Status { stype: StatusType::Dragged, start_time: None, duration: None },
                ),
            ),
        ),
        None => objs,
    }
}

/// Whether the move `m` ends on the cell `target`.
pub open spec fn ends_on(m: MoveView, target: HexCoord) -> bool {
    m.path.len() > 0 && m.target().same_cell(target)
}

/// Whether the move at index `i` is the first of `moves` that ends on the
/// cell `target`.
pub open spec fn first_move_to(moves: Seq<MoveView>, target: HexCoord, i: int) -> bool {
    &&& 0 <= i < moves.len()
    &&& ends_on(moves[i], target)
    &&& forall|j: int| 0 <= j < i ==> !ends_on(#[trigger] moves[j], target)
}

/// Whether no move of `moves` ends on the cell `target`.
pub open spec fn no_move_to(moves: Seq<MoveView>, target: HexCoord) -> bool {
    forall|j: int| 0 <= j < moves.len() ==> !ends_on(#[trigger] moves[j], target)
}

impl Drag {
    /// Every move takes its piece somewhere, and the targets are the cells
    /// on which the moves end.
    pub open spec fn wf(self) -> bool {
        &&& forall|i: int| 0 <= i < self.moves.len() ==> (#[trigger] self.moves@[i]).wf()
        &&& self.targets@ == targets_of(move_views(self.moves@))
    }

    /// Picks up `object`. Where the state of `game` allows no moves, the
    /// drag is empty and nothing changes. Else the board's object is marked
    /// as dragged and the drag holds the legal moves of `object`.
    pub fn create(object: &Object, game: &mut GameController) -> (drag: Drag)
        ensures
            drag.object@ == object@,
            drag.wf(),
            final(game).game_state == old(game).game_state,
            final(game).config == old(game).config,
            final(game).board.size == old(game).board.size,
            old(game).board.wf() ==> final(game).board.wf(),
            !old(game).game_state.spec_allows_moves() ==> final(game).board@ == old(game).board@
                && drag.moves@.len() == 0,
            old(game).game_state.spec_allows_moves() ==> final(game).board@ == picked_up(
                old(game).board@,
                object.props.oid,
            ) && move_views(drag.moves@) == spec_legal_moves(
                final(game).board@,
                object@,
                old(game).config.dasher_can_fly,
            ),
    {
        if !game.game_state.allows_moves() {
            let drag = Drag { object: object.clone(), targets: Vec::new(), moves: Vec::new() };
            assert(drag.targets@ =~= targets_of(move_views(drag.moves@)));
            return drag;
        }
        if let Some(i) = game.board.index_of(object.props.oid) {
            let ghost before = game.board@;
            game.board.objects[i].replace_status(&Status::new_dragged());
            assert(game.board@ =~= picked_up(before, object.props.oid));
            assert(old(game).board.wf() ==> before[i as int].wf());
        }
        let moves = legal_moves(object, &game.board, &game.config);
        let mut targets: Vec<HexCoord> = Vec::new();
        let mut k: usize = 0;
        while k < moves.len()
            invariant
                k <= moves.len(),
                forall|i: int| 0 <= i < moves.len() ==> leaves_from((#[trigger] moves@[i])@, object@),
                targets@ == targets_of(move_views(moves@)).take(k as int),
            decreases moves.len() - k,
        {
            let ghost before = targets@;
            assert(moves@[k as int].wf());
            targets.push(*moves[k].target());
            assert(targets@ =~= targets_of(move_views(moves@)).take(k + 1));
            k = k + 1;
        }
        assert(targets_of(move_views(moves@)).take(moves.len() as int) =~= targets_of(
            move_views(moves@),
        ));
        Drag { object: object.clone(), targets, moves }
    }

    /// The first move of the drag that ends on the cell `target`.
    pub fn get_move_to(&self, target: &HexCoord) -> (r: Option<&Move>)
        ensures
            match r {
                Some(m) => exists|i: int|
                    first_move_to(move_views(self.moves@), *target, i) && (
                    #[trigger] self.moves@[i])@ == m@,
                None => no_move_to(move_views(self.moves@), *target),
            },
    {
        let mut i: usize = 0;
        while i < self.moves.len()
            invariant
                i <= self.moves.len(),
                forall|j: int|
                    0 <= j < i ==> !ends_on(#[trigger] move_views(self.moves@)[j], *target),
            decreases self.moves.len() - i,
        {
            let path = &self.moves[i].path;
            if path.len() > 0 && path[path.len() - 1] == *target {
                assert(first_move_to(move_views(self.moves@), *target, i as int));
                return Some(&self.moves[i]);
            }
            i = i + 1;
        }
        None
    }

    /// Whether a move of the drag ends on the cell `target`.
    pub fn has_move_to(&self, target: &HexCoord) -> (r: bool)
        ensures
            r == exists|i: int|
                0 <= i < self.targets.len() && (#[trigger] self.targets@[i]).same_cell(*target),
    {
        let mut i: usize = 0;
        while i < self.targets.len()
            invariant
                i <= self.targets.len(),
                forall|j: int| 0 <= j < i ==> !(#[trigger] self.targets@[j]).same_cell(*target),
            decreases self.targets.len() - i,
        {
            if self.targets[i] == *target {
                return true;
            }
            i = i + 1;
        }
        false
    }

    /// The first move of the drag that ends on the cell `target`.
    pub fn get_move(&self, target: &HexCoord) -> (r: Option<&Move>)
        ensures
            match r {
                Some(m) => exists|i: int|
                    first_move_to(move_views(self.moves@), *target, i) && (
                    #[trigger] self.moves@[i])@ == m@,
                None => no_move_to(move_views(self.moves@), *target),
            },
    {
        self.get_move_to(target)
    }
}

} // verus!
