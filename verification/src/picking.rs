//! Finding the object under a place on the screen.

use crate::board::{is_piece, is_tile, ref_views};
use crate::game_controller::GameController;
use crate::object::{Object, ObjectView};
use crate::screencoord::{fits_screen, spec_dist_sq, spec_from_hexcoord, ScreenCoord};
use crate::sorting::{ascending_tags, sorted_stably};
use vstd::prelude::*;

verus! {

/// The square of the distance from `pos` to the place of `o` on the screen.
pub open spec fn gap(pos: ScreenCoord, o: ObjectView) -> int {
    spec_dist_sq(pos, spec_from_hexcoord(o.coord))
}

/// Whether `pos` lies nearer to the place of `o` than the size of `o`.
pub open spec fn within_reach(pos: ScreenCoord, o: ObjectView) -> bool {
    gap(pos, o) < o.props.size * o.props.size
}

/// Whether the object at index `i` of `objs` has `pos` within its reach and
/// no other that has lies nearer to it, nor as near and earlier in `objs`.
pub open spec fn is_closest(pos: ScreenCoord, objs: Seq<ObjectView>, i: int) -> bool {
    &&& 0 <= i < objs.len()
    &&& within_reach(pos, objs[i])
    &&& forall|k: int|
        0 <= k < objs.len() && within_reach(pos, #[trigger] objs[k]) ==> gap(pos, objs[i]) < gap(
            pos,
            objs[k],
        ) || (gap(pos, objs[i]) == gap(pos, objs[k]) && i <= k)
}

/// Whether `picked` is what a pick at `pos` among `objs` gives: the closest
/// object that has `pos` within its reach, or nothing where none has.
pub open spec fn picks(pos: ScreenCoord, objs: Seq<ObjectView>, picked: Option<ObjectView>) -> bool {
    match picked {
        Some(o) => exists|i: int| is_closest(pos, objs, i) && #[trigger] objs[i] == o,
        None => forall|k: int| 0 <= k < objs.len() ==> !within_reach(pos, #[trigger] objs[k]),
    }
}

/// What a pick at `pos` among `objs` gives.
pub open spec fn spec_pick(pos: ScreenCoord, objs: Seq<ObjectView>) -> Option<ObjectView> {
    if exists|i: int| is_closest(pos, objs, i) {
        Some(objs[choose|i: int| is_closest(pos, objs, i)])
    } else {
        None
    }
}

/// A pick has one answer: whatever `picks` holds of is what `spec_pick`
/// gives.
pub proof fn pick_is_unique(pos: ScreenCoord, objs: Seq<ObjectView>, picked: Option<ObjectView>)
    requires
        picks(pos, objs, picked),
    ensures
        picked == spec_pick(pos, objs),
{
    match picked {
        Some(o) => {
            let i = choose|i: int| is_closest(pos, objs, i) && #[trigger] objs[i] == o;
            let j = choose|j: int| is_closest(pos, objs, j);
            assert(is_closest(pos, objs, i));
            assert(within_reach(pos, objs[i]) && within_reach(pos, objs[j]));
            assert(i == j);
        },
        None => {
            if exists|i: int| is_closest(pos, objs, i) {
                let i = choose|i: int| is_closest(pos, objs, i);
                assert(within_reach(pos, objs[i]));
            }
        },
    }
}

/// Whether every object of `objs` stands on a cell that has a place on the
/// screen.
pub open spec fn all_fit_screen(objs: Seq<ObjectView>) -> bool {
    forall|i: int| 0 <= i < objs.len() ==> fits_screen((#[trigger] objs[i]).coord)
}

/// Tells whether every object of `objects` stands on a cell that has a
/// place on the screen.
pub fn check_all_fit_screen(objects: &Vec<Object>) -> (r: bool)
    ensures
        r == all_fit_screen(crate::board::views(objects@)),
{
    let mut i: usize = 0;
    while i < objects.len()
        invariant
            i <= objects.len(),
            forall|k: int|
                0 <= k < i ==> fits_screen((#[trigger] crate::board::views(objects@)[k]).coord),
        decreases objects.len() - i,
    {
        let c = &objects[i].coord;
        if c.x > crate::screencoord::HEX_LIMIT || c.y > crate::screencoord::HEX_LIMIT
            || c.board_size > crate::screencoord::HEX_LIMIT {
            assert(!fits_screen(crate::board::views(objects@)[i as int].coord));
            return false;
        }
        i = i + 1;
    }
    true
}

proof fn lemma_filter_keeps(objs: Seq<ObjectView>, pred: spec_fn(ObjectView) -> bool)
    requires
        all_fit_screen(objs),
    ensures
        all_fit_screen(objs.filter(pred)),
{
    let kept = objs.filter(pred);
    assert forall|i: int| 0 <= i < kept.len() implies fits_screen((#[trigger] kept[i]).coord) by {
        assert(kept.contains(kept[i]));
        objs.lemma_filter_contains_rev(pred, kept[i]);
        let j = choose|j: int| 0 <= j < objs.len() && objs[j] == kept[i];
        assert(fits_screen(objs[j].coord));
    }
}

impl GameController {
    /// The closest of `objects` that has `pos` within its reach.
    pub fn get_close_from_vec(&self, pos: &ScreenCoord, objects: &Vec<&Object>) -> (r: Option<
        Object,
    >)
        requires
            pos.in_range(),
            all_fit_screen(ref_views(objects@)),
        ensures
            picks(
                *pos,
                ref_views(objects@),
                match r {
                    Some(o) => Some(o@),
                    None => None,
                },
            ),
            spec_pick(*pos, ref_views(objects@)) == match r {
                Some(o) => Some(o@),
                None => None,
            },
    {
        let ghost objs = ref_views(objects@);
        let mut items: Vec<(u128, usize)> = Vec::new();
        let mut i: usize = 0;
        while i < objects.len()
            invariant
                i <= objects.len(),
                pos.in_range(),
                objs == ref_views(objects@),
                all_fit_screen(objs),
                ascending_tags(items@),
                forall|m: int|
                    0 <= m < items.len() ==> (#[trigger] items@[m]).1 < i && within_reach(
                        *pos,
                        objs[items@[m].1 as int],
                    ) && items@[m].0 == gap(*pos, objs[items@[m].1 as int]),
                forall|k: int|
                    0 <= k < i && within_reach(*pos, #[trigger] objs[k]) ==> items@.contains(
                        (gap(*pos, objs[k]) as u128, k as usize),
                    ),
            decreases objects.len() - i,
        {
            let o = objects[i];
            assert(objs[i as int] == o@);
            assert(fits_screen(objs[i as int].coord));
            let d = pos.dist_sq(&o.get_screen_coord());
            assert(o.props.size * o.props.size <= 0xffff_ffff_ffff_ffff * 0xffff_ffff_ffff_ffff)
                by (nonlinear_arith)
                requires
                    0 <= o.props.size <= 0xffff_ffff_ffff_ffff,
            ;
            let reach: u128 = o.props.size as u128 * o.props.size as u128;
            let ghost before = items@;
            if d < reach {
                items.push((d, i));
                assert(items@[before.len() as int] == (d, i));
                assert forall|k: int|
                    0 <= k < i + 1 && within_reach(*pos, #[trigger] objs[k]) implies items@.contains(
                    (gap(*pos, objs[k]) as u128, k as usize),
                ) by {
                    if k < i {
                        let e = (gap(*pos, objs[k]) as u128, k as usize);
                        let m = choose|m: int| 0 <= m < before.len() && before[m] == e;
                        assert(items@[m] == e);
                    } else {
                        assert(items@[before.len() as int] == (d, i));
                    }
                }
            }
            i = i + 1;
        }
        let sorted = sorted_stably(items);
        proof {
            vstd::seq_lib::to_multiset_len(sorted@);
            vstd::seq_lib::to_multiset_len(items@);
        }
        if sorted.len() == 0 {
            assert forall|k: int| 0 <= k < objs.len() implies !within_reach(*pos, #[trigger] objs[k]) by {
                if within_reach(*pos, objs[k]) {
                    assert(items@.contains((gap(*pos, objs[k]) as u128, k as usize)));
                }
            }
            proof {
                pick_is_unique(*pos, objs, None);
            }
            return None;
        }
        let best = sorted[0];
        proof {
            vstd::seq_lib::to_multiset_contains(sorted@, best);
            vstd::seq_lib::to_multiset_contains(items@, best);
            assert(sorted@.contains(best));
            assert(items@.contains(best));
            let m = choose|m: int| 0 <= m < items@.len() && items@[m] == best;
            assert(items@[m].1 < objects.len());
            assert forall|k: int|
                0 <= k < objs.len() && within_reach(*pos, #[trigger] objs[k]) implies gap(
                *pos,
                objs[best.1 as int],
            ) < gap(*pos, objs[k]) || (gap(*pos, objs[best.1 as int]) == gap(*pos, objs[k])
                && best.1 <= k) by {
                let e = (gap(*pos, objs[k]) as u128, k as usize);
                assert(items@.contains(e));
                vstd::seq_lib::to_multiset_contains(sorted@, e);
                vstd::seq_lib::to_multiset_contains(items@, e);
                assert(sorted@.contains(e));
                let j = choose|j: int| 0 <= j < sorted@.len() && sorted@[j] == e;
                if j > 0 {
                    assert(sorted@[0].0 < sorted@[j].0 || (sorted@[0].0 == sorted@[j].0
                        && sorted@[0].1 < sorted@[j].1));
                }
            }
            assert(is_closest(*pos, objs, best.1 as int));
        }
        let picked = objects[best.1].clone();
        assert(objs[best.1 as int] == picked@);
        proof {
            pick_is_unique(*pos, objs, Some(picked@));
        }
        Some(picked)
    }

    /// The piece closest to `pos` among those that have it within reach.
    pub fn get_piece_at_pos(&self, pos: &ScreenCoord) -> (r: Option<Object>)
        requires
            pos.in_range(),
            all_fit_screen(self.board@),
        ensures
            spec_pick(*pos, self.board@.filter(is_piece())) == match r {
                Some(o) => Some(o@),
                None => None,
            },
    {
        proof {
            lemma_filter_keeps(self.board@, is_piece());
        }
        self.get_close_from_vec(pos, &self.board.pieces())
    }

    /// The tile closest to `pos` among those that have it within reach.
    pub fn get_tile_at_pos(&self, pos: &ScreenCoord) -> (r: Option<Object>)
        requires
            pos.in_range(),
            all_fit_screen(self.board@),
        ensures
            spec_pick(*pos, self.board@.filter(is_tile())) == match r {
                Some(o) => Some(o@),
                None => None,
            },
    {
        proof {
            lemma_filter_keeps(self.board@, is_tile());
        }
        self.get_close_from_vec(pos, &self.board.tiles())
    }
}

} // verus!
