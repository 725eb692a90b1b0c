//! The board: tiles and pieces in one list, found by cell and by id.

use crate::hexcoord::HexCoord;
use crate::object::{Object, ObjectView};
use crate::player::Player;
use crate::statuses::Status;
use vstd::prelude::*;

verus! {

/// The objects of a sequence as mathematical values.
pub open spec fn views(objects: Seq<Object>) -> Seq<ObjectView> {
    objects.map_values(|o: Object| o@)
}

/// The objects behind a sequence of references as mathematical values.
pub open spec fn ref_views(objects: Seq<&Object>) -> Seq<ObjectView> {
    objects.map_values(|o: &Object| o@)
}

/// Index of the first object of `objs` that satisfies `pred`.
pub open spec fn first_match(objs: Seq<ObjectView>, pred: spec_fn(ObjectView) -> bool) -> Option<
    int,
>
    decreases objs.len(),
{
    if objs.len() == 0 {
        None
    } else {
        match first_match(objs.drop_last(), pred) {
            Some(i) => Some(i),
            None => if pred(objs.last()) {
                Some(objs.len() - 1)
            } else {
                None
            },
        }
    }
}

/// The first object of `objs` that satisfies `pred`.
pub open spec fn found(objs: Seq<ObjectView>, pred: spec_fn(ObjectView) -> bool) -> Option<
    ObjectView,
> {
    match first_match(objs, pred) {
        Some(i) => Some(objs[i]),
        None => None,
    }
}

/// The first match satisfies the predicate and nothing before it does;
/// there is none exactly where nothing satisfies it.
pub proof fn lemma_first_match(objs: Seq<ObjectView>, pred: spec_fn(ObjectView) -> bool)
    ensures
        match first_match(objs, pred) {
            Some(i) => 0 <= i < objs.len() && pred(objs[i]) && forall|j: int|
                0 <= j < i ==> !pred(#[trigger] objs[j]),
            None => forall|j: int| 0 <= j < objs.len() ==> !pred(#[trigger] objs[j]),
        },
    decreases objs.len(),
{
    if objs.len() > 0 {
        let front = objs.drop_last();
        lemma_first_match(front, pred);
        match first_match(front, pred) {
            Some(i) => {
                assert(front[i] == objs[i]);
                assert forall|j: int| 0 <= j < i implies !pred(#[trigger] objs[j]) by {
                    assert(front[j] == objs[j]);
                }
            },
            None => {
                assert forall|j: int| 0 <= j < objs.len() - 1 implies !pred(#[trigger] objs[j]) by {
                    assert(front[j] == objs[j]);
                }
            },
        }
    }
}

/// An index that satisfies the predicate with nothing before it doing so is
/// the first match.
pub proof fn lemma_first_match_is(
    objs: Seq<ObjectView>,
    pred: spec_fn(ObjectView) -> bool,
    i: int,
)
    requires
        0 <= i < objs.len(),
        pred(objs[i]),
        forall|j: int| 0 <= j < i ==> !pred(#[trigger] objs[j]),
    ensures
        first_match(objs, pred) == Some(i),
        found(objs, pred) == Some(objs[i]),
{
    lemma_first_match(objs, pred);
}

/// Tiles on the cell `coord`.
pub open spec fn tile_on(coord: HexCoord) -> spec_fn(ObjectView) -> bool {
    |o: ObjectView| o.is_tile() && o.at(coord)
}

/// Pieces on the cell `coord`, dead or not.
pub open spec fn piece_on(coord: HexCoord) -> spec_fn(ObjectView) -> bool {
    |o: ObjectView| !o.is_tile() && o.at(coord)
}

/// Living pieces on the cell `coord`.
pub open spec fn living_piece_on(coord: HexCoord) -> spec_fn(ObjectView) -> bool {
    |o: ObjectView| o.living_piece() && o.at(coord)
}

/// Objects with the id `oid`.
pub open spec fn has_oid(oid: usize) -> spec_fn(ObjectView) -> bool {
    |o: ObjectView| o.props.oid == oid
}

/// Objects with another id than `oid`.
pub open spec fn other_oid(oid: usize) -> spec_fn(ObjectView) -> bool {
    |o: ObjectView| o.props.oid != oid
}

pub open spec fn is_tile() -> spec_fn(ObjectView) -> bool {
    |o: ObjectView| o.is_tile()
}

pub open spec fn is_piece() -> spec_fn(ObjectView) -> bool {
    |o: ObjectView| !o.is_tile()
}

/// `objs` with every piece on `coord` killed with `status`.
pub open spec fn pieces_killed_at(
    objs: Seq<ObjectView>,
    coord: HexCoord,
    status: Option<Status>,
) -> Seq<ObjectView> {
    objs.map_values(
        |o: ObjectView|
            if !o.is_tile() && o.at(coord) {
                o.killed(status)
            } else {
                o
            },
    )
}

/// `objs` with every object on `coord`, tile or piece, killed with `status`.
pub open spec fn all_killed_at(
    objs: Seq<ObjectView>,
    coord: HexCoord,
    status: Option<Status>,
) -> Seq<ObjectView> {
    objs.map_values(
        |o: ObjectView|
            if o.at(coord) {
                o.killed(status)
            } else {
                o
            },
    )
}

/// What two objects of one board must not share.
#[derive(Debug, Clone, Copy, PartialEq, Eq, Structural)]
pub enum Shared {
    TileCoord,
    PieceCoord,
    Oid,
}

/// Whether `a` and `b` share what `what` names: two tiles one cell, two
/// pieces one cell, or any two objects one id.
pub open spec fn clash(a: ObjectView, b: ObjectView, what: Shared) -> bool {
    match what {
        Shared::TileCoord => a.is_tile() && b.is_tile() && a.at(b.coord),
        Shared::PieceCoord => !a.is_tile() && !b.is_tile() && a.at(b.coord),
        Shared::Oid => a.props.oid == b.props.oid,
    }
}

/// Whether no two objects of `objs` share what `what` names.
pub open spec fn clash_free(objs: Seq<ObjectView>, what: Shared) -> bool {
    forall|i: int, j: int|
        0 <= i < j < objs.len() ==> !clash(#[trigger] objs[i], #[trigger] objs[j], what)
}

/// Whether `objs` holds a tile on the cell `coord`.
pub open spec fn tile_exists(objs: Seq<ObjectView>, coord: HexCoord) -> bool {
    exists|j: int| 0 <= j < objs.len() && (#[trigger] objs[j]).is_tile() && objs[j].at(coord)
}

/// Whether every object of `objs` stands on a cell that has a tile.
pub open spec fn all_on_tiles(objs: Seq<ObjectView>) -> bool {
    forall|i: int| 0 <= i < objs.len() ==> tile_exists(objs, (#[trigger] objs[i]).coord)
}

/// Whether `player` owns an object of `objs`.
pub open spec fn owns_some(objs: Seq<ObjectView>, player: Player) -> bool {
    exists|i: int| 0 <= i < objs.len() && (#[trigger] objs[i]).player == player
}

/// What holds of the objects a board is set up with: no two tiles on one
/// cell, no two pieces on one cell, no two objects with one id, every object
/// on a cell that has a tile, and an object for each of the two sides.
pub open spec fn valid_setup(objs: Seq<ObjectView>) -> bool {
    &&& clash_free(objs, Shared::TileCoord)
    &&& clash_free(objs, Shared::PieceCoord)
    &&& clash_free(objs, Shared::Oid)
    &&& all_on_tiles(objs)
    &&& owns_some(objs, Player::A)
    &&& owns_some(objs, Player::B)
}

/// Why a set of objects cannot make a board.
#[derive(Debug, Clone, Copy, PartialEq, Eq, Structural)]
pub enum SetupError {
    DuplicateTileCoord,
    DuplicateObjectCoord,
    DuplicateOid,
    ObjectOnNonTile,
    NoPieces { player: Player },
}

/// The first rule of a board's setup that `objs` breaks, in the order in
/// which `valid_setup` lists them.
pub open spec fn spec_verify(objs: Seq<ObjectView>) -> Result<(), SetupError> {
    if !clash_free(objs, Shared::TileCoord) {
        Err(SetupError::DuplicateTileCoord)
    } else if !clash_free(objs, Shared::PieceCoord) {
        Err(SetupError::DuplicateObjectCoord)
    } else if !clash_free(objs, Shared::Oid) {
        Err(SetupError::DuplicateOid)
    } else if !all_on_tiles(objs) {
        Err(SetupError::ObjectOnNonTile)
    } else if !owns_some(objs, Player::A) {
        Err(SetupError::NoPieces { player: Player::A })
    } else if !owns_some(objs, Player::B) {
        Err(SetupError::NoPieces { player: Player::B })
    } else {
        Ok(())
    }
}

fn objects_clash(a: &Object, b: &Object, what: Shared) -> (r: bool)
    ensures
        r == clash(a@, b@, what),
{
    match what {
        Shared::TileCoord => a.is_tile() && b.is_tile() && a.coord == b.coord,
        Shared::PieceCoord => !a.is_tile() && !b.is_tile() && a.coord == b.coord,
        Shared::Oid => a.props.oid == b.props.oid,
    }
}

fn check_clash_free(objects: &Vec<Object>, what: Shared) -> (r: bool)
    ensures
        r == clash_free(views(objects@), what),
{
    let ghost objs = views(objects@);
    let mut j: usize = 0;
    while j < objects.len()
        invariant
            j <= objects.len(),
            objs == views(objects@),
            forall|a: int, b: int| 0 <= a < b < j ==> !clash(#[trigger] objs[a], #[trigger] objs[b], what),
        decreases objects.len() - j,
    {
        let mut i: usize = 0;
        while i < j
            invariant
                i <= j < objects.len(),
                objs == views(objects@),
                forall|a: int| 0 <= a < i ==> !clash(#[trigger] objs[a], objs[j as int], what),
            decreases j - i,
        {
            if objects_clash(&objects[i], &objects[j], what) {
                assert(clash(objs[i as int], objs[j as int], what));
                return false;
            }
            i = i + 1;
        }
        j = j + 1;
    }
    true
}

fn check_tile_exists(objects: &Vec<Object>, coord: &HexCoord) -> (r: bool)
    ensures
        r == tile_exists(views(objects@), *coord),
{
    let ghost objs = views(objects@);
    let mut j: usize = 0;
    while j < objects.len()
        invariant
            j <= objects.len(),
            objs == views(objects@),
            forall|a: int| 0 <= a < j ==> !((#[trigger] objs[a]).is_tile() && objs[a].at(*coord)),
        decreases objects.len() - j,
    {
        if objects[j].is_tile() && objects[j].coord == *coord {
            assert(objs[j as int].is_tile() && objs[j as int].at(*coord));
            return true;
        }
        j = j + 1;
    }
    false
}

fn check_all_on_tiles(objects: &Vec<Object>) -> (r: bool)
    ensures
        r == all_on_tiles(views(objects@)),
{
    let ghost objs = views(objects@);
    let mut i: usize = 0;
    while i < objects.len()
        invariant
            i <= objects.len(),
            objs == views(objects@),
            forall|a: int| 0 <= a < i ==> tile_exists(objs, (#[trigger] objs[a]).coord),
        decreases objects.len() - i,
    {
        if !check_tile_exists(objects, &objects[i].coord) {
            assert(!tile_exists(objs, objs[i as int].coord));
            return false;
        }
        i = i + 1;
    }
    true
}

fn check_owns_some(objects: &Vec<Object>, player: Player) -> (r: bool)
    ensures
        r == owns_some(views(objects@), player),
{
    let ghost objs = views(objects@);
    let mut i: usize = 0;
    while i < objects.len()
        invariant
            i <= objects.len(),
            objs == views(objects@),
            forall|a: int| 0 <= a < i ==> (#[trigger] objs[a]).player != player,
        decreases objects.len() - i,
    {
        if objects[i].owned_by(&player) {
            assert(objs[i as int].player == player);
            return true;
        }
        i = i + 1;
    }
    false
}

/// A board: its side and its objects, tiles and pieces alike.
#[derive(Debug)]
pub struct Board {
    pub size: usize,
    pub objects: Vec<Object>,
}

impl View for Board {
    type V = Seq<ObjectView>;

    open spec fn view(&self) -> Seq<ObjectView> {
        views(self.objects@)
    }
}

impl Clone for Board {
    fn clone(&self) -> (r: Self)
        ensures
            r@ == self@,
            r.size == self.size,
    {
        let mut objects: Vec<Object> = Vec::new();
        let mut i: usize = 0;
        while i < self.objects.len()
            invariant
                i <= self.objects.len(),
                views(objects@) == self@.take(i as int),
            decreases self.objects.len() - i,
        {
            let ghost before = views(objects@);
            objects.push(self.objects[i].clone());
            assert(views(objects@) =~= before.push(self@[i as int]));
            assert(self@.take(i + 1) =~= self@.take(i as int).push(self@[i as int]));
            i = i + 1;
        }
        assert(self@.take(self.objects.len() as int) =~= self@);
        Board { size: self.size, objects }
    }
}

impl Board {
    /// Every object of the board carries one status of a kind at most.
    pub open spec fn wf(self) -> bool {
        forall|i: int| 0 <= i < self@.len() ==> (#[trigger] self@[i]).wf()
    }

    /// Tells whether `objects` can make a board, and if not, which rule of
    /// a board's setup they break first.
    pub fn verify(objects: &Vec<Object>) -> (r: Result<(), SetupError>)
        ensures
            r == spec_verify(views(objects@)),
            r is Ok <==> valid_setup(views(objects@)),
    {
        if !check_clash_free(objects, Shared::TileCoord) {
            Err(SetupError::DuplicateTileCoord)
        } else if !check_clash_free(objects, Shared::PieceCoord) {
            Err(SetupError::DuplicateObjectCoord)
        } else if !check_clash_free(objects, Shared::Oid) {
            Err(SetupError::DuplicateOid)
        } else if !check_all_on_tiles(objects) {
            Err(SetupError::ObjectOnNonTile)
        } else if !check_owns_some(objects, Player::A) {
            Err(SetupError::NoPieces { player: Player::A })
        } else if !check_owns_some(objects, Player::B) {
            Err(SetupError::NoPieces { player: Player::B })
        } else {
            Ok(())
        }
    }

    /// The board of side `size` with `objects`. Objects that break a rule of
    /// a board's setup are an error of the caller.
    pub fn new(size: usize, objects: Vec<Object>) -> (board: Board)
        requires
            valid_setup(views(objects@)),
        ensures
            board.size == size,
            board.objects == objects,
            valid_setup(board@),
    {
        Board { size, objects }
    }

    pub fn tiles(&self) -> (r: Vec<&Object>)
        ensures
            ref_views(r@) == self@.filter(is_tile()),
    {
        let mut out: Vec<&Object> = Vec::new();
        let mut i: usize = 0;
        proof {
            reveal(Seq::filter);
            assert(ref_views(out@) =~= self@.take(0).filter(is_tile()));
        }
        while i < self.objects.len()
            invariant
                i <= self.objects.len(),
                ref_views(out@) == self@.take(i as int).filter(is_tile()),
            decreases self.objects.len() - i,
        {
            proof {
                reveal(Seq::filter);
                assert(self@.take(i + 1).drop_last() =~= self@.take(i as int));
            }
            if self.objects[i].is_tile() {
                out.push(&self.objects[i]);
                assert(ref_views(out@) =~= self@.take(i + 1).filter(is_tile()));
            }
            i = i + 1;
        }
        assert(self@.take(self.objects.len() as int) =~= self@);
        out
    }

    pub fn pieces(&self) -> (r: Vec<&Object>)
        ensures
            ref_views(r@) == self@.filter(is_piece()),
    {
        let mut out: Vec<&Object> = Vec::new();
        let mut i: usize = 0;
        proof {
            reveal(Seq::filter);
            assert(ref_views(out@) =~= self@.take(0).filter(is_piece()));
        }
        while i < self.objects.len()
            invariant
                i <= self.objects.len(),
                ref_views(out@) == self@.take(i as int).filter(is_piece()),
            decreases self.objects.len() - i,
        {
            proof {
                reveal(Seq::filter);
                assert(self@.take(i + 1).drop_last() =~= self@.take(i as int));
            }
            if !self.objects[i].is_tile() {
                out.push(&self.objects[i]);
                assert(ref_views(out@) =~= self@.take(i + 1).filter(is_piece()));
            }
            i = i + 1;
        }
        assert(self@.take(self.objects.len() as int) =~= self@);
        out
    }

    pub fn objects(&self) -> (r: Vec<&Object>)
        ensures
            ref_views(r@) == self@,
    {
        let mut out: Vec<&Object> = Vec::new();
        let mut i: usize = 0;
        while i < self.objects.len()
            invariant
                i <= self.objects.len(),
                ref_views(out@) == self@.take(i as int),
            decreases self.objects.len() - i,
        {
            let ghost before = ref_views(out@);
            out.push(&self.objects[i]);
            assert(ref_views(out@) =~= before.push(self@[i as int]));
            assert(self@.take(i + 1) =~= self@.take(i as int).push(self@[i as int]));
            i = i + 1;
        }
        assert(self@.take(self.objects.len() as int) =~= self@);
        out
    }

    /// The first tile on the cell `coord`.
    pub fn tile_at(&self, coord: &HexCoord) -> (r: Option<&Object>)
        ensures
            match r {
                Some(o) => found(self@, tile_on(*coord)) == Some(o@),
                None => found(self@, tile_on(*coord)) is None,
            },
    {
        let mut i: usize = 0;
        while i < self.objects.len()
            invariant
                i <= self.objects.len(),
                forall|j: int| 0 <= j < i ==> !tile_on(*coord)(#[trigger] self@[j]),
            decreases self.objects.len() - i,
        {
            if self.objects[i].is_tile() && self.objects[i].coord == *coord {
                proof {
                    lemma_first_match_is(self@, tile_on(*coord), i as int);
                }
                return Some(&self.objects[i]);
            }
            i = i + 1;
        }
        proof {
            lemma_first_match(self@, tile_on(*coord));
        }
        None
    }

    /// The first piece on the cell `coord`, dead or not.
    pub fn piece_at(&self, coord: &HexCoord) -> (r: Option<&Object>)
        ensures
            match r {
                Some(o) => found(self@, piece_on(*coord)) == Some(o@),
                None => found(self@, piece_on(*coord)) is None,
            },
    {
        let mut i: usize = 0;
        while i < self.objects.len()
            invariant
                i <= self.objects.len(),
                forall|j: int| 0 <= j < i ==> !piece_on(*coord)(#[trigger] self@[j]),
            decreases self.objects.len() - i,
        {
            if !self.objects[i].is_tile() && self.objects[i].coord == *coord {
                proof {
                    lemma_first_match_is(self@, piece_on(*coord), i as int);
                }
                return Some(&self.objects[i]);
            }
            i = i + 1;
        }
        proof {
            lemma_first_match(self@, piece_on(*coord));
        }
        None
    }

    /// Index of the first object with the id `oid`.
    pub fn index_of(&self, oid: usize) -> (r: Option<usize>)
        ensures
            match r {
                Some(i) => first_match(self@, has_oid(oid)) == Some(i as int) && i
                    < self.objects.len(),
                None => first_match(self@, has_oid(oid)) is None,
            },
    {
        let mut i: usize = 0;
        while i < self.objects.len()
            invariant
                i <= self.objects.len(),
                forall|j: int| 0 <= j < i ==> !has_oid(oid)(#[trigger] self@[j]),
            decreases self.objects.len() - i,
        {
            if self.objects[i].props.oid == oid {
                proof {
                    lemma_first_match_is(self@, has_oid(oid), i as int);
                }
                return Some(i);
            }
            i = i + 1;
        }
        proof {
            lemma_first_match(self@, has_oid(oid));
        }
        None
    }

    /// The board's own object with the id of `object`, to change in place.
    pub fn get_as_mut(&mut self, object: &Object) -> (r: Option<&mut Object>)
        ensures
            final(self).size == old(self).size,
            match r {
                Some(o) => {
                    let i = first_match(old(self)@, has_oid(object.props.oid));
                    &&& i is Some
                    &&& o@ == old(self)@[i->0]
                    &&& final(self)@ == old(self)@.update(i->0, final(o)@)
                },
                None => first_match(old(self)@, has_oid(object.props.oid)) is None && *final(self)
                    == *old(self),
            },
    {
        match self.index_of(object.props.oid) {
            Some(i) => {
                assert forall|x: Object| #[trigger]
                    views(self.objects@.update(i as int, x)) == self@.update(i as int, x@) by {
                    assert(views(self.objects@.update(i as int, x)) =~= self@.update(i as int, x@));
                }
                Some(&mut self.objects[i])
            },
            None => None,
        }
    }

    pub fn add_object(&mut self, object: Object)
        ensures
            final(self)@ == old(self)@.push(object@),
            final(self).size == old(self).size,
            old(self).wf() && object.wf() ==> final(self).wf(),
    {
        self.objects.push(object);
        assert(self@ =~= old(self)@.push(object@));
    }

    /// Takes every object with the id of `object` off the board.
    pub fn remove_object(&mut self, object: &Object)
        ensures
            final(self)@ == old(self)@.filter(other_oid(object.props.oid)),
            final(self).size == old(self).size,
            old(self).wf() ==> final(self).wf(),
    {
        let oid = object.props.oid;
        let mut kept: Vec<Object> = Vec::new();
        let mut i: usize = 0;
        proof {
            reveal(Seq::filter);
            assert(views(kept@) =~= self@.take(0).filter(other_oid(oid)));
        }
        while i < self.objects.len()
            invariant
                i <= self.objects.len(),
                *self == *old(self),
                views(kept@) == self@.take(i as int).filter(other_oid(oid)),
                old(self).wf() ==> forall|k: int|
                    0 <= k < kept.len() ==> (#[trigger] views(kept@)[k]).wf(),
            decreases self.objects.len() - i,
        {
            proof {
                reveal(Seq::filter);
                assert(self@.take(i + 1).drop_last() =~= self@.take(i as int));
            }
            if self.objects[i].props.oid != oid {
                kept.push(self.objects[i].clone());
                assert(views(kept@) =~= self@.take(i + 1).filter(other_oid(oid)));
                assert(old(self).wf() ==> self@[i as int].wf());
            }
            i = i + 1;
        }
        assert(self@.take(self.objects.len() as int) =~= self@);
        self.objects = kept;
    }

    /// Marks every piece on the cell `coord` dead, with `status` if there
    /// is one.
    pub fn kill_piece_at(&mut self, coord: &HexCoord, status: Option<Status>)
        ensures
            final(self)@ == pieces_killed_at(old(self)@, *coord, status),
            final(self).size == old(self).size,
            old(self).wf() ==> final(self).wf(),
    {
        let mut i: usize = 0;
        while i < self.objects.len()
            invariant
                i <= self.objects.len(),
                self.size == old(self).size,
                self@.len() == old(self)@.len(),
                forall|k: int|
                    0 <= k < i ==> (#[trigger] self@[k]) == pieces_killed_at(
                        old(self)@,
                        *coord,
                        status,
                    )[k],
                forall|k: int| i <= k < self@.len() ==> (#[trigger] self@[k]) == old(self)@[k],
                old(self).wf() ==> self.wf(),
            decreases self.objects.len() - i,
        {
            if !self.objects[i].is_tile() && self.objects[i].coord == *coord {
                let ghost before = self@;
                self.objects[i].set_killed(status.as_ref());
                assert(self@ =~= before.update(i as int, before[i as int].killed(status)));
            }
            i = i + 1;
        }
        assert(self@ =~= pieces_killed_at(old(self)@, *coord, status));
    }

    /// Marks every object on the cell `coord` dead, tile or piece, with
    /// `status` if there is one.
    pub fn kill_all_at(&mut self, coord: &HexCoord, status: Option<Status>)
        ensures
            final(self)@ == all_killed_at(old(self)@, *coord, status),
            final(self).size == old(self).size,
            old(self).wf() ==> final(self).wf(),
    {
        let mut i: usize = 0;
        while i < self.objects.len()
            invariant
                i <= self.objects.len(),
                self.size == old(self).size,
                self@.len() == old(self)@.len(),
                forall|k: int|
                    0 <= k < i ==> (#[trigger] self@[k]) == all_killed_at(
                        old(self)@,
                        *coord,
                        status,
                    )[k],
                forall|k: int| i <= k < self@.len() ==> (#[trigger] self@[k]) == old(self)@[k],
                old(self).wf() ==> self.wf(),
            decreases self.objects.len() - i,
        {
            if self.objects[i].coord == *coord {
                let ghost before = self@;
                self.objects[i].set_killed(status.as_ref());
                assert(self@ =~= before.update(i as int, before[i as int].killed(status)));
            }
            i = i + 1;
        }
        assert(self@ =~= all_killed_at(old(self)@, *coord, status));
    }

    /// Whether the first piece on the cell `coord` is dead, or there is
    /// none.
    pub fn is_empty(&self, coord: &HexCoord) -> (r: bool)
        ensures
            r == match found(self@, piece_on(*coord)) {
                Some(p) => p.props.dead,
                None => true,
            },
    {
        match self.piece_at(coord) {
            Some(p) => p.props.dead,
            None => true,
        }
    }

    /// The living piece on the cell `coord`: what occupies it.
    pub fn contents(&self, coord: &HexCoord) -> (r: Option<&Object>)
        ensures
            match r {
                Some(o) => found(self@, living_piece_on(*coord)) == Some(o@),
                None => found(self@, living_piece_on(*coord)) is None,
            },
    {
        let mut i: usize = 0;
        while i < self.objects.len()
            invariant
                i <= self.objects.len(),
                forall|j: int| 0 <= j < i ==> !living_piece_on(*coord)(#[trigger] self@[j]),
            decreases self.objects.len() - i,
        {
            if !self.objects[i].is_tile() && !self.objects[i].props.dead && self.objects[i].coord
                == *coord {
                proof {
                    lemma_first_match_is(self@, living_piece_on(*coord), i as int);
                }
                return Some(&self.objects[i]);
            }
            i = i + 1;
        }
        proof {
            lemma_first_match(self@, living_piece_on(*coord));
        }
        None
    }

    /// The side whose living piece occupies the cell `coord`.
    pub fn owner(&self, coord: &HexCoord) -> (r: Option<Player>)
        ensures
            r == match found(self@, living_piece_on(*coord)) {
                Some(o) => Some(o.player),
                None => None,
            },
    {
        match self.contents(coord) {
            Some(o) => Some(o.player),
            None => None,
        }
    }
}

} // verus!
