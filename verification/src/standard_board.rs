//! The board a match begins on.

use crate::board::{
    all_on_tiles, clash_free, owns_some, tile_exists, valid_setup, views, Board, Shared,
};
use crate::hexcoord::HexCoord;
use crate::object::{Object, ObjectType, ObjectView};
use crate::player::Player;
use vstd::prelude::*;

verus! {

/// Side of the standard board.
pub const STANDARD_SIZE: usize = 7;

/// Number of pieces on the standard board: six walls, then eight dashers,
/// then eight jumpers.
pub const STANDARD_PIECES: usize = 22;

/// Number of moves that a tile in the middle of the standard board lasts.
pub const LONGEST_LIFESPAN: usize = 48;

/// By how many moves a tile `distance` cells from the middle, along one
/// axis, collapses earlier: 33/7 of the distance, rounded.
pub open spec fn spec_decay_lead(distance: int) -> int {
    (66 * distance + 7) / 14
}

/// How far `v` lies from the middle of the standard board's axis.
pub open spec fn from_middle(v: int) -> int {
    if v >= 3 {
        v - 3
    } else {
        3 - v
    }
}

/// The move at which the tile on `(x, y)` of the standard board collapses.
pub open spec fn spec_lifespan(x: int, y: int) -> int {
    LONGEST_LIFESPAN - spec_decay_lead(from_middle(x)) - spec_decay_lead(from_middle(y))
}

/// First coordinate of the `k`-th piece of the standard board.
pub open spec fn piece_x(k: int) -> int {
    if k == 0 {
        3
    } else if k == 1 {
        2
    } else if k == 2 {
        3
    } else if k == 3 {
        4
    } else if k == 4 {
        0
    } else if k == 5 {
        6
    } else if k == 6 {
        1
    } else if k == 7 {
        5
    } else if k == 8 {
        1
    } else if k == 9 {
        4
    } else if k == 10 {
        2
    } else if k == 11 {
        5
    } else if k == 12 {
        4
    } else if k == 13 {
        2
    } else if k == 14 {
        0
    } else if k == 15 {
        6
    } else if k == 16 {
        6
    } else if k == 17 {
        0
    } else if k == 18 {
        1
    } else if k == 19 {
        5
    } else if k == 20 {
        0
    } else {
        6
    }
}

/// Second coordinate of the `k`-th piece of the standard board.
pub open spec fn piece_y(k: int) -> int {
    if k == 0 {
        4
    } else if k == 1 {
        2
    } else if k == 2 {
        2
    } else if k == 3 {
        4
    } else if k == 4 {
        4
    } else if k == 5 {
        2
    } else if k == 6 {
        1
    } else if k == 7 {
        5
    } else if k == 8 {
        2
    } else if k == 9 {
        5
    } else if k == 10 {
        1
    } else if k == 11 {
        4
    } else if k == 12 {
        0
    } else if k == 13 {
        6
    } else if k == 14 {
        3
    } else if k == 15 {
        3
    } else if k == 16 {
        6
    } else if k == 17 {
        0
    } else if k == 18 {
        4
    } else if k == 19 {
        2
    } else if k == 20 {
        5
    } else {
        1
    }
}

/// The `k`-th piece of the standard board. Ids go on from those of the
/// tiles; a piece with an even id is of side A, one with an odd id of B.
pub open spec fn standard_piece(k: int) -> ObjectView {
    let coord = HexCoord { x: piece_x(k) as usize, y: piece_y(k) as usize, board_size: 7 };
    let oid = (49 + k) as usize;
    if k < 6 {
        ObjectView::spec_new_wall(oid, coord)
    } else {
        ObjectView::spec_new(
            oid,
            if k < 14 {
                ObjectType::Dasher
            } else {
                ObjectType::Jumper
            },
            coord,
            if oid % 2 == 0 {
                Player::A
            } else {
                Player::B
            },
        )
    }
}

/// The `i`-th tile of the standard board, on the cell `(i / 7, i % 7)`.
pub open spec fn standard_tile(i: int) -> ObjectView {
    let x = i / 7;
    let y = i % 7;
    ObjectView::spec_new_tile(
        (y * 7 + x) as usize,
        HexCoord { x: x as usize, y: y as usize, board_size: 7 },
        spec_lifespan(x, y) as usize,
    )
}

/// The objects of the standard board: its pieces, then its tiles.
pub open spec fn standard_objects() -> Seq<ObjectView> {
    Seq::new(
        71,
        |k: int|
            if k < 22 {
                standard_piece(k)
            } else {
                standard_tile(k - 22)
            },
    )
}

proof fn lemma_pieces_apart()
    ensures
        forall|i: int, j: int|
            0 <= i < j < 22 ==> piece_x(i) * 7 + piece_y(i) != piece_x(j) * 7 + piece_y(j),
        forall|i: int| 0 <= i < 22 ==> 0 <= #[trigger] piece_x(i) < 7 && 0 <= piece_y(i) < 7,
{
}

proof fn lemma_standard_object(k: int)
    requires
        0 <= k < 71,
    ensures
        k < 22 ==> !standard_objects()[k].is_tile() && standard_objects()[k].props.oid == 49 + k
            && standard_objects()[k].coord.x == piece_x(k) && standard_objects()[k].coord.y
            == piece_y(k),
        k >= 22 ==> standard_objects()[k].is_tile() && standard_objects()[k].props.oid == ((k
            - 22) % 7) * 7 + (k - 22) / 7 && standard_objects()[k].coord.x == (k - 22) / 7
            && standard_objects()[k].coord.y == (k - 22) % 7,
{
    lemma_pieces_apart();
}

proof fn lemma_standard_tiles_apart()
    ensures
        clash_free(standard_objects(), Shared::TileCoord),
{
    let objs = standard_objects();
    assert forall|i: int, j: int| 0 <= i < j < objs.len() implies !crate::board::clash(
        #[trigger] objs[i],
        #[trigger] objs[j],
        Shared::TileCoord,
    ) by {
        lemma_standard_object(i);
        lemma_standard_object(j);
    }
}

proof fn lemma_standard_pieces_apart()
    ensures
        clash_free(standard_objects(), Shared::PieceCoord),
{
    let objs = standard_objects();
    lemma_pieces_apart();
    assert forall|i: int, j: int| 0 <= i < j < objs.len() implies !crate::board::clash(
        #[trigger] objs[i],
        #[trigger] objs[j],
        Shared::PieceCoord,
    ) by {
        lemma_standard_object(i);
        lemma_standard_object(j);
    }
}

proof fn lemma_standard_oids_apart()
    ensures
        clash_free(standard_objects(), Shared::Oid),
{
    let objs = standard_objects();
    assert forall|i: int, j: int| 0 <= i < j < objs.len() implies !crate::board::clash(
        #[trigger] objs[i],
        #[trigger] objs[j],
        Shared::Oid,
    ) by {
        lemma_standard_object(i);
        lemma_standard_object(j);
    }
}

proof fn lemma_standard_on_tiles()
    ensures
        all_on_tiles(standard_objects()),
{
    let objs = standard_objects();
    lemma_pieces_apart();
    assert forall|i: int| 0 <= i < objs.len() implies tile_exists(objs, (#[trigger] objs[i]).coord) by {
        lemma_standard_object(i);
        let c = objs[i].coord;
        let j = 22 + c.x * 7 + c.y;
        lemma_standard_object(j);
        assert(objs[j].is_tile() && objs[j].at(c));
    }
}

proof fn lemma_standard_sides()
    ensures
        owns_some(standard_objects(), Player::A),
        owns_some(standard_objects(), Player::B),
{
    let objs = standard_objects();
    assert(objs[7] == standard_piece(7));
    assert(objs[6] == standard_piece(6));
    assert(objs[7].player == Player::A);
    assert(objs[6].player == Player::B);
}

/// The objects of the standard board keep every rule of a board's setup.
pub proof fn standard_objects_are_valid()
    ensures
        valid_setup(standard_objects()),
{
    lemma_standard_tiles_apart();
    lemma_standard_pieces_apart();
    lemma_standard_oids_apart();
    lemma_standard_on_tiles();
    lemma_standard_sides();
}

fn decay_lead(distance: usize) -> (r: usize)
    requires
        distance <= 3,
    ensures
        r == spec_decay_lead(distance as int),
        r <= 14,
{
    (66 * distance + 7) / 14
}

fn lifespan(x: usize, y: usize) -> (r: usize)
    requires
        x < 7,
        y < 7,
    ensures
        r == spec_lifespan(x as int, y as int),
{
    let dx: usize = if x >= 3 {
        x - 3
    } else {
        3 - x
    };
    let dy: usize = if y >= 3 {
        y - 3
    } else {
        3 - y
    };
    LONGEST_LIFESPAN - decay_lead(dx) - decay_lead(dy)
}

fn piece_cell(k: usize) -> (c: (usize, usize))
    requires
        k < 22,
    ensures
        c.0 == piece_x(k as int),
        c.1 == piece_y(k as int),
{
    if k == 0 {
        (3, 4)
    } else if k == 1 {
        (2, 2)
    } else if k == 2 {
        (3, 2)
    } else if k == 3 {
        (4, 4)
    } else if k == 4 {
        (0, 4)
    } else if k == 5 {
        (6, 2)
    } else if k == 6 {
        (1, 1)
    } else if k == 7 {
        (5, 5)
    } else if k == 8 {
        (1, 2)
    } else if k == 9 {
        (4, 5)
    } else if k == 10 {
        (2, 1)
    } else if k == 11 {
        (5, 4)
    } else if k == 12 {
        (4, 0)
    } else if k == 13 {
        (2, 6)
    } else if k == 14 {
        (0, 3)
    } else if k == 15 {
        (6, 3)
    } else if k == 16 {
        (6, 6)
    } else if k == 17 {
        (0, 0)
    } else if k == 18 {
        (1, 4)
    } else if k == 19 {
        (5, 2)
    } else if k == 20 {
        (0, 5)
    } else {
        (6, 1)
    }
}

impl Board {
    /// The standard board: side seven, a tile on every cell, and on them
    /// six walls and, for each side, four dashers and four jumpers. The
    /// further a tile lies from the middle, the sooner it collapses.
    pub fn test_square() -> (board: Board)
        ensures
            board.size == STANDARD_SIZE,
            board@ == standard_objects(),
            valid_setup(board@),
            board.wf(),
    {
        let mut objects: Vec<Object> = Vec::new();
        let mut k: usize = 0;
        while k < STANDARD_PIECES
            invariant
                k <= STANDARD_PIECES,
                objects.len() == k,
                forall|j: int| 0 <= j < k ==> (#[trigger] views(objects@)[j]) == standard_piece(j),
                forall|j: int| 0 <= j < k ==> (#[trigger] views(objects@)[j]).wf(),
            decreases STANDARD_PIECES - k,
        {
            let (x, y) = piece_cell(k);
            let coord = HexCoord::new(x, y, STANDARD_SIZE);
            let oid: usize = 49 + k;
            let piece = if k < 6 {
                Object::new_wall(oid, coord)
            } else {
                Object::new(
                    oid,
                    if k < 14 {
                        ObjectType::Dasher
                    } else {
                        ObjectType::Jumper
                    },
                    coord,
                    if oid % 2 == 0 {
                        Player::A
                    } else {
                        Player::B
                    },
                )
            };
            let ghost before = views(objects@);
            objects.push(piece);
            assert(views(objects@) =~= before.push(standard_piece(k as int)));
            k = k + 1;
        }
        let mut i: usize = 0;
        while i < 49
            invariant
                i <= 49,
                objects.len() == 22 + i,
                forall|j: int| 0 <= j < 22 ==> (#[trigger] views(objects@)[j]) == standard_piece(j),
                forall|j: int|
                    22 <= j < 22 + i ==> (#[trigger] views(objects@)[j]) == standard_tile(j - 22),
                forall|j: int| 0 <= j < 22 + i ==> (#[trigger] views(objects@)[j]).wf(),
            decreases 49 - i,
        {
            let x: usize = i / 7;
            let y: usize = i % 7;
            let tile = Object::new_tile(
                y * 7 + x,
                HexCoord::new(x, y, STANDARD_SIZE),
                lifespan(x, y),
            );
            let ghost before = views(objects@);
            objects.push(tile);
            assert(views(objects@) =~= before.push(standard_tile(i as int)));
            i = i + 1;
        }
        proof {
            assert(views(objects@) =~= standard_objects());
            standard_objects_are_valid();
        }
        Board::new(STANDARD_SIZE, objects)
    }
}

} // verus!
