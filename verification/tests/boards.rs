use hexaroni::board::{Board, SetupError};
use hexaroni::hexcoord::HexCoord;
use hexaroni::object::{Object, ObjectType};
use hexaroni::player::Player;
use hexaroni::statuses::{Status, StatusType};

fn cell(x: usize, y: usize) -> HexCoord {
    HexCoord::new(x, y, 3)
}

/// nine tiles with ids 0 to 8, a dasher of A on (0, 0), a jumper of B on (2, 2)
fn small_objects() -> Vec<Object> {
    let mut objects = Vec::new();
    for x in 0..3 {
        for y in 0..3 {
            objects.push(Object::new_tile(x * 3 + y, cell(x, y), 10));
        }
    }
    objects.push(Object::new(9, ObjectType::Dasher, cell(0, 0), Player::A));
    objects.push(Object::new(10, ObjectType::Jumper, cell(2, 2), Player::B));
    objects
}

#[test]
fn well_set_up_objects_make_a_board() {
    let objects = small_objects();
    assert_eq!(Board::verify(&objects), Ok(()));
    let board = Board::new(3, objects);
    assert_eq!(board.size, 3);
    assert_eq!(board.objects().len(), 11);
    assert_eq!(board.tiles().len(), 9);
    assert_eq!(board.pieces().len(), 2);
    assert!(board.tiles().iter().all(|o| o.is_tile()));
    assert_eq!(board.pieces()[0].props.oid, 9);
    assert_eq!(board.pieces()[1].props.oid, 10);
}

#[test]
fn two_tiles_on_one_cell_are_refused() {
    let mut objects = small_objects();
    objects.push(Object::new_tile(20, cell(1, 1), 10));
    assert_eq!(Board::verify(&objects), Err(SetupError::DuplicateTileCoord));
}

#[test]
fn two_pieces_on_one_cell_are_refused() {
    let mut objects = small_objects();
    objects.push(Object::new_wall(20, cell(2, 2)));
    assert_eq!(Board::verify(&objects), Err(SetupError::DuplicateObjectCoord));
}

#[test]
fn a_piece_may_share_the_cell_of_a_tile() {
    let mut objects = small_objects();
    objects.push(Object::new_wall(20, cell(1, 1)));
    assert_eq!(Board::verify(&objects), Ok(()));
}

#[test]
fn two_objects_with_one_id_are_refused() {
    let mut objects = small_objects();
    objects.push(Object::new_wall(4, cell(1, 1)));
    assert_eq!(Board::verify(&objects), Err(SetupError::DuplicateOid));
}

#[test]
fn an_object_off_the_tiles_is_refused() {
    let mut objects = small_objects();
    objects.push(Object::new_wall(20, HexCoord::new(3, 0, 3)));
    assert_eq!(Board::verify(&objects), Err(SetupError::ObjectOnNonTile));
}

#[test]
fn a_side_without_objects_is_refused() {
    let mut objects = small_objects();
    objects.pop();
    assert_eq!(Board::verify(&objects), Err(SetupError::NoPieces { player: Player::B }));
    let mut objects = small_objects();
    objects.remove(9);
    assert_eq!(Board::verify(&objects), Err(SetupError::NoPieces { player: Player::A }));
    let none: Vec<Object> = Vec::new();
    assert_eq!(Board::verify(&none), Err(SetupError::NoPieces { player: Player::A }));
}

#[test]
fn the_first_broken_rule_is_named() {
    let mut objects = small_objects();
    objects.push(Object::new_wall(4, cell(2, 2)));
    objects.push(Object::new_tile(21, cell(1, 1), 10));
    assert_eq!(Board::verify(&objects), Err(SetupError::DuplicateTileCoord));
}

#[test]
fn lookups_by_cell() {
    let board = Board::new(3, small_objects());
    assert_eq!(board.tile_at(&cell(1, 2)).unwrap().props.oid, 5);
    assert!(board.tile_at(&HexCoord::new(3, 3, 3)).is_none());
    assert_eq!(board.piece_at(&cell(0, 0)).unwrap().props.oid, 9);
    assert!(board.piece_at(&cell(1, 1)).is_none());
    assert_eq!(board.contents(&cell(2, 2)).unwrap().props.oid, 10);
    assert!(board.contents(&cell(1, 1)).is_none());
    assert_eq!(board.owner(&cell(0, 0)), Some(Player::A));
    assert_eq!(board.owner(&cell(2, 2)), Some(Player::B));
    assert_eq!(board.owner(&cell(1, 0)), None);
    assert!(board.is_empty(&cell(1, 1)));
    assert!(!board.is_empty(&cell(0, 0)));
    assert_eq!(board.index_of(10), Some(10));
    assert_eq!(board.index_of(77), None);
}

#[test]
fn dead_pieces_do_not_occupy_their_cell() {
    let mut board = Board::new(3, small_objects());
    board.kill_piece_at(&cell(0, 0), None);
    assert!(board.piece_at(&cell(0, 0)).unwrap().props.dead);
    assert!(board.contents(&cell(0, 0)).is_none());
    assert_eq!(board.owner(&cell(0, 0)), None);
    assert!(board.is_empty(&cell(0, 0)));
    assert!(!board.tile_at(&cell(0, 0)).unwrap().props.dead);
    board.add_object(Object::new(30, ObjectType::Dasher, cell(0, 0), Player::B));
    assert_eq!(board.piece_at(&cell(0, 0)).unwrap().props.oid, 9);
    assert_eq!(board.contents(&cell(0, 0)).unwrap().props.oid, 30);
    assert_eq!(board.owner(&cell(0, 0)), Some(Player::B));
}

#[test]
fn kill_all_at_kills_tile_and_piece_there_and_nothing_else() {
    let mut board = Board::new(3, small_objects());
    let fall = Status::new(StatusType::Falling).with_times(5, 2000);
    board.kill_all_at(&cell(2, 2), Some(fall.clone()));
    for o in board.objects() {
        let there = o.coord == cell(2, 2);
        assert_eq!(o.props.dead, there);
        assert_eq!(o.statuses.contains(&fall), there);
    }
    assert_eq!(board.objects().iter().filter(|o| o.props.dead).count(), 2);
    board.kill_all_at(&cell(2, 2), Some(fall.clone()));
    let tile = board.tile_at(&cell(2, 2)).unwrap();
    assert_eq!(tile.statuses.iter().filter(|s| **s == fall).count(), 1);
}

#[test]
fn kill_piece_at_spares_the_tile() {
    let mut board = Board::new(3, small_objects());
    let fall = Status::new(StatusType::Falling);
    board.kill_piece_at(&cell(2, 2), Some(fall.clone()));
    assert!(!board.tile_at(&cell(2, 2)).unwrap().props.dead);
    let piece = board.piece_at(&cell(2, 2)).unwrap();
    assert!(piece.props.dead);
    assert_eq!(piece.statuses, vec![fall]);
    assert_eq!(board.objects().iter().filter(|o| o.props.dead).count(), 1);
}

#[test]
fn objects_are_added_changed_and_removed_by_id() {
    let mut board = Board::new(3, small_objects());
    let wall = Object::new_wall(20, cell(1, 1));
    board.add_object(wall.clone());
    assert_eq!(board.objects().len(), 12);
    assert_eq!(board.objects()[11].props.oid, 20);
    board.get_as_mut(&wall).unwrap().set_coord(&cell(1, 2));
    assert_eq!(board.piece_at(&cell(1, 2)).unwrap().props.oid, 20);
    assert!(board.piece_at(&cell(1, 1)).is_none());
    let stranger = Object::new_wall(99, cell(0, 0));
    assert!(board.get_as_mut(&stranger).is_none());
    board.remove_object(&stranger);
    assert_eq!(board.objects().len(), 12);
    board.remove_object(&wall);
    assert_eq!(board.objects().len(), 11);
    assert!(board.piece_at(&cell(1, 2)).is_none());
    assert_eq!(board.objects()[10].props.oid, 10);
}

#[test]
fn standard_board_holds_tiles_and_pieces() {
    let board = Board::test_square();
    assert_eq!(board.size, 7);
    assert_eq!(board.tiles().len(), 49);
    assert_eq!(board.pieces().len(), 22);
    assert_eq!(Board::verify(&board.objects), Ok(()));
    let walls = board.pieces().iter().filter(|p| p.otype == ObjectType::Wall).count();
    assert_eq!(walls, 6);
    for side in [Player::A, Player::B] {
        for kind in [ObjectType::Dasher, ObjectType::Jumper] {
            let n = board.pieces().iter().filter(|p| p.otype == kind && p.player == side).count();
            assert_eq!(n, 4);
        }
    }
    let first = board.piece_at(&HexCoord::new(1, 1, 7)).unwrap();
    assert_eq!((first.props.oid, first.otype, first.player), (55, ObjectType::Dasher, Player::B));
    let next = board.piece_at(&HexCoord::new(5, 5, 7)).unwrap();
    assert_eq!((next.props.oid, next.otype, next.player), (56, ObjectType::Dasher, Player::A));
    let last = board.piece_at(&HexCoord::new(6, 1, 7)).unwrap();
    assert_eq!((last.props.oid, last.otype, last.player), (70, ObjectType::Jumper, Player::A));
    assert_eq!(board.tile_at(&HexCoord::new(2, 5, 7)).unwrap().props.oid, 5 * 7 + 2);
    let clone = board.clone();
    assert_eq!(clone.objects.len(), 71);
    assert_eq!(clone.size, 7);
}

#[test]
fn standard_tiles_live_longer_near_the_middle() {
    let board = Board::test_square();
    let lifespan = |x: usize, y: usize| -> usize {
        let tile = board.tile_at(&HexCoord::new(x, y, 7)).unwrap();
        match &tile.statuses[0].stype {
            StatusType::DelayedEffect { move_nr, indicator_move_nr, .. } => {
                assert_eq!(*indicator_move_nr, Some(*move_nr - 2));
                *move_nr
            }
            _ => panic!("a tile without decay"),
        }
    };
    // 48 less the rounded 33/7 of the distance from the middle along each axis
    assert_eq!(lifespan(3, 3), 48);
    assert_eq!(lifespan(2, 3), 43);
    assert_eq!(lifespan(3, 5), 39);
    assert_eq!(lifespan(6, 3), 34);
    assert_eq!(lifespan(0, 0), 20);
    assert_eq!(lifespan(6, 0), 20);
    assert_eq!(lifespan(1, 4), 34);
}
