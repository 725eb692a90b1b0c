use hexaroni::board::Board;
use hexaroni::config::Config;
use hexaroni::drag::Drag;
use hexaroni::game_controller::GameController;
use hexaroni::game_state::GameState;
use hexaroni::hexcoord::HexCoord;
use hexaroni::object::{Object, ObjectType};
use hexaroni::picking::check_all_fit_screen;
use hexaroni::sorting::by_first;
use hexaroni::player::Player;
use hexaroni::screencoord::ScreenCoord;
use hexaroni::statuses::{Status, StatusKind};
use std::cmp::Ordering;

fn cell(x: usize, y: usize) -> HexCoord {
    HexCoord::new(x, y, 7)
}

fn place(x: usize, y: usize) -> ScreenCoord {
    ScreenCoord::from_hexcoord(&cell(x, y))
}

fn sized(oid: usize, x: usize, y: usize, size: u64) -> Object {
    let mut o = Object::new(oid, ObjectType::Dasher, cell(x, y), Player::A);
    o.props.size = size;
    o
}

#[test]
fn the_tile_under_the_pointer_is_picked() {
    let game = GameController::new();
    assert!(check_all_fit_screen(&game.board.objects));
    let at = place(2, 5);
    let tile = game.get_tile_at_pos(&at).unwrap();
    assert!(tile.is_tile());
    assert_eq!(tile.coord, cell(2, 5));
    let nearby = ScreenCoord { x: at.x + 700, y: at.y - 700, z: 0 };
    assert_eq!(game.get_tile_at_pos(&nearby).unwrap().coord, cell(2, 5));
}

#[test]
fn nothing_is_picked_out_of_reach() {
    let game = GameController::new();
    let at = place(0, 0);
    // a tile reaches 1.1 around its place, and not as far as that
    assert!(game.get_tile_at_pos(&ScreenCoord { x: at.x - 1099, y: at.y, z: 0 }).is_some());
    assert!(game.get_tile_at_pos(&ScreenCoord { x: at.x - 1100, y: at.y, z: 0 }).is_none());
    assert!(game.get_tile_at_pos(&ScreenCoord { x: at.x, y: at.y, z: 1100 }).is_none());
    assert!(game.get_piece_at_pos(&place(3, 3)).is_none());
}

#[test]
fn pieces_are_picked_among_pieces() {
    let game = GameController::new();
    let picked = game.get_piece_at_pos(&place(1, 1)).unwrap();
    assert_eq!(picked.props.oid, 55);
    assert_eq!(picked.otype, ObjectType::Dasher);
    let at = place(1, 1);
    // a piece reaches 1.0 around its place
    assert!(game.get_piece_at_pos(&ScreenCoord { x: at.x, y: at.y + 999, z: 0 }).is_some());
    assert!(game.get_piece_at_pos(&ScreenCoord { x: at.x, y: at.y + 1000, z: 0 }).is_none());
    let wall = game.get_piece_at_pos(&place(3, 4)).unwrap();
    assert_eq!(wall.otype, ObjectType::Wall);
}

#[test]
fn the_closest_of_several_in_reach_is_picked() {
    let far = sized(1, 0, 0, 20_000);
    let near = sized(2, 3, 0, 20_000);
    let nearest = sized(3, 4, 0, 20_000);
    let small = sized(4, 5, 0, 10);
    let game = GameController::with_config(
        Board { size: 7, objects: vec![] },
        Config::default(),
    );
    let at = place(5, 0);
    let all = vec![&far, &near, &nearest, &small];
    assert_eq!(game.get_close_from_vec(&at, &all).unwrap().props.oid, 4);
    let just_off = ScreenCoord { x: at.x - 10, y: at.y, z: 0 };
    assert_eq!(game.get_close_from_vec(&just_off, &all).unwrap().props.oid, 3);
    let reversed = vec![&nearest, &near, &far];
    assert_eq!(game.get_close_from_vec(&at, &reversed).unwrap().props.oid, 3);
    let none: Vec<&Object> = vec![];
    assert!(game.get_close_from_vec(&at, &none).is_none());
}

#[test]
fn of_two_as_close_the_earlier_is_picked() {
    let left = sized(1, 2, 0, 20_000);
    let right = sized(2, 4, 0, 20_000);
    let further = sized(3, 0, 0, 20_000);
    let game = GameController::with_config(
        Board { size: 7, objects: vec![] },
        Config::default(),
    );
    let middle = place(3, 0);
    assert_eq!(
        game.get_close_from_vec(&middle, &vec![&further, &left, &right]).unwrap().props.oid,
        1
    );
    assert_eq!(
        game.get_close_from_vec(&middle, &vec![&further, &right, &left]).unwrap().props.oid,
        2
    );
}

#[test]
fn candidates_compare_by_their_distance() {
    assert_eq!(by_first(&(1, 9), &(2, 0)), Ordering::Less);
    assert_eq!(by_first(&(2, 0), &(2, 9)), Ordering::Equal);
    assert_eq!(by_first(&(3, 0), &(2, 9)), Ordering::Greater);
}

#[test]
fn cells_too_far_out_have_no_place_on_the_screen() {
    let mut objects = vec![Object::new_wall(1, HexCoord::new(0x100_0000, 0, 7))];
    assert!(check_all_fit_screen(&objects));
    objects.push(Object::new_wall(2, HexCoord::new(0, 0x100_0001, 7)));
    assert!(!check_all_fit_screen(&objects));
    let wide = vec![Object::new_wall(1, HexCoord::new(0, 0, 0x100_0001))];
    assert!(!check_all_fit_screen(&wide));
    let o = Object::new_wall(1, cell(3, 3));
    assert_eq!(o.get_screen_coord(), place(3, 3));
}

#[test]
fn a_drag_holds_the_moves_of_the_piece_picked_up() {
    let mut game = GameController::new();
    game.game_state = GameState::Playing { current_player: Player::A, move_start: 0, move_nr: 0 };
    let piece = game.board.piece_at(&cell(5, 5)).unwrap().clone();
    let drag = Drag::create(&piece, &mut game);
    assert_eq!(drag.object.props.oid, piece.props.oid);
    assert_eq!(drag.moves.len(), drag.targets.len());
    assert!(!drag.moves.is_empty());
    for (m, t) in drag.moves.iter().zip(drag.targets.iter()) {
        assert_eq!(m.target(), t);
    }
    let on_board = game.board.piece_at(&cell(5, 5)).unwrap();
    assert_eq!(on_board.statuses, vec![Status::new_dragged()]);
    let target = drag.targets[0];
    assert!(drag.has_move_to(&target));
    assert_eq!(drag.get_move_to(&target).unwrap().target(), &target);
    assert_eq!(drag.get_move(&target).unwrap().path, drag.moves[0].path);
    assert!(!drag.has_move_to(&cell(5, 5)));
    assert!(drag.get_move_to(&cell(5, 5)).is_none());
    let last = *drag.targets.last().unwrap();
    assert_eq!(drag.get_move_to(&last).unwrap().path, drag.moves.last().unwrap().path);
    let again = Drag::create(&piece, &mut game);
    assert_eq!(again.targets, drag.targets);
    let on_board = game.board.piece_at(&cell(5, 5)).unwrap();
    assert_eq!(on_board.statuses.len(), 1);
    assert!(on_board.has_status(StatusKind::Dragged));
}

#[test]
fn a_drag_is_empty_while_no_moves_are_allowed() {
    let mut game = GameController::new();
    let piece = game.board.piece_at(&cell(5, 5)).unwrap().clone();
    let drag = Drag::create(&piece, &mut game);
    assert!(drag.moves.is_empty());
    assert!(drag.targets.is_empty());
    assert!(!drag.has_move_to(&cell(5, 6)));
    assert!(game.board.piece_at(&cell(5, 5)).unwrap().statuses.is_empty());
}
