use hexaroni::control::{ControlStatus, KbdAction, MouseAction, MouseButtons, TileHighlight};
use hexaroni::drag::Drag;
use hexaroni::game_controller::GameController;
use hexaroni::game_state::GameState;
use hexaroni::hexcoord::HexCoord;
use hexaroni::player::Player;
use hexaroni::screencoord::ScreenCoord;
use hexaroni::statuses::{Effect, Knockback, Status, StatusType};
use hexaroni::transforms::{display_order, sort_key};

const UP: MouseButtons = MouseButtons { pressed: false, down: false, released: false };
const PRESS: MouseButtons = MouseButtons { pressed: true, down: true, released: false };
const HOLD: MouseButtons = MouseButtons { pressed: false, down: true, released: false };
const RELEASE: MouseButtons = MouseButtons { pressed: false, down: false, released: true };

fn place(x: usize, y: usize) -> Option<ScreenCoord> {
    Some(ScreenCoord::from_hexcoord(&HexCoord::new(x, y, 7)))
}

fn playing(side: Player) -> GameController {
    let mut game = GameController::new();
    game.game_state = GameState::Playing { current_player: side, move_start: 0, move_nr: 0 };
    game
}

#[test]
fn control_starts_idle() {
    let c = ControlStatus::default();
    assert_eq!(c.action, MouseAction::Idle);
    assert!(c.mouse_pos.is_none() && c.hovering.is_none());
    assert!(c.dragging.is_none() && c.targeting.is_none());
    assert_ne!(KbdAction::Quit, KbdAction::Reset);
}

#[test]
fn press_on_a_piece_begins_a_drag_and_release_drops() {
    let game = playing(Player::A);
    let mut c = ControlStatus::default();
    c.update(&game, place(5, 5), UP);
    assert_eq!(c.action, MouseAction::Idle);
    assert_eq!(c.hovering.as_ref().unwrap().props.oid, 56);
    c.update(&game, place(5, 5), PRESS);
    assert_eq!(c.action, MouseAction::Dragging);
    c.update(&game, place(5, 6), HOLD);
    assert_eq!(c.action, MouseAction::Dragging);
    assert!(c.hovering.is_none());
    c.update(&game, place(5, 6), RELEASE);
    assert_eq!(c.action, MouseAction::Drop);
    c.update(&game, place(5, 6), RELEASE);
    assert_eq!(c.action, MouseAction::Idle);
    c.update(&game, place(5, 6), HOLD);
    assert_eq!(c.action, MouseAction::Idle);
}

#[test]
fn press_on_no_piece_begins_nothing() {
    let game = playing(Player::A);
    let mut c = ControlStatus::default();
    c.update(&game, place(3, 3), PRESS);
    assert_eq!(c.action, MouseAction::Idle);
    c.update(&game, None, PRESS);
    assert_eq!(c.action, MouseAction::Idle);
    assert!(c.hovering.is_none() && c.targeting.is_none());
    assert_eq!(c.update_mouse_action(UP), MouseAction::Idle);
}

#[test]
fn a_free_tile_under_the_pointer_is_targeted() {
    let game = playing(Player::A);
    let mut c = ControlStatus::default();
    c.update(&game, place(3, 3), UP);
    assert!(c.hovering.is_none());
    let tile = c.targeting.as_ref().unwrap();
    assert!(tile.is_tile());
    assert_eq!(tile.coord, HexCoord::new(3, 3, 7));
    assert_eq!(c.get_hovered_tile(&game).unwrap().coord, HexCoord::new(3, 3, 7));
}

#[test]
fn the_tile_of_an_own_piece_is_targeted_while_idle_and_that_of_a_foe_while_dragging() {
    let game = playing(Player::A);
    let mut c = ControlStatus::default();
    // (5, 5) holds a dasher of A, (1, 1) one of B
    c.update(&game, place(5, 5), UP);
    assert_eq!(c.targeting.as_ref().unwrap().coord, HexCoord::new(5, 5, 7));
    c.update(&game, place(1, 1), UP);
    assert!(c.targeting.is_none());
    c.action = MouseAction::Dragging;
    c.update(&game, place(1, 1), HOLD);
    assert_eq!(c.targeting.as_ref().unwrap().coord, HexCoord::new(1, 1, 7));
    c.update(&game, place(5, 5), HOLD);
    assert!(c.targeting.is_none());
    // a wall belongs to neither side
    c.update(&game, place(3, 4), HOLD);
    assert!(c.targeting.is_none());
}

#[test]
fn nobody_is_opposed_once_the_match_is_drawn() {
    let mut game = GameController::new();
    game.game_state = GameState::GameOver { winner: Player::God };
    let mut c = ControlStatus::default();
    c.action = MouseAction::Dragging;
    c.update(&game, place(1, 1), HOLD);
    assert!(c.hovering.is_some());
    assert!(c.targeting.is_none());
}

#[test]
fn a_tile_under_a_dead_piece_counts_as_free() {
    let mut game = playing(Player::A);
    let cell = HexCoord::new(1, 1, 7);
    game.board.kill_piece_at(&cell, None);
    let mut c = ControlStatus::default();
    c.mouse_pos = place(1, 1);
    assert_eq!(c.get_hovered_tile(&game).unwrap().coord, cell);
    assert!(c.get_hovered_object(&game).is_some());
    c.mouse_pos = None;
    assert!(c.get_hovered_tile(&game).is_none());
    assert!(c.get_targeted_tile(&game).is_none());
}

#[test]
fn ranks_of_the_statuses_that_move_what_is_drawn() {
    assert_eq!(sort_key(&StatusType::Wobble { amplitude: 1, speed: 1 }), Some(0));
    assert_eq!(sort_key(&StatusType::Killed { knockback: Knockback { dx: 0, dy: 0 } }), Some(1));
    assert_eq!(sort_key(&StatusType::Falling), Some(1));
    let c = HexCoord::new(0, 0, 7);
    assert_eq!(sort_key(&StatusType::Move { from: c, to: c, height: 0 }), Some(1));
    assert_eq!(sort_key(&StatusType::Dragged), None);
    assert_eq!(sort_key(&StatusType::Selected), None);
    assert_eq!(sort_key(&Status::new_delayed_effect(1, Effect::NoOp).stype), None);
}

#[test]
fn statuses_are_drawn_by_rank_and_then_as_they_stand() {
    let c = HexCoord::new(0, 0, 7);
    let statuses = vec![
        Status::new(StatusType::Falling),
        Status::new_dragged(),
        Status::new_move(c, c, 0, 1, 0),
        Status::new(StatusType::Wobble { amplitude: 1, speed: 1 }),
        Status::new(StatusType::Hovered),
        Status::new_killed(Knockback { dx: 0, dy: 0 }, 0, 1),
    ];
    assert_eq!(display_order(&statuses), vec![3, 0, 2, 5]);
    assert!(display_order(&vec![Status::new_dragged()]).is_empty());
    assert!(display_order(&vec![]).is_empty());
}

#[test]
fn tiles_are_lit_up_for_the_drag_or_else_for_the_target() {
    let mut game = playing(Player::A);
    let mut c = ControlStatus::default();
    c.update(&game, place(3, 3), UP);
    let tile = |x: usize, y: usize| game.board.tile_at(&HexCoord::new(x, y, 7)).unwrap().clone();
    let dark = TileHighlight { dragged_from: false, targeted: false, possible_move: false };
    assert_eq!(c.highlight(&tile(3, 3)), TileHighlight { targeted: true, ..dark });
    assert_eq!(c.highlight(&tile(3, 4)), dark);
    let piece = game.board.piece_at(&HexCoord::new(5, 5, 7)).unwrap().clone();
    let from = tile(5, 5);
    let onto = tile(5, 6);
    let aside = tile(3, 3);
    c.dragging = Some(Drag::create(&piece, &mut game));
    assert_eq!(c.highlight(&from), TileHighlight { dragged_from: true, ..dark });
    assert_eq!(c.highlight(&onto), TileHighlight { possible_move: true, ..dark });
    assert_eq!(c.highlight(&aside), dark);
}
