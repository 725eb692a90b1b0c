use hexaroni::board::Board;
use hexaroni::config::{Config, GameSettings};
use hexaroni::game_controller::GameController;
use hexaroni::game_state::{elapsed, GameState};
use hexaroni::hexcoord::HexCoord;
use hexaroni::moves::{legal_moves, Move};
use hexaroni::object::{Object, ObjectType};
use hexaroni::player::Player;
use hexaroni::statuses::{Effect, Knockback, ObjectRef, Status, StatusKind, StatusType};

fn cell(x: usize, y: usize) -> HexCoord {
    HexCoord::new(x, y, 7)
}

/// a board of side seven with a tile of the given lifespan on every cell
fn board_with(pieces: Vec<Object>, lifespan: usize) -> Board {
    let mut objects = Vec::new();
    for x in 0..7 {
        for y in 0..7 {
            objects.push(Object::new_tile(x * 7 + y, cell(x, y), lifespan));
        }
    }
    objects.extend(pieces);
    Board { size: 7, objects }
}

fn playing(pieces: Vec<Object>, lifespan: usize, side: Player, move_nr: usize) -> GameController {
    let mut game = GameController::with_config(board_with(pieces, lifespan), Config::default());
    game.game_state = GameState::Playing { current_player: side, move_start: 0, move_nr };
    game
}

fn piece(game: &GameController, oid: usize) -> &Object {
    game.board.objects.iter().find(|o| o.props.oid == oid).unwrap()
}

fn placements(game: &GameController) -> Vec<(usize, usize, usize, bool)> {
    game.board.objects.iter().map(|o| (o.props.oid, o.coord.x, o.coord.y, o.props.dead)).collect()
}

#[test]
fn default_rules() {
    let rules = Config::default();
    assert_eq!(rules.starting_player, Player::A);
    assert_eq!(rules.game_start_countdown, 2500);
    assert_eq!(rules.play_move_timeout, 5000);
    assert_eq!(rules.move_application_time, 250);
    assert_eq!(rules.kill_duration, 400);
    assert!(!rules.dasher_can_fly);
    let settings = GameSettings::default();
    assert_eq!(settings.play_move_timeout, 5000);
    assert_eq!(settings.game_start_countdown, 2500);
    assert_eq!(settings.starting_player, Player::A);
}

#[test]
fn states_that_allow_moves() {
    assert!(!GameState::Waiting.allows_moves());
    assert!(!GameState::Countdown { started_at: 3 }.allows_moves());
    assert!(GameState::Editing.allows_moves());
    assert!(GameState::GameOver { winner: Player::A }.allows_moves());
    assert!(
        GameState::Playing { current_player: Player::A, move_start: 0, move_nr: 0 }.allows_moves()
    );
}

#[test]
fn state_after_a_move() {
    let s = GameState::Playing { current_player: Player::A, move_start: 10, move_nr: 4 };
    assert_eq!(
        s.on_apply_move(99),
        GameState::Playing { current_player: Player::B, move_start: 99, move_nr: 5 }
    );
    assert_eq!(GameState::Waiting.on_apply_move(99), GameState::Waiting);
    let over = GameState::GameOver { winner: Player::God };
    assert_eq!(over.on_apply_move(99), over);
    assert_eq!(over.winner(), Some(Player::God));
    assert_eq!(s.winner(), None);
    assert_eq!(GameState::Countdown { started_at: 1 }.on_apply_move(5), GameState::Countdown { started_at: 1 });
}

#[test]
fn more_than_the_limit_has_to_pass() {
    assert!(!elapsed(100, 100, 0));
    assert!(elapsed(100, 101, 0));
    assert!(!elapsed(100, 600, 500));
    assert!(elapsed(100, 601, 500));
    assert!(!elapsed(100, 50, 0));
    assert!(!elapsed(0, u64::MAX, u64::MAX));
    assert!(elapsed(0, u64::MAX, u64::MAX - 1));
}

#[test]
fn new_game_waits_on_the_standard_board() {
    let game = GameController::new();
    assert_eq!(game.game_state, GameState::Waiting);
    assert_eq!(game.current_player(), Player::A);
    assert_eq!(game.board.objects.len(), 71);
    assert_eq!(game.winner(), None);
    let other = GameController::default();
    assert_eq!(other.game_state, GameState::Waiting);
    assert_eq!(other.config.play_move_timeout, 5000);
}

#[test]
fn countdown_leads_to_play() {
    let mut game = GameController::new();
    game.start_game(1000);
    assert_eq!(game.game_state, GameState::Countdown { started_at: 1000 });
    game.tick(3500);
    assert_eq!(game.game_state, GameState::Countdown { started_at: 1000 });
    game.tick(3501);
    assert_eq!(
        game.game_state,
        GameState::Playing { current_player: Player::A, move_start: 3501, move_nr: 0 }
    );
    assert_eq!(game.current_player(), Player::A);
}

#[test]
fn moves_are_ignored_while_waiting_or_counting_down() {
    let mut game = GameController::new();
    let mover = game.board.piece_at(&cell(5, 5)).unwrap().clone();
    assert_eq!(mover.player, Player::A);
    let moves = legal_moves(&mover, &game.board, &game.config);
    assert!(!moves.is_empty());
    let before = placements(&game);
    game.apply_move(&moves[0], 10, 250);
    assert_eq!(placements(&game), before);
    assert_eq!(game.game_state, GameState::Waiting);
    game.start_game(20);
    game.apply_move(&moves[0], 30, 250);
    assert_eq!(placements(&game), before);
    assert_eq!(game.game_state, GameState::Countdown { started_at: 20 });
    assert!(piece(&game, mover.props.oid).statuses.is_empty());
}

#[test]
fn moves_of_the_side_not_to_move_are_ignored() {
    let a = Object::new(100, ObjectType::Dasher, cell(1, 1), Player::A);
    let b = Object::new(101, ObjectType::Dasher, cell(5, 5), Player::B);
    let mut game = playing(vec![a, b.clone()], 40, Player::A, 0);
    let moves = legal_moves(&b, &game.board, &game.config);
    let before = placements(&game);
    let state = game.game_state;
    game.apply_move(&moves[0], 10, 250);
    assert_eq!(placements(&game), before);
    assert_eq!(game.game_state, state);
}

#[test]
fn dasher_goes_to_the_farthest_cell_and_the_turn_passes() {
    let a = Object::new(100, ObjectType::Dasher, cell(1, 1), Player::A);
    let b = Object::new(101, ObjectType::Jumper, cell(5, 5), Player::B);
    let mut game = playing(vec![a.clone(), b], 40, Player::A, 0);
    let moves = legal_moves(&a, &game.board, &game.config);
    let m = moves.iter().max_by_key(|m| m.path.len()).unwrap();
    assert_eq!(m.path.len(), 6);
    let target = *m.target();
    // of the two farthest cells, `max_by_key` gives the later one
    assert_eq!(target, cell(1, 6));
    game.apply_move(m, 1000, 250);
    let moved = piece(&game, 100);
    assert_eq!(moved.coord, target);
    assert!(!moved.props.dead);
    assert_eq!(
        moved.statuses,
        vec![Status::new_move(cell(1, 1), cell(1, 6), 1000, 250, 0)]
    );
    assert_eq!(game.current_player(), Player::B);
    assert_eq!(
        game.game_state,
        GameState::Playing { current_player: Player::B, move_start: 1000, move_nr: 1 }
    );
    assert_eq!(game.board.contents(&target).unwrap().props.oid, 100);
    assert!(game.board.contents(&cell(1, 1)).is_none());
}

#[test]
fn a_jumper_on_its_way_is_shown_leaping() {
    let a = Object::new(100, ObjectType::Jumper, cell(3, 3), Player::A);
    let b = Object::new(101, ObjectType::Jumper, cell(0, 0), Player::B);
    let mut game = playing(vec![a.clone(), b], 40, Player::A, 0);
    let moves = legal_moves(&a, &game.board, &game.config);
    game.apply_move(&moves[0], 10, 250);
    let moved = piece(&game, 100);
    assert_eq!(moved.coord, cell(6, 2));
    assert_eq!(moved.statuses, vec![Status::new_move(cell(3, 3), cell(6, 2), 10, 250, 500)]);
    game.game_state = GameState::Playing { current_player: Player::A, move_start: 0, move_nr: 1 };
    let again = legal_moves(piece(&game, 100), &game.board, &game.config);
    game.apply_move(&again[0], 20, 250);
    let moved = piece(&game, 100);
    assert_eq!(moved.statuses.len(), 1);
    assert_eq!(moved.statuses[0].start_time, Some(20));
}

#[test]
fn capture_kills_the_victim_and_may_end_the_match() {
    let a = Object::new(100, ObjectType::Dasher, cell(1, 3), Player::A);
    let b = Object::new(101, ObjectType::Jumper, cell(3, 3), Player::B);
    let mut game = playing(vec![a.clone(), b], 40, Player::A, 7);
    let moves = legal_moves(&a, &game.board, &game.config);
    game.apply_move(&moves[0], 1000, 250);
    assert_eq!(piece(&game, 100).coord, cell(3, 3));
    let victim = piece(&game, 101);
    assert!(victim.props.dead);
    assert_eq!(victim.coord, cell(3, 3));
    assert_eq!(
        victim.statuses,
        vec![Status::new_killed(Knockback { dx: 2, dy: 0 }, 1260, 400)]
    );
    assert_eq!(game.winner(), Some(Player::A));
    assert_eq!(game.game_state, GameState::GameOver { winner: Player::A });
    assert_eq!(game.current_player(), Player::A);
}

#[test]
fn capture_with_foes_left_passes_the_turn() {
    let a = Object::new(100, ObjectType::Dasher, cell(1, 3), Player::A);
    let b = Object::new(101, ObjectType::Jumper, cell(3, 3), Player::B);
    let c = Object::new(102, ObjectType::Jumper, cell(6, 6), Player::B);
    let mut game = playing(vec![a.clone(), b, c], 40, Player::A, 7);
    let moves = legal_moves(&a, &game.board, &game.config);
    game.apply_move(&moves[0], 1000, 250);
    assert!(piece(&game, 101).props.dead);
    assert!(!piece(&game, 102).props.dead);
    assert_eq!(game.winner(), None);
    assert_eq!(
        game.game_state,
        GameState::Playing { current_player: Player::B, move_start: 1000, move_nr: 8 }
    );
}

#[test]
fn winner_is_the_side_with_living_pieces() {
    let a = Object::new(100, ObjectType::Dasher, cell(1, 3), Player::A);
    let b = Object::new(101, ObjectType::Jumper, cell(3, 3), Player::B);
    let wall = Object::new_wall(102, cell(4, 4));
    let mut game = playing(vec![a, b, wall], 40, Player::A, 0);
    assert_eq!(game.winner(), None);
    game.board.kill_piece_at(&cell(3, 3), None);
    assert_eq!(game.winner(), Some(Player::A));
    game.board.kill_piece_at(&cell(1, 3), None);
    assert_eq!(game.winner(), Some(Player::God));
    let c = Object::new(103, ObjectType::Jumper, cell(0, 0), Player::B);
    game.board.add_object(c);
    assert_eq!(game.winner(), Some(Player::B));
    let tiles_only = GameController::with_config(board_with(vec![], 40), Config::default());
    assert_eq!(tiles_only.winner(), Some(Player::God));
}

#[test]
fn a_side_that_lets_its_time_run_out_forfeits_the_move() {
    let a = Object::new(100, ObjectType::Dasher, cell(1, 1), Player::A);
    let b = Object::new(101, ObjectType::Jumper, cell(5, 5), Player::B);
    let mut game = playing(vec![a, b], 40, Player::A, 3);
    let before = placements(&game);
    game.tick(5000);
    assert_eq!(
        game.game_state,
        GameState::Playing { current_player: Player::A, move_start: 0, move_nr: 3 }
    );
    game.tick(5001);
    assert_eq!(
        game.game_state,
        GameState::Playing { current_player: Player::B, move_start: 5001, move_nr: 4 }
    );
    assert_eq!(game.current_player(), Player::B);
    assert_eq!(placements(&game), before);
    game.tick(10001);
    assert_eq!(game.current_player(), Player::B);
    game.tick(10002);
    assert_eq!(
        game.game_state,
        GameState::Playing { current_player: Player::A, move_start: 10002, move_nr: 5 }
    );
}

#[test]
fn tiles_decay_as_moves_are_made() {
    let a = Object::new(100, ObjectType::Dasher, cell(1, 1), Player::A);
    let b = Object::new(101, ObjectType::Jumper, cell(5, 5), Player::B);
    let c = Object::new(102, ObjectType::Jumper, cell(0, 6), Player::B);
    let mut game = playing(vec![a.clone(), b, c], 3, Player::A, 1);
    let moves = legal_moves(&a, &game.board, &game.config);
    // move 1: the tiles start to wobble
    game.apply_move(&moves[0], 100, 250);
    for tile in game.board.tiles() {
        assert!(!tile.props.dead);
        assert_eq!(tile.statuses.len(), 2);
        assert_eq!(
            tile.statuses[1],
            Status {
                stype: StatusType::Wobble { amplitude: 200, speed: 37100 },
                start_time: Some(100),
                duration: None
            }
        );
    }
    assert_eq!(game.game_state, GameState::Playing { current_player: Player::B, move_start: 100, move_nr: 2 });
    // move 2 is forfeited: nothing falls due
    game.tick(5101);
    assert_eq!(game.game_state, GameState::Playing { current_player: Player::A, move_start: 5101, move_nr: 3 });
    assert!(game.board.objects.iter().all(|o| !o.props.dead));
    // move 3: every tile collapses and takes what stands on it along
    let mover = piece(&game, 100).clone();
    let moves = legal_moves(&mover, &game.board, &game.config);
    game.apply_move(&moves[0], 6000, 250);
    for o in game.board.objects() {
        assert!(o.props.dead);
        assert!(o.has_status(StatusKind::Falling));
        assert!(!o.has_status(StatusKind::DelayedEffect));
        let fall = o.get_status(&StatusType::Falling).unwrap();
        assert_eq!((fall.start_time, fall.duration), (Some(6000), Some(2000)));
    }
    assert_eq!(game.game_state, GameState::GameOver { winner: Player::God });
    assert_eq!(game.current_player(), Player::God);
}

#[test]
fn a_forfeited_move_lets_tiles_collapse_too() {
    let a = Object::new(100, ObjectType::Dasher, cell(1, 1), Player::A);
    let b = Object::new(101, ObjectType::Jumper, cell(5, 5), Player::B);
    let mut game = playing(vec![a, b], 3, Player::A, 3);
    game.tick(5001);
    assert!(game.board.objects.iter().all(|o| o.props.dead));
    assert_eq!(game.game_state, GameState::GameOver { winner: Player::God });
}

#[test]
fn what_is_dead_leaves_the_board_once_its_statuses_have_expired() {
    let a = Object::new(100, ObjectType::Dasher, cell(1, 3), Player::A);
    let b = Object::new(101, ObjectType::Jumper, cell(3, 3), Player::B);
    let c = Object::new(102, ObjectType::Jumper, cell(6, 6), Player::B);
    let mut game = playing(vec![a.clone(), b, c], 40, Player::A, 0);
    let moves = legal_moves(&a, &game.board, &game.config);
    game.apply_move(&moves[0], 1000, 250);
    assert_eq!(game.board.objects.len(), 52);
    game.tick(1250);
    assert_eq!(piece(&game, 100).statuses.len(), 1);
    game.tick(1251);
    assert!(piece(&game, 100).statuses.is_empty());
    assert_eq!(game.board.objects.len(), 52);
    // the kill began at 1260 and lasts 400
    game.tick(1660);
    assert_eq!(game.board.objects.len(), 52);
    assert_eq!(piece(&game, 101).statuses.len(), 1);
    game.tick(1661);
    assert_eq!(game.board.objects.len(), 51);
    assert!(game.board.objects.iter().all(|o| o.props.oid != 101));
    assert!(game.board.index_of(100).is_some());
    assert_eq!(game.board.tiles().len(), 49);
}

#[test]
fn a_dead_object_with_a_lasting_status_stays() {
    let a = Object::new(100, ObjectType::Dasher, cell(1, 3), Player::A);
    let b = Object::new(101, ObjectType::Jumper, cell(3, 3), Player::B);
    let mut game = GameController::with_config(board_with(vec![a, b], 40), Config::default());
    game.board.kill_piece_at(&cell(1, 3), Some(Status::new_dragged()));
    game.tick(u64::MAX);
    assert!(game.board.index_of(100).is_some());
    game.board.kill_piece_at(&cell(3, 3), None);
    game.tick(0);
    assert!(game.board.index_of(101).is_none());
    assert_eq!(game.game_state, GameState::GameOver { winner: Player::God });
}

#[test]
fn a_tick_ends_a_match_that_a_side_cannot_play() {
    let a = Object::new(100, ObjectType::Dasher, cell(1, 3), Player::A);
    let mut game = GameController::with_config(board_with(vec![a], 40), Config::default());
    game.tick(0);
    assert_eq!(game.game_state, GameState::GameOver { winner: Player::A });
}

#[test]
fn the_outcome_of_a_move_does_not_depend_on_the_time() {
    let build = || {
        let a = Object::new(100, ObjectType::Dasher, cell(1, 3), Player::A);
        let b = Object::new(101, ObjectType::Jumper, cell(3, 3), Player::B);
        let c = Object::new(102, ObjectType::Jumper, cell(6, 6), Player::B);
        playing(vec![a, b, c], 5, Player::A, 5)
    };
    let mut early = build();
    let mut late = build();
    let mover = piece(&early, 100).clone();
    let moves = legal_moves(&mover, &early.board, &early.config);
    early.apply_move(&moves[0], 0, 1);
    late.apply_move(&moves[0], 987_654, 4321);
    assert_eq!(placements(&early), placements(&late));
    assert_eq!(early.current_player(), late.current_player());
    assert_eq!(early.game_state.winner(), late.game_state.winner());
    assert!(placements(&early).iter().all(|p| p.3));
    assert_ne!(piece(&early, 101).statuses, piece(&late, 101).statuses);
}

#[test]
fn effects_are_applied_in_order_to_the_objects_they_name() {
    let a = Object::new(100, ObjectType::Dasher, cell(1, 3), Player::A);
    let b = Object::new(101, ObjectType::Jumper, cell(3, 3), Player::B);
    let mut game = playing(vec![a, b], 40, Player::A, 0);
    let effects = vec![
        Effect::NoOp,
        Effect::SetStatus {
            object: ObjectRef { oid: 101, coord: cell(0, 0) },
            stype: Box::new(StatusType::Wobble { amplitude: 1, speed: 2 }),
            duration: Some(9),
        },
        Effect::SetStatus {
            object: ObjectRef { oid: 101, coord: cell(0, 0) },
            stype: Box::new(StatusType::Wobble { amplitude: 3, speed: 4 }),
            duration: None,
        },
        Effect::Kill {
            victim: ObjectRef { oid: 555, coord: cell(0, 0) },
            killer: None,
            animation_delay_frac: None,
        },
        Effect::KillAllOn { coord: cell(1, 3), apply: None, duration: None },
    ];
    game.apply_effects(&effects, 50);
    assert_eq!(
        piece(&game, 101).statuses,
        vec![Status {
            stype: StatusType::Wobble { amplitude: 3, speed: 4 },
            start_time: Some(50),
            duration: None
        }]
    );
    assert!(!piece(&game, 101).props.dead);
    assert!(piece(&game, 100).props.dead);
    assert!(piece(&game, 100).statuses.is_empty());
    assert!(game.board.tile_at(&cell(1, 3)).unwrap().props.dead);
    assert_eq!(game.board.objects.iter().filter(|o| o.props.dead).count(), 2);
}

#[test]
fn objects_hand_out_their_effects_in_board_order() {
    let mut objects = vec![
        Object::new_tile(0, cell(0, 0), 5),
        Object::new_tile(1, cell(1, 0), 7),
        Object::new_tile(2, cell(2, 0), 5),
    ];
    objects.push(Object::new(3, ObjectType::Dasher, cell(0, 0), Player::A));
    let mut game =
        GameController::with_config(Board { size: 7, objects }, Config::default());
    let effects = game.tick_objects(5, 0);
    assert_eq!(effects.len(), 3);
    let coords: Vec<Option<HexCoord>> = effects
        .iter()
        .map(|e| match e {
            Effect::KillAllOn { coord, .. } => Some(*coord),
            _ => None,
        })
        .collect();
    assert_eq!(coords, vec![Some(cell(0, 0)), None, Some(cell(2, 0))]);
    assert!(game.board.objects[0].statuses.is_empty());
    assert_eq!(game.board.objects[1].statuses.len(), 1);
    assert!(game.board.objects.iter().all(|o| !o.props.dead));
}

#[test]
fn move_to_moves_the_object_with_that_id() {
    let a = Object::new(100, ObjectType::Dasher, cell(1, 3), Player::A);
    let mut game = playing(vec![a.clone()], 40, Player::A, 0);
    game.move_to(&a, &cell(4, 4), 7, 8);
    assert_eq!(piece(&game, 100).coord, cell(4, 4));
    let stranger = Object::new(999, ObjectType::Dasher, cell(1, 3), Player::A);
    let before = placements(&game);
    game.move_to(&stranger, &cell(0, 0), 7, 8);
    assert_eq!(placements(&game), before);
}

#[test]
fn a_made_up_move_of_the_side_to_move_is_taken_as_it_is() {
    let a = Object::new(100, ObjectType::Dasher, cell(1, 3), Player::A);
    let b = Object::new(101, ObjectType::Jumper, cell(3, 3), Player::B);
    let mut game = playing(vec![a.clone(), b], 40, Player::A, 0);
    let m = Move::new(a, vec![cell(1, 3), cell(6, 6)], vec![]);
    game.apply_move(&m, 0, 250);
    assert_eq!(piece(&game, 100).coord, cell(6, 6));
    assert_eq!(game.current_player(), Player::B);
}
