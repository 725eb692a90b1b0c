use hexaroni::hexcoord::HexCoord;
use hexaroni::object::{Object, ObjectProps, ObjectType};
use hexaroni::player::Player;
use hexaroni::statuses::{Effect, ObjectRef, Status, StatusKind, StatusType};

fn falling() -> Effect {
    Effect::KillAllOn {
        coord: HexCoord::new(2, 5, 7),
        apply: Some(Box::new(StatusType::Falling)),
        duration: Some(2000),
    }
}

fn wobble(oid: usize) -> Effect {
    Effect::SetStatus {
        object: ObjectRef { oid, coord: HexCoord::new(2, 5, 7) },
        stype: Box::new(StatusType::Wobble { amplitude: 200, speed: 37100 }),
        duration: None,
    }
}

#[test]
fn new_piece_has_default_props() {
    let o = Object::new(9, ObjectType::Jumper, HexCoord::new(1, 2, 7), Player::B);
    assert_eq!(o.otype, ObjectType::Jumper);
    assert_eq!(o.coord, HexCoord::new(1, 2, 7));
    assert_eq!(o.player, Player::B);
    assert_eq!(o.props.oid, 9);
    assert!(o.props.selectable && o.props.draggable && !o.props.dead);
    assert_eq!(o.props.size, 1000);
    assert!(o.statuses.is_empty());
    assert!(!o.is_tile());
    assert!(o.owned_by(&Player::B));
    assert!(!o.owned_by(&Player::A));
}

#[test]
fn default_and_given_props() {
    let d = ObjectProps::default();
    assert_eq!((d.oid, d.selectable, d.draggable, d.dead, d.size), (0, true, true, false, 1000));
    let p = ObjectProps::new(4, false, true, true, 1100);
    assert_eq!((p.oid, p.selectable, p.draggable, p.dead, p.size), (4, false, true, true, 1100));
}

#[test]
fn new_wall_belongs_to_nobody_and_cannot_be_dragged() {
    let w = Object::new_wall(5, HexCoord::new(3, 4, 7));
    assert_eq!(w.otype, ObjectType::Wall);
    assert_eq!(w.player, Player::God);
    assert!(!w.props.selectable && !w.props.draggable && !w.props.dead);
    assert_eq!(w.props.size, 1100);
    assert!(w.statuses.is_empty());
}

#[test]
fn new_tile_carries_its_decay() {
    let t = Object::new_tile(12, HexCoord::new(2, 5, 7), 30);
    assert!(t.is_tile());
    assert_eq!(t.player, Player::God);
    assert_eq!(t.props.size, 1100);
    assert_eq!(t.statuses.len(), 1);
    assert_eq!(
        t.statuses[0],
        Status::new_delayed_effect_with_indicator(30, falling(), 28, wobble(12))
    );
}

#[test]
fn tile_that_lives_under_two_moves_has_no_warning() {
    let t = Object::new_tile(12, HexCoord::new(2, 5, 7), 1);
    assert_eq!(t.statuses[0], Status::new_delayed_effect(1, falling()));
    let mut u = Object::new_tile(12, HexCoord::new(2, 5, 7), 0);
    assert_eq!(u.tick(0, 0), vec![falling()]);
}

#[test]
fn tile_collapses_at_its_lifespan() {
    let mut t = Object::new_tile(12, HexCoord::new(2, 5, 7), 30);
    let effects = t.tick(30, 0);
    assert_eq!(effects, vec![falling()]);
    assert!(t.statuses.is_empty());
    assert!(t.tick(30, 0).is_empty());
}

#[test]
fn tile_warns_two_moves_before() {
    let mut t = Object::new_tile(12, HexCoord::new(2, 5, 7), 30);
    let effects = t.tick(28, 0);
    assert_eq!(effects, vec![wobble(12)]);
    assert_eq!(t.statuses.len(), 1);
}

#[test]
fn tile_does_nothing_at_other_moves() {
    let mut t = Object::new_tile(12, HexCoord::new(2, 5, 7), 30);
    for nr in [0usize, 1, 27, 29, 31, 1000] {
        assert!(t.tick(nr, 0).is_empty());
        assert_eq!(t.statuses.len(), 1);
    }
}

#[test]
fn indicator_and_effect_at_one_move_come_in_that_order() {
    let mut o = Object::new(1, ObjectType::Dasher, HexCoord::new(0, 0, 7), Player::A);
    o.add_status(&Status::new_delayed_effect_with_indicator(4, falling(), 4, wobble(1)));
    assert_eq!(o.tick(4, 0), vec![wobble(1), falling()]);
    assert!(o.statuses.is_empty());
}

#[test]
fn object_without_delayed_effect_hands_out_nothing() {
    let mut o = Object::new(1, ObjectType::Dasher, HexCoord::new(0, 0, 7), Player::A);
    o.add_status(&Status::new_dragged());
    assert!(o.tick(0, 0).is_empty());
    assert_eq!(o.statuses, vec![Status::new_dragged()]);
}

#[test]
fn statuses_are_added_found_and_removed_by_kind() {
    let mut o = Object::new(1, ObjectType::Dasher, HexCoord::new(0, 0, 7), Player::A);
    let wob = Status::new(StatusType::Wobble { amplitude: 1, speed: 2 });
    o.add_status(&Status::new_dragged());
    o.add_status(&wob);
    assert_eq!(o.statuses, vec![Status::new_dragged(), wob.clone()]);
    assert!(o.has_status(StatusKind::Wobble));
    assert!(!o.has_status(StatusKind::Killed));
    assert_eq!(o.get_status(&StatusType::Wobble { amplitude: 9, speed: 9 }), Some(&wob));
    assert_eq!(o.get_status(&StatusType::Falling), None);
    o.remove_status(&StatusType::Dragged);
    assert_eq!(o.statuses, vec![wob.clone()]);
    o.remove_status(&StatusType::Dragged);
    assert_eq!(o.statuses, vec![wob]);
}

#[test]
fn several_statuses_are_added_in_order() {
    let mut o = Object::new(1, ObjectType::Dasher, HexCoord::new(0, 0, 7), Player::A);
    let a = Status::new(StatusType::Selected);
    let b = Status::new(StatusType::Hovered);
    o.add_status(&Status::new_dragged());
    o.add_statuses(vec![&a, &b]);
    assert_eq!(o.statuses, vec![Status::new_dragged(), a, b]);
}

#[test]
fn replaced_status_takes_the_place_of_its_kind() {
    let mut o = Object::new(1, ObjectType::Dasher, HexCoord::new(0, 0, 7), Player::A);
    let first = Status::new(StatusType::Wobble { amplitude: 1, speed: 2 });
    let second = Status::new(StatusType::Wobble { amplitude: 3, speed: 4 });
    o.add_status(&first);
    o.add_status(&Status::new_dragged());
    o.replace_status(&second);
    assert_eq!(o.statuses, vec![Status::new_dragged(), second]);
}

#[test]
fn killed_object_is_dead_and_carries_the_status() {
    let mut o = Object::new(1, ObjectType::Dasher, HexCoord::new(0, 0, 7), Player::A);
    o.set_killed(None);
    assert!(o.props.dead);
    assert!(o.statuses.is_empty());
    let fall = Status::new(StatusType::Falling).with_times(5, 10);
    o.set_killed(Some(&fall));
    assert_eq!(o.statuses, vec![fall.clone()]);
    let again = Status::new(StatusType::Falling).with_times(7, 10);
    o.set_killed(Some(&again));
    assert_eq!(o.statuses, vec![again]);
}

#[test]
fn expired_statuses_are_pruned() {
    let mut o = Object::new(1, ObjectType::Dasher, HexCoord::new(0, 0, 7), Player::A);
    o.add_status(&Status::new(StatusType::Falling).with_times(0, 10));
    o.add_status(&Status::new_dragged());
    o.add_status(&Status::new(StatusType::Hovered).with_times(0, 100));
    assert!(!o.is_gone(1000));
    o.props.dead = true;
    assert!(!o.is_gone(1000));
    o.prune(50);
    assert_eq!(
        o.statuses,
        vec![Status::new_dragged(), Status::new(StatusType::Hovered).with_times(0, 100)]
    );
    o.remove_status(&StatusType::Dragged);
    assert!(!o.is_gone(100));
    assert!(o.is_gone(101));
}

#[test]
fn objects_are_equal_by_id_alone() {
    let a = Object::new(1, ObjectType::Dasher, HexCoord::new(0, 0, 7), Player::A);
    let b = Object::new_wall(1, HexCoord::new(5, 5, 7));
    let c = Object::new(2, ObjectType::Dasher, HexCoord::new(0, 0, 7), Player::A);
    assert!(a == b);
    assert!(a != c);
}

#[test]
fn set_coord_moves_the_object() {
    let mut a = Object::new(1, ObjectType::Dasher, HexCoord::new(0, 0, 7), Player::A);
    a.set_coord(&HexCoord::new(4, 2, 7));
    assert_eq!(a.coord, HexCoord::new(4, 2, 7));
    assert_eq!(a.reference(), ObjectRef { oid: 1, coord: HexCoord::new(4, 2, 7) });
    let copy = a.clone();
    assert_eq!(copy.coord, a.coord);
    assert_eq!(copy.props.oid, 1);
    assert_eq!(copy.statuses, a.statuses);
}
