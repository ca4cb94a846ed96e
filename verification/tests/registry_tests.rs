use tileworld::components::ComponentKind;
use tileworld::components::Position;
use tileworld::components::Size;
use tileworld::components::Tile;
use tileworld::components::Velocity;
use tileworld::errors::SimError;
use tileworld::registry::Registry;
use tileworld::systems::command_apply;
use tileworld::systems::motion;
use tileworld::systems::view_follow;

#[test]
fn add_and_get_round_trip() {
    let mut r = Registry::new();
    let e = r.spawn();
    assert_eq!(e, 0);
    assert_eq!(r.get_position(e), None);
    r.add_position(e, Position { x: 3, y: 4 });
    r.add_tile(e, Tile { glyph: 'q' });
    assert_eq!(r.get_position(e), Some(Position { x: 3, y: 4 }));
    assert_eq!(r.get_tile(e), Some(Tile { glyph: 'q' }));
    assert_eq!(r.get_velocity(e), None);
    assert_eq!(r.get_size(e), None);
}

#[test]
fn intersection_join_yields_entities_with_all_kinds() {
    let mut r = Registry::new();
    let a = r.spawn();
    r.add_position(a, Position { x: 0, y: 0 });
    r.add_velocity(a, Velocity { dx: 1, dy: 1 });
    let b = r.spawn();
    r.add_position(b, Position { x: 1, y: 0 });
    let c = r.spawn();
    r.add_position(c, Position { x: 2, y: 0 });
    r.add_velocity(c, Velocity { dx: 0, dy: 0 });

    let moving = r.entities_with(&vec![ComponentKind::Position, ComponentKind::Velocity]);
    assert_eq!(moving, vec![a, c]);
    let placed = r.entities_with(&vec![ComponentKind::Position]);
    assert_eq!(placed, vec![a, b, c]);
    let tagged = r.entities_with(&vec![ComponentKind::PlayerTag]);
    assert_eq!(tagged, Vec::<usize>::new());
}

#[test]
fn motion_skips_entities_missing_a_kind() {
    let mut r = Registry::new();
    let a = r.spawn();
    r.add_position(a, Position { x: 5, y: 5 });
    r.add_velocity(a, Velocity { dx: -1, dy: 2 });
    let b = r.spawn();
    r.add_position(b, Position { x: 9, y: 9 });
    motion(&mut r);
    assert_eq!(r.get_position(a), Some(Position { x: 4, y: 7 }));
    assert_eq!(r.get_position(b), Some(Position { x: 9, y: 9 }));
}

#[test]
fn motion_saturates_at_the_coordinate_range() {
    let mut r = Registry::new();
    let a = r.spawn();
    r.add_position(a, Position { x: i64::MAX - 1, y: i64::MIN + 1 });
    r.add_velocity(a, Velocity { dx: 5, dy: -5 });
    motion(&mut r);
    assert_eq!(r.get_position(a), Some(Position { x: i64::MAX, y: i64::MIN }));
}

#[test]
fn command_apply_without_player_velocity_fails_clean() {
    let mut r = Registry::new();
    let p = r.spawn();
    r.add_player_tag(p);
    let before = r.get_position(p);
    assert_eq!(
        command_apply(&mut r, 1, 1),
        Err(SimError::PlayerWithoutVelocity)
    );
    assert_eq!(r.get_position(p), before);
}

#[test]
fn view_follow_without_view_position_fails_clean() {
    let mut r = Registry::new();
    let p = r.spawn();
    r.add_player_tag(p);
    r.add_position(p, Position { x: 8, y: 8 });
    let v = r.spawn();
    r.add_view_tag(v);
    r.add_size(v, Size { w: 10, h: 10 });
    assert_eq!(view_follow(&mut r), Err(SimError::ViewWithoutPosition));
}

#[test]
fn view_follow_without_any_player_is_a_no_op() {
    let mut r = Registry::new();
    let v = r.spawn();
    r.add_view_tag(v);
    r.add_size(v, Size { w: 10, h: 10 });
    r.add_position(v, Position { x: 4, y: 4 });
    assert_eq!(view_follow(&mut r), Ok(()));
    assert_eq!(r.get_position(v), Some(Position { x: 4, y: 4 }));
}

#[test]
fn view_follow_centers_behind_the_player() {
    let mut r = Registry::new();
    let p = r.spawn();
    r.add_player_tag(p);
    r.add_position(p, Position { x: 12, y: 3 });
    let v = r.spawn();
    r.add_view_tag(v);
    r.add_size(v, Size { w: 10, h: 10 });
    r.add_position(v, Position { x: 0, y: 0 });
    assert_eq!(view_follow(&mut r), Ok(()));
    // x: 12 > 5, so 12 - 5; y: 3 <= 5, so 3
    assert_eq!(r.get_position(v), Some(Position { x: 7, y: 3 }));
}

#[test]
fn command_apply_adds_onto_player_velocity() {
    let mut r = Registry::new();
    let p = r.spawn();
    r.add_player_tag(p);
    r.add_velocity(p, Velocity { dx: 2, dy: -1 });
    assert_eq!(command_apply(&mut r, 3, 3), Ok(()));
    assert_eq!(r.get_velocity(p), Some(Velocity { dx: 5, dy: 2 }));
}
