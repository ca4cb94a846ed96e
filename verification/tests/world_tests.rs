use tileworld::components::Position;
use tileworld::components::Velocity;
use tileworld::errors::SimError;
use tileworld::world::World;

fn row_string(row: &Vec<char>) -> String {
    row.iter().collect()
}

#[test]
fn initial_render_round_trips_the_map() {
    let w = World::from_map_text("TTT\nT.T\nTTT").unwrap();
    let frame = w.render_frame();
    assert_eq!(frame.len(), 10);
    for row in &frame {
        assert_eq!(row.len(), 10);
    }
    // the player overlays the top-left map cell
    assert_eq!(row_string(&frame[0]), "XTT       ");
    assert_eq!(row_string(&frame[1]), "T.T       ");
    assert_eq!(row_string(&frame[2]), "TTT       ");
    for r in 3..10 {
        assert_eq!(row_string(&frame[r]), "          ");
    }
}

#[test]
fn trailing_newline_is_tolerated() {
    let a = World::from_map_text("ab\ncd\n").unwrap();
    let b = World::from_map_text("ab\ncd").unwrap();
    assert_eq!(a.map_width, 2);
    assert_eq!(a.map_height, 2);
    assert_eq!(b.map_width, 2);
    assert_eq!(b.map_height, 2);
}

#[test]
fn irregular_rows_are_refused() {
    assert_eq!(
        World::from_map_text("ab\nabc").err(),
        Some(SimError::IrregularMap)
    );
}

#[test]
fn movement_accumulates_across_ticks() {
    let mut w = World::from_map_text("TTT\nT.T\nTTT").unwrap();
    w.tick("right 2").unwrap();
    assert_eq!(w.player_velocity(), Some(Velocity { dx: 2, dy: 0 }));
    assert_eq!(w.player_position(), Some(Position { x: 2, y: 0 }));
    // velocity persists: a quiet tick moves the player again
    w.tick("").unwrap();
    assert_eq!(w.player_position(), Some(Position { x: 4, y: 0 }));
    // two quiet ticks doubled the displacement of one
    w.tick("").unwrap();
    assert_eq!(w.player_position(), Some(Position { x: 6, y: 0 }));
}

#[test]
fn up_decrements_row_down_increments() {
    let mut w = World::from_map_text("...").unwrap();
    w.tick("down 5").unwrap();
    assert_eq!(w.player_position(), Some(Position { x: 0, y: 5 }));
    w.tick("up 10").unwrap();
    assert_eq!(w.player_position(), Some(Position { x: 0, y: 0 }));
}

#[test]
fn unrecognized_command_leaves_velocity_alone() {
    let mut w = World::from_map_text("...").unwrap();
    w.tick("right 3").unwrap();
    let v = w.player_velocity();
    w.tick("gibberish tokens only").unwrap();
    assert_eq!(w.player_velocity(), v);
}

#[test]
fn viewport_trails_the_player() {
    let mut w = World::from_map_text("...").unwrap();
    // one tick to (7, 7): the viewport recenters to (2, 2)
    w.tick("right 7 down 7").unwrap();
    assert_eq!(w.player_position(), Some(Position { x: 7, y: 7 }));
    assert_eq!(w.view_position(), Some(Position { x: 2, y: 2 }));
}

#[test]
fn view_follow_is_idempotent_while_player_rests() {
    let mut w = World::from_map_text("...").unwrap();
    w.tick("right 7 down 7").unwrap();
    let view = w.view_position();
    // cancel the velocity: the player stays, and so does the viewport
    w.tick("left 7 up 7").unwrap();
    assert_eq!(w.player_position(), Some(Position { x: 7, y: 7 }));
    assert_eq!(w.view_position(), view);
    w.tick("").unwrap();
    assert_eq!(w.view_position(), view);
}

#[test]
fn viewport_never_crosses_the_low_edge() {
    let mut w = World::from_map_text("...").unwrap();
    w.tick("right 3").unwrap();
    // player at (3, 0): 3 is not past half the viewport, so the
    // viewport pins to the player column, not below zero
    assert_eq!(w.view_position(), Some(Position { x: 3, y: 0 }));
}

#[test]
fn tick_returns_the_rendered_frame() {
    let mut w = World::from_map_text("TT\nTT").unwrap();
    let frame = w.tick("right 1").unwrap();
    // the player moved to (1, 0) and the viewport trailed it there,
    // so column 0 of the frame is absolute column 1
    assert_eq!(w.view_position(), Some(Position { x: 1, y: 0 }));
    assert_eq!(row_string(&frame[0]), "X         ");
    assert_eq!(row_string(&frame[1]), "T         ");
}

#[test]
fn actors_are_rendered_but_never_moved() {
    let mut w = World::from_map_text("...").unwrap();
    w.spawn_actor('g', 2, 0);
    let actor = w.registry.len() - 1;
    let frame = w.render_frame();
    assert_eq!(row_string(&frame[0]), "X.g       ");
    w.tick("down 1").unwrap();
    // the viewport trailed the player to (0, 1); the actor kept its
    // position and fell off the visible rectangle
    assert_eq!(
        w.registry.get_position(actor),
        Some(Position { x: 2, y: 0 })
    );
    assert_eq!(w.view_position(), Some(Position { x: 0, y: 1 }));
    let frame = w.render_frame();
    assert_eq!(row_string(&frame[0]), "X         ");
}

#[test]
fn empty_map_text_still_builds_a_world() {
    let w = World::from_map_text("").unwrap();
    assert_eq!(w.map_width, 0);
    assert_eq!(w.map_height, 0);
    let frame = w.render_frame();
    assert_eq!(row_string(&frame[0]), "X         ");
}

#[test]
fn accumulation_matches_the_vector_sum() {
    let mut w = World::from_map_text("...").unwrap();
    w.tick("right 3").unwrap();
    w.tick("up 2").unwrap();
    w.tick("left 1").unwrap();
    // per-tick velocities were (3,0), (3,-2), (2,-2); the final
    // position is their vector sum
    assert_eq!(w.player_position(), Some(Position { x: 8, y: -4 }));
    assert_eq!(w.player_velocity(), Some(Velocity { dx: 2, dy: -2 }));
}
