use tileworld::components::Position;
use tileworld::components::Size;
use tileworld::components::Tile;
use tileworld::registry::Registry;
use tileworld::render::render;

fn row_string(row: &Vec<char>) -> String {
    row.iter().collect()
}

fn viewport(r: &mut Registry, x: i64, y: i64, w: i64, h: i64) {
    let v = r.spawn();
    r.add_view_tag(v);
    r.add_position(v, Position { x, y });
    r.add_size(v, Size { w, h });
}

#[test]
fn one_tile_at_origin_renders_alone() {
    let mut r = Registry::new();
    viewport(&mut r, 0, 0, 10, 10);
    let t = r.spawn();
    r.add_immovable_tag(t);
    r.add_tile(t, Tile { glyph: 'T' });
    r.add_position(t, Position { x: 0, y: 0 });

    let frame = render(&r);
    assert_eq!(frame.len(), 10);
    assert_eq!(row_string(&frame[0]), "T         ");
    for i in 1..10 {
        assert_eq!(row_string(&frame[i]), "          ");
    }
}

#[test]
fn no_viewport_renders_nothing() {
    let mut r = Registry::new();
    let t = r.spawn();
    r.add_immovable_tag(t);
    r.add_tile(t, Tile { glyph: 'T' });
    r.add_position(t, Position { x: 0, y: 0 });
    let frame = render(&r);
    assert_eq!(frame.len(), 0);
}

#[test]
fn layers_overwrite_in_order() {
    let mut r = Registry::new();
    viewport(&mut r, 0, 0, 3, 1);
    // an immovable cell, an actor and the player all on (1, 0)
    let t = r.spawn();
    r.add_immovable_tag(t);
    r.add_tile(t, Tile { glyph: 'T' });
    r.add_position(t, Position { x: 1, y: 0 });
    let a = r.spawn();
    r.add_nonplayer_tag(a);
    r.add_tile(a, Tile { glyph: 'g' });
    r.add_position(a, Position { x: 1, y: 0 });
    let p = r.spawn();
    r.add_player_tag(p);
    r.add_tile(p, Tile { glyph: 'X' });
    r.add_position(p, Position { x: 1, y: 0 });

    let frame = render(&r);
    assert_eq!(row_string(&frame[0]), " X ");
}

#[test]
fn actors_above_tiles_without_player() {
    let mut r = Registry::new();
    viewport(&mut r, 0, 0, 3, 1);
    let t = r.spawn();
    r.add_immovable_tag(t);
    r.add_tile(t, Tile { glyph: 'T' });
    r.add_position(t, Position { x: 2, y: 0 });
    let a = r.spawn();
    r.add_nonplayer_tag(a);
    r.add_tile(a, Tile { glyph: 'g' });
    r.add_position(a, Position { x: 2, y: 0 });
    let frame = render(&r);
    assert_eq!(row_string(&frame[0]), "  g");
}

#[test]
fn every_layer_clips_to_the_viewport() {
    let mut r = Registry::new();
    viewport(&mut r, 5, 5, 3, 3);
    // all three categories sit outside the viewport rectangle
    let t = r.spawn();
    r.add_immovable_tag(t);
    r.add_tile(t, Tile { glyph: 'T' });
    r.add_position(t, Position { x: 0, y: 0 });
    let a = r.spawn();
    r.add_nonplayer_tag(a);
    r.add_tile(a, Tile { glyph: 'g' });
    r.add_position(a, Position { x: 4, y: 5 });
    let p = r.spawn();
    r.add_player_tag(p);
    r.add_tile(p, Tile { glyph: 'X' });
    r.add_position(p, Position { x: 8, y: 5 });

    let frame = render(&r);
    assert_eq!(frame.len(), 3);
    for row in &frame {
        assert_eq!(row_string(row), "   ");
    }
}

#[test]
fn viewport_offset_translates_coordinates() {
    let mut r = Registry::new();
    viewport(&mut r, 2, 1, 4, 2);
    let t = r.spawn();
    r.add_immovable_tag(t);
    r.add_tile(t, Tile { glyph: 'T' });
    r.add_position(t, Position { x: 3, y: 2 });
    let frame = render(&r);
    assert_eq!(row_string(&frame[0]), "    ");
    assert_eq!(row_string(&frame[1]), " T  ");
}

#[test]
fn later_entities_win_within_a_layer() {
    let mut r = Registry::new();
    viewport(&mut r, 0, 0, 1, 1);
    let t1 = r.spawn();
    r.add_immovable_tag(t1);
    r.add_tile(t1, Tile { glyph: 'a' });
    r.add_position(t1, Position { x: 0, y: 0 });
    let t2 = r.spawn();
    r.add_immovable_tag(t2);
    r.add_tile(t2, Tile { glyph: 'b' });
    r.add_position(t2, Position { x: 0, y: 0 });
    let frame = render(&r);
    assert_eq!(row_string(&frame[0]), "b");
}
