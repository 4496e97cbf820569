use dungeon::grid::{Game, Grid};
use dungeon::mapgen::create_h_tunnel;
use dungeon::object::{Color, Object, Objects};
use dungeon::rect::Rect;
use dungeon::tile::Tile;
use std::collections::HashMap;

const WHITE: Color = Color { r: 255, g: 255, b: 255 };

/// A 5 by 5 grid whose row 2 is an open corridor from (1,2) to (3,2).
fn small_game() -> Game {
    let mut map = Grid::new(5, 5);
    create_h_tunnel(1, 3, 2, &mut map);
    Game { map }
}

#[test]
fn tile_constructors() {
    let e = Tile::empty();
    assert!(!e.blocked);
    assert!(!e.block_sight);
    let w = Tile::wall();
    assert!(w.blocked);
    assert!(w.block_sight);
}

#[test]
fn new_grid_is_all_wall() {
    let g = Grid::new(4, 3);
    assert_eq!(g.width(), 4);
    assert_eq!(g.height(), 3);
    for x in 0..4 {
        for y in 0..3 {
            assert!(g.tile_at(x, y).blocked);
        }
    }
}

#[test]
fn rect_new_and_center() {
    let r = Rect::new(3, 4, 4, 6);
    assert_eq!((r.x1, r.y1, r.x2, r.y2), (3, 4, 7, 10));
    assert_eq!(r.center(), (5, 7));
}

#[test]
fn rect_intersection_is_inclusive() {
    let a = Rect::new(3, 3, 4, 4);
    let b = Rect::new(7, 3, 4, 4);
    // b starts exactly on a's right edge: touching counts as intersecting
    assert!(a.intersects_with(&b));
    assert!(b.intersects_with(&a));
    let c = Rect::new(8, 3, 4, 4);
    assert!(!a.intersects_with(&c));
    assert!(!c.intersects_with(&a));
    assert!(a.intersects_with(&a));
}

#[test]
fn move_into_wall_is_a_no_op() {
    let game = small_game();
    let mut player = Object::new(2, 2, '@', WHITE);
    let moved = player.move_by(0, -1, &game);
    assert!(!moved);
    assert_eq!((player.x, player.y), (2, 2));
}

#[test]
fn move_into_empty_tile_shifts_by_delta() {
    let game = small_game();
    let mut player = Object::new(2, 2, '@', WHITE);
    let moved = player.move_by(1, 0, &game);
    assert!(moved);
    assert_eq!((player.x, player.y), (3, 2));
    let moved_back = player.move_by(-1, 0, &game);
    assert!(moved_back);
    assert_eq!((player.x, player.y), (2, 2));
}

#[test]
fn objects_holds_player_and_npcs() {
    let player = Object::new(2, 2, '@', WHITE);
    let mut npcs = HashMap::new();
    npcs.insert("bob".to_string(), Object::new(1, 2, '@', Color { r: 255, g: 255, b: 0 }));
    let objects = Objects::new(player, npcs);
    assert_eq!((objects.player.x, objects.player.y), (2, 2));
    assert_eq!(objects.npcs.len(), 1);
    assert_eq!(objects.npcs["bob"].x, 1);
}
