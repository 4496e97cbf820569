use dungeon::grid::Grid;
use dungeon::mapgen::{generate, RoomSample, MAP_HEIGHT, MAP_WIDTH};

fn sample(w: i32, h: i32, x: i32, y: i32) -> RoomSample {
    RoomSample { w, h, x, y }
}

/// Three non-overlapping rooms whose centers land on (5,5), (20,5), (20,20)
/// in a 30 by 30 grid.
fn three_room_samples() -> Vec<RoomSample> {
    vec![sample(4, 4, 3, 3), sample(4, 4, 18, 3), sample(4, 4, 18, 18)]
}

fn assert_all_wall(grid: &Grid) {
    for x in 0..grid.width() {
        for y in 0..grid.height() {
            let t = grid.tile_at(x, y);
            assert!(t.blocked);
            assert!(t.block_sight);
        }
    }
}

#[test]
fn no_attempts_yields_all_walls_and_no_spawn() {
    let samples: Vec<RoomSample> = Vec::new();
    let out = generate(30, 30, &samples);
    assert_eq!(out.grid.width(), 30);
    assert_eq!(out.grid.height(), 30);
    assert_all_wall(&out.grid);
    assert!(out.spawn.is_none());
    assert!(out.rooms.is_empty());
}

#[test]
fn first_candidate_is_always_accepted() {
    let samples = vec![sample(4, 4, 3, 3)];
    let out = generate(30, 30, &samples);
    assert_eq!(out.rooms.len(), 1);
    assert_eq!(out.spawn, Some((5, 5)));
}

#[test]
fn overlapping_candidate_is_rejected() {
    let samples = vec![sample(4, 4, 3, 3), sample(4, 4, 3, 3), sample(4, 4, 18, 18)];
    let out = generate(30, 30, &samples);
    assert_eq!(out.rooms.len(), 2);
    let a = out.rooms[0];
    let b = out.rooms[1];
    assert!(!b.intersects_with(&a));
}

#[test]
fn edge_touching_candidate_is_rejected() {
    // The second candidate merely touches the first one's right edge:
    // the inclusive intersection test still rejects it.
    let samples = vec![sample(4, 4, 3, 3), sample(4, 4, 7, 3)];
    let out = generate(30, 30, &samples);
    assert_eq!(out.rooms.len(), 1);
}

#[test]
fn room_interior_is_carved_and_border_ring_kept() {
    let samples = vec![sample(4, 4, 3, 3)];
    let out = generate(30, 30, &samples);
    // interior: strictly between x1 = 3 and x2 = 7, same rows
    for x in 4..=6 {
        for y in 4..=6 {
            assert!(!out.grid.tile_at(x, y).blocked);
        }
    }
    // the boundary ring of the rectangle stays wall
    for v in 3..=7 {
        assert!(out.grid.tile_at(v, 3).blocked);
        assert!(out.grid.tile_at(v, 7).blocked);
        assert!(out.grid.tile_at(3, v).blocked);
        assert!(out.grid.tile_at(7, v).blocked);
    }
}

#[test]
fn same_samples_give_identical_grids() {
    let samples = vec![
        sample(4, 4, 3, 3),
        sample(5, 6, 10, 10),
        sample(4, 4, 3, 3),
        sample(6, 4, 20, 2),
        sample(4, 7, 2, 20),
    ];
    let a = generate(30, 30, &samples);
    let b = generate(30, 30, &samples);
    assert_eq!(a.grid.width(), b.grid.width());
    assert_eq!(a.grid.height(), b.grid.height());
    for x in 0..a.grid.width() {
        for y in 0..a.grid.height() {
            assert_eq!(a.grid.tile_at(x, y), b.grid.tile_at(x, y));
        }
    }
    assert_eq!(a.spawn, b.spawn);
    assert_eq!(a.rooms.len(), b.rooms.len());
    for (ra, rb) in a.rooms.iter().zip(b.rooms.iter()) {
        assert_eq!((ra.x1, ra.y1, ra.x2, ra.y2), (rb.x1, rb.y1, rb.x2, rb.y2));
    }
}

#[test]
fn accepted_rooms_are_pairwise_disjoint() {
    let samples = vec![
        sample(4, 4, 3, 3),
        sample(5, 6, 10, 10),
        sample(4, 4, 4, 4),
        sample(6, 4, 20, 2),
        sample(4, 7, 2, 20),
        sample(8, 8, 15, 15),
    ];
    let out = generate(30, 30, &samples);
    for i in 0..out.rooms.len() {
        for j in 0..out.rooms.len() {
            if i != j {
                assert!(!out.rooms[i].intersects_with(&out.rooms[j]));
            }
        }
    }
}

#[test]
fn border_tiles_stay_wall() {
    let out = generate(30, 30, &three_room_samples());
    for v in 0..30 {
        assert!(out.grid.tile_at(v, 0).blocked);
        assert!(out.grid.tile_at(v, 29).blocked);
        assert!(out.grid.tile_at(0, v).blocked);
        assert!(out.grid.tile_at(29, v).blocked);
    }
}

/// Flood fill over non-blocked tiles by axis-aligned single steps.
fn reachable(grid: &Grid, from: (i32, i32), to: (i32, i32)) -> bool {
    let w = grid.width();
    let h = grid.height();
    let mut seen = vec![false; (w as usize) * (h as usize)];
    let mut stack = vec![from];
    while let Some((x, y)) = stack.pop() {
        if (x, y) == to {
            return true;
        }
        for (dx, dy) in [(1, 0), (-1, 0), (0, 1), (0, -1)] {
            let (nx, ny) = (x + dx, y + dy);
            if nx >= 0 && nx < w && ny >= 0 && ny < h {
                let idx = (nx as usize) * (h as usize) + (ny as usize);
                if !seen[idx] && !grid.tile_at(nx, ny).blocked {
                    seen[idx] = true;
                    stack.push((nx, ny));
                }
            }
        }
    }
    false
}

#[test]
fn three_rooms_are_chained_by_corridors() {
    let out = generate(30, 30, &three_room_samples());
    assert_eq!(out.rooms.len(), 3);
    assert_eq!(out.rooms[0].center(), (5, 5));
    assert_eq!(out.rooms[1].center(), (20, 5));
    assert_eq!(out.rooms[2].center(), (20, 20));
    assert_eq!(out.spawn, Some((5, 5)));
    assert!(reachable(&out.grid, (5, 5), (20, 5)));
    assert!(reachable(&out.grid, (20, 5), (20, 20)));
    assert!(reachable(&out.grid, (5, 5), (20, 20)));
}

#[test]
fn corridor_carves_an_l_between_consecutive_centers() {
    let out = generate(30, 30, &three_room_samples());
    // horizontal leg in the first room's center row, between the centers
    for x in 5..=20 {
        assert!(!out.grid.tile_at(x, 5).blocked);
    }
    // vertical leg in the second room's center column
    for y in 5..=20 {
        assert!(!out.grid.tile_at(20, y).blocked);
    }
}

#[test]
fn make_map_has_standard_extent_border_walls_and_carved_spawn() {
    let mut player = dungeon::object::Object::new(
        25,
        23,
        '@',
        dungeon::object::Color { r: 255, g: 255, b: 255 },
    );
    let map = dungeon::mapgen::make_map(&mut player);
    assert_eq!(map.width(), MAP_WIDTH);
    assert_eq!(map.height(), MAP_HEIGHT);
    for x in 0..MAP_WIDTH {
        assert!(map.tile_at(x, 0).blocked);
        assert!(map.tile_at(x, MAP_HEIGHT - 1).blocked);
    }
    for y in 0..MAP_HEIGHT {
        assert!(map.tile_at(0, y).blocked);
        assert!(map.tile_at(MAP_WIDTH - 1, y).blocked);
    }
    // at least one candidate is always accepted, so the player stands on
    // the first room's carved center
    assert!(player.x > 0 && player.x < MAP_WIDTH - 1);
    assert!(player.y > 0 && player.y < MAP_HEIGHT - 1);
    assert!(!map.tile_at(player.x, player.y).blocked);
    assert_eq!(player.symbol, '@');
}
