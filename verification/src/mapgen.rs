use vstd::prelude::*;
use crate::tile::{Tile, empty_tile, wall_tile};
use crate::rect::{
    Rect, center_x, center_y, interior_contains, lemma_center_in_rect, rect_in_grid,
    rect_intersects,
};
use crate::grid::Grid;
use crate::object::Object;

verus! {

/// Width of the generated map, in tiles.
pub const MAP_WIDTH: i32 = 80;

/// Height of the generated map, in tiles.
pub const MAP_HEIGHT: i32 = 45;

/// Smallest side of a sampled room.
pub const ROOM_MIN_SIZE: i32 = 6;

/// Largest side of a sampled room.
pub const ROOM_MAX_SIZE: i32 = 10;

/// How many room candidates one generation run draws; rejected candidates
/// consume an attempt, so a run can accept fewer rooms.
pub const MAX_ROOMS: i32 = 30;

/// One attempt's worth of random draws: a room size and an origin.
#[derive(Clone, Copy, Debug, PartialEq, Eq, Structural)]
pub struct RoomSample {
    pub w: i32,
    pub h: i32,
    pub x: i32,
    pub y: i32,
}

/// The candidate rectangle built from a sample.
pub open spec fn rect_of_sample(s: RoomSample) -> Rect {
    Rect { x1: s.x, y1: s.y, x2: (s.x + s.w) as i32, y2: (s.y + s.h) as i32 }
}

/// A sample the generator's own draws always satisfy: positive sizes, and an
/// origin drawn from `[0, width - w)` and `[0, height - h)`, so the candidate
/// stays strictly inside the grid.
pub open spec fn valid_sample(s: RoomSample, width: int, height: int) -> bool {
    &&& 1 <= s.w
    &&& 1 <= s.h
    &&& 0 <= s.x
    &&& s.x + s.w < width
    &&& 0 <= s.y
    &&& s.y + s.h < height
}

/// Whether a candidate overlaps one of the rooms accepted so far; bounds are
/// inclusive, so touching edges counts.
pub open spec fn hits_existing(rooms: Seq<Rect>, cand: Rect) -> bool {
    exists|i: int| 0 <= i < rooms.len() && rect_intersects(cand, rooms[i])
}

/// The rooms kept by rejection sampling: each candidate in turn is accepted
/// exactly when it overlaps no previously accepted room, and appended to the
/// list in order of acceptance.
pub open spec fn accepted_rooms(samples: Seq<RoomSample>) -> Seq<Rect>
    decreases samples.len(),
{
    if samples.len() == 0 {
        Seq::empty()
    } else {
        let prev = accepted_rooms(samples.drop_last());
        let cand = rect_of_sample(samples.last());
        if hits_existing(prev, cand) {
            prev
        } else {
            prev.push(cand)
        }
    }
}

/// Whether `v` lies between `a` and `b` inclusive, in either order.
pub open spec fn between(a: int, b: int, v: int) -> bool {
    (a <= v && v <= b) || (b <= v && v <= a)
}

/// Whether `(x, y)` lies on the straight horizontal corridor in row `y0`
/// spanning columns `xa` to `xb` inclusive.
pub open spec fn h_corridor_contains(xa: int, xb: int, y0: int, x: int, y: int) -> bool {
    y == y0 && between(xa, xb, x)
}

/// Whether `(x, y)` lies on the straight vertical corridor in column `x0`
/// spanning rows `ya` to `yb` inclusive.
pub open spec fn v_corridor_contains(ya: int, yb: int, x0: int, x: int, y: int) -> bool {
    x == x0 && between(ya, yb, y)
}

/// The L-shaped corridor carved between the centers of two consecutively
/// accepted rooms: a horizontal leg in the earlier room's center row, then a
/// vertical leg in the later room's center column.
pub open spec fn corridor_contains(prev: Rect, next: Rect, x: int, y: int) -> bool {
    ||| h_corridor_contains(center_x(prev), center_x(next), center_y(prev), x, y)
    ||| v_corridor_contains(center_y(prev), center_y(next), center_x(next), x, y)
}

/// Whether a finished run over `rooms` has made `(x, y)` passable: strictly
/// inside some accepted room, or on the corridor between two consecutively
/// accepted rooms (the chain topology: each room is wired only to its
/// immediate predecessor).
pub open spec fn carved(rooms: Seq<Rect>, x: int, y: int) -> bool {
    ||| exists|i: int| 0 <= i < rooms.len() && interior_contains(rooms[i], x, y)
    ||| exists|i: int|
        1 <= i < rooms.len() && #[trigger] corridor_contains(rooms[i - 1], rooms[i], x, y)
}

/// The tile a finished run leaves at `(x, y)`.
pub open spec fn generated_tile(rooms: Seq<Rect>, x: int, y: int) -> Tile {
    if carved(rooms, x, y) {
        empty_tile()
    } else {
        wall_tile()
    }
}

/// The spawn point of a run: the center of the first accepted room; a run
/// that accepts no room defines none.
pub open spec fn spawn_matches(spawn: Option<(i32, i32)>, rooms: Seq<Rect>) -> bool {
    match spawn {
        None => rooms.len() == 0,
        Some(p) => rooms.len() > 0 && p.0 == center_x(rooms[0]) && p.1 == center_y(rooms[0]),
    }
}

/// Accepting a candidate extends the carved region by exactly the
/// candidate's interior and, when the candidate has a predecessor, the
/// corridor that connects their centers.
proof fn lemma_carved_push(rooms: Seq<Rect>, cand: Rect, x: int, y: int)
    ensures
        rooms.len() == 0 ==> carved(rooms.push(cand), x, y) == interior_contains(cand, x, y),
        rooms.len() > 0 ==> carved(rooms.push(cand), x, y) == (carved(rooms, x, y)
            || interior_contains(cand, x, y) || corridor_contains(rooms.last(), cand, x, y)),
{
    let rs = rooms.push(cand);
    let n = rooms.len() as int;
    assert(rs[n] == cand);
    assert(forall|i: int| 0 <= i < n ==> rs[i] == rooms[i]);
    if carved(rs, x, y) {
        if exists|i: int| 0 <= i < rs.len() && interior_contains(rs[i], x, y) {
            let i = choose|i: int| 0 <= i < rs.len() && interior_contains(rs[i], x, y);
            if i < n {
                assert(interior_contains(rooms[i], x, y));
                assert(carved(rooms, x, y));
            } else {
                assert(interior_contains(cand, x, y));
            }
        } else {
            let i = choose|i: int|
                1 <= i < rs.len() && #[trigger] corridor_contains(rs[i - 1], rs[i], x, y);
            if i < n {
                assert(corridor_contains(rooms[i - 1], rooms[i], x, y));
                assert(carved(rooms, x, y));
            } else {
                assert(corridor_contains(rooms.last(), cand, x, y));
            }
        }
    }
    if interior_contains(cand, x, y) {
        assert(interior_contains(rs[n], x, y));
        assert(carved(rs, x, y));
    }
    if rooms.len() > 0 {
        if carved(rooms, x, y) {
            if exists|i: int| 0 <= i < rooms.len() && interior_contains(rooms[i], x, y) {
                let i = choose|i: int| 0 <= i < rooms.len() && interior_contains(rooms[i], x, y);
                assert(interior_contains(rs[i], x, y));
                assert(carved(rs, x, y));
            } else {
                let i = choose|i: int|
                    1 <= i < rooms.len() && #[trigger] corridor_contains(
                        rooms[i - 1],
                        rooms[i],
                        x,
                        y,
                    );
                assert(corridor_contains(rs[i - 1], rs[i], x, y));
                assert(carved(rs, x, y));
            }
        }
        if corridor_contains(rooms.last(), cand, x, y) {
            assert(corridor_contains(rs[n - 1], rs[n], x, y));
            assert(carved(rs, x, y));
        }
    }
}

/// Make every tile strictly inside the rectangle passable. The boundary ring
/// (`x1`, `x2`, `y1`, `y2` themselves) is left untouched, which is what
/// produces visible room walls.
pub fn create_room(room: Rect, map: &mut Grid)
    requires
        old(map).wf(),
        0 <= room.x1 <= room.x2,
        room.x2 < old(map).spec_width(),
        0 <= room.y1 <= room.y2,
        room.y2 < old(map).spec_height(),
    ensures
        final(map).wf(),
        final(map).spec_width() == old(map).spec_width(),
        final(map).spec_height() == old(map).spec_height(),
        forall|x: int, y: int|
            0 <= x < old(map).spec_width() && 0 <= y < old(map).spec_height() ==> final(map).at(
                x,
                y,
            ) == (if interior_contains(room, x, y) {
                empty_tile()
            } else {
                old(map).at(x, y)
            }),
{
    let ghost m0: Grid = *map;
    let mut x = room.x1 + 1;
    while x < room.x2
        invariant
            map.wf(),
            map.spec_width() == m0.spec_width(),
            map.spec_height() == m0.spec_height(),
            0 <= room.x1 <= room.x2,
            room.x2 < m0.spec_width(),
            0 <= room.y1 <= room.y2,
            room.y2 < m0.spec_height(),
            room.x1 + 1 <= x,
            x <= m0.spec_width(),
            forall|xx: int, yy: int|
                0 <= xx < m0.spec_width() && 0 <= yy < m0.spec_height() ==> #[trigger] map.at(
                    xx,
                    yy,
                ) == (if interior_contains(room, xx, yy) && xx < x {
                    empty_tile()
                } else {
                    m0.at(xx, yy)
                }),
        decreases room.x2 - x,
    {
        let mut y = room.y1 + 1;
        while y < room.y2
            invariant
                map.wf(),
                map.spec_width() == m0.spec_width(),
                map.spec_height() == m0.spec_height(),
                0 <= room.x1 <= room.x2,
                room.x2 < m0.spec_width(),
                0 <= room.y1 <= room.y2,
                room.y2 < m0.spec_height(),
                room.x1 + 1 <= x < room.x2,
                room.y1 + 1 <= y,
                y <= m0.spec_height(),
                forall|xx: int, yy: int|
                    0 <= xx < m0.spec_width() && 0 <= yy < m0.spec_height() ==> #[trigger] map.at(
                        xx,
                        yy,
                    ) == (if interior_contains(room, xx, yy) && (xx < x || (xx == x && yy < y)) {
                        empty_tile()
                    } else {
                        m0.at(xx, yy)
                    }),
            decreases room.y2 - y,
        {
            map.set_tile(x, y, Tile::empty());
            y = y + 1;
        }
        x = x + 1;
    }
}

/// Carve a straight one-tile-thick horizontal corridor in row `y`, spanning
/// from `x1` to `x2` inclusive, in either order.
pub fn create_h_tunnel(x1: i32, x2: i32, y: i32, map: &mut Grid)
    requires
        old(map).wf(),
        0 <= x1 < old(map).spec_width(),
        0 <= x2 < old(map).spec_width(),
        0 <= y < old(map).spec_height(),
    ensures
        final(map).wf(),
        final(map).spec_width() == old(map).spec_width(),
        final(map).spec_height() == old(map).spec_height(),
        forall|xx: int, yy: int|
            0 <= xx < old(map).spec_width() && 0 <= yy < old(map).spec_height() ==> final(map).at(
                xx,
                yy,
            ) == (if h_corridor_contains(x1 as int, x2 as int, y as int, xx, yy) {
                empty_tile()
            } else {
                old(map).at(xx, yy)
            }),
{
    let ghost m0: Grid = *map;
    let lo = if x1 < x2 {
        x1
    } else {
        x2
    };
    let hi = if x1 < x2 {
        x2
    } else {
        x1
    };
    let mut x = lo;
    while x <= hi
        invariant
            map.wf(),
            map.spec_width() == m0.spec_width(),
            map.spec_height() == m0.spec_height(),
            0 <= lo <= hi < m0.spec_width(),
            0 <= y < m0.spec_height(),
            lo <= x <= hi + 1,
            forall|xx: int, yy: int|
                0 <= xx < m0.spec_width() && 0 <= yy < m0.spec_height() ==> map.at(xx, yy) == (
                if yy == y && lo <= xx < x {
                    empty_tile()
                } else {
                    m0.at(xx, yy)
                }),
        decreases hi + 1 - x,
    {
        map.set_tile(x, y, Tile::empty());
        x = x + 1;
    }
}

/// Carve a straight one-tile-thick vertical corridor in column `x`, spanning
/// from `y1` to `y2` inclusive, in either order.
pub fn create_v_tunnel(y1: i32, y2: i32, x: i32, map: &mut Grid)
    requires
        old(map).wf(),
        0 <= y1 < old(map).spec_height(),
        0 <= y2 < old(map).spec_height(),
        0 <= x < old(map).spec_width(),
    ensures
        final(map).wf(),
        final(map).spec_width() == old(map).spec_width(),
        final(map).spec_height() == old(map).spec_height(),
        forall|xx: int, yy: int|
            0 <= xx < old(map).spec_width() && 0 <= yy < old(map).spec_height() ==> final(map).at(
                xx,
                yy,
            ) == (if v_corridor_contains(y1 as int, y2 as int, x as int, xx, yy) {
                empty_tile()
            } else {
                old(map).at(xx, yy)
            }),
{
    let ghost m0: Grid = *map;
    let lo = if y1 < y2 {
        y1
    } else {
        y2
    };
    let hi = if y1 < y2 {
        y2
    } else {
        y1
    };
    let mut y = lo;
    while y <= hi
        invariant
            map.wf(),
            map.spec_width() == m0.spec_width(),
            map.spec_height() == m0.spec_height(),
            0 <= lo <= hi < m0.spec_height(),
            0 <= x < m0.spec_width(),
            lo <= y <= hi + 1,
            forall|xx: int, yy: int|
                0 <= xx < m0.spec_width() && 0 <= yy < m0.spec_height() ==> map.at(xx, yy) == (
                if xx == x && lo <= yy < y {
                    empty_tile()
                } else {
                    m0.at(xx, yy)
                }),
        decreases hi + 1 - y,
    {
        map.set_tile(x, y, Tile::empty());
        y = y + 1;
    }
}

/// Everything one generation run produces: the carved grid, the accepted
/// rooms in order of acceptance, and the spawn point, if any room was
/// accepted.
pub struct GeneratedMap {
    pub grid: Grid,
    pub rooms: Vec<Rect>,
    pub spawn: Option<(i32, i32)>,
}

/// Run the whole generator on a fixed sequence of random draws: reject each
/// candidate that overlaps an already accepted room, carve each accepted
/// room, wire it by an L-shaped corridor to the room accepted just before
/// it, and take the first accepted room's center as the spawn point. The
/// result is a function of `samples` alone: generation is deterministic
/// given the random draws.
pub fn generate(width: i32, height: i32, samples: &Vec<RoomSample>) -> (out: GeneratedMap)
    requires
        1 <= width <= 0x4000_0000,
        1 <= height <= 0x4000_0000,
        width * height <= i32::MAX,
        forall|i: int|
            0 <= i < samples@.len() ==> valid_sample(samples@[i], width as int, height as int),
    ensures
        out.grid.wf(),
        out.grid.spec_width() == width,
        out.grid.spec_height() == height,
        out.rooms@ == accepted_rooms(samples@),
        forall|x: int, y: int|
            0 <= x < width && 0 <= y < height ==> out.grid.at(x, y) == generated_tile(
                accepted_rooms(samples@),
                x,
                y,
            ),
        spawn_matches(out.spawn, accepted_rooms(samples@)),
{
    let mut grid = Grid::new(width, height);
    let mut rooms: Vec<Rect> = Vec::new();
    let mut spawn: Option<(i32, i32)> = None;
    proof {
        assert(samples@.take(0) =~= Seq::<RoomSample>::empty());
    }
    let mut i: usize = 0;
    while i < samples.len()
        invariant
            grid.wf(),
            grid.spec_width() == width,
            grid.spec_height() == height,
            1 <= width <= 0x4000_0000,
            1 <= height <= 0x4000_0000,
            i <= samples@.len(),
            forall|k: int|
                0 <= k < samples@.len() ==> valid_sample(
                    samples@[k],
                    width as int,
                    height as int,
                ),
            rooms@ == accepted_rooms(samples@.take(i as int)),
            forall|k: int|
                0 <= k < rooms@.len() ==> rect_in_grid(
                    #[trigger] rooms@[k],
                    width as int,
                    height as int,
                ),
            forall|x: int, y: int|
                0 <= x < width && 0 <= y < height ==> grid.at(x, y) == generated_tile(
                    rooms@,
                    x,
                    y,
                ),
            spawn_matches(spawn, rooms@),
        decreases samples@.len() - i,
    {
        let s = samples[i];
        let room = Rect::new(s.x, s.y, s.w, s.h);
        let ghost old_rooms = rooms@;
        proof {
            assert(valid_sample(samples@[i as int], width as int, height as int));
            assert(room == rect_of_sample(samples@[i as int]));
            assert(rect_in_grid(room, width as int, height as int));
        }
        let mut failed = false;
        let mut j: usize = 0;
        while j < rooms.len()
            invariant
                j <= rooms@.len(),
                failed == exists|k: int|
                    0 <= k < j && #[trigger] rect_intersects(room, rooms@[k]),
            decreases rooms@.len() - j,
        {
            if room.intersects_with(&rooms[j]) {
                failed = true;
            }
            j = j + 1;
        }
        proof {
            assert(failed == hits_existing(rooms@, room));
        }
        if !failed {
            proof {
                lemma_center_in_rect(room);
            }
            create_room(room, &mut grid);
            let center = room.center();
            if rooms.len() == 0 {
                spawn = Some(center);
            } else {
                let prev = rooms[rooms.len() - 1];
                proof {
                    lemma_center_in_rect(prev);
                }
                let prev_center = prev.center();
                create_h_tunnel(prev_center.0, center.0, prev_center.1, &mut grid);
                create_v_tunnel(prev_center.1, center.1, center.0, &mut grid);
            }
            rooms.push(room);
            proof {
                assert forall|x: int, y: int|
                    0 <= x < width && 0 <= y < height implies grid.at(x, y) == generated_tile(
                    rooms@,
                    x,
                    y,
                ) by {
                    lemma_carved_push(old_rooms, room, x, y);
                }
            }
        }
        proof {
            assert(samples@.take(i as int + 1).drop_last() =~= samples@.take(i as int));
            assert(samples@.take(i as int + 1).last() == samples@[i as int]);
            assert(rooms@ == accepted_rooms(samples@.take(i as int + 1)));
        }
        i = i + 1;
    }
    proof {
        assert(samples@.take(samples@.len() as int) =~= samples@);
    }
    GeneratedMap { grid, rooms, spawn }
}

/// Relies on `rand::random_range`: a draw from the half-open range
/// `lo..hi`, uniform over it. It panics on an empty range, so a non-empty
/// one is required; nothing beyond membership in the range is promised of
/// the draw, and two calls on the same range may differ.
#[verifier::external_body]
fn sample_range(lo: i32, hi: i32) -> (r: i32)
    requires
        lo < hi,
    ensures
        lo <= r < hi,
{
    rand::random_range(lo..hi)
}

/// What one finished standard run leaves behind, as a function of the
/// random draws it consumed: every tile of the map is determined by the
/// rooms those draws produce, and the player stands at the first accepted
/// room's center, or where it started when no room was accepted.
pub open spec fn run_outcome(
    samples: Seq<RoomSample>,
    map: Grid,
    player_before: Object,
    player_after: Object,
) -> bool {
    let rooms = accepted_rooms(samples);
    &&& samples.len() == MAX_ROOMS
    &&& forall|i: int|
        0 <= i < samples.len() ==> (valid_sample(
            #[trigger] samples[i],
            MAP_WIDTH as int,
            MAP_HEIGHT as int,
        ) && ROOM_MIN_SIZE <= samples[i].w <= ROOM_MAX_SIZE && ROOM_MIN_SIZE <= samples[i].h
            <= ROOM_MAX_SIZE)
    &&& forall|x: int, y: int|
        0 <= x < MAP_WIDTH && 0 <= y < MAP_HEIGHT ==> map.at(x, y) == generated_tile(rooms, x, y)
    &&& if rooms.len() > 0 {
        player_after.x == center_x(rooms[0]) && player_after.y == center_y(rooms[0])
    } else {
        player_after.x == player_before.x && player_after.y == player_before.y
    }
    &&& player_after.symbol == player_before.symbol
    &&& player_after.color == player_before.color
}

/// Generate the standard dungeon: draw `MAX_ROOMS` room candidates on a
/// `MAP_WIDTH` by `MAP_HEIGHT` grid with sides between `ROOM_MIN_SIZE` and
/// `ROOM_MAX_SIZE`, keep the non-overlapping ones, and move the player to
/// the first accepted room's center. Whatever the draws turn out to be, the
/// result is an honest generation outcome of some such draw sequence.
pub fn make_map(player: &mut Object) -> (map: Grid)
    ensures
        map.wf(),
        map.spec_width() == MAP_WIDTH as int,
        map.spec_height() == MAP_HEIGHT as int,
        exists|samples: Seq<RoomSample>|
            #[trigger] run_outcome(samples, map, *old(player), *final(player)),
{
    let mut samples: Vec<RoomSample> = Vec::new();
    let mut i: i32 = 0;
    while i < MAX_ROOMS
        invariant
            0 <= i <= MAX_ROOMS,
            samples@.len() == i,
            forall|k: int|
                0 <= k < samples@.len() ==> (valid_sample(
                    #[trigger] samples@[k],
                    MAP_WIDTH as int,
                    MAP_HEIGHT as int,
                ) && ROOM_MIN_SIZE <= samples@[k].w <= ROOM_MAX_SIZE && ROOM_MIN_SIZE
                    <= samples@[k].h <= ROOM_MAX_SIZE),
        decreases MAX_ROOMS - i,
    {
        let w = sample_range(ROOM_MIN_SIZE, ROOM_MAX_SIZE + 1);
        let h = sample_range(ROOM_MIN_SIZE, ROOM_MAX_SIZE + 1);
        let x = sample_range(0, MAP_WIDTH - w);
        let y = sample_range(0, MAP_HEIGHT - h);
        samples.push(RoomSample { w, h, x, y });
        i = i + 1;
    }
    let out = generate(MAP_WIDTH, MAP_HEIGHT, &samples);
    match out.spawn {
        Some(c) => {
            player.x = c.0;
            player.y = c.1;
        },
        None => {},
    }
    proof {
        assert(run_outcome(samples@, out.grid, *old(player), *player));
    }
    out.grid
}

} // verus!
