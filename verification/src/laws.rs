use vstd::prelude::*;
use crate::tile::{empty_tile, wall_tile};
use crate::rect::{center_x, center_y, interior_contains, lemma_center_in_rect, rect_in_grid,
    rect_intersects};
use crate::mapgen::{accepted_rooms, carved, corridor_contains, generated_tile, hits_existing,
    rect_of_sample, spawn_matches, valid_sample, GeneratedMap, RoomSample};

verus! {

/// No two accepted rooms overlap: at the moment each candidate is accepted,
/// the inclusive intersection test against every earlier accepted room is
/// false, so any two accepted rooms are separated by at least one wall tile.
pub proof fn lemma_accepted_rooms_disjoint(samples: Seq<RoomSample>, i: int, j: int)
    requires
        0 <= i < j < accepted_rooms(samples).len(),
    ensures
        !rect_intersects(accepted_rooms(samples)[j], accepted_rooms(samples)[i]),
    decreases samples.len(),
{
    if samples.len() > 0 {
        let prev = accepted_rooms(samples.drop_last());
        let cand = rect_of_sample(samples.last());
        if hits_existing(prev, cand) {
            lemma_accepted_rooms_disjoint(samples.drop_last(), i, j);
        } else if j < prev.len() {
            lemma_accepted_rooms_disjoint(samples.drop_last(), i, j);
        } else {
            assert(!rect_intersects(cand, prev[i]));
        }
    }
}

/// Every accepted room of a run over valid samples lies inside the grid with
/// its boundary ring strictly inside: origin sampling keeps `x + w < width`
/// and `y + h < height`, so each carved interior keeps at least a one-tile
/// wall between itself and the grid edge.
pub proof fn lemma_accepted_rooms_in_grid(
    samples: Seq<RoomSample>,
    width: int,
    height: int,
    k: int,
)
    requires
        width <= i32::MAX,
        height <= i32::MAX,
        forall|i: int| 0 <= i < samples.len() ==> valid_sample(#[trigger] samples[i], width, height),
        0 <= k < accepted_rooms(samples).len(),
    ensures
        rect_in_grid(accepted_rooms(samples)[k], width, height),
    decreases samples.len(),
{
    if samples.len() > 0 {
        let prev = accepted_rooms(samples.drop_last());
        let cand = rect_of_sample(samples.last());
        if hits_existing(prev, cand) || k < prev.len() {
            lemma_accepted_rooms_in_grid(samples.drop_last(), width, height, k);
        } else {
            assert(valid_sample(samples[samples.len() - 1], width, height));
            assert(rect_in_grid(cand, width, height));
        }
    }
}

/// Every accepted room is the rectangle of one of the run's samples.
proof fn lemma_accepted_room_is_some_sample(samples: Seq<RoomSample>, k: int)
    requires
        0 <= k < accepted_rooms(samples).len(),
    ensures
        exists|i: int|
            0 <= i < samples.len() && accepted_rooms(samples)[k] == #[trigger] rect_of_sample(
                samples[i],
            ),
    decreases samples.len(),
{
    if samples.len() > 0 {
        let prev = accepted_rooms(samples.drop_last());
        let cand = rect_of_sample(samples.last());
        if hits_existing(prev, cand) || k < prev.len() {
            lemma_accepted_room_is_some_sample(samples.drop_last(), k);
            let i = choose|i: int|
                0 <= i < samples.drop_last().len() && accepted_rooms(samples.drop_last())[k]
                    == #[trigger] rect_of_sample(samples.drop_last()[i]);
            assert(accepted_rooms(samples)[k] == rect_of_sample(samples[i]));
        } else {
            assert(accepted_rooms(samples)[k] == rect_of_sample(samples[samples.len() - 1]));
        }
    }
}

/// With every sample at least two tiles on a side, each accepted room's
/// center lies strictly inside the room, a tile or more away from the grid
/// edge.
proof fn lemma_room_center_strict(samples: Seq<RoomSample>, width: int, height: int, k: int)
    requires
        width <= i32::MAX,
        height <= i32::MAX,
        forall|i: int| 0 <= i < samples.len() ==> valid_sample(#[trigger] samples[i], width, height),
        forall|i: int|
            0 <= i < samples.len() ==> (#[trigger] samples[i]).w >= 2 && samples[i].h >= 2,
        0 <= k < accepted_rooms(samples).len(),
    ensures
        1 <= center_x(accepted_rooms(samples)[k]) <= width - 2,
        1 <= center_y(accepted_rooms(samples)[k]) <= height - 2,
{
    lemma_accepted_rooms_in_grid(samples, width, height, k);
    lemma_accepted_room_is_some_sample(samples, k);
    let i = choose|i: int|
        0 <= i < samples.len() && accepted_rooms(samples)[k] == #[trigger] rect_of_sample(
            samples[i],
        );
    let r = accepted_rooms(samples)[k];
    assert(valid_sample(samples[i], width, height));
    assert(r.x2 - r.x1 >= 2);
    assert(r.y2 - r.y1 >= 2);
    lemma_center_in_rect(r);
}

/// With every sample at least two tiles on a side, nothing is ever carved on
/// the grid's border: room interiors stay a tile away from the edge, and
/// corridors run between room centers, which lie strictly inside their
/// rooms.
pub proof fn lemma_border_stays_wall(
    samples: Seq<RoomSample>,
    width: int,
    height: int,
    x: int,
    y: int,
)
    requires
        width <= i32::MAX,
        height <= i32::MAX,
        forall|i: int| 0 <= i < samples.len() ==> valid_sample(#[trigger] samples[i], width, height),
        forall|i: int|
            0 <= i < samples.len() ==> (#[trigger] samples[i]).w >= 2 && samples[i].h >= 2,
        0 <= x < width,
        0 <= y < height,
        x == 0 || x == width - 1 || y == 0 || y == height - 1,
    ensures
        generated_tile(accepted_rooms(samples), x, y) == wall_tile(),
{
    let rooms = accepted_rooms(samples);
    if carved(rooms, x, y) {
        if exists|i: int| 0 <= i < rooms.len() && interior_contains(rooms[i], x, y) {
            let i = choose|i: int| 0 <= i < rooms.len() && interior_contains(rooms[i], x, y);
            lemma_accepted_rooms_in_grid(samples, width, height, i);
            assert(false);
        } else {
            let i = choose|i: int|
                1 <= i < rooms.len() && #[trigger] corridor_contains(rooms[i - 1], rooms[i], x, y);
            lemma_room_center_strict(samples, width, height, i);
            lemma_room_center_strict(samples, width, height, i - 1);
            assert(false);
        }
    }
}

/// With every sample at least two tiles on a side, the spawn point of any
/// run that accepts a room lies strictly inside the first accepted room, on
/// a carved, passable tile.
pub proof fn lemma_spawn_tile_is_carved(samples: Seq<RoomSample>, width: int, height: int)
    requires
        width <= i32::MAX,
        height <= i32::MAX,
        forall|i: int| 0 <= i < samples.len() ==> valid_sample(#[trigger] samples[i], width, height),
        forall|i: int|
            0 <= i < samples.len() ==> (#[trigger] samples[i]).w >= 2 && samples[i].h >= 2,
        accepted_rooms(samples).len() > 0,
    ensures
        interior_contains(
            accepted_rooms(samples)[0],
            center_x(accepted_rooms(samples)[0]),
            center_y(accepted_rooms(samples)[0]),
        ),
        generated_tile(
            accepted_rooms(samples),
            center_x(accepted_rooms(samples)[0]),
            center_y(accepted_rooms(samples)[0]),
        ) == empty_tile(),
{
    let rooms = accepted_rooms(samples);
    let r = rooms[0];
    lemma_accepted_rooms_in_grid(samples, width, height, 0);
    lemma_accepted_room_is_some_sample(samples, 0);
    let i = choose|i: int|
        0 <= i < samples.len() && accepted_rooms(samples)[0] == #[trigger] rect_of_sample(
            samples[i],
        );
    assert(valid_sample(samples[i], width, height));
    assert(r.x2 - r.x1 >= 2);
    assert(r.y2 - r.y1 >= 2);
    lemma_center_in_rect(r);
    assert(interior_contains(r, center_x(r), center_y(r)));
    assert(carved(rooms, center_x(r), center_y(r)));
}

/// A run given at least one candidate always accepts the first one, because
/// there is no earlier room it could overlap.
pub proof fn lemma_first_candidate_accepted(samples: Seq<RoomSample>)
    requires
        samples.len() > 0,
    ensures
        accepted_rooms(samples).len() > 0,
        accepted_rooms(samples)[0] == rect_of_sample(samples[0]),
    decreases samples.len(),
{
    if samples.len() == 1 {
        assert(accepted_rooms(samples.drop_last()).len() == 0);
        assert(!hits_existing(accepted_rooms(samples.drop_last()), rect_of_sample(samples.last())));
    } else {
        lemma_first_candidate_accepted(samples.drop_last());
        assert(samples.drop_last()[0] == samples[0]);
    }
}

/// A run given no candidates accepts no room, leaves every tile a wall and
/// defines no spawn point.
pub proof fn lemma_no_attempts_all_walls(x: int, y: int)
    ensures
        accepted_rooms(Seq::<RoomSample>::empty()).len() == 0,
        generated_tile(accepted_rooms(Seq::<RoomSample>::empty()), x, y) == wall_tile(),
        spawn_matches(None, accepted_rooms(Seq::<RoomSample>::empty())),
{
    assert(!carved(accepted_rooms(Seq::<RoomSample>::empty()), x, y));
}

/// Generation is deterministic given the random draws: any two results whose
/// contracts tie them to the same sample sequence agree tile for tile, room
/// for room, and on the spawn point.
pub proof fn lemma_generation_deterministic(
    a: GeneratedMap,
    b: GeneratedMap,
    samples: Seq<RoomSample>,
    width: int,
    height: int,
)
    requires
        a.rooms@ == accepted_rooms(samples),
        b.rooms@ == accepted_rooms(samples),
        forall|x: int, y: int|
            0 <= x < width && 0 <= y < height ==> a.grid.at(x, y) == generated_tile(
                accepted_rooms(samples),
                x,
                y,
            ),
        forall|x: int, y: int|
            0 <= x < width && 0 <= y < height ==> b.grid.at(x, y) == generated_tile(
                accepted_rooms(samples),
                x,
                y,
            ),
        spawn_matches(a.spawn, accepted_rooms(samples)),
        spawn_matches(b.spawn, accepted_rooms(samples)),
    ensures
        a.rooms@ == b.rooms@,
        forall|x: int, y: int|
            0 <= x < width && 0 <= y < height ==> a.grid.at(x, y) == b.grid.at(x, y),
        a.spawn == b.spawn,
{
    match (a.spawn, b.spawn) {
        (Some(p), Some(q)) => {
            assert(p.0 == q.0);
            assert(p.1 == q.1);
        },
        _ => {},
    }
}

} // verus!
