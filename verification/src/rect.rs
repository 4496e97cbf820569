use vstd::prelude::*;

verus! {

/// An axis-aligned rectangle on the map, used to describe a candidate room.
/// `new` builds it from an origin and a positive width and height, so
/// `x1 < x2` and `y1 < y2` for every rectangle the generator handles.
#[derive(Clone, Copy, Debug)]
pub struct Rect {
    pub x1: i32,
    pub y1: i32,
    pub x2: i32,
    pub y2: i32,
}

/// The column of the rectangle's center: the truncating midpoint of the two
/// diagonal corners.
pub open spec fn center_x(r: Rect) -> int {
    (r.x1 + r.x2) / 2
}

/// The row of the rectangle's center.
pub open spec fn center_y(r: Rect) -> int {
    (r.y1 + r.y2) / 2
}

/// Whether two rectangles overlap, with inclusive bounds on both axes:
/// rectangles that merely touch edges count as intersecting, which is what
/// guarantees a one-tile separating wall between any two accepted rooms.
pub open spec fn rect_intersects(a: Rect, b: Rect) -> bool {
    a.x1 <= b.x2 && a.x2 >= b.x1 && a.y1 <= b.y2 && a.y2 >= b.y1
}

/// Whether `(x, y)` lies strictly inside the rectangle; these are the tiles
/// room carving makes passable, leaving the boundary ring as wall.
pub open spec fn interior_contains(r: Rect, x: int, y: int) -> bool {
    r.x1 < x < r.x2 && r.y1 < y < r.y2
}

/// The rectangle sits inside a `width` by `height` grid with its boundary
/// ring strictly inside, so its carved interior keeps at least a one-tile
/// wall between itself and the grid edge.
pub open spec fn rect_in_grid(r: Rect, width: int, height: int) -> bool {
    0 <= r.x1 && r.x1 < r.x2 && r.x2 < width && 0 <= r.y1 && r.y1 < r.y2 && r.y2 < height
}

/// A rectangle's center always lies inside it; with both sides of length at
/// least two it lies strictly inside, away from the boundary ring.
pub proof fn lemma_center_in_rect(r: Rect)
    requires
        0 <= r.x1 < r.x2,
        0 <= r.y1 < r.y2,
    ensures
        r.x1 <= center_x(r) < r.x2,
        r.y1 <= center_y(r) < r.y2,
        r.x2 - r.x1 >= 2 ==> r.x1 < center_x(r),
        r.y2 - r.y1 >= 2 ==> r.y1 < center_y(r),
{
}

impl Rect {
    /// Build the rectangle covering `[x, x + w] x [y, y + h]`.
    pub fn new(x: i32, y: i32, w: i32, h: i32) -> (r: Rect)
        requires
            0 <= x,
            0 <= y,
            0 < w,
            0 < h,
            x + w <= i32::MAX,
            y + h <= i32::MAX,
        ensures
            r.x1 == x,
            r.y1 == y,
            r.x2 == x + w,
            r.y2 == y + h,
    {
        Rect { x1: x, y1: y, x2: x + w, y2: y + h }
    }

    /// The truncating midpoint of the two diagonal corners; always inside
    /// the rectangle.
    pub fn center(&self) -> (c: (i32, i32))
        requires
            0 <= self.x1 + self.x2 <= i32::MAX,
            0 <= self.y1 + self.y2 <= i32::MAX,
        ensures
            c.0 == center_x(*self),
            c.1 == center_y(*self),
    {
        let cx = (self.x1 + self.x2) / 2;
        let cy = (self.y1 + self.y2) / 2;
        (cx, cy)
    }

    /// Whether this rectangle intersects with another one, inclusive of
    /// boundary touching.
    pub fn intersects_with(&self, other: &Rect) -> (r: bool)
        ensures
            r == rect_intersects(*self, *other),
    {
        (self.x1 <= other.x2) && (self.x2 >= other.x1) && (self.y1 <= other.y2)
            && (self.y2 >= other.y1)
    }
}

} // verus!
