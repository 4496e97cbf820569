use vstd::prelude::*;
use crate::tile::{Tile, wall_tile};

verus! {

/// A fixed-size two-dimensional array of tiles, addressed by `(x, y)` with
/// `0 <= x < width` and `0 <= y < height`. Tiles are stored flat in
/// column-major order; all access goes through bounds-checked methods.
pub struct Grid {
    pub width: i32,
    pub height: i32,
    pub tiles: Vec<Tile>,
}

/// A flat index is in range exactly when its coordinates are.
proof fn lemma_flat_index_bounds(w: int, h: int, x: int, y: int)
    requires
        0 <= x < w,
        0 <= y < h,
    ensures
        0 <= x * h + y < w * h,
{
    assert(x * h + y < w * h) by (nonlinear_arith)
        requires
            0 <= x < w,
            0 <= y < h,
    ;
    assert(0 <= x * h + y) by (nonlinear_arith)
        requires
            0 <= x,
            0 <= y < h,
    ;
}

/// Distinct coordinates give distinct flat indices.
proof fn lemma_flat_index_injective(h: int, xa: int, ya: int, xb: int, yb: int)
    requires
        0 <= ya < h,
        0 <= yb < h,
        xa * h + ya == xb * h + yb,
    ensures
        xa == xb,
        ya == yb,
{
    assert(xa == xb && ya == yb) by (nonlinear_arith)
        requires
            0 <= ya < h,
            0 <= yb < h,
            xa * h + ya == xb * h + yb,
    ;
}

impl Grid {
    /// The grid's width, as a mathematical integer.
    pub open spec fn spec_width(self) -> int {
        self.width as int
    }

    /// The grid's height, as a mathematical integer.
    pub open spec fn spec_height(self) -> int {
        self.height as int
    }

    /// Well-formedness: the flat storage holds exactly one tile per
    /// coordinate of the advertised extent.
    pub open spec fn wf(self) -> bool {
        &&& 0 <= self.width
        &&& 0 <= self.height
        &&& self.width * self.height <= i32::MAX
        &&& self.tiles@.len() == self.width * self.height
    }

    /// The tile at `(x, y)`.
    pub open spec fn at(self, x: int, y: int) -> Tile {
        self.tiles@[x * self.height + y]
    }

    /// A grid of the given extent with every tile a wall.
    pub fn new(width: i32, height: i32) -> (g: Grid)
        requires
            0 <= width,
            0 <= height,
            width * height <= i32::MAX,
        ensures
            g.wf(),
            g.spec_width() == width,
            g.spec_height() == height,
            forall|x: int, y: int|
                0 <= x < width && 0 <= y < height ==> g.at(x, y) == wall_tile(),
    {
        let n: usize = (width as usize) * (height as usize);
        let mut tiles: Vec<Tile> = Vec::new();
        let mut i: usize = 0;
        while i < n
            invariant
                i <= n,
                tiles@.len() == i,
                forall|k: int| 0 <= k < i ==> tiles@[k] == wall_tile(),
            decreases n - i,
        {
            tiles.push(Tile::wall());
            i = i + 1;
        }
        let g = Grid { width, height, tiles };
        proof {
            assert forall|x: int, y: int|
                0 <= x < width && 0 <= y < height implies g.at(x, y) == wall_tile() by {
                lemma_flat_index_bounds(width as int, height as int, x, y);
            }
        }
        g
    }

    /// The grid's width.
    pub fn width(&self) -> (w: i32)
        ensures
            w == self.spec_width(),
    {
        self.width
    }

    /// The grid's height.
    pub fn height(&self) -> (h: i32)
        ensures
            h == self.spec_height(),
    {
        self.height
    }

    /// Read the tile at `(x, y)`; the coordinates must be in range.
    pub fn tile_at(&self, x: i32, y: i32) -> (t: Tile)
        requires
            self.wf(),
            0 <= x < self.spec_width(),
            0 <= y < self.spec_height(),
        ensures
            t == self.at(x as int, y as int),
    {
        proof {
            lemma_flat_index_bounds(
                self.spec_width(),
                self.spec_height(),
                x as int,
                y as int,
            );
        }
        let idx: usize = (x as usize) * (self.height as usize) + (y as usize);
        self.tiles[idx]
    }

    /// Overwrite the tile at `(x, y)`, leaving every other tile unchanged.
    pub fn set_tile(&mut self, x: i32, y: i32, t: Tile)
        requires
            old(self).wf(),
            0 <= x < old(self).spec_width(),
            0 <= y < old(self).spec_height(),
        ensures
            final(self).wf(),
            final(self).spec_width() == old(self).spec_width(),
            final(self).spec_height() == old(self).spec_height(),
            final(self).at(x as int, y as int) == t,
            forall|xx: int, yy: int|
                0 <= xx < old(self).spec_width() && 0 <= yy < old(self).spec_height()
                    && !(xx == x && yy == y) ==> final(self).at(xx, yy) == old(self).at(xx, yy),
    {
        proof {
            lemma_flat_index_bounds(
                self.spec_width(),
                self.spec_height(),
                x as int,
                y as int,
            );
        }
        let idx: usize = (x as usize) * (self.height as usize) + (y as usize);
        self.tiles.set(idx, t);
        proof {
            assert forall|xx: int, yy: int|
                0 <= xx < old(self).spec_width() && 0 <= yy < old(self).spec_height()
                    && !(xx == x && yy == y) implies self.at(xx, yy) == old(self).at(
                xx,
                yy,
            ) by {
                lemma_flat_index_bounds(old(self).spec_width(), old(self).spec_height(), xx, yy);
                if xx * old(self).spec_height() + yy == idx {
                    lemma_flat_index_injective(
                        old(self).spec_height(),
                        xx,
                        yy,
                        x as int,
                        y as int,
                    );
                }
            }
        }
    }
}

/// The game session's shared state: the finished grid that movement checks
/// and the renderer consult.
pub struct Game {
    pub map: Grid,
}

} // verus!
