use vstd::prelude::*;

verus! {

/// One cell of the dungeon grid: whether an entity can stand on it and
/// whether it blocks line of sight.
#[derive(Clone, Copy, Debug, PartialEq, Eq, Structural)]
pub struct Tile {
    pub blocked: bool,
    pub block_sight: bool,
}

/// The canonical passable tile.
pub open spec fn empty_tile() -> Tile {
    Tile { blocked: false, block_sight: false }
}

/// The canonical impassable, sight-blocking tile.
pub open spec fn wall_tile() -> Tile {
    Tile { blocked: true, block_sight: true }
}

impl Tile {
    /// A passable tile that does not block sight.
    pub fn empty() -> (t: Tile)
        ensures
            t == empty_tile(),
    {
        Tile { blocked: false, block_sight: false }
    }

    /// An impassable tile that blocks sight.
    pub fn wall() -> (t: Tile)
        ensures
            t == wall_tile(),
    {
        Tile { blocked: true, block_sight: true }
    }
}

} // verus!
