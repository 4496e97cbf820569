use vstd::prelude::*;
use crate::grid::Game;
use std::collections::HashMap;

verus! {

/// A color as red, green and blue components; a presentation attribute the
/// core algorithm never reads.
#[derive(Clone, Copy, Debug, PartialEq, Eq, Structural)]
pub struct Color {
    pub r: u8,
    pub g: u8,
    pub b: u8,
}

/// An entity on the map: an integer position plus presentation attributes.
/// After any successful move the occupied tile is not blocked.
#[derive(Debug)]
pub struct Object {
    pub x: i32,
    pub y: i32,
    pub symbol: char,
    pub color: Color,
}

impl Object {
    pub fn new(x: i32, y: i32, symbol: char, color: Color) -> (o: Object)
        ensures
            o == (Object { x, y, symbol, color }),
    {
        Object { x, y, symbol, color }
    }

    /// Move by the given amount if the destination tile is passable;
    /// otherwise the call is a silent no-op. Returns whether the entity
    /// actually moved, so a caller can decide whether a turn was consumed.
    /// The caller must keep the destination inside the grid.
    pub fn move_by(&mut self, dx: i32, dy: i32, game: &Game) -> (moved: bool)
        requires
            game.map.wf(),
            0 <= old(self).x + dx < game.map.spec_width(),
            0 <= old(self).y + dy < game.map.spec_height(),
        ensures
            moved == !game.map.at(old(self).x + dx, old(self).y + dy).blocked,
            moved ==> final(self).x == old(self).x + dx && final(self).y == old(self).y + dy,
            !moved ==> final(self).x == old(self).x && final(self).y == old(self).y,
            final(self).symbol == old(self).symbol,
            final(self).color == old(self).color,
    {
        let tx = self.x + dx;
        let ty = self.y + dy;
        if !game.map.tile_at(tx, ty).blocked {
            self.x = tx;
            self.y = ty;
            true
        } else {
            false
        }
    }
}

/// Every entity sharing one grid: the player and the named non-player
/// characters. The core resolves entity-versus-tile collision only, so the
/// container itself carries no invariant.
pub struct Objects {
    pub player: Object,
    pub npcs: HashMap<String, Object>,
}

impl Objects {
    pub fn new(player: Object, npcs: HashMap<String, Object>) -> (o: Objects)
        ensures
            o.player == player,
            o.npcs == npcs,
    {
        Objects { player, npcs }
    }
}

} // verus!
