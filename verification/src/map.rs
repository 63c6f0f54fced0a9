use vstd::prelude::*;

verus! {

/// Half of the arena's width, in metres.
pub const ARENA_HALF_WIDTH: u32 = 80;

/// Half of the arena's height, in metres.
pub const ARENA_HALF_HEIGHT: u32 = 60;

/// Thickness of a wall, in metres.
pub const WALL_THICKNESS: u32 = 1;

/// A static wall: a box centred at (`x`, `y`) with the given half extents.
#[derive(Debug, Clone, Copy, PartialEq, Eq)]
pub struct Wall {
    pub x: i64,
    pub y: i64,
    pub half_width: i64,
    pub half_height: i64,
}

/// `w` are the four walls (top, bottom, left, right) around an arena of the
/// given half extents: each wall lies just outside one side, and the top and
/// bottom walls reach over the corners to the outer faces of the side walls.
pub open spec fn are_arena_walls(w: Seq<Wall>, hw: int, hh: int, wt: int) -> bool {
    &&& w.len() == 4
    &&& w[0].x == 0 && w[0].y == hh + wt && w[0].half_width == hw + wt && w[0].half_height == wt
    &&& w[1].x == 0 && w[1].y == -hh - wt && w[1].half_width == hw + wt && w[1].half_height == wt
    &&& w[2].x == -hw - wt && w[2].y == 0 && w[2].half_width == wt && w[2].half_height == hh + wt
    &&& w[3].x == hw + wt && w[3].y == 0 && w[3].half_width == wt && w[3].half_height == hh + wt
}

/// Lays out the walls around an arena of the given half extents.
pub fn arena_walls(half_width: u32, half_height: u32, thickness: u32) -> (walls: [Wall; 4])
    ensures
        are_arena_walls(walls@, half_width as int, half_height as int, thickness as int),
        walls[0].half_height == thickness,
        walls[1].half_height == thickness,
        walls[2].half_width == thickness,
        walls[3].half_width == thickness,
        walls[0].y - walls[0].half_height == half_height,
        walls[1].y + walls[1].half_height == -half_height,
        walls[2].x + walls[2].half_width == -half_width,
        walls[3].x - walls[3].half_width == half_width,
{
    let hw: i64 = half_width as i64;
    let hh: i64 = half_height as i64;
    let wt: i64 = thickness as i64;
    let walls = [
        Wall { x: 0, y: hh + wt, half_width: hw + wt, half_height: wt },
        Wall { x: 0, y: -hh - wt, half_width: hw + wt, half_height: wt },
        Wall { x: -hw - wt, y: 0, half_width: wt, half_height: hh + wt },
        Wall { x: hw + wt, y: 0, half_width: wt, half_height: hh + wt },
    ];
    walls
}

/// The walls enclose the arena: the inner face of each wall lies exactly on
/// one side of the arena, each wall is as thick as asked (its outer face lies
/// twice the thickness beyond the arena), and at each corner the top or
/// bottom wall overlaps the side wall, so no gap is left for a vehicle to
/// leave through.
pub proof fn lemma_walls_enclose_arena(w: Seq<Wall>, half_width: int, half_height: int, thickness: int)
    requires
        are_arena_walls(w, half_width, half_height, thickness),
        thickness > 0,
    ensures
        w[0].y - w[0].half_height == half_height,
        w[1].y + w[1].half_height == -half_height,
        w[2].x + w[2].half_width == -half_width,
        w[3].x - w[3].half_width == half_width,
        // each wall is as thick as asked
        w[0].half_height == thickness,
        w[1].half_height == thickness,
        w[2].half_width == thickness,
        w[3].half_width == thickness,
        w[0].y + w[0].half_height == half_height + 2 * thickness,
        w[1].y - w[1].half_height == -half_height - 2 * thickness,
        w[2].x - w[2].half_width == -half_width - 2 * thickness,
        w[3].x + w[3].half_width == half_width + 2 * thickness,
        // the top and bottom walls reach into the side walls
        w[0].x - w[0].half_width < w[2].x + w[2].half_width,
        w[0].x + w[0].half_width > w[3].x - w[3].half_width,
        w[1].x - w[1].half_width < w[2].x + w[2].half_width,
        w[1].x + w[1].half_width > w[3].x - w[3].half_width,
        // the side walls reach into the top and bottom walls
        w[2].y + w[2].half_height > w[0].y - w[0].half_height,
        w[2].y - w[2].half_height < w[1].y + w[1].half_height,
        w[3].y + w[3].half_height > w[0].y - w[0].half_height,
        w[3].y - w[3].half_height < w[1].y + w[1].half_height,
{
}

/// The playing field: its half extents, in metres.
#[derive(Debug, Clone, Copy, PartialEq, Eq)]
pub struct Arena {
    pub half_width: u32,
    pub half_height: u32,
}

impl Arena {
    /// The arena of this game, 160 m by 120 m.
    pub fn new() -> (a: Arena)
        ensures
            a.half_width == ARENA_HALF_WIDTH,
            a.half_height == ARENA_HALF_HEIGHT,
    {
        Arena { half_width: ARENA_HALF_WIDTH, half_height: ARENA_HALF_HEIGHT }
    }

    /// The walls around this arena.
    pub fn walls(&self) -> (walls: [Wall; 4])
        ensures
            are_arena_walls(walls@, self.half_width as int, self.half_height as int, WALL_THICKNESS as int),
    {
        arena_walls(self.half_width, self.half_height, WALL_THICKNESS)
    }
}

} // verus!
