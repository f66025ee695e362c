//! The tile grid and the carving primitives of the level generator:
//! rooms are axis-aligned rectangles whose interior is carved out of the
//! rock, and L-shaped tunnels connect successive room centers.
use crate::{MAP_HEIGHT, MAP_WIDTH};
use vstd::prelude::*;

verus! {

/// One grid cell: whether it stops movement, whether it stops sight, and
/// whether the player has seen it (written back by the renderer).
#[derive(Clone, Copy, Debug, PartialEq, Eq, Structural)]
pub struct Tile {
    pub blocked: bool,
    pub block_sight: bool,
    pub explored: bool,
}

/// The carved-floor tile value.
pub open spec fn tile_empty() -> Tile {
    Tile { blocked: false, block_sight: false, explored: false }
}

impl Tile {
    /// A walkable, transparent, unexplored tile.
    pub fn empty() -> (t: Tile)
        ensures
            t == tile_empty(),
    {
        Tile { blocked: false, block_sight: false, explored: false }
    }

    /// A solid rock tile.
    pub fn wall() -> (t: Tile)
        ensures
            t == (Tile { blocked: true, block_sight: true, explored: false }),
    {
        Tile { blocked: true, block_sight: true, explored: false }
    }
}

/// Whether a coordinate pair lies on the grid.
pub open spec fn in_map(x: int, y: int) -> bool {
    0 <= x < MAP_WIDTH as int && 0 <= y < MAP_HEIGHT as int
}

/// The tile grid, indexed `tiles[x][y]`, with fixed dimensions.
#[derive(Debug)]
pub struct GameMap {
    pub tiles: Vec<Vec<Tile>>,
}

impl GameMap {
    /// The grid has exactly the fixed dimensions.
    pub open spec fn wf(self) -> bool {
        &&& self.tiles@.len() == MAP_WIDTH as int
    &&& forall|x: int|
        0 <= x < MAP_WIDTH as int ==> (#[trigger] self.tiles@[x])@.len() == MAP_HEIGHT as int
    }

    /// The tile at a coordinate.
    pub open spec fn at(self, x: int, y: int) -> Tile {
        self.tiles@[x]@[y]
    }

    /// Whether the tile at a coordinate stops movement.
    pub open spec fn blocked_at(self, x: int, y: int) -> bool {
        self.at(x, y).blocked
    }

    /// A coordinate that is on the grid and carved floor.
    pub open spec fn open_at(self, x: int, y: int) -> bool {
        in_map(x, y) && !self.blocked_at(x, y)
    }

    /// The outermost ring of the grid is solid rock, so nothing standing
    /// on floor is ever at the very edge.
    pub open spec fn border_walls(self) -> bool {
        forall|x: int, y: int|
            in_map(x, y) && (x == 0 || x == MAP_WIDTH as int - 1 || y == 0 || y == MAP_HEIGHT
                as int - 1) ==> #[trigger] self.blocked_at(x, y)
    }

    /// A grid of solid rock, ready for carving.
    pub fn all_walls() -> (m: GameMap)
        ensures
            m.wf(),
            forall|x: int, y: int|
                in_map(x, y) ==> #[trigger] m.at(x, y) == (Tile {
                    blocked: true,
                    block_sight: true,
                    explored: false,
                }),
    {
        let mut tiles: Vec<Vec<Tile>> = Vec::new();
        let mut x: usize = 0;
        while x < MAP_WIDTH as usize
            invariant
                x <= MAP_WIDTH as usize,
                tiles@.len() == x as int,
                forall|i: int|
                    0 <= i < x as int ==> (#[trigger] tiles@[i])@ =~= Seq::new(
                        MAP_HEIGHT as nat,
                        |j: int| (Tile { blocked: true, block_sight: true, explored: false }),
                    ),
            decreases MAP_WIDTH as usize - x,
        {
            let mut col: Vec<Tile> = Vec::new();
            let mut y: usize = 0;
            while y < MAP_HEIGHT as usize
                invariant
                    y <= MAP_HEIGHT as usize,
                    col@.len() == y as int,
                    forall|j: int|
                        0 <= j < y as int ==> #[trigger] col@[j] == (Tile {
                            blocked: true,
                            block_sight: true,
                            explored: false,
                        }),
                decreases MAP_HEIGHT as usize - y,
            {
                col.push(Tile::wall());
                y = y + 1;
            }
            proof {
                assert(col@ =~= Seq::new(
                    MAP_HEIGHT as nat,
                    |j: int| (Tile { blocked: true, block_sight: true, explored: false }),
                ));
            }
            tiles.push(col);
            x = x + 1;
        }
        GameMap { tiles }
    }

    /// Read the tile at a coordinate.
    pub fn tile_at(&self, x: i32, y: i32) -> (t: Tile)
        requires
            self.wf(),
            in_map(x as int, y as int),
        ensures
            t == self.at(x as int, y as int),
    {
        self.tiles[x as usize][y as usize]
    }

    /// Write the tile at a coordinate.
    pub fn set_tile(&mut self, x: i32, y: i32, t: Tile)
        requires
            old(self).wf(),
            in_map(x as int, y as int),
        ensures
            final(self).wf(),
            forall|a: int, b: int|
                in_map(a, b) ==> #[trigger] final(self).at(a, b) == (if a == x as int && b == y
                    as int {
                    t
                } else {
                    old(self).at(a, b)
                }),
    {
        let row = &mut self.tiles[x as usize];
        row[y as usize] = t;
    }
}

/// An axis-aligned room candidate; `x2`/`y2` are the far border.
#[derive(Clone, Copy, Debug, PartialEq, Eq, Structural)]
pub struct Rect {
    pub x1: i32,
    pub y1: i32,
    pub x2: i32,
    pub y2: i32,
}

impl Rect {
    /// A rectangle from its origin and size.
    pub fn new(x: i32, y: i32, w: i32, h: i32) -> (r: Rect)
        requires
            0 <= x,
            0 <= y,
            0 <= w,
            0 <= h,
            x + w <= i32::MAX,
            y + h <= i32::MAX,
        ensures
            r == (Rect { x1: x, y1: y, x2: (x + w) as i32, y2: (y + h) as i32 }),
    {
        Rect { x1: x, y1: y, x2: x + w, y2: y + h }
    }

    /// The center tile, rounding down.
    pub fn center(&self) -> (c: (i32, i32))
        requires
            0 <= self.x1 <= self.x2,
            0 <= self.y1 <= self.y2,
            self.x1 + self.x2 <= i32::MAX,
            self.y1 + self.y2 <= i32::MAX,
        ensures
            c.0 == (self.x1 + self.x2) as int / 2,
            c.1 == (self.y1 + self.y2) as int / 2,
            self.x1 <= c.0 <= self.x2,
            self.y1 <= c.1 <= self.y2,
    {
        let center_x = (self.x1 + self.x2) / 2;
        let center_y = (self.y1 + self.y2) / 2;
        (center_x, center_y)
    }

    /// Inclusive rectangle overlap: rectangles that merely touch count as
    /// intersecting, which keeps accepted rooms a tile apart.
    pub fn intersects_with(&self, other: &Rect) -> (b: bool)
        ensures
            b == (self.x1 <= other.x2 && self.x2 >= other.x1 && self.y1 <= other.y2 && self.y2
                >= other.y1),
    {
        (self.x1 <= other.x2) && (self.x2 >= other.x1) && (self.y1 <= other.y2) && (self.y2
            >= other.y1)
    }

    /// Whether a point lies strictly inside the rectangle (its interior).
    pub open spec fn interior(self, x: int, y: int) -> bool {
        self.x1 < x < self.x2 && self.y1 < y < self.y2
    }
}

/// Carve the interior of a room: every tile strictly inside the rectangle
/// becomes floor; the rectangle's own border stays as it was.
pub fn create_room(room: Rect, map: &mut GameMap)
    requires
        old(map).wf(),
        0 <= room.x1 <= room.x2 < MAP_WIDTH as int,
        0 <= room.y1 <= room.y2 < MAP_HEIGHT as int,
    ensures
        final(map).wf(),
        forall|a: int, b: int|
            in_map(a, b) ==> #[trigger] final(map).at(a, b) == (if room.interior(a, b) {
                tile_empty()
            } else {
                old(map).at(a, b)
            }),
{
    let ghost m0 = *map;
    let mut x = room.x1 + 1;
    while x < room.x2
        invariant
            map.wf(),
            room.x1 < x,
            x <= max_i(room.x1 + 1, room.x2 as int),
            0 <= room.x1 <= room.x2 < MAP_WIDTH as int,
            0 <= room.y1 <= room.y2 < MAP_HEIGHT as int,
            forall|a: int, b: int|
                in_map(a, b) ==> #[trigger] map.at(a, b) == (if room.x1 < a < x && room.y1 < b
                    < room.y2 {
                    tile_empty()
                } else {
                    m0.at(a, b)
                }),
        decreases room.x2 - x,
    {
        let ghost mx = *map;
        let mut y = room.y1 + 1;
        while y < room.y2
            invariant
                map.wf(),
                room.y1 < y,
                y <= max_i(room.y1 + 1, room.y2 as int),
                room.x1 < x < room.x2,
                0 <= room.x1 <= room.x2 < MAP_WIDTH as int,
                0 <= room.y1 <= room.y2 < MAP_HEIGHT as int,
                forall|a: int, b: int|
                    in_map(a, b) ==> #[trigger] map.at(a, b) == (if a == x as int && room.y1
                        < b < y {
                        tile_empty()
                    } else {
                        mx.at(a, b)
                    }),
                forall|a: int, b: int|
                    in_map(a, b) ==> #[trigger] mx.at(a, b) == (if room.x1 < a < x && room.y1
                        < b < room.y2 {
                        tile_empty()
                    } else {
                        m0.at(a, b)
                    }),
            decreases room.y2 - y,
        {
            map.set_tile(x, y, Tile::empty());
            y = y + 1;
        }
        proof {
            assert forall|a: int, b: int| in_map(a, b) implies #[trigger] map.at(a, b) == (if
                room.x1 < a < x as int + 1 && room.y1 < b < room.y2 {
                tile_empty()
            } else {
                m0.at(a, b)
            }) by {
                if a == x as int {
                    assert(map.at(a, b) == (if a == x as int && room.y1 < b < y as int {
                        tile_empty()
                    } else {
                        mx.at(a, b)
                    }));
                } else {
                    assert(map.at(a, b) == mx.at(a, b));
                }
            }
        }
        x = x + 1;
    }
}

/// Carve a horizontal tunnel: the whole row `y` between the two columns,
/// ends included, becomes floor.
pub fn create_h_tunnel(x1: i32, x2: i32, y: i32, map: &mut GameMap)
    requires
        old(map).wf(),
        0 <= x1 < MAP_WIDTH as int,
        0 <= x2 < MAP_WIDTH as int,
        0 <= y < MAP_HEIGHT as int,
    ensures
        final(map).wf(),
        forall|a: int, b: int|
            in_map(a, b) ==> #[trigger] final(map).at(a, b) == (if min_i(x1 as int, x2 as int)
                <= a <= max_i(x1 as int, x2 as int) && b == y as int {
                tile_empty()
            } else {
                old(map).at(a, b)
            }),
{
    let ghost m0 = *map;
    let lo = if x1 < x2 { x1 } else { x2 };
    let hi = if x1 < x2 { x2 } else { x1 };
    let mut x = lo;
    while x <= hi
        invariant
            map.wf(),
            lo == min_i(x1 as int, x2 as int),
            hi == max_i(x1 as int, x2 as int),
            lo <= x,
            0 <= lo <= hi < MAP_WIDTH as int,
            0 <= y < MAP_HEIGHT as int,
            x <= hi + 1,
            forall|a: int, b: int|
                in_map(a, b) ==> #[trigger] map.at(a, b) == (if lo <= a < x && b == y as int {
                    tile_empty()
                } else {
                    m0.at(a, b)
                }),
        decreases hi + 1 - x,
    {
        map.set_tile(x, y, Tile::empty());
        x = x + 1;
    }
}

/// Carve a vertical tunnel: the whole column `x` between the two rows,
/// ends included, becomes floor.
pub fn create_v_tunnel(y1: i32, y2: i32, x: i32, map: &mut GameMap)
    requires
        old(map).wf(),
        0 <= y1 < MAP_HEIGHT as int,
        0 <= y2 < MAP_HEIGHT as int,
        0 <= x < MAP_WIDTH as int,
    ensures
        final(map).wf(),
        forall|a: int, b: int|
            in_map(a, b) ==> #[trigger] final(map).at(a, b) == (if min_i(y1 as int, y2 as int)
                <= b <= max_i(y1 as int, y2 as int) && a == x as int {
                tile_empty()
            } else {
                old(map).at(a, b)
            }),
{
    let ghost m0 = *map;
    let lo = if y1 < y2 { y1 } else { y2 };
    let hi = if y1 < y2 { y2 } else { y1 };
    let mut y = lo;
    while y <= hi
        invariant
            map.wf(),
            lo == min_i(y1 as int, y2 as int),
            hi == max_i(y1 as int, y2 as int),
            lo <= y,
            0 <= lo <= hi < MAP_HEIGHT as int,
            0 <= x < MAP_WIDTH as int,
            y <= hi + 1,
            forall|a: int, b: int|
                in_map(a, b) ==> #[trigger] map.at(a, b) == (if lo <= b < y && a == x as int {
                    tile_empty()
                } else {
                    m0.at(a, b)
                }),
        decreases hi + 1 - y,
    {
        map.set_tile(x, y, Tile::empty());
        y = y + 1;
    }
}

/// The smaller of two values.
pub open spec fn min_i(a: int, b: int) -> int {
    if a < b {
        a
    } else {
        b
    }
}

/// The larger of two values.
pub open spec fn max_i(a: int, b: int) -> int {
    if a < b {
        b
    } else {
        a
    }
}

} // verus!
