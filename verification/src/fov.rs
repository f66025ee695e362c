//! The visibility grid: the core's view of the external field-of-view
//! oracle.  The collaborator recomputes it whenever the player moves; the
//! core only reads it, and writes back the tile `explored` flag that the
//! renderer tracks.
use crate::tiles::{in_map, GameMap, Tile};
use crate::{MAP_HEIGHT, MAP_WIDTH};
use vstd::prelude::*;

verus! {

/// Boolean visibility per tile, indexed `visible[x][y]`, as the oracle
/// last reported it.
#[derive(Debug)]
pub struct FovGrid {
    pub visible: Vec<Vec<bool>>,
}

impl FovGrid {
    /// The grid has exactly the map's dimensions.
    pub open spec fn wf(self) -> bool {
        &&& self.visible@.len() == MAP_WIDTH as int
    &&& forall|x: int|
        0 <= x < MAP_WIDTH as int ==> (#[trigger] self.visible@[x])@.len() == MAP_HEIGHT as int
    }

    /// Whether the tile is currently visible to the player.
    pub open spec fn at(self, x: int, y: int) -> bool {
        self.visible@[x]@[y]
    }

    /// A grid on which nothing is visible; the oracle fills it in.
    pub fn all_hidden() -> (g: FovGrid)
        ensures
            g.wf(),
            forall|x: int, y: int| in_map(x, y) ==> !#[trigger] g.at(x, y),
    {
        let mut visible: Vec<Vec<bool>> = Vec::new();
        let mut x: usize = 0;
        while x < MAP_WIDTH as usize
            invariant
                x <= MAP_WIDTH as usize,
                visible@.len() == x as int,
                forall|i: int|
                    0 <= i < x as int ==> (#[trigger] visible@[i])@ =~= Seq::new(
                        MAP_HEIGHT as nat,
                        |j: int| false,
                    ),
            decreases MAP_WIDTH as usize - x,
        {
            let mut col: Vec<bool> = Vec::new();
            let mut y: usize = 0;
            while y < MAP_HEIGHT as usize
                invariant
                    y <= MAP_HEIGHT as usize,
                    col@.len() == y as int,
                    forall|j: int| 0 <= j < y as int ==> !#[trigger] col@[j],
                decreases MAP_HEIGHT as usize - y,
            {
                col.push(false);
                y = y + 1;
            }
            proof {
                assert(col@ =~= Seq::new(MAP_HEIGHT as nat, |j: int| false));
            }
            visible.push(col);
            x = x + 1;
        }
        FovGrid { visible }
    }

    /// Read the visibility of one tile.
    pub fn visible_at(&self, x: i32, y: i32) -> (b: bool)
        requires
            self.wf(),
            in_map(x as int, y as int),
        ensures
            b == self.at(x as int, y as int),
    {
        self.visible[x as usize][y as usize]
    }

    /// Write the visibility of one tile; the oracle's adapter fills the
    /// grid through this.
    pub fn set_visible(&mut self, x: i32, y: i32, b: bool)
        requires
            old(self).wf(),
            in_map(x as int, y as int),
        ensures
            final(self).wf(),
            forall|a: int, c: int|
                in_map(a, c) ==> #[trigger] final(self).at(a, c) == (if a == x as int && c == y
                    as int {
                    b
                } else {
                    old(self).at(a, c)
                }),
    {
        let row = &mut self.visible[x as usize];
        row[y as usize] = b;
    }
}

/// Mark every currently visible tile as explored: the one piece of core
/// state the rendering pass writes back each frame.
pub fn mark_explored(map: &mut GameMap, fov: &FovGrid)
    requires
        old(map).wf(),
        fov.wf(),
    ensures
        final(map).wf(),
        forall|a: int, b: int|
            in_map(a, b) ==> #[trigger] final(map).at(a, b) == (if fov.at(a, b) {
                Tile { explored: true, ..old(map).at(a, b) }
            } else {
                old(map).at(a, b)
            }),
{
    let ghost m0 = *map;
    let mut x: i32 = 0;
    while x < MAP_WIDTH
        invariant
            map.wf(),
            fov.wf(),
            0 <= x <= MAP_WIDTH as int,
            forall|a: int, b: int|
                in_map(a, b) ==> #[trigger] map.at(a, b) == (if a < x as int && fov.at(a, b) {
                    Tile { explored: true, ..m0.at(a, b) }
                } else {
                    m0.at(a, b)
                }),
        decreases MAP_WIDTH as int - x,
    {
        let ghost mx = *map;
        let mut y: i32 = 0;
        while y < MAP_HEIGHT
            invariant
                map.wf(),
                fov.wf(),
                0 <= x < MAP_WIDTH as int,
                0 <= y <= MAP_HEIGHT as int,
                forall|a: int, b: int|
                    in_map(a, b) ==> #[trigger] map.at(a, b) == (if a == x as int && b < y as int
                        && fov.at(a, b) {
                        Tile { explored: true, ..mx.at(a, b) }
                    } else {
                        mx.at(a, b)
                    }),
                forall|a: int, b: int|
                    in_map(a, b) ==> #[trigger] mx.at(a, b) == (if a < x as int && fov.at(a, b) {
                        Tile { explored: true, ..m0.at(a, b) }
                    } else {
                        m0.at(a, b)
                    }),
            decreases MAP_HEIGHT as int - y,
        {
            if fov.visible_at(x, y) {
                let t = map.tile_at(x, y);
                map.set_tile(x, y, Tile { explored: true, ..t });
            }
            y = y + 1;
        }
        proof {
            assert forall|a: int, b: int| in_map(a, b) implies #[trigger] map.at(a, b) == (if a
                < x as int + 1 && fov.at(a, b) {
                Tile { explored: true, ..m0.at(a, b) }
            } else {
                m0.at(a, b)
            }) by {
                if a == x as int {
                    assert(map.at(a, b) == (if a == x as int && b < MAP_HEIGHT as int && fov.at(
                        a,
                        b,
                    ) {
                        Tile { explored: true, ..mx.at(a, b) }
                    } else {
                        mx.at(a, b)
                    }));
                } else {
                    assert(map.at(a, b) == mx.at(a, b));
                }
            }
        }
        x = x + 1;
    }
}

} // verus!
