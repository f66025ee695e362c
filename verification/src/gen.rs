//! The level generator: carves up to a fixed budget of random rooms into
//! solid rock, links each accepted room to the previous one with an
//! L-shaped tunnel, populates rooms with monsters and items, and places
//! the player at the first room's center.  Construction guarantees that
//! every carved tile is reachable from the player's start tile.
use crate::entity::{Ai, DeathCallback, Fighter, Item, Object};
use crate::msg::ColorName;
use crate::reach::{
    lemma_h_any, lemma_reach_mono, lemma_reach_trans, lemma_rect_reach,
    lemma_v_any, reach,
};
use crate::rng::{rand_coin, rand_range};
use crate::tiles::{
    create_h_tunnel, create_room, create_v_tunnel, in_map, max_i, min_i, GameMap, Rect,
};
use crate::world::{blocks_tile, is_blocked, obj_ok, world_wf};
use crate::{
    MAP_HEIGHT, MAP_WIDTH, MAX_ROOMS, MAX_ROOM_ITEMS, MAX_ROOM_MONSTERS, ROOM_MAX_SIZE,
    ROOM_MIN_SIZE,
};
use vstd::prelude::*;

verus! {

/// The weaker monster species.
pub open spec fn is_orc(o: Object) -> bool {
    &&& o.glyph == 'o'
    &&& o.name@ == "Orc"@
    &&& o.color == ColorName::DesaturatedGreen
    &&& o.blocks
    &&& o.alive
    &&& o.fighter == Some(
        Fighter { max_hp: 10, hp: 10, defense: 0, power: 3, on_death: DeathCallback::Monster },
    )
    &&& o.ai == Some(Ai::Basic)
    &&& o.item is None
}

/// The stronger monster species.
pub open spec fn is_troll(o: Object) -> bool {
    &&& o.glyph == 'T'
    &&& o.name@ == "Troll"@
    &&& o.color == ColorName::DarkerGreen
    &&& o.blocks
    &&& o.alive
    &&& o.fighter == Some(
        Fighter { max_hp: 16, hp: 16, defense: 1, power: 4, on_death: DeathCallback::Monster },
    )
    &&& o.ai == Some(Ai::Basic)
    &&& o.item is None
}

/// A pickable item entity of the given kind.
pub open spec fn is_item_object(o: Object) -> bool {
    &&& !o.blocks
    &&& !o.alive
    &&& o.fighter is None
    &&& o.ai is None
    &&& match o.item {
        Some(Item::Heal) => o.glyph == '!' && o.name@ == "Healing Potion"@ && o.color
            == ColorName::Violet,
        Some(Item::Lightning) => o.glyph == '#' && o.name@ == "Scroll of lightning bolt"@
            && o.color == ColorName::LightYellow,
        Some(Item::Fireball) => o.glyph == '#' && o.name@ == "scroll of fireball"@ && o.color
            == ColorName::LightYellow,
        Some(Item::Confuse) => o.glyph == '#' && o.name@ == "scroll of confusion"@ && o.color
            == ColorName::LightYellow,
        None => false,
    }
}

/// Anything the generator may add to the entity collection.
pub open spec fn spawned_ok(o: Object) -> bool {
    is_orc(o) || is_troll(o) || is_item_object(o)
}

/// An accepted room: inside the grid with room for an interior.
pub open spec fn room_in_bounds(r: Rect) -> bool {
    &&& 0 <= r.x1
    &&& r.x1 + 2 <= r.x2
    &&& r.x2 < MAP_WIDTH as int
    &&& 0 <= r.y1
    &&& r.y1 + 2 <= r.y2
    &&& r.y2 < MAP_HEIGHT as int
}

/// A room's center tile, rounding down.
pub open spec fn center_of(r: Rect) -> (int, int) {
    ((r.x1 + r.x2) / 2, (r.y1 + r.y2) / 2)
}

/// The room the player starts in: an accepted candidate within the grid,
/// both sides within the configured size bounds, its whole interior
/// carved, and its center the given start tile.
pub open spec fn carved_start_room(map: GameMap, r: Rect, start: (int, int)) -> bool {
    &&& room_in_bounds(r)
    &&& ROOM_MIN_SIZE as int <= r.x2 - r.x1 <= ROOM_MAX_SIZE as int
    &&& ROOM_MIN_SIZE as int <= r.y2 - r.y1 <= ROOM_MAX_SIZE as int
    &&& (forall|x: int, y: int| r.interior(x, y) ==> map.open_at(x, y))
    &&& center_of(r) == start
}

/// A new orc at the given tile.
fn make_orc(x: i32, y: i32) -> (o: Object)
    ensures
        is_orc(o),
        o.x == x,
        o.y == y,
{
    let mut o = Object::new(x, y, 'o', "Orc", ColorName::DesaturatedGreen, true);
    o.fighter = Some(
        Fighter { max_hp: 10, hp: 10, defense: 0, power: 3, on_death: DeathCallback::Monster },
    );
    o.ai = Some(Ai::Basic);
    o.alive = true;
    o
}

/// A new troll at the given tile.
fn make_troll(x: i32, y: i32) -> (o: Object)
    ensures
        is_troll(o),
        o.x == x,
        o.y == y,
{
    let mut o = Object::new(x, y, 'T', "Troll", ColorName::DarkerGreen, true);
    o.fighter = Some(
        Fighter { max_hp: 16, hp: 16, defense: 1, power: 4, on_death: DeathCallback::Monster },
    );
    o.ai = Some(Ai::Basic);
    o.alive = true;
    o
}

/// A new item entity of the given kind at the given tile.
fn make_item(x: i32, y: i32, kind: Item) -> (o: Object)
    ensures
        is_item_object(o),
        o.item == Some(kind),
        o.x == x,
        o.y == y,
{
    let mut o = match kind {
        Item::Heal => Object::new(x, y, '!', "Healing Potion", ColorName::Violet, false),
        Item::Lightning => Object::new(
            x,
            y,
            '#',
            "Scroll of lightning bolt",
            ColorName::LightYellow,
            false,
        ),
        Item::Fireball => Object::new(x, y, '#', "scroll of fireball", ColorName::LightYellow, false),
        Item::Confuse => Object::new(x, y, '#', "scroll of confusion", ColorName::LightYellow, false),
    };
    o.item = Some(kind);
    o
}

/// Populate one room: a random number of monsters (80% orc, 20% troll)
/// and items (70% healing, 10% lightning, 10% fireball, 10% confusion),
/// each at a random interior tile, silently skipped when the tile is
/// blocked or occupied.
pub fn place_objects(room: Rect, map: &GameMap, objects: &mut Vec<Object>)
    requires
        map.wf(),
        room_in_bounds(room),
    ensures
        final(objects)@.len() >= old(objects)@.len(),
        final(objects)@.len() <= old(objects)@.len() + (MAX_ROOM_MONSTERS + MAX_ROOM_ITEMS)
            as int,
        forall|i: int|
            0 <= i < old(objects)@.len() ==> final(objects)@[i] == old(objects)@[i],
        forall|i: int|
            old(objects)@.len() <= i < final(objects)@.len() ==> spawned_ok(
                #[trigger] final(objects)@[i],
            ) && obj_ok(*map, final(objects)@[i]) && room.interior(
                final(objects)@[i].x as int,
                final(objects)@[i].y as int,
            ),
        forall|i: int, j: int|
            old(objects)@.len() <= j < final(objects)@.len() && 0 <= i < j
                ==> !#[trigger] blocks_tile(
                final(objects)@[i],
                final(objects)@[j].x as int,
                final(objects)@[j].y as int,
            ),
{
    let ghost n0 = objects@.len();
    let num_monsters = rand_range(0, MAX_ROOM_MONSTERS + 1);
    let mut k: i32 = 0;
    while k < num_monsters
        invariant
            map.wf(),
            room_in_bounds(room),
            0 <= k <= num_monsters,
            num_monsters <= MAX_ROOM_MONSTERS as int,
            objects@.len() >= n0,
            objects@.len() <= n0 + k,
            forall|i: int| 0 <= i < n0 ==> objects@[i] == old(objects)@[i],
            forall|i: int|
                n0 <= i < objects@.len() ==> spawned_ok(#[trigger] objects@[i]) && obj_ok(
                    *map,
                    objects@[i],
                ) && room.interior(objects@[i].x as int, objects@[i].y as int),
            forall|i: int, j: int|
                n0 <= j < objects@.len() && 0 <= i < j ==> !#[trigger] blocks_tile(
                    objects@[i],
                    objects@[j].x as int,
                    objects@[j].y as int,
                ),
        decreases num_monsters - k + 1,
    {
        let x = rand_range(room.x1 + 1, room.x2);
        let y = rand_range(room.y1 + 1, room.y2);
        if !is_blocked(x, y, map, objects) {
            let monster = if rand_range(0, 100) < 80 {
                make_orc(x, y)
            } else {
                make_troll(x, y)
            };
            objects.push(monster);
        }
        k = k + 1;
    }
    let ghost n1 = objects@.len();
    let num_items = rand_range(0, MAX_ROOM_ITEMS + 1);
    let mut k2: i32 = 0;
    while k2 < num_items
        invariant
            map.wf(),
            room_in_bounds(room),
            0 <= k2 <= num_items,
            num_items <= MAX_ROOM_ITEMS as int,
            n1 <= n0 + MAX_ROOM_MONSTERS as int,
            objects@.len() >= n1 >= n0,
            objects@.len() <= n1 + k2,
            forall|i: int| 0 <= i < n0 ==> objects@[i] == old(objects)@[i],
            forall|i: int|
                n0 <= i < objects@.len() ==> spawned_ok(#[trigger] objects@[i]) && obj_ok(
                    *map,
                    objects@[i],
                ) && room.interior(objects@[i].x as int, objects@[i].y as int),
            forall|i: int, j: int|
                n0 <= j < objects@.len() && 0 <= i < j ==> !#[trigger] blocks_tile(
                    objects@[i],
                    objects@[j].x as int,
                    objects@[j].y as int,
                ),
        decreases num_items - k2 + 1,
    {
        let x = rand_range(room.x1 + 1, room.x2);
        let y = rand_range(room.y1 + 1, room.y2);
        if !is_blocked(x, y, map, objects) {
            let dice = rand_range(0, 100);
            let kind = if dice < 70 {
                Item::Heal
            } else if dice < 80 {
                Item::Lightning
            } else if dice < 90 {
                Item::Fireball
            } else {
                Item::Confuse
            };
            objects.push(make_item(x, y, kind));
        }
        k2 = k2 + 1;
    }
}

/// Generate a level: the map, the populated entity collection, and the
/// player moved to the start tile.  Every carved tile is reachable from
/// the player's start tile over carved tiles only; the grid border stays
/// rock; everything added by population is a well-formed monster or item
/// standing on a carved tile.
#[verifier::rlimit(60)]
pub fn make_map(objects: &mut Vec<Object>) -> (map: GameMap)
    requires
        old(objects)@.len() == 1,
        old(objects)@[0].wf(),
    ensures
        map.wf(),
        map.border_walls(),
        world_wf(map, final(objects)@),
        final(objects)@.len() >= 1,
        crate::entity::obj_like(
            (Object { x: final(objects)@[0].x, y: final(objects)@[0].y, ..old(objects)@[0] }),
            final(objects)@[0],
        ),
        map.open_at(final(objects)@[0].x as int, final(objects)@[0].y as int),
        forall|x: int, y: int|
            #[trigger] map.open_at(x, y) ==> reach(
                map,
                (final(objects)@[0].x as int, final(objects)@[0].y as int),
                (x, y),
            ),
        forall|x: int, y: int|
            reach(
                map,
                (final(objects)@[0].x as int, final(objects)@[0].y as int),
                (x, y),
            ) ==> #[trigger] map.open_at(x, y),
        exists|r: Rect|
            #[trigger] carved_start_room(
                map,
                r,
                (final(objects)@[0].x as int, final(objects)@[0].y as int),
            ),
        forall|i: int|
            1 <= i < final(objects)@.len() ==> spawned_ok(#[trigger] final(objects)@[i]),
{
    let mut map = GameMap::all_walls();
    let mut rooms: Vec<Rect> = Vec::new();
    let mut start_x: i32 = 0;
    let mut start_y: i32 = 0;
    let ghost mut first_room: Rect = Rect { x1: 0, y1: 0, x2: 0, y2: 0 };
    let mut attempt: i32 = 0;
    while attempt < MAX_ROOMS
        invariant
            map.wf(),
            map.border_walls(),
            objects@.len() >= 1,
            objects@[0] == old(objects)@[0],
            forall|i: int|
                1 <= i < objects@.len() ==> spawned_ok(#[trigger] objects@[i]) && obj_ok(
                    map,
                    objects@[i],
                ),
            forall|k: int| 0 <= k < rooms@.len() ==> room_in_bounds(#[trigger] rooms@[k]),
            rooms@.len() == 0 ==> (forall|x: int, y: int| !#[trigger] map.open_at(x, y))
                && objects@.len() == 1,
            attempt > 0 ==> rooms@.len() > 0,
            rooms@.len() > 0 ==> carved_start_room(
                map,
                first_room,
                (start_x as int, start_y as int),
            ),
            rooms@.len() > 0 ==> {
                &&& map.open_at(start_x as int, start_y as int)
                &&& map.open_at(
                    center_of(rooms@.last()).0,
                    center_of(rooms@.last()).1,
                )
                &&& reach(
                    map,
                    (start_x as int, start_y as int),
                    center_of(rooms@.last()),
                )
                &&& forall|x: int, y: int|
                    #[trigger] map.open_at(x, y) ==> reach(
                        map,
                        (start_x as int, start_y as int),
                        (x, y),
                    )
            },
        decreases MAX_ROOMS - attempt,
    {
        let w = rand_range(ROOM_MIN_SIZE, ROOM_MAX_SIZE + 1);
        let h = rand_range(ROOM_MIN_SIZE, ROOM_MAX_SIZE + 1);
        let x = rand_range(0, MAP_WIDTH - w);
        let y = rand_range(0, MAP_HEIGHT - h);
        let new_room = Rect::new(x, y, w, h);

        let mut failed = false;
        let nr = rooms.len();
        let mut ri: usize = 0;
        while ri < nr
            invariant
                nr == rooms@.len(),
                ri <= nr,
                nr == 0 ==> !failed,
            decreases nr - ri,
        {
            if new_room.intersects_with(&rooms[ri]) {
                failed = true;
            }
            ri = ri + 1;
        }

        if !failed {
            let ghost m0 = map;
            let ghost start: (int, int) = (start_x as int, start_y as int);
            create_room(new_room, &mut map);
            let ghost m1 = map;
            proof {
                assert forall|a: int, b: int| #[trigger] m1.open_at(a, b) implies m0.open_at(a, b)
                    || new_room.interior(a, b) by {}
                assert forall|a: int, b: int| m0.open_at(a, b) implies #[trigger] m1.open_at(a, b) by {}
                assert forall|a: int, b: int|
                    new_room.interior(a, b) implies #[trigger] m1.open_at(a, b) by {
                    assert(in_map(a, b));
                }
                assert forall|a: int, b: int|
                    in_map(a, b) && (a == 0 || a == MAP_WIDTH as int - 1 || b == 0 || b
                        == MAP_HEIGHT as int - 1) implies #[trigger] m1.blocked_at(a, b) by {
                    assert(!new_room.interior(a, b));
                    assert(m1.at(a, b) == m0.at(a, b));
                    assert(m0.blocked_at(a, b));
                }
                assert(m1.border_walls());
                assert forall|i: int|
                    1 <= i < objects@.len() implies spawned_ok(#[trigger] objects@[i]) && obj_ok(
                    m1,
                    objects@[i],
                ) by {
                    assert(m0.open_at(objects@[i].x as int, objects@[i].y as int));
                }
            }
            place_objects(new_room, &map, objects);
            let c = new_room.center();
            let ghost nc: (int, int) = (c.0 as int, c.1 as int);
            proof {
                assert(new_room.x1 + 2 <= new_room.x2);
                assert(new_room.x1 < nc.0 < new_room.x2);
                assert(new_room.y1 < nc.1 < new_room.y2);
                assert(new_room.interior(nc.0, nc.1));
            }

            if rooms.len() == 0 {
                start_x = c.0;
                start_y = c.1;
                proof {
                    first_room = new_room;
                    assert(new_room.x2 - new_room.x1 == w);
                    assert(new_room.y2 - new_room.y1 == h);
                    assert forall|a: int, b: int| #[trigger] map.open_at(a, b) implies reach(
                        map,
                        (start_x as int, start_y as int),
                        (a, b),
                    ) by {
                        assert(new_room.interior(a, b));
                        lemma_rect_reach(
                            map,
                            new_room.x1 + 1,
                            new_room.x2 - 1,
                            new_room.y1 + 1,
                            new_room.y2 - 1,
                            nc,
                            (a, b),
                        );
                    }
                }
            } else {
                let prev = rooms[rooms.len() - 1];
                let pcx_pcy = prev.center();
                let prev_x = pcx_pcy.0;
                let prev_y = pcx_pcy.1;
                let ghost pc: (int, int) = (prev_x as int, prev_y as int);
                proof {
                    assert(center_of(rooms@.last()) == pc);
                    assert(prev.x1 < pc.0 < prev.x2);
                    assert(prev.y1 < pc.1 < prev.y2);
                    assert(1 <= pc.0 < MAP_WIDTH as int - 1);
                    assert(1 <= pc.1 < MAP_HEIGHT as int - 1);
                    assert(1 <= nc.0 < MAP_WIDTH as int - 1);
                    assert(1 <= nc.1 < MAP_HEIGHT as int - 1);
                }
                if rand_coin() {
                    create_h_tunnel(prev_x, c.0, prev_y, &mut map);
                    let ghost m2 = map;
                    create_v_tunnel(prev_y, c.1, c.0, &mut map);
                    let ghost m3 = map;
                    proof {
                        lemma_after_tunnels(
                            m0,
                            m1,
                            m2,
                            m3,
                            new_room,
                            start,
                            pc,
                            nc,
                            (nc.0, pc.1),
                            true,
                        );
                    }
                } else {
                    create_v_tunnel(prev_y, c.1, prev_x, &mut map);
                    let ghost m2 = map;
                    create_h_tunnel(prev_x, c.0, c.1, &mut map);
                    let ghost m3 = map;
                    proof {
                        lemma_after_tunnels(
                            m0,
                            m1,
                            m2,
                            m3,
                            new_room,
                            start,
                            pc,
                            nc,
                            (pc.0, nc.1),
                            false,
                        );
                    }
                }
                proof {
                    assert forall|i: int|
                        1 <= i < objects@.len() implies spawned_ok(#[trigger] objects@[i])
                        && obj_ok(map, objects@[i]) by {
                        assert(m1.open_at(objects@[i].x as int, objects@[i].y as int));
                    }
                    assert forall|x: int, y: int| first_room.interior(x, y) implies map.open_at(
                        x,
                        y,
                    ) by {
                        assert(m0.open_at(x, y));
                    }
                }
            }
            rooms.push(new_room);
            proof {
                assert(rooms@.last() == new_room);
                assert(center_of(rooms@.last()) == nc);
                assert(map.open_at(nc.0, nc.1));
                assert(reach(map, (start_x as int, start_y as int), nc));
            }
        }
        attempt = attempt + 1;
    }
    proof {
        assert(rooms@.len() > 0);
    }
    let p = &mut objects[0];
    p.set_pos(start_x, start_y);
    proof {
        assert(carved_start_room(map, first_room, (start_x as int, start_y as int)));
        assert forall|x: int, y: int|
            reach(map, (start_x as int, start_y as int), (x, y)) implies #[trigger] map.open_at(
            x,
            y,
        ) by {
            crate::reach::lemma_reach_open(map, (start_x as int, start_y as int), (x, y));
        }
    }
    map
}

/// After carving a room and the two legs of an L-shaped tunnel from the
/// previous room's center, every open tile still reaches the start tile:
/// old tiles by monotonicity, the room interior through the new center,
/// and the tunnel legs through the previous center and the corner.
#[verifier::spinoff_prover]
proof fn lemma_after_tunnels(
    m0: GameMap,
    m1: GameMap,
    m2: GameMap,
    m3: GameMap,
    room: Rect,
    start: (int, int),
    pc: (int, int),
    nc: (int, int),
    corner: (int, int),
    horizontal_first: bool,
)
    requires
        m0.wf(),
        m1.wf(),
        m2.wf(),
        m3.wf(),
        m0.border_walls(),
        room_in_bounds(room),
        room.interior(nc.0, nc.1),
        1 <= pc.0 < MAP_WIDTH as int - 1,
        1 <= pc.1 < MAP_HEIGHT as int - 1,
        1 <= nc.0 < MAP_WIDTH as int - 1,
        1 <= nc.1 < MAP_HEIGHT as int - 1,
        m0.open_at(pc.0, pc.1),
        forall|x: int, y: int| #[trigger] m0.open_at(x, y) ==> reach(m0, start, (x, y)),
        // the room carve
        forall|a: int, b: int|
            in_map(a, b) ==> #[trigger] m1.at(a, b) == (if room.interior(a, b) {
                crate::tiles::tile_empty()
            } else {
                m0.at(a, b)
            }),
        // the two tunnel legs, in either order
        (if horizontal_first {
            corner == (nc.0, pc.1)
        } else {
            corner == (pc.0, nc.1)
        }),
        (if horizontal_first {
            forall|a: int, b: int|
                in_map(a, b) ==> #[trigger] m2.at(a, b) == (if min_i(pc.0, nc.0) <= a <= max_i(
                    pc.0,
                    nc.0,
                ) && b == pc.1 {
                    crate::tiles::tile_empty()
                } else {
                    m1.at(a, b)
                })
        } else {
            forall|a: int, b: int|
                in_map(a, b) ==> #[trigger] m2.at(a, b) == (if min_i(pc.1, nc.1) <= b <= max_i(
                    pc.1,
                    nc.1,
                ) && a == pc.0 {
                    crate::tiles::tile_empty()
                } else {
                    m1.at(a, b)
                })
        }),
        (if horizontal_first {
            forall|a: int, b: int|
                in_map(a, b) ==> #[trigger] m3.at(a, b) == (if min_i(pc.1, nc.1) <= b <= max_i(
                    pc.1,
                    nc.1,
                ) && a == nc.0 {
                    crate::tiles::tile_empty()
                } else {
                    m2.at(a, b)
                })
        } else {
            forall|a: int, b: int|
                in_map(a, b) ==> #[trigger] m3.at(a, b) == (if min_i(pc.0, nc.0) <= a <= max_i(
                    pc.0,
                    nc.0,
                ) && b == nc.1 {
                    crate::tiles::tile_empty()
                } else {
                    m2.at(a, b)
                })
        }),
    ensures
        m3.border_walls(),
        forall|x: int, y: int| #[trigger] m0.open_at(x, y) ==> m3.open_at(x, y),
        forall|x: int, y: int| #[trigger] m1.open_at(x, y) ==> m3.open_at(x, y),
        m3.open_at(nc.0, nc.1),
        reach(m3, start, nc),
        forall|x: int, y: int| #[trigger] m3.open_at(x, y) ==> reach(m3, start, (x, y)),
{
    // monotonicity of the open set through the three carves
    assert forall|x: int, y: int| #[trigger] m1.open_at(x, y) implies m2.open_at(x, y) by {}
    assert forall|x: int, y: int| #[trigger] m2.open_at(x, y) implies m3.open_at(x, y) by {}
    assert forall|x: int, y: int| #[trigger] m0.open_at(x, y) implies m1.open_at(x, y) by {}

    // the border ring is never carved
    assert forall|x: int, y: int|
        in_map(x, y) && (x == 0 || x == MAP_WIDTH as int - 1 || y == 0 || y == MAP_HEIGHT as int
            - 1) implies #[trigger] m3.blocked_at(x, y) by {
        assert(m0.blocked_at(x, y));
        assert(!room.interior(x, y));
        assert(m3.at(x, y) == m0.at(x, y));
    }

    // the corner and both legs are open in m3
    assert(m3.open_at(corner.0, corner.1));
    if horizontal_first {
        assert forall|x: int|
            min_i(pc.0, nc.0) <= x <= max_i(pc.0, nc.0) implies #[trigger] m3.open_at(
            x,
            pc.1,
        ) by {}
        assert forall|y: int|
            min_i(pc.1, nc.1) <= y <= max_i(pc.1, nc.1) implies #[trigger] m3.open_at(
            nc.0,
            y,
        ) by {}
    } else {
        assert forall|y: int|
            min_i(pc.1, nc.1) <= y <= max_i(pc.1, nc.1) implies #[trigger] m3.open_at(
            pc.0,
            y,
        ) by {}
        assert forall|x: int|
            min_i(pc.0, nc.0) <= x <= max_i(pc.0, nc.0) implies #[trigger] m3.open_at(
            x,
            nc.1,
        ) by {}
    }

    // the room interior is open in m3
    assert forall|a: int, b: int| room.interior(a, b) implies #[trigger] m3.open_at(a, b) by {
        assert(in_map(a, b));
        assert(m1.open_at(a, b));
    }

    // the start reaches the previous center, the corner, and the new center
    lemma_reach_mono(m0, m3, start, pc);
    if horizontal_first {
        lemma_h_any(m3, pc.0, corner.0, pc.1);
        lemma_reach_trans(m3, start, pc, corner);
        lemma_v_any(m3, corner.1, nc.1, nc.0);
        lemma_reach_trans(m3, start, corner, nc);
    } else {
        lemma_v_any(m3, pc.1, corner.1, pc.0);
        lemma_reach_trans(m3, start, pc, corner);
        lemma_h_any(m3, corner.0, nc.0, nc.1);
        lemma_reach_trans(m3, start, corner, nc);
    }

    // every open tile of m3 falls in one of the four regions
    assert forall|x: int, y: int| #[trigger] m3.open_at(x, y) implies reach(m3, start, (x, y)) by {
        if m0.open_at(x, y) {
            lemma_reach_mono(m0, m3, start, (x, y));
        } else if room.interior(x, y) {
            lemma_rect_reach(
                m3,
                room.x1 + 1,
                room.x2 - 1,
                room.y1 + 1,
                room.y2 - 1,
                nc,
                (x, y),
            );
            lemma_reach_trans(m3, start, nc, (x, y));
        } else {
            if horizontal_first {
                if y == pc.1 && min_i(pc.0, nc.0) <= x <= max_i(pc.0, nc.0) {
                    lemma_h_any(m3, pc.0, x, pc.1);
                    lemma_reach_trans(m3, start, pc, (x, y));
                } else {
                    assert(x == nc.0 && min_i(pc.1, nc.1) <= y <= max_i(pc.1, nc.1));
                    lemma_v_any(m3, corner.1, y, nc.0);
                    lemma_reach_trans(m3, start, corner, (x, y));
                }
            } else {
                if x == pc.0 && min_i(pc.1, nc.1) <= y <= max_i(pc.1, nc.1) {
                    lemma_v_any(m3, pc.1, y, pc.0);
                    lemma_reach_trans(m3, start, pc, (x, y));
                } else {
                    assert(y == nc.1 && min_i(pc.0, nc.0) <= x <= max_i(pc.0, nc.0));
                    lemma_h_any(m3, corner.0, x, nc.1);
                    lemma_reach_trans(m3, start, corner, (x, y));
                }
            }
        }
    }
}

} // verus!
