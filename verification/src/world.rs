//! The world invariant and the movement primitives: every entity stands on
//! a carved, in-bounds tile of a well-formed map whose border is rock, and
//! movement only ever steps onto an unblocked, unoccupied tile.
use crate::entity::{
    attack_apply, attack_log, attack_post, fighter_power, obj_like, Object,
};
use crate::msg::Messages;
use crate::tiles::{in_map, GameMap};
use crate::{MAP_HEIGHT, MAP_WIDTH};
use vstd::prelude::*;

verus! {

/// Whether this entity blocks movement onto the given tile.
pub open spec fn blocks_tile(o: Object, x: int, y: int) -> bool {
    o.blocks && o.x == x && o.y == y
}

/// Whether some entity blocks movement onto the given tile.
pub open spec fn occupied(objects: Seq<Object>, x: int, y: int) -> bool {
    exists|i: int| 0 <= i < objects.len() && blocks_tile(#[trigger] objects[i], x, y)
}

/// Whether the tile stops movement: solid rock, or a blocking entity.
pub open spec fn tile_is_blocked(map: GameMap, objects: Seq<Object>, x: int, y: int) -> bool {
    map.blocked_at(x, y) || occupied(objects, x, y)
}

/// One entity in good standing: well formed, on a carved tile of the grid.
pub open spec fn obj_ok(map: GameMap, o: Object) -> bool {
    o.wf() && map.open_at(o.x as int, o.y as int)
}

/// Every entity in good standing.
pub open spec fn objects_wf(map: GameMap, objects: Seq<Object>) -> bool {
    forall|i: int| 0 <= i < objects.len() ==> obj_ok(map, #[trigger] objects[i])
}

/// The world invariant: a well-formed walled-border map, every entity in
/// good standing.
pub open spec fn world_wf(map: GameMap, objects: Seq<Object>) -> bool {
    map.wf() && map.border_walls() && objects_wf(map, objects)
}

/// An entity on a carved tile of a walled-border map stands strictly
/// inside the grid, so every adjacent coordinate is still on the grid.
pub proof fn lemma_open_interior(map: GameMap, x: int, y: int)
    requires
        map.wf(),
        map.border_walls(),
        map.open_at(x, y),
    ensures
        1 <= x < MAP_WIDTH as int - 1,
        1 <= y < MAP_HEIGHT as int - 1,
{
    assert(in_map(x, y));
    if x == 0 || x == MAP_WIDTH as int - 1 || y == 0 || y == MAP_HEIGHT as int - 1 {
        assert(map.blocked_at(x, y));
    }
}

/// Whether movement onto the tile is refused: it is rock, or an entity
/// that blocks stands there.
pub fn is_blocked(x: i32, y: i32, map: &GameMap, objects: &Vec<Object>) -> (b: bool)
    requires
        map.wf(),
        in_map(x as int, y as int),
    ensures
        b == tile_is_blocked(*map, objects@, x as int, y as int),
{
    if map.tile_at(x, y).blocked {
        return true;
    }
    let n = objects.len();
    let mut i: usize = 0;
    while i < n
        invariant
            n == objects@.len(),
            i <= n,
            forall|j: int| 0 <= j < i as int ==> !blocks_tile(#[trigger] objects@[j], x as int, y as int),
        decreases n - i,
    {
        let o = &objects[i];
        if o.blocks && o.x == x && o.y == y {
            return true;
        }
        i = i + 1;
    }
    false
}

/// How a single-step move relates the old collection to the new one: the
/// entity steps onto the destination unless that tile is refused, in which
/// case nothing changes.
pub open spec fn move_by_post(
    map: GameMap,
    pre: Seq<Object>,
    post: Seq<Object>,
    id: int,
    dx: int,
    dy: int,
) -> bool {
    let x = pre[id].x + dx;
    let y = pre[id].y + dy;
    if tile_is_blocked(map, pre, x, y) {
        post == pre
    } else {
        post == pre.update(id, Object { x: x as i32, y: y as i32, ..pre[id] })
    }
}

/// Move an entity by one step, refusing silently if the destination tile
/// is rock or occupied by a blocking entity.
pub fn move_by(id: usize, dx: i32, dy: i32, map: &GameMap, objects: &mut Vec<Object>)
    requires
        world_wf(*map, old(objects)@),
        id < old(objects)@.len(),
        -1 <= dx <= 1,
        -1 <= dy <= 1,
    ensures
        world_wf(*map, final(objects)@),
        final(objects)@.len() == old(objects)@.len(),
        move_by_post(*map, old(objects)@, final(objects)@, id as int, dx as int, dy as int),
{
    proof {
        lemma_open_interior(*map, old(objects)@[id as int].x as int, old(objects)@[id as int].y as int);
    }
    let x = objects[id].x + dx;
    let y = objects[id].y + dy;
    if !is_blocked(x, y, map, objects) {
        let o = &mut objects[id];
        o.set_pos(x, y);
    }
}

/// The unit step an axis contributes when an entity walks toward a target:
/// the exact rounding of the normalized direction vector, stated on the
/// squared distance.
pub open spec fn step_toward(d: int, d2: int) -> int {
    if 4 * d * d >= d2 {
        if d > 0 {
            1
        } else if d < 0 {
            -1
        } else {
            0
        }
    } else {
        0
    }
}

/// Walk one step toward a target tile: the direction vector is normalized
/// to a unit grid step, each axis rounded independently (diagonal steps
/// can result), then moved with the ordinary movement rules.
pub fn move_towards(id: usize, target_x: i32, target_y: i32, map: &GameMap, objects: &mut Vec<
    Object,
>)
    requires
        world_wf(*map, old(objects)@),
        id < old(objects)@.len(),
        in_map(target_x as int, target_y as int),
        !(target_x == old(objects)@[id as int].x && target_y == old(objects)@[id as int].y),
    ensures
        world_wf(*map, final(objects)@),
        final(objects)@.len() == old(objects)@.len(),
        ({
            let px = old(objects)@[id as int].x as int;
            let py = old(objects)@[id as int].y as int;
            let d2 = crate::entity::dist_sq(px, py, target_x as int, target_y as int);
            move_by_post(
                *map,
                old(objects)@,
                final(objects)@,
                id as int,
                step_toward(target_x - px, d2),
                step_toward(target_y - py, d2),
            )
        }),
{
    proof {
        lemma_open_interior(*map, old(objects)@[id as int].x as int, old(objects)@[id as int].y as int);
    }
    let dx: i64 = target_x as i64 - objects[id].x as i64;
    let dy: i64 = target_y as i64 - objects[id].y as i64;
    proof {
        assert(0 <= dx * dx <= 16384 && 0 <= dy * dy <= 16384) by (nonlinear_arith)
            requires
                -128 <= dx <= 128,
                -128 <= dy <= 128,
        ;
        assert(4 * dx * dx == 4 * (dx * dx) && 4 * dy * dy == 4 * (dy * dy)) by (nonlinear_arith);
    }
    let d2: i64 = dx * dx + dy * dy;
    let sx: i32 = if 4 * dx * dx >= d2 {
        if dx > 0 {
            1
        } else if dx < 0 {
            -1
        } else {
            0
        }
    } else {
        0
    };
    let sy: i32 = if 4 * dy * dy >= d2 {
        if dy > 0 {
            1
        } else if dy < 0 {
            -1
        } else {
            0
        }
    } else {
        0
    };
    move_by(id, sx, sy, map, objects);
}

/// Let one entity of the collection attack another: reads the attacker's
/// name and power, then resolves the attack against the defender in
/// place.
pub fn attack_at(
    attacker_id: usize,
    target_id: usize,
    objects: &mut Vec<Object>,
    messages: &mut Messages,
)
    requires
        attacker_id < old(objects)@.len(),
        target_id < old(objects)@.len(),
        attacker_id != target_id,
        old(objects)@[attacker_id as int].wf(),
        old(objects)@[target_id as int].wf(),
    ensures
        final(objects)@.len() == old(objects)@.len(),
        forall|j: int|
            0 <= j < old(objects)@.len() && j != target_id as int ==> final(objects)@[j]
                == old(objects)@[j],
        final(objects)@[target_id as int].wf(),
        attack_post(
            fighter_power(old(objects)@[attacker_id as int].fighter),
            old(objects)@[target_id as int],
            final(objects)@[target_id as int],
        ),
        crate::msg::log_view(*final(messages)) == attack_log(
            crate::msg::log_view(*old(messages)),
            old(objects)@[attacker_id as int].name@,
            fighter_power(old(objects)@[attacker_id as int].fighter),
            old(objects)@[target_id as int],
        ),
{
    let name = objects[attacker_id].name.clone();
    let power = match &objects[attacker_id].fighter {
        Some(f) => f.power,
        None => 0,
    };
    let target = &mut objects[target_id];
    attack_apply(name.as_str(), power, messages, target);
}

/// Whether this entity can be attacked at the given tile.
pub open spec fn is_fighter_at(o: Object, x: int, y: int) -> bool {
    o.fighter is Some && o.x == x && o.y == y
}

/// Whether some attackable entity stands on the given tile.
pub open spec fn fighter_at(objects: Seq<Object>, x: int, y: int) -> bool {
    exists|i: int| 0 <= i < objects.len() && is_fighter_at(#[trigger] objects[i], x, y)
}

/// How the player's move-or-attack decision relates the old state to the
/// new one: the destination is the player's tile shifted one step; the
/// first combat-capable occupant there is attacked, else the player
/// attempts the step.
pub open spec fn move_or_attack_post(
    map: GameMap,
    pre: Seq<Object>,
    post: Seq<Object>,
    lpre: Seq<(Seq<char>, crate::msg::ColorName)>,
    lpost: Seq<(Seq<char>, crate::msg::ColorName)>,
    dx: int,
    dy: int,
) -> bool {
    let x = pre[0].x + dx;
    let y = pre[0].y + dy;
    if fighter_at(pre, x, y) {
        exists|t: int|
            #![auto]
            {
                &&& 0 <= t < pre.len()
                &&& is_fighter_at(pre[t], x, y)
                &&& forall|j: int| 0 <= j < t ==> !is_fighter_at(pre[j], x, y)
                &&& forall|j: int| 0 <= j < pre.len() && j != t ==> post[j] == pre[j]
                &&& attack_post(fighter_power(pre[0].fighter), pre[t], post[t])
                &&& lpost == attack_log(lpre, pre[0].name@, fighter_power(pre[0].fighter), pre[t])
            }
    } else {
        move_by_post(map, pre, post, 0, dx, dy) && lpost == lpre
    }
}

/// The player's move-or-attack decision: the destination is the player's
/// tile shifted one step; a combat-capable occupant is attacked, else the
/// player attempts the step.
pub fn player_move_or_attack(
    dx: i32,
    dy: i32,
    map: &GameMap,
    messages: &mut Messages,
    objects: &mut Vec<Object>,
)
    requires
        world_wf(*map, old(objects)@),
        old(objects)@.len() > 0,
        -1 <= dx <= 1,
        -1 <= dy <= 1,
        !(dx == 0 && dy == 0),
    ensures
        world_wf(*map, final(objects)@),
        final(objects)@.len() == old(objects)@.len(),
        move_or_attack_post(
            *map,
            old(objects)@,
            final(objects)@,
            crate::msg::log_view(*old(messages)),
            crate::msg::log_view(*final(messages)),
            dx as int,
            dy as int,
        ),
{
    proof {
        lemma_open_interior(*map, old(objects)@[0].x as int, old(objects)@[0].y as int);
    }
    let x = objects[0].x + dx;
    let y = objects[0].y + dy;

    let n = objects.len();
    let mut target_id: usize = 0;
    let mut found = false;
    let mut i: usize = 0;
    while i < n
        invariant
            n == objects@.len(),
            i <= n,
            !found ==> forall|j: int|
                0 <= j < i as int ==> !is_fighter_at(#[trigger] objects@[j], x as int, y as int),
            found ==> {
                &&& target_id < i
                &&& is_fighter_at(objects@[target_id as int], x as int, y as int)
                &&& forall|j: int|
                    0 <= j < target_id as int ==> !is_fighter_at(
                        #[trigger] objects@[j],
                        x as int,
                        y as int,
                    )
            },
        decreases n - i,
    {
        if !found {
            let o = &objects[i];
            if o.fighter.is_some() && o.x == x && o.y == y {
                found = true;
                target_id = i;
            }
        }
        i = i + 1;
    }

    if found {
        proof {
            if target_id == 0 {
                assert(objects@[0].x == x && objects@[0].y == y);
                assert(false);
            }
        }
        attack_at(0, target_id, objects, messages);
    } else {
        move_by(0, dx, dy, map, objects);
    }
}

} // verus!
