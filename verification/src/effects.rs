//! The item and spell effect system: pickup into the inventory, and the
//! four use-procedures (heal, lightning, confuse, fireball).  Targeted
//! effects consume the external targeting oracle's choice as a plain
//! value, so every procedure here is exact for every possible choice.
use crate::entity::{
    damage_log, damaged_post, dist_sq, Ai, Item, Object, UseResult,
};
use crate::fov::FovGrid;
use crate::msg::{
    dec_int, i32_dec_string, log_push, log_view, message, ColorName, Messages,
};
use crate::tiles::in_map;
use crate::{
    CONFUSE_NUM_TURNS, FIREBALL_DAMAGE, FIREBALL_RADIUS, HEAL_AMOUNT, INVENTORY_CAP,
    LIGHTNING_DAMAGE, LIGHTNING_RANGE,
};
use vstd::prelude::*;
use vstd::string::StringExecFns;

verus! {

/// Entities the effect logic can reason about: well formed and standing
/// on the grid.
pub open spec fn objects_on_grid(objects: Seq<Object>) -> bool {
    forall|i: int|
        0 <= i < objects.len() ==> (#[trigger] objects[i]).wf() && in_map(
            objects[i].x as int,
            objects[i].y as int,
        )
}

/// The narration line for a refused pickup.
pub open spec fn inventory_full_msg(name: Seq<char>) -> Seq<char> {
    "Your inventory is full, cannot pick up "@ + name + "."@
}

/// The narration line for a successful pickup.
pub open spec fn picked_up_msg(name: Seq<char>) -> Seq<char> {
    "You picked up a "@ + name + "!"@
}

/// Move an entity from the map collection into the inventory.  A full
/// inventory refuses the pickup and changes nothing; otherwise the entity
/// leaves the map collection (the last entity takes its slot) and is
/// appended to the inventory.
/// How a pickup attempt relates the old state to the new, for the entity
/// at index `t`: refused (and narrated) past the inventory cap with
/// nothing mutated, else moved from the map collection (the last entity
/// takes its slot) to the end of the inventory.
pub open spec fn pick_up_post(
    pre_objs: Seq<Object>,
    post_objs: Seq<Object>,
    pre_inv: Seq<Object>,
    post_inv: Seq<Object>,
    lpre: Seq<(Seq<char>, ColorName)>,
    lpost: Seq<(Seq<char>, ColorName)>,
    t: int,
) -> bool {
    if pre_inv.len() >= INVENTORY_CAP {
        &&& post_objs == pre_objs
        &&& post_inv == pre_inv
        &&& lpost == log_push(lpre, inventory_full_msg(pre_objs[t].name@), ColorName::Red)
    } else {
        &&& post_objs == pre_objs.update(t, pre_objs.last()).drop_last()
        &&& post_inv == pre_inv.push(pre_objs[t])
        &&& lpost == log_push(lpre, picked_up_msg(pre_objs[t].name@), ColorName::Green)
    }
}

pub fn pick_item_up(
    object_id: usize,
    objects: &mut Vec<Object>,
    inventory: &mut Vec<Object>,
    messages: &mut Messages,
)
    requires
        object_id < old(objects)@.len(),
    ensures
        pick_up_post(
            old(objects)@,
            final(objects)@,
            old(inventory)@,
            final(inventory)@,
            log_view(*old(messages)),
            log_view(*final(messages)),
            object_id as int,
        ),
{
    if inventory.len() >= INVENTORY_CAP {
        let mut text = String::from_str("Your inventory is full, cannot pick up ");
        text.append(objects[object_id].name.as_str());
        text.append(".");
        proof {
            assert(text@ =~= inventory_full_msg(objects@[object_id as int].name@));
        }
        message(messages, text.as_str(), ColorName::Red);
    } else {
        let item = objects.swap_remove(object_id);
        let mut text = String::from_str("You picked up a ");
        text.append(item.name.as_str());
        text.append("!");
        proof {
            assert(text@ =~= picked_up_msg(old(objects)@[object_id as int].name@));
        }
        message(messages, text.as_str(), ColorName::Green);
        inventory.push(item);
    }
}

/// A monster the lightning bolt may strike: not the player, combat
/// capable, AI bearing, and on a currently visible tile.
pub open spec fn bolt_candidate(objects: Seq<Object>, fov: FovGrid, i: int) -> bool {
    &&& 0 < i < objects.len()
    &&& objects[i].fighter is Some
    &&& objects[i].ai is Some
    &&& fov.at(objects[i].x as int, objects[i].y as int)
}

/// Squared distance from the player to entity `i`.
pub open spec fn player_d2(objects: Seq<Object>, i: int) -> int {
    dist_sq(
        objects[0].x as int,
        objects[0].y as int,
        objects[i].x as int,
        objects[i].y as int,
    )
}

/// Whether some visible monster is strictly within `max_range + 1` of the
/// player (the scan's strict comparison against that bound).
pub open spec fn has_bolt_target(objects: Seq<Object>, fov: FovGrid, max_range: int) -> bool {
    exists|i: int|
        bolt_candidate(objects, fov, i) && #[trigger] player_d2(objects, i) < (max_range + 1) * (
        max_range + 1)
}

/// Find the closest living, AI-bearing, visible monster within range of
/// the player: the first one at minimal distance wins ties.
pub fn closest_monster(max_range: i32, objects: &Vec<Object>, fov: &FovGrid) -> (r: Option<
    usize,
>)
    requires
        objects@.len() > 0,
        objects_on_grid(objects@),
        fov.wf(),
        0 <= max_range <= 1048576,
    ensures
        match r {
            None => !has_bolt_target(objects@, *fov, max_range as int),
            Some(id) => {
                &&& bolt_candidate(objects@, *fov, id as int)
                &&& player_d2(objects@, id as int) < (max_range + 1) * (max_range + 1)
                &&& forall|j: int|
                    bolt_candidate(objects@, *fov, j) ==> #[trigger] player_d2(objects@, j)
                        >= player_d2(objects@, id as int)
                &&& forall|j: int|
                    bolt_candidate(objects@, *fov, j) && #[trigger] player_d2(objects@, j)
                        == player_d2(objects@, id as int) ==> id as int <= j
            },
        },
{
    let mut closest_enemy: Option<usize> = None;
    let range_l: i64 = max_range as i64 + 1;
    proof {
        assert(0 <= range_l * range_l <= 1099513724929) by (nonlinear_arith)
            requires
                0 <= range_l <= 1048577,
        ;
    }
    let mut closest_dist: i64 = range_l * range_l;
    let ghost init_dist = closest_dist as int;
    let n = objects.len();
    let mut i: usize = 1;
    while i < n
        invariant
            n == objects@.len(),
            n > 0,
            1 <= i,
            i <= n,
            objects_on_grid(objects@),
            fov.wf(),
            init_dist == (max_range + 1) * (max_range + 1),
            closest_dist <= init_dist,
            match closest_enemy {
                None => closest_dist == init_dist && (forall|j: int|
                    1 <= j < i as int && bolt_candidate(objects@, *fov, j)
                        ==> #[trigger] player_d2(objects@, j) >= init_dist),
                Some(id) => {
                    &&& 1 <= id < i
                    &&& bolt_candidate(objects@, *fov, id as int)
                    &&& player_d2(objects@, id as int) == closest_dist < init_dist
                    &&& forall|j: int|
                        1 <= j < i as int && bolt_candidate(objects@, *fov, j)
                            ==> #[trigger] player_d2(objects@, j) >= closest_dist
                    &&& forall|j: int|
                        1 <= j < i as int && bolt_candidate(objects@, *fov, j)
                            && #[trigger] player_d2(objects@, j) == closest_dist ==> id as int
                            <= j
                },
            },
        decreases n - i,
    {
        let o = &objects[i];
        if o.fighter.is_some() && o.ai.is_some() && fov.visible_at(o.x, o.y) {
            let dist = objects[0].distance_to_sq(o);
            if dist < closest_dist {
                closest_enemy = Some(i);
                closest_dist = dist;
            }
        }
        i = i + 1;
    }
    proof {
        if closest_enemy is None {
            assert forall|j: int|
                bolt_candidate(objects@, *fov, j) implies #[trigger] player_d2(objects@, j)
                >= init_dist by {}
        }
    }
    closest_enemy
}

/// The narration line when the player drinks at full health.
pub open spec fn full_health_msg() -> Seq<char> {
    "You are already at full health."@
}

/// How casting heal relates the old state to the new: cancelled at full
/// health or without a combat facet, otherwise the fixed amount is
/// restored (clamped) and the potion is spent.
pub open spec fn heal_cast(
    pre: Seq<Object>,
    post: Seq<Object>,
    lpre: Seq<(Seq<char>, ColorName)>,
    lpost: Seq<(Seq<char>, ColorName)>,
    r: UseResult,
) -> bool {
    match pre[0].fighter {
        Some(f) => {
            if f.hp == f.max_hp {
                &&& r == UseResult::Cancelled
                &&& post == pre
                &&& lpost == log_push(lpre, full_health_msg(), ColorName::Red)
            } else {
                &&& r == UseResult::UsedUp
                &&& post.len() == pre.len()
                &&& (forall|j: int| 0 < j < pre.len() ==> post[j] == pre[j])
                &&& crate::entity::obj_like(
                    (Object {
                        fighter: Some(
                            crate::entity::Fighter {
                                hp: (if f.hp + HEAL_AMOUNT > f.max_hp {
                                    f.max_hp as int
                                } else {
                                    f.hp + HEAL_AMOUNT
                                }) as i32,
                                ..f
                            },
                        ),
                        ..pre[0]
                    }),
                    post[0],
                )
                &&& lpost == log_push(
                    lpre,
                    "Your wounds start ot feel better!"@,
                    ColorName::LightViolet,
                )
            }
        },
        None => r == UseResult::Cancelled && post == pre && lpost == lpre,
    }
}

/// Drink a healing potion: cancelled at full health, otherwise restores
/// the fixed amount.
pub fn cast_heal(objects: &mut Vec<Object>, messages: &mut Messages) -> (r: UseResult)
    requires
        old(objects)@.len() > 0,
        old(objects)@[0].wf(),
    ensures
        final(objects)@.len() == old(objects)@.len(),
        final(objects)@[0].wf(),
        heal_cast(
            old(objects)@,
            final(objects)@,
            log_view(*old(messages)),
            log_view(*final(messages)),
            r,
        ),
{
    match &objects[0].fighter {
        Some(f) => {
            if f.hp == f.max_hp {
                message(messages, "You are already at full health.", ColorName::Red);
                return UseResult::Cancelled;
            }
        },
        None => {
            return UseResult::Cancelled;
        },
    }
    message(messages, "Your wounds start ot feel better!", ColorName::LightViolet);
    let p = &mut objects[0];
    p.heal(HEAL_AMOUNT);
    UseResult::UsedUp
}

/// The narration line for a lightning strike.
pub open spec fn bolt_msg(name: Seq<char>) -> Seq<char> {
    "A lightning bolt strikes the "@ + name + " with a loud thunder! The damage is "@ + dec_int(
        LIGHTNING_DAMAGE as int,
    ) + " hit points."@
}

/// The narration line when no target is in range.
pub open spec fn no_target_msg() -> Seq<char> {
    "No enemy is close enough to strike."@
}

/// Cast lightning: the closest visible monster in range takes the fixed
/// damage; with no target in range the cast cancels and the scroll is
/// kept.
pub fn cast_lightning(
    objects: &mut Vec<Object>,
    messages: &mut Messages,
    fov: &FovGrid,
) -> (r: UseResult)
    requires
        old(objects)@.len() > 0,
        objects_on_grid(old(objects)@),
        fov.wf(),
    ensures
        final(objects)@.len() == old(objects)@.len(),
        if has_bolt_target(old(objects)@, *fov, LIGHTNING_RANGE as int) {
            &&& r == UseResult::UsedUp
            &&& exists|id: int|
                #![auto]
                {
                    &&& bolt_candidate(old(objects)@, *fov, id)
                    &&& player_d2(old(objects)@, id) < (LIGHTNING_RANGE + 1) * (LIGHTNING_RANGE
                        + 1)
                    &&& forall|j: int|
                        bolt_candidate(old(objects)@, *fov, j) ==> player_d2(old(objects)@, j)
                            >= player_d2(old(objects)@, id)
                    &&& forall|j: int|
                        bolt_candidate(old(objects)@, *fov, j) && player_d2(old(objects)@, j)
                            == player_d2(old(objects)@, id) ==> id <= j
                    &&& forall|j: int|
                        0 <= j < old(objects)@.len() && j != id ==> final(objects)@[j]
                            == old(objects)@[j]
                    &&& damaged_post(
                        old(objects)@[id],
                        final(objects)@[id],
                        LIGHTNING_DAMAGE as int,
                    )
                    &&& log_view(*final(messages)) == damage_log(
                        log_push(
                            log_view(*old(messages)),
                            bolt_msg(old(objects)@[id].name@),
                            ColorName::LightBlue,
                        ),
                        old(objects)@[id],
                        LIGHTNING_DAMAGE as int,
                    )
                }
        } else {
            &&& r == UseResult::Cancelled
            &&& final(objects)@ == old(objects)@
            &&& log_view(*final(messages)) == log_push(
                log_view(*old(messages)),
                no_target_msg(),
                ColorName::Red,
            )
        },
{
    let monster_id = closest_monster(LIGHTNING_RANGE, objects, fov);
    match monster_id {
        Some(id) => {
            let mut text = String::from_str("A lightning bolt strikes the ");
            text.append(objects[id].name.as_str());
            text.append(" with a loud thunder! The damage is ");
            text.append(i32_dec_string(LIGHTNING_DAMAGE).as_str());
            text.append(" hit points.");
            proof {
                assert(text@ =~= bolt_msg(objects@[id as int].name@));
            }
            message(messages, text.as_str(), ColorName::LightBlue);
            let target = &mut objects[id];
            target.take_damage(messages, LIGHTNING_DAMAGE);
            UseResult::UsedUp
        },
        None => {
            message(messages, "No enemy is close enough to strike.", ColorName::Red);
            UseResult::Cancelled
        },
    }
}

/// The targeting prompt for the confusion scroll.
pub open spec fn confuse_prompt_msg() -> Seq<char> {
    "Left-click an enemy to confuse it, or right-click to cancel."@
}

/// The narration line for a freshly confused monster.
pub open spec fn confused_msg(name: Seq<char>) -> Seq<char> {
    "The eyes of "@ + name + " look vacant, as he starts to stumble around!"@
}

/// Cast confusion on the oracle's chosen monster: its AI is wrapped in a
/// confusion that remembers the previous behaviour; no choice cancels.
pub fn cast_confuse(
    objects: &mut Vec<Object>,
    messages: &mut Messages,
    target: Option<usize>,
) -> (r: UseResult)
    requires
        match target {
            Some(id) => id < old(objects)@.len(),
            None => true,
        },
    ensures
        final(objects)@.len() == old(objects)@.len(),
        match target {
            Some(id) => {
                &&& r == UseResult::UsedUp
                &&& forall|j: int|
                    0 <= j < old(objects)@.len() && j != id as int ==> final(objects)@[j]
                        == old(objects)@[j]
                &&& crate::entity::obj_like(
                    (Object { ai: final(objects)@[id as int].ai, ..old(objects)@[id as int] }),
                    final(objects)@[id as int],
                )
                &&& match final(objects)@[id as int].ai {
                    Some(Ai::Confused { previous_ai, num_turns }) => {
                        &&& *previous_ai == (match old(objects)@[id as int].ai {
                            Some(a) => a,
                            None => Ai::Basic,
                        })
                        &&& num_turns == CONFUSE_NUM_TURNS
                    },
                    _ => false,
                }
                &&& log_view(*final(messages)) == log_push(
                    log_push(
                        log_view(*old(messages)),
                        confuse_prompt_msg(),
                        ColorName::LightCyan,
                    ),
                    confused_msg(old(objects)@[id as int].name@),
                    ColorName::LightGreen,
                )
            },
            None => {
                &&& r == UseResult::Cancelled
                &&& final(objects)@ == old(objects)@
                &&& log_view(*final(messages)) == log_push(
                    log_push(
                        log_view(*old(messages)),
                        confuse_prompt_msg(),
                        ColorName::LightCyan,
                    ),
                    no_target_msg(),
                    ColorName::Red,
                )
            },
        },
{
    message(
        messages,
        "Left-click an enemy to confuse it, or right-click to cancel.",
        ColorName::LightCyan,
    );
    match target {
        Some(id) => {
            let mut taken: Option<Ai> = None;
            let o = &mut objects[id];
            core::mem::swap(&mut o.ai, &mut taken);
            let old_ai = match taken {
                Some(a) => a,
                None => Ai::Basic,
            };
            o.ai = Some(
                Ai::Confused { previous_ai: Box::new(old_ai), num_turns: CONFUSE_NUM_TURNS },
            );
            let mut text = String::from_str("The eyes of ");
            text.append(o.name.as_str());
            text.append(" look vacant, as he starts to stumble around!");
            proof {
                assert(text@ =~= confused_msg(old(objects)@[id as int].name@));
            }
            message(messages, text.as_str(), ColorName::LightGreen);
            UseResult::UsedUp
        },
        None => {
            message(messages, "No enemy is close enough to strike.", ColorName::Red);
            UseResult::Cancelled
        },
    }
}

/// The targeting prompt for the fireball scroll.
pub open spec fn fireball_prompt_msg() -> Seq<char> {
    "Left-click a target tile for the fireball, or right-click to cancel."@
}

/// The explosion announcement.
pub open spec fn fireball_blast_msg() -> Seq<char> {
    "The fireball explodes, burning everything within "@ + dec_int(FIREBALL_RADIUS as int)
        + " tiles!"@
}

/// The narration line for each entity caught in the blast.
pub open spec fn burned_msg(name: Seq<char>) -> Seq<char> {
    "The "@ + name + " gets burned for "@ + dec_int(FIREBALL_DAMAGE as int) + " hit points."@
}

/// Whether the blast centred on `(x, y)` catches this entity: within the
/// fixed radius and combat capable (the player included).
pub open spec fn fireball_hit(o: Object, x: int, y: int) -> bool {
    dist_sq(o.x as int, o.y as int, x, y) <= FIREBALL_RADIUS as int * FIREBALL_RADIUS as int
        && o.fighter is Some
}

/// The log after the blast has burned, in collection order, each entity
/// it catches.
pub open spec fn fireball_burn_log(
    log: Seq<(Seq<char>, ColorName)>,
    objs: Seq<Object>,
    x: int,
    y: int,
) -> Seq<(Seq<char>, ColorName)>
    decreases objs.len(),
{
    if objs.len() == 0 {
        log
    } else {
        let o = objs[0];
        let log1 = if fireball_hit(o, x, y) {
            damage_log(
                log_push(log, burned_msg(o.name@), ColorName::Orange),
                o,
                FIREBALL_DAMAGE as int,
            )
        } else {
            log
        };
        fireball_burn_log(log1, objs.drop_first(), x, y)
    }
}

/// Appending one entity to the scan burns it last.
proof fn lemma_fireball_burn_log_push(
    log: Seq<(Seq<char>, ColorName)>,
    objs: Seq<Object>,
    o: Object,
    x: int,
    y: int,
)
    ensures
        fireball_burn_log(log, objs.push(o), x, y) == (if fireball_hit(o, x, y) {
            damage_log(
                log_push(fireball_burn_log(log, objs, x, y), burned_msg(o.name@), ColorName::Orange),
                o,
                FIREBALL_DAMAGE as int,
            )
        } else {
            fireball_burn_log(log, objs, x, y)
        }),
    decreases objs.len(),
{
    reveal_with_fuel(fireball_burn_log, 3);
    if objs.len() == 0 {
        assert(objs.push(o).drop_first() =~= objs);
        assert(objs.push(o)[0] == o);
    } else {
        assert(objs.push(o)[0] == objs[0]);
        assert(objs.push(o).drop_first() =~= objs.drop_first().push(o));
        let log1 = if fireball_hit(objs[0], x, y) {
            damage_log(
                log_push(log, burned_msg(objs[0].name@), ColorName::Orange),
                objs[0],
                FIREBALL_DAMAGE as int,
            )
        } else {
            log
        };
        lemma_fireball_burn_log_push(log1, objs.drop_first(), o, x, y);
    }
}

/// Cast a fireball at the oracle's chosen tile: every combat-capable
/// entity within the fixed radius, the player included, takes the fixed
/// damage; no choice cancels before any announcement but the prompt.
pub fn cast_fireball(
    objects: &mut Vec<Object>,
    messages: &mut Messages,
    target: Option<(i32, i32)>,
) -> (r: UseResult)
    requires
        objects_on_grid(old(objects)@),
        match target {
            Some(t) => in_map(t.0 as int, t.1 as int),
            None => true,
        },
    ensures
        final(objects)@.len() == old(objects)@.len(),
        objects_on_grid(final(objects)@),
        match target {
            Some(t) => {
                &&& r == UseResult::UsedUp
                &&& forall|i: int|
                    0 <= i < old(objects)@.len() ==> (if fireball_hit(
                        old(objects)@[i],
                        t.0 as int,
                        t.1 as int,
                    ) {
                        damaged_post(
                            old(objects)@[i],
                            #[trigger] final(objects)@[i],
                            FIREBALL_DAMAGE as int,
                        )
                    } else {
                        final(objects)@[i] == old(objects)@[i]
                    })
                &&& log_view(*final(messages)) == fireball_burn_log(
                    log_push(
                        log_push(
                            log_view(*old(messages)),
                            fireball_prompt_msg(),
                            ColorName::LightCyan,
                        ),
                        fireball_blast_msg(),
                        ColorName::Orange,
                    ),
                    old(objects)@,
                    t.0 as int,
                    t.1 as int,
                )
            },
            None => {
                &&& r == UseResult::Cancelled
                &&& final(objects)@ == old(objects)@
                &&& log_view(*final(messages)) == log_push(
                    log_view(*old(messages)),
                    fireball_prompt_msg(),
                    ColorName::LightCyan,
                )
            },
        },
{
    message(
        messages,
        "Left-click a target tile for the fireball, or right-click to cancel.",
        ColorName::LightCyan,
    );
    let (x, y) = match target {
        Some(t) => t,
        None => {
            return UseResult::Cancelled;
        },
    };
    let mut text = String::from_str("The fireball explodes, burning everything within ");
    text.append(i32_dec_string(FIREBALL_RADIUS).as_str());
    text.append(" tiles!");
    proof {
        assert(text@ =~= fireball_blast_msg());
    }
    message(messages, text.as_str(), ColorName::Orange);

    let ghost log0 = log_view(*messages);
    let ghost pre = objects@;
    let n = objects.len();
    let mut i: usize = 0;
    while i < n
        invariant
            n == objects@.len(),
            i <= n,
            pre.len() == n,
            objects_on_grid(pre),
            in_map(x as int, y as int),
            forall|j: int| i as int <= j < n ==> objects@[j] == pre[j],
            forall|j: int|
                0 <= j < i as int ==> (if fireball_hit(pre[j], x as int, y as int) {
                    damaged_post(pre[j], #[trigger] objects@[j], FIREBALL_DAMAGE as int)
                } else {
                    objects@[j] == pre[j]
                }),
            forall|j: int| 0 <= j < n ==> (#[trigger] objects@[j]).wf() && in_map(
                objects@[j].x as int,
                objects@[j].y as int,
            ),
            log_view(*messages) == fireball_burn_log(
                log0,
                pre.subrange(0, i as int),
                x as int,
                y as int,
            ),
        decreases n - i,
    {
        proof {
            assert(pre.subrange(0, i as int + 1) =~= pre.subrange(0, i as int).push(pre[i as int]));
            lemma_fireball_burn_log_push(
                log0,
                pre.subrange(0, i as int),
                pre[i as int],
                x as int,
                y as int,
            );
        }
        let hit = {
            let o = &objects[i];
            o.distance_sq(x, y) <= (FIREBALL_RADIUS as i64) * (FIREBALL_RADIUS as i64)
                && o.fighter.is_some()
        };
        if hit {
            let mut text2 = String::from_str("The ");
            text2.append(objects[i].name.as_str());
            text2.append(" gets burned for ");
            text2.append(i32_dec_string(FIREBALL_DAMAGE).as_str());
            text2.append(" hit points.");
            proof {
                assert(text2@ =~= burned_msg(pre[i as int].name@));
            }
            message(messages, text2.as_str(), ColorName::Orange);
            let o = &mut objects[i];
            o.take_damage(messages, FIREBALL_DAMAGE);
        }
        i = i + 1;
    }
    proof {
        assert(pre.subrange(0, n as int) =~= pre);
    }
    UseResult::UsedUp
}

/// What a use of this item needs from the targeting oracle.
#[derive(Clone, Copy, Debug, PartialEq, Eq, Structural)]
pub enum Targeting {
    NoTargeting,
    TileTarget,
    MonsterTarget,
}

/// Which oracle request, if any, a use of this item begins with: the
/// caller asks the oracle and hands the choice to [`use_item`].
pub fn targeting_for(item: Item) -> (t: Targeting)
    ensures
        t == (match item {
            Item::Heal => Targeting::NoTargeting,
            Item::Lightning => Targeting::NoTargeting,
            Item::Confuse => Targeting::MonsterTarget,
            Item::Fireball => Targeting::TileTarget,
        }),
{
    match item {
        Item::Heal => Targeting::NoTargeting,
        Item::Lightning => Targeting::NoTargeting,
        Item::Confuse => Targeting::MonsterTarget,
        Item::Fireball => Targeting::TileTarget,
    }
}

/// The narration line for an entity that is no item.
pub open spec fn cannot_use_msg(name: Seq<char>) -> Seq<char> {
    "The "@ + name + " cannot be used."@
}

/// Which effect a use of the given item performs, with the oracle's
/// choices: the single dispatch relation behind [`use_item`].
pub open spec fn use_dispatch(
    item: Item,
    pre: Seq<Object>,
    post: Seq<Object>,
    lpre: Seq<(Seq<char>, ColorName)>,
    lpost: Seq<(Seq<char>, ColorName)>,
    r: UseResult,
    fov: FovGrid,
    tile_choice: Option<(i32, i32)>,
    monster_choice: Option<usize>,
) -> bool {
    match item {
        Item::Heal => heal_cast(pre, post, lpre, lpost, r),
        Item::Lightning => lightning_cast(pre, post, lpre, lpost, r, fov),
        Item::Confuse => confuse_cast(pre, post, lpre, lpost, r, monster_choice),
        Item::Fireball => fireball_cast(pre, post, lpre, lpost, r, tile_choice),
    }
}

/// Use the item in the given inventory slot: dispatch to its effect; a
/// spent item leaves the inventory, a cancelled one stays, and a
/// cancellation is narrated.  The oracle's choices are handed in as plain
/// values (only the one the item's targeting asks for is read).
pub fn use_item(
    inventory_id: usize,
    inventory: &mut Vec<Object>,
    objects: &mut Vec<Object>,
    messages: &mut Messages,
    fov: &FovGrid,
    tile_choice: Option<(i32, i32)>,
    monster_choice: Option<usize>,
)
    requires
        inventory_id < old(inventory)@.len(),
        old(objects)@.len() > 0,
        objects_on_grid(old(objects)@),
        fov.wf(),
        match monster_choice {
            Some(id) => id < old(objects)@.len(),
            None => true,
        },
        match tile_choice {
            Some(t) => in_map(t.0 as int, t.1 as int),
            None => true,
        },
    ensures
        final(objects)@.len() == old(objects)@.len(),
        match old(inventory)@[inventory_id as int].item {
            None => {
                &&& final(inventory)@ == old(inventory)@
                &&& final(objects)@ == old(objects)@
                &&& log_view(*final(messages)) == log_push(
                    log_view(*old(messages)),
                    cannot_use_msg(old(inventory)@[inventory_id as int].name@),
                    ColorName::White,
                )
            },
            Some(item) => {
                exists|mid: Seq<(Seq<char>, ColorName)>, r: UseResult|
                    {
                        &&& #[trigger] use_dispatch(
                            item,
                            old(objects)@,
                            final(objects)@,
                            log_view(*old(messages)),
                            mid,
                            r,
                            *fov,
                            tile_choice,
                            monster_choice,
                        )
                        &&& (if r == UseResult::UsedUp {
                            final(inventory)@ == old(inventory)@.remove(inventory_id as int)
                                && log_view(*final(messages)) == mid
                        } else {
                            final(inventory)@ == old(inventory)@ && log_view(*final(messages))
                                == log_push(mid, "Cancelled"@, ColorName::White)
                        })
                    }
            },
        },
{
    let item = match &inventory[inventory_id].item {
        Some(it) => Some(*it),
        None => None,
    };
    match item {
        Some(it) => {
            let result = match it {
                Item::Heal => cast_heal(objects, messages),
                Item::Lightning => cast_lightning(objects, messages, fov),
                Item::Confuse => cast_confuse(objects, messages, monster_choice),
                Item::Fireball => cast_fireball(objects, messages, tile_choice),
            };
            let ghost mid = log_view(*messages);
            let ghost rr = result;
            match result {
                UseResult::UsedUp => {
                    inventory.remove(inventory_id);
                },
                UseResult::Cancelled => {
                    message(messages, "Cancelled", ColorName::White);
                },
            }
            proof {
                assert(use_dispatch(
                    it,
                    old(objects)@,
                    objects@,
                    log_view(*old(messages)),
                    mid,
                    rr,
                    *fov,
                    tile_choice,
                    monster_choice,
                ));
                assert(if rr == UseResult::UsedUp {
                    inventory@ == old(inventory)@.remove(inventory_id as int) && log_view(
                        *messages,
                    ) == mid
                } else {
                    inventory@ == old(inventory)@ && log_view(*messages) == log_push(
                        mid,
                        "Cancelled"@,
                        ColorName::White,
                    )
                });
            }
        },
        None => {
            let mut text = String::from_str("The ");
            text.append(inventory[inventory_id].name.as_str());
            text.append(" cannot be used.");
            proof {
                assert(text@ =~= cannot_use_msg(old(inventory)@[inventory_id as int].name@));
            }
            message(messages, text.as_str(), ColorName::White);
        },
    }
}

/// How casting lightning relates the old state to the new, as
/// [`cast_lightning`] ensures it.
pub open spec fn lightning_cast(
    pre: Seq<Object>,
    post: Seq<Object>,
    lpre: Seq<(Seq<char>, ColorName)>,
    lpost: Seq<(Seq<char>, ColorName)>,
    r: UseResult,
    fov: FovGrid,
) -> bool {
    if has_bolt_target(pre, fov, LIGHTNING_RANGE as int) {
        &&& r == UseResult::UsedUp
        &&& exists|id: int|
            #![auto]
            {
                &&& bolt_candidate(pre, fov, id)
                &&& player_d2(pre, id) < (LIGHTNING_RANGE + 1) * (LIGHTNING_RANGE + 1)
                &&& forall|j: int|
                    bolt_candidate(pre, fov, j) ==> player_d2(pre, j) >= player_d2(pre, id)
                &&& forall|j: int|
                    bolt_candidate(pre, fov, j) && player_d2(pre, j) == player_d2(pre, id)
                        ==> id <= j
                &&& forall|j: int| 0 <= j < pre.len() && j != id ==> post[j] == pre[j]
                &&& damaged_post(pre[id], post[id], LIGHTNING_DAMAGE as int)
                &&& lpost == damage_log(
                    log_push(lpre, bolt_msg(pre[id].name@), ColorName::LightBlue),
                    pre[id],
                    LIGHTNING_DAMAGE as int,
                )
            }
    } else {
        &&& r == UseResult::Cancelled
        &&& post == pre
        &&& lpost == log_push(lpre, no_target_msg(), ColorName::Red)
    }
}

/// How casting confusion relates the old state to the new, as
/// [`cast_confuse`] ensures it.
pub open spec fn confuse_cast(
    pre: Seq<Object>,
    post: Seq<Object>,
    lpre: Seq<(Seq<char>, ColorName)>,
    lpost: Seq<(Seq<char>, ColorName)>,
    r: UseResult,
    target: Option<usize>,
) -> bool {
    match target {
        Some(id) => {
            &&& r == UseResult::UsedUp
            &&& forall|j: int| 0 <= j < pre.len() && j != id as int ==> post[j] == pre[j]
            &&& crate::entity::obj_like(
                (Object { ai: post[id as int].ai, ..pre[id as int] }),
                post[id as int],
            )
            &&& match post[id as int].ai {
                Some(Ai::Confused { previous_ai, num_turns }) => {
                    &&& *previous_ai == (match pre[id as int].ai {
                        Some(a) => a,
                        None => Ai::Basic,
                    })
                    &&& num_turns == CONFUSE_NUM_TURNS
                },
                _ => false,
            }
            &&& lpost == log_push(
                log_push(lpre, confuse_prompt_msg(), ColorName::LightCyan),
                confused_msg(pre[id as int].name@),
                ColorName::LightGreen,
            )
        },
        None => {
            &&& r == UseResult::Cancelled
            &&& post == pre
            &&& lpost == log_push(
                log_push(lpre, confuse_prompt_msg(), ColorName::LightCyan),
                no_target_msg(),
                ColorName::Red,
            )
        },
    }
}

/// How casting a fireball relates the old state to the new, as
/// [`cast_fireball`] ensures it.
pub open spec fn fireball_cast(
    pre: Seq<Object>,
    post: Seq<Object>,
    lpre: Seq<(Seq<char>, ColorName)>,
    lpost: Seq<(Seq<char>, ColorName)>,
    r: UseResult,
    target: Option<(i32, i32)>,
) -> bool {
    match target {
        Some(t) => {
            &&& r == UseResult::UsedUp
            &&& post.len() == pre.len()
            &&& forall|i: int|
                0 <= i < pre.len() ==> (if fireball_hit(pre[i], t.0 as int, t.1 as int) {
                    damaged_post(pre[i], #[trigger] post[i], FIREBALL_DAMAGE as int)
                } else {
                    post[i] == pre[i]
                })
            &&& lpost == fireball_burn_log(
                log_push(
                    log_push(lpre, fireball_prompt_msg(), ColorName::LightCyan),
                    fireball_blast_msg(),
                    ColorName::Orange,
                ),
                pre,
                t.0 as int,
                t.1 as int,
            )
        },
        None => {
            &&& r == UseResult::Cancelled
            &&& post == pre
            &&& lpost == log_push(lpre, fireball_prompt_msg(), ColorName::LightCyan)
        },
    }
}

/// The first clicked monster: the lowest-index non-player, combat-capable
/// entity on the tile, as the targeting oracle resolves a click.
pub fn monster_at(objects: &Vec<Object>, x: i32, y: i32) -> (r: Option<usize>)
    ensures
        match r {
            Some(id) => {
                &&& 0 < id < objects@.len()
                &&& objects@[id as int].fighter is Some
                &&& objects@[id as int].x == x
                &&& objects@[id as int].y == y
                &&& forall|j: int|
                    0 < j < id as int ==> !(
                    (#[trigger] objects@[j]).fighter is Some && objects@[j].x == x
                        && objects@[j].y == y)
            },
            None => forall|j: int|
                0 < j < objects@.len() ==> !(
                (#[trigger] objects@[j]).fighter is Some && objects@[j].x == x && objects@[j].y
                    == y),
        },
{
    let n = objects.len();
    let mut i: usize = 1;
    while i < n
        invariant
            n == objects@.len(),
            1 <= i,
            i <= n || n == 0,
            forall|j: int|
                0 < j < i as int ==> !(
                (#[trigger] objects@[j]).fighter is Some && objects@[j].x == x && objects@[j].y
                    == y),
        decreases n - i,
    {
        let o = &objects[i];
        if o.fighter.is_some() && o.x == x && o.y == y {
            return Some(i);
        }
        i = i + 1;
    }
    None
}

/// Whether the oracle may accept a click on this tile: on the grid,
/// currently visible, and when a range is given, within that range of the
/// player.
pub fn valid_target_tile(
    x: i32,
    y: i32,
    player: &Object,
    max_range: Option<i32>,
    fov: &FovGrid,
) -> (b: bool)
    requires
        fov.wf(),
        in_map(player.x as int, player.y as int),
        0 <= x <= 1048576,
        0 <= y <= 1048576,
        match max_range {
            Some(r) => 0 <= r <= 1048576,
            None => true,
        },
    ensures
        b == (in_map(x as int, y as int) && fov.at(x as int, y as int) && (match max_range {
            Some(r) => dist_sq(player.x as int, player.y as int, x as int, y as int) <= r * r,
            None => true,
        })),
{
    let in_fov = x < crate::MAP_WIDTH && y < crate::MAP_HEIGHT && fov.visible_at(x, y);
    let in_range = match max_range {
        Some(r) => {
            proof {
                assert(0 <= r as i64 * r as i64 <= 1099511627776) by (nonlinear_arith)
                    requires
                        0 <= r as i64 <= 1048576,
                ;
            }
            player.distance_sq(x, y) <= (r as i64) * (r as i64)
        },
        None => true,
    };
    in_fov && in_range
}

} // verus!
