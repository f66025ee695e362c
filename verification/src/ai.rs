//! The AI controller: one decision per monster per world turn.  Normal
//! monsters chase and strike the player while visible; confused monsters
//! stumble randomly for a bounded number of turns, then their previous
//! behaviour returns exactly.
use crate::entity::{attack_log, attack_post, dist_sq, fighter_power, Ai, Object};
use crate::fov::FovGrid;
use crate::msg::{log_push, log_view, message, ColorName, Messages};
use crate::tiles::GameMap;
use crate::world::{attack_at, move_by, move_by_post, move_towards, step_toward, world_wf};
use crate::rng::rand_range;
use vstd::prelude::*;
use vstd::string::StringExecFns;

verus! {

/// The narration line when a confusion wears off.
pub open spec fn no_longer_confused_msg(name: Seq<char>) -> Seq<char> {
    "The "@ + name + " is no longer confused!"@
}

/// How many turns of confusion are left (zero for normal behaviour).
pub open spec fn confusion_turns(ai: Ai) -> int {
    match ai {
        Ai::Confused { previous_ai, num_turns } => num_turns as int,
        Ai::Basic => 0,
    }
}

/// The behaviour a confusion will restore (itself for normal behaviour).
pub open spec fn confusion_prev(ai: Ai) -> Ai {
    match ai {
        Ai::Confused { previous_ai, num_turns } => *previous_ai,
        Ai::Basic => Ai::Basic,
    }
}

/// The AI-state part of one confused turn: count down while turns remain,
/// then restore the wrapped behaviour exactly.
pub open spec fn confused_next(ai: Ai) -> Ai {
    match ai {
        Ai::Confused { previous_ai, num_turns } => {
            if num_turns > 0 {
                Ai::Confused { previous_ai, num_turns: (num_turns - 1) as i32 }
            } else {
                *previous_ai
            }
        },
        Ai::Basic => Ai::Basic,
    }
}

/// The AI state after `k` confused turns.
pub open spec fn iterate_ai(ai: Ai, k: nat) -> Ai
    decreases k,
{
    if k == 0 {
        ai
    } else {
        iterate_ai(confused_next(ai), (k - 1) as nat)
    }
}

/// Confusion lasts exactly its stated duration: after `k` of the `n`
/// turns the monster is still confused with `n - k` turns left and the
/// same wrapped behaviour, and on the turn after the last it is exactly
/// the prior behaviour again.
pub proof fn lemma_confusion_duration(ai: Ai, k: int)
    requires
        ai is Confused,
        0 <= k <= confusion_turns(ai),
    ensures
        iterate_ai(ai, k as nat) is Confused,
        confusion_turns(iterate_ai(ai, k as nat)) == confusion_turns(ai) - k,
        confusion_prev(iterate_ai(ai, k as nat)) == confusion_prev(ai),
        k == confusion_turns(ai) ==> iterate_ai(ai, (k + 1) as nat) == confusion_prev(ai),
    decreases k,
{
    if k == 0 {
        if confusion_turns(ai) == 0 {
            assert(iterate_ai(confused_next(ai), 0) == confused_next(ai));
            assert(iterate_ai(ai, 1) == iterate_ai(confused_next(ai), 0));
        }
    } else {
        lemma_confusion_duration(confused_next(ai), k - 1);
    }
}

/// How one normal-behaviour turn relates the old state to the new: a
/// visible monster steps toward the player while two or more tiles away,
/// strikes while closer and the player lives, and otherwise stands still.
pub open spec fn basic_turn_post(
    map: GameMap,
    pre: Seq<Object>,
    post: Seq<Object>,
    lpre: Seq<(Seq<char>, ColorName)>,
    lpost: Seq<(Seq<char>, ColorName)>,
    id: int,
    fov: FovGrid,
) -> bool {
    let m = pre[id];
    let p = pre[0];
    let d2 = dist_sq(m.x as int, m.y as int, p.x as int, p.y as int);
    if fov.at(m.x as int, m.y as int) {
        if d2 >= 4 {
            move_by_post(
                map,
                pre,
                post,
                id,
                step_toward(p.x - m.x, d2),
                step_toward(p.y - m.y, d2),
            ) && lpost == lpre
        } else if match p.fighter {
            Some(f) => f.hp > 0,
            None => false,
        } {
            &&& forall|j: int| 0 < j < pre.len() ==> post[j] == pre[j]
            &&& attack_post(fighter_power(m.fighter), p, post[0])
            &&& lpost == attack_log(lpre, m.name@, fighter_power(m.fighter), p)
        } else {
            post == pre && lpost == lpre
        }
    } else {
        post == pre && lpost == lpre
    }
}

/// One normal-behaviour turn: a visible monster steps toward the player
/// while two or more tiles away, and strikes while closer and the player
/// lives.  The behaviour itself never changes.
pub fn ai_basic(
    monster_id: usize,
    map: &GameMap,
    objects: &mut Vec<Object>,
    fov: &FovGrid,
    messages: &mut Messages,
) -> (r: Ai)
    requires
        world_wf(*map, old(objects)@),
        fov.wf(),
        0 < monster_id < old(objects)@.len(),
    ensures
        world_wf(*map, final(objects)@),
        final(objects)@.len() == old(objects)@.len(),
        r == Ai::Basic,
        basic_turn_post(
            *map,
            old(objects)@,
            final(objects)@,
            log_view(*old(messages)),
            log_view(*final(messages)),
            monster_id as int,
            *fov,
        ),
{
    let mx = objects[monster_id].x;
    let my = objects[monster_id].y;
    if fov.visible_at(mx, my) {
        let d2 = objects[monster_id].distance_to_sq(&objects[0]);
        if d2 >= 4 {
            let px = objects[0].x;
            let py = objects[0].y;
            proof {
                if px == mx && py == my {
                    assert((px as int - mx as int) * (px as int - mx as int) + (py as int - my
                        as int) * (py as int - my as int) == 0) by (nonlinear_arith)
                        requires
                            px == mx,
                            py == my,
                    ;
                    assert(dist_sq(mx as int, my as int, px as int, py as int) == 0);
                }
            }
            move_towards(monster_id, px, py, map, objects);
        } else {
            let player_lives = match &objects[0].fighter {
                Some(f) => f.hp > 0,
                None => false,
            };
            if player_lives {
                attack_at(monster_id, 0, objects, messages);
            }
        }
    }
    Ai::Basic
}

/// One confused turn: while turns remain, one random single-tile stumble
/// (each axis drawn independently) and a count-down; at zero, the wrapped
/// behaviour is restored with a narration line.  A confused monster never
/// attacks.
pub fn ai_confused(
    monster_id: usize,
    map: &GameMap,
    objects: &mut Vec<Object>,
    messages: &mut Messages,
    previous_ai: Box<Ai>,
    num_turns: i32,
) -> (r: Ai)
    requires
        world_wf(*map, old(objects)@),
        monster_id < old(objects)@.len(),
    ensures
        world_wf(*map, final(objects)@),
        final(objects)@.len() == old(objects)@.len(),
        if num_turns > 0 {
            &&& (exists|dx: int, dy: int|
                -1 <= dx <= 1 && -1 <= dy <= 1 && #[trigger] move_by_post(
                    *map,
                    old(objects)@,
                    final(objects)@,
                    monster_id as int,
                    dx,
                    dy,
                ))
            &&& r == (Ai::Confused { previous_ai, num_turns: (num_turns - 1) as i32 })
            &&& log_view(*final(messages)) == log_view(*old(messages))
        } else {
            &&& final(objects)@ == old(objects)@
            &&& r == *previous_ai
            &&& log_view(*final(messages)) == log_push(
                log_view(*old(messages)),
                no_longer_confused_msg(old(objects)@[monster_id as int].name@),
                ColorName::Red,
            )
        },
{
    if num_turns > 0 {
        let dx = rand_range(-1, 2);
        let dy = rand_range(-1, 2);
        move_by(monster_id, dx, dy, map, objects);
        proof {
            assert(move_by_post(
                *map,
                old(objects)@,
                objects@,
                monster_id as int,
                dx as int,
                dy as int,
            ));
        }
        Ai::Confused { previous_ai, num_turns: num_turns - 1 }
    } else {
        let mut text = String::from_str("The ");
        text.append(objects[monster_id].name.as_str());
        text.append(" is no longer confused!");
        proof {
            assert(text@ =~= no_longer_confused_msg(objects@[monster_id as int].name@));
        }
        message(messages, text.as_str(), ColorName::Red);
        *previous_ai
    }
}

/// How one AI turn for one monster relates the old state to the new:
/// dispatch on its current behaviour; normal behaviour acts as
/// [`basic_turn_post`] says and stays itself, a confusion counts down (a
/// bounded stumble, no narration) or reverts with its narration, and an
/// entity without an AI facet does nothing.
pub open spec fn take_turn_post(
    map: GameMap,
    pre: Seq<Object>,
    post: Seq<Object>,
    lpre: Seq<(Seq<char>, ColorName)>,
    lpost: Seq<(Seq<char>, ColorName)>,
    id: int,
    fov: FovGrid,
) -> bool {
    &&& post.len() == pre.len()
    &&& (forall|j: int| 0 <= j < pre.len() && j != id && j != 0 ==> post[j] == pre[j])
    &&& (pre[0].ai is None ==> post[0].ai is None)
    &&& match pre[id].ai {
        None => post == pre && lpost == lpre,
        Some(Ai::Basic) => post[id].ai == Some(Ai::Basic) && basic_turn_post(
            map,
            pre,
            post,
            lpre,
            lpost,
            id,
            fov,
        ),
        Some(Ai::Confused { previous_ai, num_turns }) => {
            &&& post[id].ai == Some(confused_next(Ai::Confused { previous_ai, num_turns }))
            &&& forall|j: int| 0 <= j < pre.len() && j != id ==> post[j] == pre[j]
            &&& crate::entity::obj_like(
                (Object { x: post[id].x, y: post[id].y, ai: post[id].ai, ..pre[id] }),
                post[id],
            )
            &&& -1 <= post[id].x - pre[id].x <= 1
            &&& -1 <= post[id].y - pre[id].y <= 1
            &&& if num_turns > 0 {
                lpost == lpre
            } else {
                &&& post[id].x == pre[id].x
                &&& post[id].y == pre[id].y
                &&& lpost == log_push(
                    lpre,
                    no_longer_confused_msg(pre[id].name@),
                    ColorName::Red,
                )
            }
        },
    }
}

/// One step of the monster-reaction phase at one index: an AI-bearing
/// entity takes its turn, anything else leaves the world untouched.
pub open spec fn phase_step(
    map: GameMap,
    pre: Seq<Object>,
    post: Seq<Object>,
    lpre: Seq<(Seq<char>, ColorName)>,
    lpost: Seq<(Seq<char>, ColorName)>,
    id: int,
    fov: FovGrid,
) -> bool {
    if pre[id].ai is Some {
        take_turn_post(map, pre, post, lpre, lpost, id, fov)
    } else {
        post == pre && lpost == lpre
    }
}

/// One AI turn for one monster: dispatch on its current behaviour and
/// store the behaviour that results.  An entity without an AI facet does
/// nothing.
pub fn ai_take_turn(
    monster_id: usize,
    map: &GameMap,
    messages: &mut Messages,
    objects: &mut Vec<Object>,
    fov: &FovGrid,
)
    requires
        world_wf(*map, old(objects)@),
        fov.wf(),
        monster_id < old(objects)@.len(),
        old(objects)@.len() > 0,
        monster_id == 0 ==> old(objects)@[0].ai is None,
    ensures
        world_wf(*map, final(objects)@),
        take_turn_post(
            *map,
            old(objects)@,
            final(objects)@,
            log_view(*old(messages)),
            log_view(*final(messages)),
            monster_id as int,
            *fov,
        ),
{
    let tag: usize = match &objects[monster_id].ai {
        None => 0,
        Some(Ai::Basic) => 1,
        Some(Ai::Confused { .. }) => 2,
    };
    if tag == 0 {
        return ;
    }
    if tag == 1 {
        let r = ai_basic(monster_id, map, objects, fov, messages);
        let ghost mid = objects@;
        let o = &mut objects[monster_id];
        o.ai = Some(r);
        proof {
            assert(mid[monster_id as int].ai == Some(Ai::Basic));
            assert(objects@ =~= mid);
        }
        return ;
    }
    let ghost pre = objects@;
    let mut taken: Option<Ai> = None;
    let o = &mut objects[monster_id];
    core::mem::swap(&mut o.ai, &mut taken);
    let ghost mid0 = objects@;
    match taken {
        Some(Ai::Confused { previous_ai, num_turns }) => {
            let new_ai = ai_confused(monster_id, map, objects, messages, previous_ai, num_turns);
            let ghost mid1 = objects@;
            let o2 = &mut objects[monster_id];
            o2.ai = Some(new_ai);
            proof {
                let id = monster_id as int;
                if num_turns > 0 {
                    let (dx, dy) = choose|dx: int, dy: int|
                        -1 <= dx <= 1 && -1 <= dy <= 1 && #[trigger] move_by_post(
                            *map,
                            mid0,
                            mid1,
                            id,
                            dx,
                            dy,
                        );
                    if crate::world::tile_is_blocked(
                        *map,
                        mid0,
                        mid0[id].x + dx,
                        mid0[id].y + dy,
                    ) {
                        assert(mid1 == mid0);
                    } else {
                        assert(mid1 == mid0.update(
                            id,
                            Object {
                                x: (mid0[id].x + dx) as i32,
                                y: (mid0[id].y + dy) as i32,
                                ..mid0[id]
                            },
                        ));
                    }
                } else {
                    assert(mid1 == mid0);
                }
            }
        },
        _ => {
            proof {
                assert(false);
            }
        },
    }
}

/// The monster-reaction phase of one world turn: every AI-bearing entity
/// acts once, in collection order.  The returned ghost trace carries the
/// intermediate states: the final state is reached from the initial one
/// by applying, for each index in order, exactly the per-monster step
/// relation.
pub fn monsters_take_turns(
    map: &GameMap,
    objects: &mut Vec<Object>,
    fov: &FovGrid,
    messages: &mut Messages,
) -> (trace: Ghost<(Seq<Seq<Object>>, Seq<Seq<(Seq<char>, ColorName)>>)>)
    requires
        world_wf(*map, old(objects)@),
        fov.wf(),
        old(objects)@.len() > 0,
        old(objects)@[0].ai is None,
    ensures
        world_wf(*map, final(objects)@),
        final(objects)@.len() == old(objects)@.len(),
        final(objects)@[0].ai is None,
        ({
            let states = trace@.0;
            let logs = trace@.1;
            &&& states.len() == old(objects)@.len() + 1
            &&& logs.len() == states.len()
            &&& states[0] == old(objects)@
            &&& states.last() == final(objects)@
            &&& logs[0] == log_view(*old(messages))
            &&& logs.last() == log_view(*final(messages))
            &&& forall|i: int|
                0 <= i < old(objects)@.len() ==> phase_step(
                    *map,
                    #[trigger] states[i],
                    states[i + 1],
                    logs[i],
                    logs[i + 1],
                    i,
                    *fov,
                )
        }),
{
    let ghost s0 = objects@;
    let ghost l0 = log_view(*messages);
    let ghost mut states: Seq<Seq<Object>> = seq![objects@];
    let ghost mut logs: Seq<Seq<(Seq<char>, ColorName)>> = seq![log_view(*messages)];
    let n = objects.len();
    let mut id: usize = 0;
    while id < n
        invariant
            world_wf(*map, objects@),
            fov.wf(),
            n == objects@.len(),
            id <= n,
            n > 0,
            objects@[0].ai is None,
            s0.len() == n,
            states.len() == id as int + 1,
            logs.len() == states.len(),
            states[0] == s0,
            logs[0] == l0,
            states.last() == objects@,
            logs.last() == log_view(*messages),
            forall|i: int|
                0 <= i < id as int ==> phase_step(
                    *map,
                    #[trigger] states[i],
                    states[i + 1],
                    logs[i],
                    logs[i + 1],
                    i,
                    *fov,
                ),
        decreases n - id,
    {
        let ghost prev = objects@;
        let ghost lprev = log_view(*messages);
        let has_ai = objects[id].ai.is_some();
        if has_ai {
            ai_take_turn(id, map, messages, objects, fov);
        }
        proof {
            assert(phase_step(*map, prev, objects@, lprev, log_view(*messages), id as int, *fov));
            states = states.push(objects@);
            logs = logs.push(log_view(*messages));
        }
        id = id + 1;
    }
    Ghost((states, logs))
}

} // verus!
