//! The turn loop's decision core: one player command maps to exactly one
//! action, and only an action that consumed a turn triggers the monster
//! reaction phase.  The interactive pieces (menus, targeting) live with
//! the caller, which feeds their outcomes back in as plain values.
use crate::effects::{pick_item_up, pick_up_post};
use crate::entity::Object;
use crate::msg::{log_view, ColorName, Messages};
use crate::tiles::GameMap;
use crate::world::{move_or_attack_post, player_move_or_attack, world_wf};
use crate::INVENTORY_CAP;
use vstd::prelude::*;
use vstd::string::StringExecFns;

verus! {

/// What one input cycle amounted to: only `TookTurn` lets the world
/// react.
#[derive(Clone, Copy, Debug, PartialEq, Eq, Structural)]
pub enum PlayerAction {
    TookTurn,
    DidntTakeTurn,
    Exit,
}

/// One discrete player command, as the input collaborator maps raw keys.
#[derive(Clone, Copy, Debug, PartialEq, Eq, Structural)]
pub enum Command {
    MoveUp,
    MoveDown,
    MoveLeft,
    MoveRight,
    Inventory,
    PickUp,
    ToggleFullscreen,
    Escape,
    Other,
}

/// Whether this entity is a pickable item lying on the given tile.
pub open spec fn item_at(o: Object, x: int, y: int) -> bool {
    o.item is Some && o.x == x && o.y == y
}

/// Whether some pickable item lies on the given tile.
pub open spec fn some_item_at(objects: Seq<Object>, x: int, y: int) -> bool {
    exists|i: int| 0 <= i < objects.len() && item_at(#[trigger] objects[i], x, y)
}

/// Map one command to its action.  Directional commands move or attack
/// and consume the turn; pickup takes the first item on the player's
/// tile; escape exits.  The inventory command and the fullscreen toggle
/// are the caller's interactive business and consume nothing here; a
/// dead player can only exit or toggle.
pub fn handle_keys(
    cmd: Command,
    map: &GameMap,
    objects: &mut Vec<Object>,
    inventory: &mut Vec<Object>,
    messages: &mut Messages,
) -> (action: PlayerAction)
    requires
        world_wf(*map, old(objects)@),
        old(objects)@.len() > 0,
    ensures
        world_wf(*map, final(objects)@),
        final(objects)@.len() <= old(objects)@.len(),
        ({
            let alive = old(objects)@[0].alive;
            let unchanged = final(objects)@ == old(objects)@ && final(inventory)@
                == old(inventory)@ && log_view(*final(messages)) == log_view(*old(messages));
            match (cmd, alive) {
                (Command::MoveUp, true) | (Command::MoveDown, true) | (Command::MoveLeft, true)
                    | (Command::MoveRight, true) => {
                    let dx: int = if cmd == Command::MoveLeft {
                        -1
                    } else if cmd == Command::MoveRight {
                        1
                    } else {
                        0
                    };
                    let dy: int = if cmd == Command::MoveUp {
                        -1
                    } else if cmd == Command::MoveDown {
                        1
                    } else {
                        0
                    };
                    &&& action == PlayerAction::TookTurn
                    &&& final(inventory)@ == old(inventory)@
                    &&& move_or_attack_post(
                        *map,
                        old(objects)@,
                        final(objects)@,
                        log_view(*old(messages)),
                        log_view(*final(messages)),
                        dx,
                        dy,
                    )
                },
                (Command::PickUp, true) => {
                    let px = old(objects)@[0].x as int;
                    let py = old(objects)@[0].y as int;
                    &&& action == PlayerAction::DidntTakeTurn
                    &&& if some_item_at(old(objects)@, px, py) {
                        exists|t: int|
                            #![auto]
                            {
                                &&& 0 <= t < old(objects)@.len()
                                &&& item_at(old(objects)@[t], px, py)
                                &&& forall|j: int|
                                    0 <= j < t ==> !item_at(old(objects)@[j], px, py)
                                &&& pick_up_post(
                                    old(objects)@,
                                    final(objects)@,
                                    old(inventory)@,
                                    final(inventory)@,
                                    log_view(*old(messages)),
                                    log_view(*final(messages)),
                                    t,
                                )
                            }
                    } else {
                        unchanged
                    }
                },
                (Command::Escape, _) => action == PlayerAction::Exit && unchanged,
                _ => action == PlayerAction::DidntTakeTurn && unchanged,
            }
        }),
{
    let alive = objects[0].alive;
    match (cmd, alive) {
        (Command::MoveUp, true) => {
            player_move_or_attack(0, -1, map, messages, objects);
            PlayerAction::TookTurn
        },
        (Command::MoveDown, true) => {
            player_move_or_attack(0, 1, map, messages, objects);
            PlayerAction::TookTurn
        },
        (Command::MoveLeft, true) => {
            player_move_or_attack(-1, 0, map, messages, objects);
            PlayerAction::TookTurn
        },
        (Command::MoveRight, true) => {
            player_move_or_attack(1, 0, map, messages, objects);
            PlayerAction::TookTurn
        },
        (Command::PickUp, true) => {
            let px = objects[0].x;
            let py = objects[0].y;
            let n = objects.len();
            let mut found = false;
            let mut item_id: usize = 0;
            let mut i: usize = 0;
            while i < n
                invariant
                    n == objects@.len(),
                    i <= n,
                    !found ==> forall|j: int|
                        0 <= j < i as int ==> !item_at(#[trigger] objects@[j], px as int, py as int),
                    found ==> {
                        &&& item_id < i
                        &&& item_at(objects@[item_id as int], px as int, py as int)
                        &&& forall|j: int|
                            0 <= j < item_id as int ==> !item_at(
                                #[trigger] objects@[j],
                                px as int,
                                py as int,
                            )
                    },
                decreases n - i,
            {
                if !found {
                    let o = &objects[i];
                    if o.item.is_some() && o.x == px && o.y == py {
                        found = true;
                        item_id = i;
                    }
                }
                i = i + 1;
            }
            if found {
                pick_item_up(item_id, objects, inventory, messages);
                proof {
                    assert forall|k: int|
                        0 <= k < final(objects)@.len() implies crate::world::obj_ok(
                        *map,
                        #[trigger] final(objects)@[k],
                    ) by {
                        assert(crate::world::obj_ok(*map, old(objects)@[k])
                            || crate::world::obj_ok(*map, old(objects)@.last()));
                    }
                }
            }
            PlayerAction::DidntTakeTurn
        },
        (Command::Escape, _) => PlayerAction::Exit,
        _ => PlayerAction::DidntTakeTurn,
    }
}

/// The letter slot index a menu key selects: the alphabetic slot of the
/// key's letter, when it falls below the option count.
pub open spec fn letter_index(c: char) -> int {
    if 'a' <= c <= 'z' {
        c as int - 'a' as int
    } else if 'A' <= c <= 'Z' {
        c as int - 'A' as int
    } else {
        -1
    }
}

/// Map a printable key to a menu option index: alphabetic keys address
/// slots in order; anything else, or a slot beyond the option count, is a
/// cancellation.
pub fn menu_selection(printable: char, count: usize) -> (r: Option<usize>)
    ensures
        r == (if 0 <= letter_index(printable) < count as int {
            Some(letter_index(printable) as usize)
        } else {
            None::<usize>
        }),
{
    let idx: usize = if printable >= 'a' && printable <= 'z' {
        (printable as u32 - 'a' as u32) as usize
    } else if printable >= 'A' && printable <= 'Z' {
        (printable as u32 - 'A' as u32) as usize
    } else {
        return None;
    };
    if idx < count {
        Some(idx)
    } else {
        None
    }
}

/// The inventory menu's selection rule: with an empty inventory the menu
/// shows only a placeholder line and no key selects anything; otherwise
/// the key's letter slot selects the held item in that slot, and any
/// other key, or a slot at or past the held count, cancels.
pub fn inventory_selection(inventory: &Vec<Object>, key: char) -> (r: Option<usize>)
    requires
        inventory@.len() <= INVENTORY_CAP,
    ensures
        r == (if inventory@.len() > 0 && 0 <= letter_index(key) < inventory@.len() as int {
            Some(letter_index(key) as usize)
        } else {
            None::<usize>
        }),
{
    if inventory.len() == 0 {
        None
    } else {
        menu_selection(key, inventory.len())
    }
}

/// The option lines of the inventory menu: one per held item, or a single
/// placeholder line when nothing is held.
pub fn inventory_options(inventory: &Vec<Object>) -> (r: Vec<String>)
    ensures
        inventory@.len() == 0 ==> r@.len() == 1 && r@[0]@ == "inventory is empty"@,
        inventory@.len() > 0 ==> r@.len() == inventory@.len() && (forall|i: int|
            0 <= i < inventory@.len() ==> (#[trigger] r@[i])@ == inventory@[i].name@),
{
    let mut r: Vec<String> = Vec::new();
    if inventory.len() == 0 {
        r.push(String::from_str("inventory is empty"));
        return r;
    }
    let n = inventory.len();
    let mut i: usize = 0;
    while i < n
        invariant
            n == inventory@.len(),
            i <= n,
            r@.len() == i as int,
            forall|j: int| 0 <= j < i as int ==> (#[trigger] r@[j])@ == inventory@[j].name@,
        decreases n - i,
    {
        r.push(inventory[i].name.clone());
        i = i + 1;
    }
    r
}

} // verus!
