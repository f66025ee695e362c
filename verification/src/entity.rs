//! The entity model: one concrete shape for the player, monsters and items,
//! with optional capability facets (combat stats, AI state, item kind), and
//! the combat resolver (damage formula, death transition, narration).
use crate::msg::{
    dec_int, i32_dec_string, log_push, log_view, message, ColorName, Messages,
};
use vstd::prelude::*;
use vstd::string::StringExecFns;

verus! {

/// Which death transition an entity's combat facet selects.
#[derive(Clone, Copy, Debug, PartialEq, Eq, Structural)]
pub enum DeathCallback {
    Player,
    Monster,
}

/// Combat facet: present only on combat-capable entities.
#[derive(Clone, Copy, Debug, PartialEq, Eq, Structural)]
pub struct Fighter {
    pub max_hp: i32,
    pub hp: i32,
    pub defense: i32,
    pub power: i32,
    pub on_death: DeathCallback,
}

/// AI facet: normal behaviour, or a transient confusion that wraps the
/// previous behaviour so it can be restored when the confusion runs out.
#[derive(Debug, PartialEq)]
pub enum Ai {
    Basic,
    Confused { previous_ai: Box<Ai>, num_turns: i32 },
}

/// Item facet: which effect using the item invokes.
#[derive(Clone, Copy, Debug, PartialEq, Eq, Structural)]
pub enum Item {
    Heal,
    Lightning,
    Confuse,
    Fireball,
}

/// The two terminal outcomes of an item use: only `UsedUp` consumes it.
#[derive(Clone, Copy, Debug, PartialEq, Eq, Structural)]
pub enum UseResult {
    UsedUp,
    Cancelled,
}

/// A map-resident or held entity: identity and appearance, plus the
/// optional facets.
#[derive(Debug)]
pub struct Object {
    pub x: i32,
    pub y: i32,
    pub glyph: char,
    pub color: ColorName,
    pub name: String,
    pub blocks: bool,
    pub alive: bool,
    pub fighter: Option<Fighter>,
    pub ai: Option<Ai>,
    pub item: Option<Item>,
}

/// Well-formed combat stats: hit points within bounds, no negative stats.
pub open spec fn fighter_wf(f: Fighter) -> bool {
    0 <= f.hp <= f.max_hp && 0 <= f.defense && 0 <= f.power
}

/// Same entity value, comparing the name by its characters.
pub open spec fn obj_like(a: Object, b: Object) -> bool {
    &&& b.x == a.x
    &&& b.y == a.y
    &&& b.glyph == a.glyph
    &&& b.color == a.color
    &&& b.name@ == a.name@
    &&& b.blocks == a.blocks
    &&& b.alive == a.alive
    &&& b.fighter == a.fighter
    &&& b.ai == a.ai
    &&& b.item == a.item
}

/// The hit points left after taking `damage`: non-positive damage is
/// ignored, and hit points never go below zero.
pub open spec fn hp_after_damage(f: Fighter, damage: int) -> int {
    if damage > 0 {
        if damage >= f.hp {
            0
        } else {
            f.hp - damage
        }
    } else {
        f.hp as int
    }
}

/// The corpse name a dead monster is renamed to.
pub open spec fn remains_name(name: Seq<char>) -> Seq<char> {
    "remains of "@ + name
}

/// The narration line for a monster's death.
pub open spec fn monster_death_msg(name: Seq<char>) -> Seq<char> {
    name + " is dead!"@
}

/// How taking `damage` relates an entity's old value to its new one:
/// no-op without a combat facet; otherwise hit points drop (clamped at
/// zero), and reaching zero triggers the death transition that the
/// facet's tag selects.
pub open spec fn damaged_post(pre: Object, post: Object, damage: int) -> bool {
    match pre.fighter {
        None => obj_like(pre, post),
        Some(f) => {
            let hp2 = hp_after_damage(f, damage);
            if hp2 > 0 {
                obj_like(Object { fighter: Some(Fighter { hp: hp2 as i32, ..f }), ..pre }, post)
            } else {
                match f.on_death {
                    DeathCallback::Player => obj_like(
                        Object {
                            glyph: '%',
                            color: ColorName::DarkRed,
                            alive: false,
                            fighter: Some(Fighter { hp: 0, ..f }),
                            ..pre
                        },
                        post,
                    ),
                    DeathCallback::Monster => {
                        &&& post.x == pre.x
                        &&& post.y == pre.y
                        &&& post.glyph == '%'
                        &&& post.color == ColorName::DarkRed
                        &&& post.name@ == remains_name(pre.name@)
                        &&& !post.blocks
                        &&& !post.alive
                        &&& post.fighter is None
                        &&& post.ai is None
                        &&& post.item == pre.item
                    },
                }
            }
        },
    }
}

/// What taking `damage` appends to the log: nothing unless the blow is
/// lethal, then the death narration of the facet's tag.
pub open spec fn damage_log(
    log: Seq<(Seq<char>, ColorName)>,
    pre: Object,
    damage: int,
) -> Seq<(Seq<char>, ColorName)> {
    match pre.fighter {
        None => log,
        Some(f) => {
            if hp_after_damage(f, damage) > 0 {
                log
            } else {
                match f.on_death {
                    DeathCallback::Player => log_push(log, "You died!"@, ColorName::Red),
                    DeathCallback::Monster => log_push(
                        log,
                        monster_death_msg(pre.name@),
                        ColorName::Orange,
                    ),
                }
            }
        },
    }
}

/// Death transition for the player: corpse glyph and colour, narration.
/// The entity stays in place; `alive` is already cleared by the caller.
fn player_death(messages: &mut Messages, player: &mut Object)
    ensures
        obj_like(
            (Object { glyph: '%', color: ColorName::DarkRed, ..*old(player) }),
            *final(player),
        ),
        log_view(*final(messages)) == log_push(
            log_view(*old(messages)),
            "You died!"@,
            ColorName::Red,
        ),
{
    message(messages, "You died!", ColorName::Red);
    player.glyph = '%';
    player.color = ColorName::DarkRed;
}

/// Death transition for a monster: it becomes a corpse that does not
/// block, cannot be attacked and does not act.
fn monster_death(messages: &mut Messages, monster: &mut Object)
    ensures
        final(monster).x == old(monster).x,
        final(monster).y == old(monster).y,
        final(monster).glyph == '%',
        final(monster).color == ColorName::DarkRed,
        final(monster).name@ == remains_name(old(monster).name@),
        !final(monster).blocks,
        final(monster).alive == old(monster).alive,
        final(monster).fighter is None,
        final(monster).ai is None,
        final(monster).item == old(monster).item,
        log_view(*final(messages)) == log_push(
            log_view(*old(messages)),
            monster_death_msg(old(monster).name@),
            ColorName::Orange,
        ),
{
    let mut text = monster.name.clone();
    text.append(" is dead!");
    message(messages, text.as_str(), ColorName::Orange);
    monster.glyph = '%';
    monster.color = ColorName::DarkRed;
    monster.blocks = false;
    monster.fighter = None;
    monster.ai = None;
    let mut renamed = String::from_str("remains of ");
    renamed.append(monster.name.as_str());
    monster.name = renamed;
}

impl DeathCallback {
    /// Run the death transition this tag selects.
    pub fn callback(self, messages: &mut Messages, object: &mut Object)
        ensures
            match self {
                DeathCallback::Player => {
                    &&& obj_like(
                        (Object { glyph: '%', color: ColorName::DarkRed, ..*old(object) }),
                        *final(object),
                    )
                    &&& log_view(*final(messages)) == log_push(
                        log_view(*old(messages)),
                        "You died!"@,
                        ColorName::Red,
                    )
                },
                DeathCallback::Monster => {
                    &&& final(object).x == old(object).x
                    &&& final(object).y == old(object).y
                    &&& final(object).glyph == '%'
                    &&& final(object).color == ColorName::DarkRed
                    &&& final(object).name@ == remains_name(old(object).name@)
                    &&& !final(object).blocks
                    &&& final(object).alive == old(object).alive
                    &&& final(object).fighter is None
                    &&& final(object).ai is None
                    &&& final(object).item == old(object).item
                    &&& log_view(*final(messages)) == log_push(
                        log_view(*old(messages)),
                        monster_death_msg(old(object).name@),
                        ColorName::Orange,
                    )
                },
            },
    {
        match self {
            DeathCallback::Player => player_death(messages, object),
            DeathCallback::Monster => monster_death(messages, object),
        }
    }
}

impl Object {
    /// Well-formed entity: the combat facet, if present, has bounded hit
    /// points, and an entity at zero hit points is not alive.
    pub open spec fn wf(self) -> bool {
        match self.fighter {
            None => true,
            Some(f) => fighter_wf(f) && (f.hp == 0 ==> !self.alive),
        }
    }

    /// A fresh entity: not alive and without facets until a caller adds
    /// them.
    pub fn new(x: i32, y: i32, glyph: char, name: &str, color: ColorName, blocks: bool) -> (o:
        Object)
        ensures
            o.x == x,
            o.y == y,
            o.glyph == glyph,
            o.name@ == name@,
            o.color == color,
            o.blocks == blocks,
            !o.alive,
            o.fighter is None,
            o.ai is None,
            o.item is None,
    {
        Object {
            x,
            y,
            glyph,
            name: name.to_owned(),
            color,
            blocks,
            alive: false,
            fighter: None,
            ai: None,
            item: None,
        }
    }

    /// Current position.
    pub fn pos(&self) -> (p: (i32, i32))
        ensures
            p == (self.x, self.y),
    {
        (self.x, self.y)
    }

    /// Move to the given position.
    pub fn set_pos(&mut self, x: i32, y: i32)
        ensures
            *final(self) == (Object { x, y, ..*old(self) }),
    {
        self.x = x;
        self.y = y;
    }

    /// Squared Euclidean distance to a point.  Distances are compared
    /// squared throughout, which orders them exactly as the true ones.
    pub fn distance_sq(&self, x: i32, y: i32) -> (d: i64)
        requires
            -1048576 <= self.x <= 1048576,
            -1048576 <= self.y <= 1048576,
            -1048576 <= x <= 1048576,
            -1048576 <= y <= 1048576,
        ensures
            d == dist_sq(self.x as int, self.y as int, x as int, y as int),
    {
        let dx: i64 = x as i64 - self.x as i64;
        let dy: i64 = y as i64 - self.y as i64;
        proof {
            assert(0 <= dx * dx <= 4398046511104) by (nonlinear_arith)
                requires
                    -2097152 <= dx <= 2097152,
            ;
            assert(0 <= dy * dy <= 4398046511104) by (nonlinear_arith)
                requires
                    -2097152 <= dy <= 2097152,
            ;
        }
        dx * dx + dy * dy
    }

    /// Squared Euclidean distance to another entity.
    pub fn distance_to_sq(&self, other: &Object) -> (d: i64)
        requires
            -1048576 <= self.x <= 1048576,
            -1048576 <= self.y <= 1048576,
            -1048576 <= other.x <= 1048576,
            -1048576 <= other.y <= 1048576,
        ensures
            d == dist_sq(self.x as int, self.y as int, other.x as int, other.y as int),
    {
        self.distance_sq(other.x, other.y)
    }

    /// Take damage: non-positive amounts are ignored; hit points never
    /// drop below zero; reaching zero clears `alive` and runs the death
    /// transition the combat facet's tag selects.
    pub fn take_damage(&mut self, messages: &mut Messages, damage: i32)
        requires
            old(self).wf(),
        ensures
            final(self).wf(),
            damaged_post(*old(self), *final(self), damage as int),
            log_view(*final(messages)) == damage_log(
                log_view(*old(messages)),
                *old(self),
                damage as int,
            ),
    {
        let mut died = false;
        match &mut self.fighter {
            Some(f) => {
                if damage > 0 {
                    if damage >= f.hp {
                        f.hp = 0;
                    } else {
                        f.hp = f.hp - damage;
                    }
                }
                if f.hp <= 0 {
                    died = true;
                }
            },
            None => {},
        }
        if died {
            self.alive = false;
            let cb = match &self.fighter {
                Some(f) => f.on_death,
                None => DeathCallback::Player,
            };
            cb.callback(messages, self);
        }
    }

    /// Heal: hit points rise by `amount`, clamped at the maximum; no-op
    /// without a combat facet.
    pub fn heal(&mut self, amount: i32)
        requires
            old(self).wf(),
            0 <= amount,
        ensures
            final(self).wf(),
            match old(self).fighter {
                None => obj_like(*old(self), *final(self)),
                Some(f) => obj_like(
                    Object {
                        fighter: Some(
                            Fighter {
                                hp: (if f.hp + amount > f.max_hp {
                                    f.max_hp as int
                                } else {
                                    f.hp + amount
                                }) as i32,
                                ..f
                            },
                        ),
                        ..*old(self)
                    },
                    *final(self),
                ),
            },
    {
        match &mut self.fighter {
            Some(f) => {
                if amount >= f.max_hp - f.hp {
                    f.hp = f.max_hp;
                } else {
                    f.hp = f.hp + amount;
                }
            },
            None => {},
        }
    }

    /// Attack another entity: damage is the attacker's power minus the
    /// defender's defense; a positive result is narrated and applied,
    /// anything else is narrated as having no effect.
    pub fn attack(&self, messages: &mut Messages, target: &mut Object)
        requires
            self.wf(),
            old(target).wf(),
        ensures
            final(target).wf(),
            attack_post(fighter_power(self.fighter), *old(target), *final(target)),
            log_view(*final(messages)) == attack_log(
                log_view(*old(messages)),
                self.name@,
                fighter_power(self.fighter),
                *old(target),
            ),
    {
        let power = match &self.fighter {
            Some(f) => f.power,
            None => 0,
        };
        attack_apply(self.name.as_str(), power, messages, target);
    }
}

/// Hit points stay within bounds after every mutation: a well-formed
/// entity's combat facet always satisfies `0 <= hp <= max_hp`, and an
/// entity at zero hit points is not alive.  Every mutating operation
/// (`take_damage`, `heal`, `attack`) requires and re-establishes
/// well-formedness, so this holds after any sequence of such calls.
pub proof fn lemma_hp_bounds(o: Object)
    requires
        o.wf(),
        o.fighter is Some,
    ensures
        0 <= o.fighter->Some_0.hp <= o.fighter->Some_0.max_hp,
        o.fighter->Some_0.hp == 0 ==> !o.alive,
{
}

/// Squared Euclidean distance between two points.
pub open spec fn dist_sq(x1: int, y1: int, x2: int, y2: int) -> int {
    (x2 - x1) * (x2 - x1) + (y2 - y1) * (y2 - y1)
}

/// The attacker's power, zero without a combat facet.
pub open spec fn fighter_power(f: Option<Fighter>) -> int {
    match f {
        Some(f) => f.power as int,
        None => 0,
    }
}

/// The defender's defense, zero without a combat facet.
pub open spec fn fighter_defense(f: Option<Fighter>) -> int {
    match f {
        Some(f) => f.defense as int,
        None => 0,
    }
}

/// The attack damage formula: power minus defense, not yet clamped.
pub open spec fn attack_damage(power: int, target: Object) -> int {
    power - fighter_defense(target.fighter)
}

/// The narration line for a landed attack.
pub open spec fn attack_hit_msg(attacker: Seq<char>, target: Seq<char>, damage: int) -> Seq<
    char,
> {
    attacker + " attacks "@ + target + " for "@ + dec_int(damage) + " hit points."@
}

/// The narration line for an attack without effect.
pub open spec fn attack_miss_msg(attacker: Seq<char>, target: Seq<char>) -> Seq<char> {
    attacker + " attacks "@ + target + " but it has no effect!"@
}

/// How an attack with the given power relates the defender's old value
/// to its new one: damage is applied exactly when it is positive.
pub open spec fn attack_post(power: int, pre: Object, post: Object) -> bool {
    let d = attack_damage(power, pre);
    if d > 0 {
        damaged_post(pre, post, d)
    } else {
        obj_like(pre, post)
    }
}

/// What an attack with the given power appends to the log.
pub open spec fn attack_log(
    log: Seq<(Seq<char>, ColorName)>,
    attacker: Seq<char>,
    power: int,
    target: Object,
) -> Seq<(Seq<char>, ColorName)> {
    let d = attack_damage(power, target);
    if d > 0 {
        damage_log(
            log_push(log, attack_hit_msg(attacker, target.name@, d), ColorName::Red),
            target,
            d,
        )
    } else {
        log_push(log, attack_miss_msg(attacker, target.name@), ColorName::Green)
    }
}

/// The attack resolution on plain values: lets an attacker drawn from the
/// same collection as the defender strike without aliasing two elements.
pub fn attack_apply(
    attacker_name: &str,
    power: i32,
    messages: &mut Messages,
    target: &mut Object,
)
    requires
        0 <= power,
        old(target).wf(),
    ensures
        final(target).wf(),
        attack_post(power as int, *old(target), *final(target)),
        log_view(*final(messages)) == attack_log(
            log_view(*old(messages)),
            attacker_name@,
            power as int,
            *old(target),
        ),
{
    let defense = match &target.fighter {
        Some(f) => f.defense,
        None => 0,
    };
    let damage = power - defense;
    if damage > 0 {
        let mut text = attacker_name.to_owned();
        text.append(" attacks ");
        text.append(target.name.as_str());
        text.append(" for ");
        text.append(i32_dec_string(damage).as_str());
        text.append(" hit points.");
        proof {
            assert(text@ =~= attack_hit_msg(attacker_name@, target.name@, damage as int));
        }
        message(messages, text.as_str(), ColorName::Red);
        target.take_damage(messages, damage);
    } else {
        let mut text = attacker_name.to_owned();
        text.append(" attacks ");
        text.append(target.name.as_str());
        text.append(" but it has no effect!");
        proof {
            assert(text@ =~= attack_miss_msg(attacker_name@, target.name@));
        }
        message(messages, text.as_str(), ColorName::Green);
    }
}

} // verus!
