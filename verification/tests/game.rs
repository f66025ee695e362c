use dungeon_core::ai::{ai_take_turn, monsters_take_turns};
use dungeon_core::effects::{
    cast_fireball, cast_heal, closest_monster, monster_at as monster_on_tile, pick_item_up,
    targeting_for, use_item, valid_target_tile, Targeting,
};
use dungeon_core::entity::{Ai, DeathCallback, Fighter, Item, Object};
use dungeon_core::fov::FovGrid;
use dungeon_core::gen::make_map;
use dungeon_core::msg::{i32_dec_string, message, ColorName, Messages};
use dungeon_core::tiles::{create_room, GameMap, Rect, Tile};
use dungeon_core::turn::{
    handle_keys, inventory_options, inventory_selection, menu_selection, Command, PlayerAction,
};
use dungeon_core::world::{is_blocked, move_by, player_move_or_attack};
use dungeon_core::{MAP_HEIGHT, MAP_WIDTH, MSG_HEIGHT};

fn plain(x: i32, y: i32, glyph: char, name: &str, blocks: bool) -> Object {
    Object {
        x,
        y,
        glyph,
        color: ColorName::White,
        name: name.to_string(),
        blocks,
        alive: false,
        fighter: None,
        ai: None,
        item: None,
    }
}

fn player_at(x: i32, y: i32, hp: i32) -> Object {
    let mut p = plain(x, y, '@', "player", true);
    p.alive = true;
    p.fighter = Some(Fighter {
        max_hp: 30,
        hp,
        defense: 2,
        power: 5,
        on_death: DeathCallback::Player,
    });
    p
}

fn monster_at(x: i32, y: i32, name: &str, hp: i32) -> Object {
    let mut m = plain(x, y, 'o', name, true);
    m.alive = true;
    m.fighter = Some(Fighter {
        max_hp: hp,
        hp,
        defense: 0,
        power: 3,
        on_death: DeathCallback::Monster,
    });
    m.ai = Some(Ai::Basic);
    m
}

fn room_map(r: Rect) -> GameMap {
    let mut map = GameMap::all_walls();
    create_room(r, &mut map);
    map
}

fn last_text(messages: &Messages) -> String {
    messages.last().unwrap().0.clone()
}

#[test]
fn generated_map_is_connected() {
    let mut objects = vec![player_at(0, 0, 30)];
    let map = make_map(&mut objects);
    let (sx, sy) = (objects[0].x as usize, objects[0].y as usize);
    assert!(!map.tiles[sx][sy].blocked);

    let w = MAP_WIDTH as usize;
    let h = MAP_HEIGHT as usize;
    let mut seen = vec![vec![false; h]; w];
    let mut stack = vec![(sx, sy)];
    seen[sx][sy] = true;
    while let Some((x, y)) = stack.pop() {
        let neighbours = [(x + 1, y), (x - 1, y), (x, y + 1), (x, y - 1)];
        for (nx, ny) in neighbours {
            if nx < w && ny < h && !seen[nx][ny] && !map.tiles[nx][ny].blocked {
                seen[nx][ny] = true;
                stack.push((nx, ny));
            }
        }
    }
    for x in 0..w {
        for y in 0..h {
            if !map.tiles[x][y].blocked {
                assert!(seen[x][y], "carved tile unreachable from the start");
            }
        }
    }
}

#[test]
fn generated_population_has_known_species() {
    let mut objects = vec![player_at(0, 0, 30)];
    let map = make_map(&mut objects);
    for o in objects.iter().skip(1) {
        assert!(!map.tiles[o.x as usize][o.y as usize].blocked);
        match (&o.fighter, &o.item) {
            (Some(f), None) => {
                let orc = o.glyph == 'o'
                    && o.name == "Orc"
                    && *f == Fighter { max_hp: 10, hp: 10, defense: 0, power: 3, on_death: DeathCallback::Monster };
                let troll = o.glyph == 'T'
                    && o.name == "Troll"
                    && *f == Fighter { max_hp: 16, hp: 16, defense: 1, power: 4, on_death: DeathCallback::Monster };
                assert!(orc || troll);
                assert!(o.alive && o.blocks);
                assert_eq!(o.ai, Some(Ai::Basic));
            }
            (None, Some(kind)) => {
                assert!(!o.alive && !o.blocks && o.ai.is_none());
                match kind {
                    Item::Heal => assert_eq!(o.name, "Healing Potion"),
                    Item::Lightning => assert_eq!(o.name, "Scroll of lightning bolt"),
                    Item::Fireball => assert_eq!(o.name, "scroll of fireball"),
                    Item::Confuse => assert_eq!(o.name, "scroll of confusion"),
                }
            }
            _ => panic!("spawned entity is neither a monster nor an item"),
        }
    }
}

#[test]
fn damage_clamps_at_zero_and_kills() {
    let mut messages: Messages = vec![];
    let mut p = player_at(5, 5, 10);
    p.take_damage(&mut messages, 25);
    let f = p.fighter.unwrap();
    assert_eq!(f.hp, 0);
    assert!(!p.alive);
    assert_eq!(p.glyph, '%');
    assert_eq!(last_text(&messages), "You died!");
}

#[test]
fn nonpositive_damage_is_ignored() {
    let mut messages: Messages = vec![];
    let mut p = player_at(5, 5, 10);
    p.take_damage(&mut messages, 0);
    p.take_damage(&mut messages, -7);
    assert_eq!(p.fighter.unwrap().hp, 10);
    assert!(p.alive);
    assert!(messages.is_empty());
}

#[test]
fn heal_clamps_at_max_hp() {
    let mut p = player_at(5, 5, 27);
    p.heal(4);
    assert_eq!(p.fighter.unwrap().hp, 30);
    let mut q = player_at(5, 5, 10);
    q.heal(4);
    assert_eq!(q.fighter.unwrap().hp, 14);
    let mut r = plain(5, 5, '!', "thing", false);
    r.heal(4);
    assert!(r.fighter.is_none());
}

#[test]
fn attack_applies_power_minus_defense() {
    let mut messages: Messages = vec![];
    let attacker = monster_at(4, 5, "Orc", 10);
    let mut target = player_at(5, 5, 30);
    attacker.attack(&mut messages, &mut target);
    // damage = 3 - 2 = 1
    assert_eq!(target.fighter.unwrap().hp, 29);
    assert_eq!(last_text(&messages), "Orc attacks player for 1 hit points.");
}

#[test]
fn attack_without_enough_power_has_no_effect() {
    let mut messages: Messages = vec![];
    let mut weak = monster_at(4, 5, "Orc", 10);
    weak.fighter = Some(Fighter { max_hp: 10, hp: 10, defense: 0, power: 2, on_death: DeathCallback::Monster });
    let mut target = player_at(5, 5, 30);
    weak.attack(&mut messages, &mut target);
    assert_eq!(target.fighter.unwrap().hp, 30);
    assert_eq!(last_text(&messages), "Orc attacks player but it has no effect!");
}

#[test]
fn monster_death_leaves_a_corpse() {
    let mut messages: Messages = vec![];
    let mut m = monster_at(6, 5, "Orc", 10);
    m.take_damage(&mut messages, 10);
    assert!(!m.alive);
    assert!(!m.blocks);
    assert!(m.fighter.is_none());
    assert!(m.ai.is_none());
    assert_eq!(m.glyph, '%');
    assert_eq!(m.name, "remains of Orc");
    assert_eq!(messages[messages.len() - 1].0, "Orc is dead!");
}

#[test]
fn confusion_lasts_exactly_its_turns_and_never_attacks() {
    let map = room_map(Rect { x1: 1, y1: 1, x2: 20, y2: 20 });
    let fov = FovGrid::all_hidden();
    let mut messages: Messages = vec![];
    let mut objects = vec![player_at(5, 5, 30), monster_at(6, 5, "Orc", 10)];
    objects[1].ai = Some(Ai::Confused { previous_ai: Box::new(Ai::Basic), num_turns: 3 });

    for expected in [2, 1, 0] {
        ai_take_turn(1, &map, &mut messages, &mut objects, &fov);
        match &objects[1].ai {
            Some(Ai::Confused { previous_ai, num_turns }) => {
                assert_eq!(**previous_ai, Ai::Basic);
                assert_eq!(*num_turns, expected);
            }
            other => panic!("expected continued confusion, got {:?}", other),
        }
        assert_eq!(objects[0].fighter.unwrap().hp, 30, "a confused monster attacked");
        assert!(messages.is_empty());
    }
    ai_take_turn(1, &map, &mut messages, &mut objects, &fov);
    assert_eq!(objects[1].ai, Some(Ai::Basic));
    assert_eq!(last_text(&messages), "The Orc is no longer confused!");
}

#[test]
fn pickup_beyond_cap_fails_and_mutates_nothing() {
    let mut messages: Messages = vec![];
    let mut objects = vec![player_at(5, 5, 30)];
    let mut potion = plain(5, 5, '!', "Healing Potion", false);
    potion.item = Some(Item::Heal);
    objects.push(potion);
    let mut inventory: Vec<Object> = (0..26)
        .map(|i| {
            let mut o = plain(0, 0, '#', &format!("scroll {}", i), false);
            o.item = Some(Item::Lightning);
            o
        })
        .collect();
    pick_item_up(1, &mut objects, &mut inventory, &mut messages);
    assert_eq!(objects.len(), 2);
    assert_eq!(objects[1].name, "Healing Potion");
    assert_eq!(inventory.len(), 26);
    assert_eq!(
        last_text(&messages),
        "Your inventory is full, cannot pick up Healing Potion."
    );
}

#[test]
fn fireball_burns_only_within_radius() {
    let mut messages: Messages = vec![];
    let mut objects = vec![
        player_at(10, 10, 30),
        monster_at(12, 10, "Orc", 10),
        monster_at(15, 15, "Troll", 10),
    ];
    let result = cast_fireball(&mut objects, &mut messages, Some((12, 10)));
    assert!(matches!(result, dungeon_core::entity::UseResult::UsedUp));
    // the monster on the target tile took the full 12 damage and died
    assert!(objects[1].fighter.is_none());
    assert!(!objects[1].alive);
    // the far monster (distance > 3) took none
    assert_eq!(objects[2].fighter.unwrap().hp, 10);
    // the player is caught too: no friendly-fire exemption
    assert_eq!(objects[0].fighter.unwrap().hp, 18);
}

#[test]
fn lightning_without_target_cancels_and_keeps_the_scroll() {
    let map = room_map(Rect { x1: 1, y1: 1, x2: 20, y2: 20 });
    let _ = map;
    let fov = FovGrid::all_hidden();
    let mut messages: Messages = vec![];
    let mut objects = vec![player_at(5, 5, 30), monster_at(6, 5, "Orc", 10)];
    let mut inventory = vec![{
        let mut s = plain(0, 0, '#', "Scroll of lightning bolt", false);
        s.item = Some(Item::Lightning);
        s
    }];
    use_item(0, &mut inventory, &mut objects, &mut messages, &fov, None, None);
    assert_eq!(inventory.len(), 1, "a cancelled cast must keep the item");
    assert_eq!(objects[1].fighter.unwrap().hp, 10);
    let texts: Vec<&str> = messages.iter().map(|m| m.0.as_str()).collect();
    assert!(texts.contains(&"No enemy is close enough to strike."));
    assert_eq!(last_text(&messages), "Cancelled");
}

#[test]
fn lightning_strikes_closest_visible_monster() {
    let mut fov = FovGrid::all_hidden();
    for x in 0..MAP_WIDTH {
        for y in 0..MAP_HEIGHT {
            fov.set_visible(x, y, true);
        }
    }
    let mut messages: Messages = vec![];
    let mut objects = vec![
        player_at(5, 5, 30),
        monster_at(5, 9, "Far Orc", 30),
        monster_at(5, 7, "Near Orc", 30),
    ];
    let mut inventory = vec![{
        let mut s = plain(0, 0, '#', "Scroll of lightning bolt", false);
        s.item = Some(Item::Lightning);
        s
    }];
    use_item(0, &mut inventory, &mut objects, &mut messages, &fov, None, None);
    assert!(inventory.is_empty(), "a spent scroll must leave the inventory");
    assert_eq!(objects[2].fighter.unwrap().hp, 10, "closest monster takes 20");
    assert_eq!(objects[1].fighter.unwrap().hp, 30, "farther monster untouched");
}

#[test]
fn closest_monster_breaks_ties_by_first_index() {
    let mut fov = FovGrid::all_hidden();
    for x in 0..MAP_WIDTH {
        for y in 0..MAP_HEIGHT {
            fov.set_visible(x, y, true);
        }
    }
    let objects = vec![
        player_at(5, 5, 30),
        monster_at(5, 8, "A", 10),
        monster_at(8, 5, "B", 10),
        monster_at(5, 11, "C", 10),
    ];
    assert_eq!(closest_monster(5, &objects, &fov), Some(1));
    // a monster exactly at squared distance (range+1)^2 is out of reach
    let far = vec![player_at(5, 5, 30), monster_at(5, 11, "C", 10)];
    assert_eq!(closest_monster(5, &far, &fov), None);
}

#[test]
fn pickup_then_heal_restores_hit_points() {
    let map = room_map(Rect { x1: 1, y1: 1, x2: 20, y2: 20 });
    let fov = FovGrid::all_hidden();
    let mut messages: Messages = vec![];
    let mut objects = vec![player_at(5, 5, 20)];
    let mut potion = plain(6, 5, '!', "Healing Potion", false);
    potion.item = Some(Item::Heal);
    objects.push(potion);
    let mut inventory: Vec<Object> = vec![];

    // walk onto the potion's tile (items do not block)
    let action = handle_keys(Command::MoveRight, &map, &mut objects, &mut inventory, &mut messages);
    assert_eq!(action, PlayerAction::TookTurn);
    assert_eq!((objects[0].x, objects[0].y), (6, 5));

    // press pickup
    let action = handle_keys(Command::PickUp, &map, &mut objects, &mut inventory, &mut messages);
    assert_eq!(action, PlayerAction::DidntTakeTurn);
    assert_eq!(objects.len(), 1);
    assert_eq!(inventory.len(), 1);
    assert_eq!(last_text(&messages), "You picked up a Healing Potion!");

    // use it at non-full health
    use_item(0, &mut inventory, &mut objects, &mut messages, &fov, None, None);
    assert_eq!(objects[0].fighter.unwrap().hp, 24);
    assert!(inventory.is_empty());
}

#[test]
fn heal_at_full_health_cancels() {
    let mut messages: Messages = vec![];
    let mut objects = vec![player_at(5, 5, 30)];
    let r = cast_heal(&mut objects, &mut messages);
    assert!(matches!(r, dungeon_core::entity::UseResult::Cancelled));
    assert_eq!(objects[0].fighter.unwrap().hp, 30);
    assert_eq!(last_text(&messages), "You are already at full health.");
}

#[test]
fn message_log_drops_oldest_at_cap() {
    let mut messages: Messages = vec![];
    for i in 0..8 {
        message(&mut messages, &format!("line {}", i), ColorName::White);
    }
    assert_eq!(messages.len(), MSG_HEIGHT);
    assert_eq!(messages[0].0, "line 2");
    assert_eq!(messages[MSG_HEIGHT - 1].0, "line 7");
}

#[test]
fn decimal_rendering_is_exact() {
    assert_eq!(i32_dec_string(0), "0");
    assert_eq!(i32_dec_string(42), "42");
    assert_eq!(i32_dec_string(-123), "-123");
    assert_eq!(i32_dec_string(2147483647), "2147483647");
    assert_eq!(i32_dec_string(-2147483648), "-2147483648");
}

#[test]
fn menu_selection_maps_letters_to_slots() {
    assert_eq!(menu_selection('a', 5), Some(0));
    assert_eq!(menu_selection('e', 5), Some(4));
    assert_eq!(menu_selection('f', 5), None);
    assert_eq!(menu_selection('B', 5), Some(1));
    assert_eq!(menu_selection('1', 5), None);
    assert_eq!(menu_selection(' ', 5), None);
}

#[test]
fn inventory_menu_lists_names_or_placeholder() {
    let empty: Vec<Object> = vec![];
    assert_eq!(inventory_options(&empty), vec!["inventory is empty".to_string()]);
    let mut s = plain(0, 0, '#', "scroll of fireball", false);
    s.item = Some(Item::Fireball);
    let held = vec![s];
    assert_eq!(inventory_options(&held), vec!["scroll of fireball".to_string()]);
}

#[test]
fn touching_rectangles_count_as_intersecting() {
    let a = Rect::new(0, 0, 5, 5);
    let b = Rect::new(5, 0, 5, 5);
    assert!(a.intersects_with(&b));
    let c = Rect::new(6, 0, 5, 5);
    assert!(!a.intersects_with(&c));
    assert_eq!(a.center(), (2, 2));
}

#[test]
fn movement_respects_walls_and_blockers() {
    let map = room_map(Rect { x1: 1, y1: 1, x2: 10, y2: 10 });
    let mut objects = vec![player_at(2, 2, 30), monster_at(3, 2, "Orc", 10)];
    // wall above the room border
    assert!(is_blocked(2, 0, &map, &objects));
    // the monster blocks its tile
    assert!(is_blocked(3, 2, &map, &objects));
    // free floor
    assert!(!is_blocked(2, 3, &map, &objects));
    // stepping into the wall is refused silently
    move_by(0, -1, -1, &map, &mut objects);
    assert_eq!((objects[0].x, objects[0].y), (2, 2));
    // stepping onto free floor works
    move_by(0, 0, 1, &map, &mut objects);
    assert_eq!((objects[0].x, objects[0].y), (2, 3));
}

#[test]
fn walking_into_a_monster_attacks_it() {
    let map = room_map(Rect { x1: 1, y1: 1, x2: 10, y2: 10 });
    let mut messages: Messages = vec![];
    let mut objects = vec![player_at(2, 2, 30), monster_at(3, 2, "Orc", 10)];
    player_move_or_attack(1, 0, &map, &mut messages, &mut objects);
    // player power 5 - orc defense 0 = 5 damage; player stays in place
    assert_eq!((objects[0].x, objects[0].y), (2, 2));
    assert_eq!(objects[1].fighter.unwrap().hp, 5);
    assert_eq!(messages[0].0, "player attacks Orc for 5 hit points.");
}

#[test]
fn visible_monster_chases_and_strikes() {
    let map = room_map(Rect { x1: 1, y1: 1, x2: 20, y2: 20 });
    let mut fov = FovGrid::all_hidden();
    for x in 0..MAP_WIDTH {
        for y in 0..MAP_HEIGHT {
            fov.set_visible(x, y, true);
        }
    }
    let mut messages: Messages = vec![];
    let mut objects = vec![player_at(5, 5, 30), monster_at(9, 5, "Orc", 10)];
    monsters_take_turns(&map, &mut objects, &fov, &mut messages);
    assert_eq!((objects[1].x, objects[1].y), (8, 5), "monster steps toward the player");
    // bring it adjacent: it should attack instead of moving
    objects[1].x = 6;
    monsters_take_turns(&map, &mut objects, &fov, &mut messages);
    assert_eq!((objects[1].x, objects[1].y), (6, 5));
    assert_eq!(objects[0].fighter.unwrap().hp, 29);
    assert_eq!(last_text(&messages), "Orc attacks player for 1 hit points.");
}

#[test]
fn hidden_monster_stays_put() {
    let map = room_map(Rect { x1: 1, y1: 1, x2: 20, y2: 20 });
    let fov = FovGrid::all_hidden();
    let mut messages: Messages = vec![];
    let mut objects = vec![player_at(5, 5, 30), monster_at(9, 5, "Orc", 10)];
    monsters_take_turns(&map, &mut objects, &fov, &mut messages);
    assert_eq!((objects[1].x, objects[1].y), (9, 5));
    assert!(messages.is_empty());
}

#[test]
fn escape_exits_and_dead_player_cannot_act() {
    let map = room_map(Rect { x1: 1, y1: 1, x2: 10, y2: 10 });
    let mut messages: Messages = vec![];
    let mut inventory: Vec<Object> = vec![];
    let mut objects = vec![player_at(2, 2, 30)];
    assert_eq!(
        handle_keys(Command::Escape, &map, &mut objects, &mut inventory, &mut messages),
        PlayerAction::Exit
    );
    objects[0].alive = false;
    assert_eq!(
        handle_keys(Command::MoveRight, &map, &mut objects, &mut inventory, &mut messages),
        PlayerAction::DidntTakeTurn
    );
    assert_eq!((objects[0].x, objects[0].y), (2, 2));
}

#[test]
fn confuse_scroll_wraps_previous_ai() {
    let fov = FovGrid::all_hidden();
    let mut messages: Messages = vec![];
    let mut objects = vec![player_at(5, 5, 30), monster_at(8, 5, "Orc", 10)];
    let mut inventory = vec![{
        let mut s = plain(0, 0, '#', "scroll of confusion", false);
        s.item = Some(Item::Confuse);
        s
    }];
    use_item(0, &mut inventory, &mut objects, &mut messages, &fov, None, Some(1));
    assert!(inventory.is_empty());
    match &objects[1].ai {
        Some(Ai::Confused { previous_ai, num_turns }) => {
            assert_eq!(**previous_ai, Ai::Basic);
            assert_eq!(*num_turns, 10);
        }
        other => panic!("expected confusion, got {:?}", other),
    }
    assert_eq!(
        last_text(&messages),
        "The eyes of Orc look vacant, as he starts to stumble around!"
    );
}

#[test]
fn explored_flag_follows_visibility() {
    let mut map = room_map(Rect { x1: 1, y1: 1, x2: 10, y2: 10 });
    let mut fov = FovGrid::all_hidden();
    fov.set_visible(4, 4, true);
    dungeon_core::fov::mark_explored(&mut map, &fov);
    assert!(map.tiles[4][4].explored);
    assert!(!map.tiles[5][5].explored);
}

#[test]
fn target_tile_validation_checks_sight_and_range() {
    let mut fov = FovGrid::all_hidden();
    fov.set_visible(7, 5, true);
    fov.set_visible(20, 5, true);
    let player = player_at(5, 5, 30);
    // visible and close enough
    assert!(valid_target_tile(7, 5, &player, Some(8), &fov));
    // visible but out of the given range
    assert!(!valid_target_tile(20, 5, &player, Some(8), &fov));
    // in range but not visible
    assert!(!valid_target_tile(6, 5, &player, Some(8), &fov));
    // without a range only sight matters
    assert!(valid_target_tile(20, 5, &player, None, &fov));
}

#[test]
fn monster_at_finds_first_on_tile() {
    let objects = vec![
        player_at(5, 5, 30),
        plain(7, 5, '!', "Healing Potion", false),
        monster_at(7, 5, "Orc", 10),
        monster_at(7, 5, "Troll", 16),
    ];
    // the item has no combat facet; the first monster on the tile wins
    assert_eq!(monster_on_tile(&objects, 7, 5), Some(2));
    assert_eq!(monster_on_tile(&objects, 9, 9), None);
    // the player itself is never a target
    assert_eq!(monster_on_tile(&objects, 5, 5), None);
}

#[test]
fn items_request_their_targeting() {
    assert_eq!(targeting_for(Item::Heal), Targeting::NoTargeting);
    assert_eq!(targeting_for(Item::Lightning), Targeting::NoTargeting);
    assert_eq!(targeting_for(Item::Confuse), Targeting::MonsterTarget);
    assert_eq!(targeting_for(Item::Fireball), Targeting::TileTarget);
}

#[test]
fn empty_inventory_selects_nothing() {
    let empty: Vec<Object> = vec![];
    // the placeholder line is shown but never selectable
    assert_eq!(inventory_selection(&empty, 'a'), None);
    assert_eq!(inventory_selection(&empty, 'z'), None);
    let mut s = plain(0, 0, '#', "scroll of fireball", false);
    s.item = Some(Item::Fireball);
    let held = vec![s];
    assert_eq!(inventory_selection(&held, 'a'), Some(0));
    assert_eq!(inventory_selection(&held, 'b'), None);
    assert_eq!(inventory_selection(&held, '1'), None);
}

#[test]
fn generated_blocking_entities_never_stack() {
    // spawned entities never land on a tile an earlier blocking entity
    // holds; the player is moved to the start tile only afterwards, so it
    // is not part of this guarantee
    let mut objects = vec![player_at(0, 0, 30)];
    let _map = make_map(&mut objects);
    for j in 2..objects.len() {
        for i in 1..j {
            assert!(
                !(objects[i].blocks
                    && objects[i].x == objects[j].x
                    && objects[i].y == objects[j].y),
                "two spawned blocking entities share a tile"
            );
        }
    }
}

#[test]
fn tiles_have_expected_flags() {
    let e = Tile::empty();
    assert!(!e.blocked && !e.block_sight && !e.explored);
    let w = Tile::wall();
    assert!(w.blocked && w.block_sight && !w.explored);
}
