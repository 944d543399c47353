use gladiator::actor::Actor;
use gladiator::catalog::{ActorStats, Catalog, CatalogError, ItemStats, TileStats};
use gladiator::constants::{ACT_DROP, ACT_SKILL, ACT_WAIT, ITEM_DEBRIS};
use gladiator::flood::PATH_UNKNOWN_DISTANCE;
use gladiator::item::Item;
use gladiator::item_effects::use_on_actor;
use gladiator::plan::Plan;
use gladiator::skills_registry::{first_ready_skill, SKILL_COUNT};
use gladiator::world::World;

fn catalog() -> Catalog {
    let actor = |kind: u8, glyph: char, walls: &str, name: &str, skills: &[&str], strength: u16, con: u16, intel: u16| ActorStats {
        kind,
        glyph,
        walls: walls.to_string(),
        name: name.to_string(),
        move_lag: 2,
        skills: skills.iter().map(|s| s.to_string()).collect(),
        strength,
        con,
        intel,
    };
    let item = |kind: u8, glyph: char, name: &str, get: bool, keep: bool| ItemStats {
        kind,
        glyph,
        color: 1,
        name: name.to_string(),
        can_get: get,
        can_keep: keep,
        can_retain: keep,
    };
    let actors = vec![
        actor(0, 'S', "#~", "soldier", &["charge"], 2, 8, 4),
        actor(1, 'E', "#~", "elf", &["sprint"], 1, 5, 5),
        actor(2, 'A', "#~", "archer", &["shoot"], 1, 5, 5),
        actor(3, 'M', "#~", "mage", &["blast"], 1, 4, 8),
        actor(4, 'Z', "#~", "skeleton", &[], 1, 4, 1),
        actor(5, 'T', "#~", "thief", &["cloak"], 1, 5, 5),
        actor(8, 'o', "#~", "slime", &["multiply"], 1, 3, 3),
        actor(11, 'D', "#~", "druid", &["grow_tree"], 1, 5, 6),
        actor(13, 'K', "#~", "knight", &["charge"], 2, 9, 2),
        actor(50, '|', "#", "arrow", &[], 2, 1, 1),
        actor(51, '*', "#", "blast", &[], 2, 1, 1),
        actor(52, '+', "#", "healing current", &[], 0, 1, 1),
        actor(53, ')', "#", "boomerang", &[], 1, 1, 1),
        actor(54, '^', "#", "fire", &[], 2, 1, 1),
        actor(55, 'f', "#", "faerie", &[], 1, 1, 1),
    ];
    let items = vec![
        item(0, '%', "corpse", false, false),
        item(7, 'b', "boots", true, true),
        item(11, 'k', "key", true, true),
        item(18, '+', "door", false, false),
        item(19, '/', "open door", false, false),
        item(200, ',', "debris", false, false),
    ];
    let tiles = vec![
        TileStats { id: 1, glyph: '.', color: 0 },
        TileStats { id: 2, glyph: '#', color: 7 },
    ];
    Catalog::new(actors, items, tiles).unwrap()
}


fn open_world(cat: Catalog) -> World {
    let mut world = World::new(cat);
    world.reshape((5, 5));
    world
}

#[test]
fn vitals_stay_within_maxima_after_mutations() {
    let cat = catalog();
    let mut world = open_world(catalog());
    let mut a = Actor::new(0, 1, 0, (2, 2), &cat);
    let armor = Item::new(6, 1, 0, &cat);
    a.inventory.push(armor);
    use_on_actor(&mut a, 6);
    a.recover(100);
    assert!(a.health <= a.max_health());
    a.initialize(0, &cat);
    assert!(a.health <= a.max_health() && a.mana <= a.max_mana());
    a.hurt(3, &mut world);
    a.recover(50);
    assert_eq!(a.health, a.max_health());
    a.update(&mut world);
    assert!(a.health <= a.max_health() && a.mana <= a.max_mana());
}

#[test]
fn lethal_damage_kills_once() {
    let cat = catalog();
    let mut world = open_world(catalog());
    let mut a = Actor::new(0, 1, 0, (2, 2), &cat);
    let before = world.items.len();
    let health = a.health;
    a.hurt(health, &mut world);
    assert_eq!(a.health, 0);
    assert!(!a.is_alive());
    assert_eq!(a.invis, -1);
    assert_eq!(world.items.len(), before + 1);
    assert_eq!(world.items.last().unwrap().kind, 0);
    let logged = world.log.len();
    a.hurt(10, &mut world);
    assert_eq!(world.items.len(), before + 1);
    assert_eq!(world.log.len(), logged);
    assert_eq!(a.health, 0);
}

#[test]
fn death_is_announced_in_sentence_case() {
    let cat = catalog();
    let mut world = open_world(catalog());
    let mut a = Actor::new(0, 1, 0, (2, 2), &cat);
    a.act_die(&mut world);
    assert_eq!(world.log.last().unwrap().1, "Soldier died!");
}

#[test]
fn counters_never_underflow() {
    let cat = catalog();
    let mut a = Actor::new(0, 1, 0, (2, 2), &cat);
    a.gain_momentum(1);
    for _ in 0..5 {
        a.lose_momentum(1);
    }
    assert_eq!(a.momentum, 0);
    a.lose_momentum(200);
    assert_eq!(a.momentum, 0);
    a.stun(2);
    for _ in 0..5 {
        a.recover(1);
    }
    assert_eq!(a.stun, 0);
}

#[test]
fn distance_field_grows_by_at_most_one_per_step() {
    let cat = catalog();
    let world = open_world(catalog());
    let actors = vec![Actor::new(1, 1, 0, (0, 0), &cat), Actor::new(1, 1, 1, (4, 4), &cat)];
    let mut plan = Plan::new((5, 5), &[0, 1]);
    plan.tactic_attack();
    plan.fast_update(&actors);
    plan.update(&[0, 1], &world, &actors);
    for x in 0..5u16 {
        for y in 0..5u16 {
            let d = plan.distance_to_goal((x, y), 0);
            assert_eq!(d, std::cmp::max(4 - x as i32, 4 - y as i32));
            for dir in 0..8u8 {
                let n = world.neighbor((x, y), dir, 0, "");
                assert!(plan.distance_to_goal(n, 0) <= d + 1);
            }
        }
    }
}

#[test]
fn occupancy_lists_only_living_non_projectiles() {
    let cat = catalog();
    let mut dead = Actor::new(1, 1, 1, (3, 3), &cat);
    dead.health = 0;
    let arrow = Actor::new(50, 1, 1, (2, 3), &cat);
    let actors = vec![Actor::new(1, 1, 0, (0, 0), &cat), dead, arrow, Actor::new(2, 1, 1, (4, 4), &cat)];
    let mut plan = Plan::new((5, 5), &[0, 1]);
    plan.fast_update(&actors);
    assert_eq!(plan.whos_at((0, 0)), Some(0));
    assert_eq!(plan.whos_at((4, 4)), Some(1));
    assert_eq!(plan.whos_at((3, 3)), None);
    assert_eq!(plan.whos_at((2, 3)), None);
    assert_eq!(plan.num_enemies(), 1);
    assert_eq!(plan.occupied.len(), 2);
}

#[test]
fn first_ready_skill_in_table_order_wins() {
    let cat = catalog();
    let world = open_world(catalog());
    let plan = Plan::new((5, 5), &[0, 1]);
    let mut a = Actor::new(1, 1, 1, (2, 2), &cat);
    a.skills = vec![String::from("charge"), String::from("sprint")];
    a.momentum = 1;
    let mut rolls = vec![0u16; SKILL_COUNT];
    assert_eq!(first_ready_skill(&a, &world, &plan, &rolls), Some(0));
    rolls[0] = 3;
    assert_eq!(first_ready_skill(&a, &world, &plan, &rolls), Some(1));
    rolls[1] = 7;
    assert_eq!(first_ready_skill(&a, &world, &plan, &rolls), None);
}

#[test]
fn drop_then_walk_back_restores_inventory() {
    let cat = catalog();
    let mut world = open_world(catalog());
    let plan = Plan::new((5, 5), &[0, 1]);
    let mut a = Actor::new(0, 1, 0, (2, 2), &cat);
    a.inventory.push(Item::new(7, 1, 0, &cat));
    a.direction = 4;
    a.act_drop_item(&mut world);
    assert_eq!(a.inventory.len(), 0);
    let target = world.offset((2, 2), 4);
    assert_eq!(world.items.last().unwrap().pos, target);
    a.act_move(4, &mut world, &plan, &mut vec![]);
    assert_eq!(a.pos, target);
    a.update(&mut world);
    assert_eq!(a.inventory.len(), 1);
    assert_eq!(a.inventory[0].kind, 7);
    assert!(!a.walls.contains('~'));
}

#[test]
fn one_hit_deals_strength_times_level() {
    let cat = catalog();
    let mut world = open_world(catalog());
    let plan = Plan::new((5, 5), &[0, 1]);
    let mut attacker = Actor::new(0, 1, 0, (2, 2), &cat);
    let mut defender = Actor::new(2, 1, 1, (3, 2), &cat);
    assert_eq!(attacker.strength, 2);
    assert_eq!(defender.health, 5);
    attacker.act_touch(&mut defender, &mut world, 2, &plan);
    assert_eq!(defender.health, 3);
    assert_eq!(defender.log.last().unwrap().1, "Soldier hit me!");
}

#[test]
fn max_health_has_a_floor_of_one() {
    let cat = catalog();
    let mut a = Actor::new(0, 1, 0, (0, 0), &cat);
    a.con = 1;
    a.level = 1;
    assert_eq!(a.max_health(), 1);
    a.con = 0;
    assert_eq!(a.max_health(), 1);
    a.con = 5;
    a.level = 0;
    assert_eq!(a.max_health(), 1);
    a.con = 300;
    a.level = 300;
    assert_eq!(a.max_health(), 65535);
}

#[test]
fn walled_off_cell_stays_unreachable() {
    let cat = catalog();
    let mut world = open_world(catalog());
    for (x, y) in [(3u16, 3u16), (3, 4), (4, 3)] {
        world.tiles[(y * 5 + x) as usize] = 2;
    }
    let actors = vec![Actor::new(1, 1, 0, (0, 0), &cat), Actor::new(1, 1, 1, (1, 0), &cat)];
    let mut plan = Plan::new((5, 5), &[0, 1]);
    plan.tactic_attack();
    plan.fast_update(&actors);
    plan.update(&[0, 1], &world, &actors);
    assert_eq!(plan.distance_to_goal((4, 4), 0), PATH_UNKNOWN_DISTANCE);
    assert_eq!(plan.distance_to_goal((4, 4), 1), PATH_UNKNOWN_DISTANCE);
    let mover = &actors[0];
    assert!(mover.value_of_pos((4, 4), &plan) < mover.value_of_pos((2, 2), &plan));
}

#[test]
fn adjacent_enemy_is_attacked() {
    let cat = catalog();
    let world = open_world(catalog());
    let actors = vec![Actor::new(0, 1, 0, (2, 2), &cat), Actor::new(2, 1, 1, (2, 3), &cat)];
    let mut plan = Plan::new((5, 5), &[0, 1]);
    plan.fast_update(&actors);
    assert_eq!(actors[0].choose_action(&world, &plan, 0), 4);
    let lone = vec![Actor::new(0, 1, 0, (2, 2), &cat)];
    plan.fast_update(&lone);
    assert_eq!(lone[0].choose_action(&world, &plan, 0), 0);
    assert!(lone[0].choose_action(&world, &plan, 0) <= ACT_WAIT);
}

#[test]
fn catalog_refuses_bad_tables() {
    let mut good = catalog();
    let dup_actor = Catalog::new(
        vec![
            ActorStats { kind: 3, glyph: 'a', walls: String::new(), name: String::new(), move_lag: 1, skills: vec![], strength: 1, con: 1, intel: 1 },
            ActorStats { kind: 3, glyph: 'b', walls: String::new(), name: String::new(), move_lag: 1, skills: vec![], strength: 1, con: 1, intel: 1 },
        ],
        vec![],
        vec![],
    );
    assert_eq!(dup_actor.err(), Some(CatalogError::DuplicateActor(3)));
    let zero = Catalog::new(
        vec![ActorStats { kind: 4, glyph: 'a', walls: String::new(), name: String::new(), move_lag: 0, skills: vec![], strength: 1, con: 1, intel: 1 }],
        vec![],
        vec![],
    );
    assert_eq!(zero.err(), Some(CatalogError::ZeroCadence(4)));
    let item = |kind: u8| ItemStats { kind, glyph: 'i', color: 0, name: String::new(), can_get: false, can_keep: false, can_retain: false };
    assert_eq!(Catalog::new(vec![], vec![item(9), item(9)], vec![]).err(), Some(CatalogError::DuplicateItem(9)));
    let tile = |id: u16| TileStats { id, glyph: '.', color: 0 };
    assert_eq!(Catalog::new(vec![], vec![], vec![tile(5), tile(5)]).err(), Some(CatalogError::DuplicateTile(5)));
    assert_eq!(good.actors.len(), 15);
    let missing = Catalog::new(vec![good.actors.pop().unwrap()], vec![], vec![]);
    assert_eq!(missing.err(), Some(CatalogError::MissingActor(0)));
}

#[test]
fn debris_is_reached_after_twenty_blows() {
    let cat = catalog();
    let mut item = Item::new(7, 1, 0, &cat);
    for _ in 0..18 {
        item.damage(&cat);
    }
    assert_eq!(item.health, 2);
    assert!(!item.is_debris());
    item.damage(&cat);
    item.damage(&cat);
    assert_eq!(item.kind, ITEM_DEBRIS);
    assert_eq!(item.name, "debris");
}

#[test]
fn log_repeats_bump_a_counter() {
    let cat = catalog();
    let mut a = Actor::new(0, 1, 0, (0, 0), &cat);
    a.log_action("waited.");
    a.log_action("waited.");
    a.log_action("ran.");
    assert_eq!(a.log.len(), 2);
    assert_eq!(a.log[0].1, "I waited.");
    assert_eq!(a.log[0].2, 2);
    assert_eq!(a.log[1].2, 1);
}

#[test]
fn preferred_direction_is_a_compass_point() {
    let cat = catalog();
    let a = Actor::new(0, 1, 0, (0, 0), &cat);
    for _ in 0..50 {
        assert!(a.choose_preferred_dir() < 8);
    }
}

#[test]
fn forest_only_leads_into_forest() {
    let cat = catalog();
    let mut forest_cat = catalog();
    forest_cat.tiles.push(TileStats { id: 3, glyph: '%', color: 2 });
    let mut world = World::new(forest_cat);
    world.reshape((5, 5));
    for x in 0..5u16 {
        world.tiles[(2 * 5 + x) as usize] = 3;
    }
    let actors = vec![Actor::new(1, 1, 0, (0, 0), &cat), Actor::new(1, 1, 1, (4, 0), &cat)];
    let mut plan = Plan::new((5, 5), &[0, 1]);
    plan.tactic_attack();
    plan.fast_update(&actors);
    plan.update(&[0, 1], &world, &actors);
    assert_eq!(plan.distance_to_goal((4, 2), 0), 2);
    assert_eq!(plan.distance_to_goal((0, 2), 0), 4);
    assert_eq!(plan.distance_to_goal((2, 4), 0), PATH_UNKNOWN_DISTANCE);
    assert_eq!(plan.distance_to_goal((0, 3), 1), PATH_UNKNOWN_DISTANCE);
}

#[test]
fn a_dead_agent_stays_dead() {
    let cat = catalog();
    let mut world = open_world(catalog());
    let mut a = Actor::new(0, 1, 0, (2, 2), &cat);
    a.health = 0;
    a.update(&mut world);
    assert_eq!(a.health, 0);
    assert!(!a.is_alive());
}

#[test]
fn cycling_skills_skips_passives() {
    let cat = catalog();
    let mut a = Actor::new(0, 1, 0, (2, 2), &cat);
    a.skills = vec![String::from("passive_aim"), String::from("shoot"), String::from("passive_trip")];
    a.next_skill();
    assert_eq!(a.selected_skill(), "shoot");
    a.next_skill();
    assert_eq!(a.selected_skill(), "shoot");
    assert_eq!(a.log.last().unwrap().1, "I switched to shoot.");
}

#[test]
fn dropping_through_act_lands_ahead() {
    let cat = catalog();
    let mut world = open_world(catalog());
    let plan = Plan::new((5, 5), &[0, 1]);
    let mut a = Actor::new(0, 1, 0, (2, 2), &cat);
    a.inventory.push(Item::new(11, 1, 0, &cat));
    a.direction = 1;
    a.act(ACT_DROP, 7, &mut world, &plan, &mut vec![], &mut vec![]);
    assert!(a.inventory.is_empty());
    assert_eq!(world.items.last().unwrap().pos, (3, 1));
    assert_eq!(a.time, 7);
}

#[test]
fn a_ready_skill_without_a_die_is_always_chosen_and_used() {
    let cat = catalog();
    let mut world = open_world(catalog());
    let plan = Plan::new((5, 5), &[]);
    let mut a = Actor::new(3, 1, 1, (2, 2), &cat);
    a.intel = 30;
    a.mana = 30;
    a.skills = vec![String::from("starburst")];
    assert_eq!(a.decide(&world, &plan), ACT_SKILL);
    assert_eq!(a.selected_skill(), "starburst");
    let mut spawn = vec![];
    a.act(ACT_SKILL, 2, &mut world, &plan, &mut vec![], &mut spawn);
    assert_eq!(spawn.len(), 8);
    assert_eq!(a.mana, 10);
}
