use gladiator::actor::Actor;
use gladiator::catalog::{ActorStats, Catalog, ItemStats, TileStats};
use gladiator::item::Item;
use gladiator::plan::Plan;
use gladiator::world::World;

fn catalog() -> Catalog {
    let actor = |kind: u8, glyph: char, walls: &str, name: &str, skills: &[&str], strength: u16, con: u16, intel: u16| ActorStats {
        kind,
        glyph,
        walls: walls.to_string(),
        name: name.to_string(),
        move_lag: 2,
        skills: skills.iter().map(|s| s.to_string()).collect(),
        strength,
        con,
        intel,
    };
    let item = |kind: u8, glyph: char, name: &str, get: bool, keep: bool| ItemStats {
        kind,
        glyph,
        color: 1,
        name: name.to_string(),
        can_get: get,
        can_keep: keep,
        can_retain: keep,
    };
    let actors = vec![
        actor(0, 'S', "#~", "soldier", &["charge"], 2, 8, 4),
        actor(1, 'E', "#~", "elf", &["sprint"], 1, 5, 5),
        actor(2, 'A', "#~", "archer", &["shoot"], 1, 5, 5),
        actor(3, 'M', "#~", "mage", &["blast"], 1, 4, 8),
        actor(4, 'Z', "#~", "skeleton", &[], 1, 4, 1),
        actor(5, 'T', "#~", "thief", &["cloak"], 1, 5, 5),
        actor(8, 'o', "#~", "slime", &["multiply"], 1, 3, 3),
        actor(11, 'D', "#~", "druid", &["grow_tree"], 1, 5, 6),
        actor(13, 'K', "#~", "knight", &["charge"], 2, 9, 2),
        actor(50, '|', "#", "arrow", &[], 2, 1, 1),
        actor(51, '*', "#", "blast", &[], 2, 1, 1),
        actor(52, '+', "#", "healing current", &[], 0, 1, 1),
        actor(53, ')', "#", "boomerang", &[], 1, 1, 1),
        actor(54, '^', "#", "fire", &[], 2, 1, 1),
        actor(55, 'f', "#", "faerie", &[], 1, 1, 1),
    ];
    let items = vec![
        item(0, '%', "corpse", false, false),
        item(7, 'b', "boots", true, true),
        item(11, 'k', "key", true, true),
        item(18, '+', "door", false, false),
        item(19, '/', "open door", false, false),
        item(200, ',', "debris", false, false),
    ];
    let tiles = vec![
        TileStats { id: 1, glyph: '.', color: 0 },
        TileStats { id: 2, glyph: '#', color: 7 },
    ];
    Catalog::new(actors, items, tiles).unwrap()
}


fn fixtures() -> (Actor, Actor, World, Plan) {
    let cat = catalog();
    let soldier = Actor::new(0, 1, 0, (2, 2), &cat);
    let archer = Actor::new(2, 1, 1, (1, 2), &cat);
    let boots = Item::new(7, 0, 0, &cat);
    let plan = Plan::new((5, 5), &[0, 1]);
    let mut world = World::new(cat);
    world.reshape((5, 5));
    world.add_item(boots, (2, 2));
    (soldier, archer, world, plan)
}

#[test]
fn test_initialize() {
    let (mut soldier, archer, world, _plan) = fixtures();
    assert!(!soldier.skills.contains(&String::from("shoot")));
    soldier.initialize(archer.kind, &world.catalog);
    assert!(soldier.skills.contains(&String::from("shoot")));
}

#[test]
fn test_predicates() {
    let (soldier, archer, _world, _plan) = fixtures();
    assert!(soldier.is_alive());
    assert!(soldier.is_flesh());
    assert!(soldier.is_mobile());
    assert!(soldier.is_playable());
    assert!(soldier.is_enemy_of(archer.team));
    assert!(soldier.is_combatant() && soldier.is_blocking(soldier.pos));
    assert!(!soldier.is_hurt());
    assert!(!soldier.is_undead());
    assert!(!soldier.is_projectile());
    assert!(archer.has_skill("shoot"));
    assert!(soldier.has_skill("charge"));
}

#[test]
fn test_is_near() {
    let (soldier, archer, _world, _plan) = fixtures();
    assert!(soldier.is_near(archer.pos));
    assert!(!soldier.is_near((100, 100)));
}

#[test]
fn test_enemy_interactions() {
    let (mut soldier, mut archer, mut world, plan) = fixtures();
    let all_but_2 = soldier.health - 2;
    soldier.hurt(all_but_2, &mut world);
    assert!(soldier.is_alive() && soldier.is_hurt());
    archer.act_touch(&mut soldier, &mut world, 2, &plan);
    archer.act_hit(&mut soldier, &mut world);
    assert!(!soldier.is_alive());
}

#[test]
fn test_stun_and_recover() {
    let (mut soldier, mut archer, mut world, _plan) = fixtures();
    soldier.gain_momentum(1);
    assert_eq!(soldier.glyph(), 'S');
    soldier.stun(1);
    assert_eq!(soldier.momentum, 0);
    assert_eq!(soldier.glyph(), 's');
    archer.act_help(&mut soldier);
    assert_eq!(soldier.glyph(), 'S');
    soldier.hurt(1, &mut world);
    soldier.act_exert(10, "threw an elf");
    soldier.recover_fully();
    assert_eq!(soldier.health, soldier.max_health());
    assert_eq!(soldier.mana, soldier.max_mana());
}

#[test]
fn test_gain_and_lose_momentum() {
    let (mut soldier, mut archer, mut world, _plan) = fixtures();
    soldier.gain_momentum(1);
    assert_eq!(soldier.momentum, 1);
    soldier.act_hit(&mut archer, &mut world);
    assert_eq!(soldier.momentum, 0);
}

#[test]
fn test_get_and_drop() {
    let (mut soldier, _archer, mut world, plan) = fixtures();
    soldier.direction = 2;
    soldier.act_get(&mut world);
    assert_eq!(soldier.inventory.len(), 1);
    soldier.act_drop_all(&mut world);
    assert_eq!(soldier.inventory.len(), 0);
    // move forward and wait for auto-pickup:
    soldier.act_move(2, &mut world, &plan, &mut vec![]);
    soldier.update(&mut world);
    assert_eq!(soldier.inventory.len(), 1);
}
