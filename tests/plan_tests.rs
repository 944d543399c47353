use gladiator::actor::Actor;
use gladiator::catalog::{ActorStats, Catalog, ItemStats, TileStats};
use gladiator::flood::PATH_UNKNOWN_DISTANCE;
use gladiator::plan::Plan;
use gladiator::world::World;

fn catalog() -> Catalog {
    let actor = |kind: u8, glyph: char, walls: &str, name: &str, skills: &[&str], strength: u16, con: u16, intel: u16| ActorStats {
        kind,
        glyph,
        walls: walls.to_string(),
        name: name.to_string(),
        move_lag: 2,
        skills: skills.iter().map(|s| s.to_string()).collect(),
        strength,
        con,
        intel,
    };
    let item = |kind: u8, glyph: char, name: &str, get: bool, keep: bool| ItemStats {
        kind,
        glyph,
        color: 1,
        name: name.to_string(),
        can_get: get,
        can_keep: keep,
        can_retain: keep,
    };
    let actors = vec![
        actor(0, 'S', "#~", "soldier", &["charge"], 2, 8, 4),
        actor(1, 'E', "#~", "elf", &["sprint"], 1, 5, 5),
        actor(2, 'A', "#~", "archer", &["shoot"], 1, 5, 5),
        actor(3, 'M', "#~", "mage", &["blast"], 1, 4, 8),
        actor(4, 'Z', "#~", "skeleton", &[], 1, 4, 1),
        actor(5, 'T', "#~", "thief", &["cloak"], 1, 5, 5),
        actor(8, 'o', "#~", "slime", &["multiply"], 1, 3, 3),
        actor(11, 'D', "#~", "druid", &["grow_tree"], 1, 5, 6),
        actor(13, 'K', "#~", "knight", &["charge"], 2, 9, 2),
        actor(50, '|', "#", "arrow", &[], 2, 1, 1),
        actor(51, '*', "#", "blast", &[], 2, 1, 1),
        actor(52, '+', "#", "healing current", &[], 0, 1, 1),
        actor(53, ')', "#", "boomerang", &[], 1, 1, 1),
        actor(54, '^', "#", "fire", &[], 2, 1, 1),
        actor(55, 'f', "#", "faerie", &[], 1, 1, 1),
    ];
    let items = vec![
        item(0, '%', "corpse", false, false),
        item(7, 'b', "boots", true, true),
        item(11, 'k', "key", true, true),
        item(18, '+', "door", false, false),
        item(19, '/', "open door", false, false),
        item(200, ',', "debris", false, false),
    ];
    let tiles = vec![
        TileStats { id: 1, glyph: '.', color: 0 },
        TileStats { id: 2, glyph: '#', color: 7 },
    ];
    Catalog::new(actors, items, tiles).unwrap()
}


fn fixtures() -> (Plan, World, Vec<Actor>, Vec<usize>) {
    let team_idxs = vec![0, 1];
    let cat = catalog();
    let actors = vec![Actor::new(1, 1, 0, (0, 0), &cat), Actor::new(1, 1, 1, (1, 4), &cat)];
    let mut world = World::new(cat);
    world.reshape((5, 5));
    let plan = Plan::new((5, 5), &team_idxs);
    (plan, world, actors, team_idxs)
}

#[test]
fn test_tactics() {
    let (mut plan, _, _, _) = fixtures();
    plan.tactic_defend((2, 2));
    assert!(plan.is_defending(0));
    assert!(!plan.is_defending(1));
    assert_eq!(plan.muster_point(0), (2, 2));
    plan.tactic_attack();
    assert!(plan.is_attacking(0));
    plan.tactic_retreat();
    assert!(plan.is_retreating(0));
    plan.tactic_follow();
    assert!(!(plan.is_attacking(0) || plan.is_defending(0) || plan.is_retreating(0)));
}

#[test]
fn test_fast_update_and_whos_at() {
    let (mut plan, _, actors, _) = fixtures();
    plan.fast_update(&actors);
    assert_eq!(plan.num_enemies(), 1);
    assert_eq!(plan.whos_at((0, 0)).unwrap(), 0);
    assert_eq!(plan.whos_at((1, 4)).unwrap(), 1);
    assert!(plan.whos_at((2, 2)).is_none());
}

#[test]
fn test_update() {
    let (mut plan, world, actors, team_idxs) = fixtures();
    plan.tactic_attack(); // ensure teams are attacking each other
    plan.fast_update(&actors); // ensures enemy counts are correct
    plan.update(&team_idxs, &world, &actors);
    for actor in actors {
        assert_eq!(plan.distance_to_goal(actor.pos, actor.team), 4);
        for x in 0..5 {
            for y in 0..5 {
                assert!(plan.distance_to_goal((x, y), actor.team) != PATH_UNKNOWN_DISTANCE);
            }
        }
    }
}
