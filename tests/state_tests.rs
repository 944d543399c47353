use gladiator::actor::Actor;
use gladiator::catalog::{ActorStats, Catalog, ItemStats, TileStats};
use gladiator::constants::ITEM_EXIT;
use gladiator::plan::Plan;
use gladiator::scenario::{
    c_string_len, create_random_team, decode_object, ObjectRecord, PlacementError, ORD_ACTOR, ORD_ITEM_OR_EXIT, ORD_SPAWN,
};
use gladiator::state::State;

fn catalog() -> Catalog {
    let actor = |kind: u8, glyph: char, walls: &str, name: &str, skills: &[&str], strength: u16, con: u16, intel: u16| ActorStats {
        kind,
        glyph,
        walls: walls.to_string(),
        name: name.to_string(),
        move_lag: 2,
        skills: skills.iter().map(|s| s.to_string()).collect(),
        strength,
        con,
        intel,
    };
    let item = |kind: u8, glyph: char, name: &str, get: bool, keep: bool| ItemStats {
        kind,
        glyph,
        color: 1,
        name: name.to_string(),
        can_get: get,
        can_keep: keep,
        can_retain: keep,
    };
    let actors = vec![
        actor(0, 'S', "#~", "soldier", &["charge"], 2, 8, 4),
        actor(1, 'E', "#~", "elf", &["sprint"], 1, 5, 5),
        actor(2, 'A', "#~", "archer", &["shoot"], 1, 5, 5),
        actor(3, 'M', "#~", "mage", &["blast"], 1, 4, 8),
        actor(4, 'Z', "#~", "skeleton", &[], 1, 4, 1),
        actor(5, 'T', "#~", "thief", &["cloak"], 1, 5, 5),
        actor(8, 'o', "#~", "slime", &["multiply"], 1, 3, 3),
        actor(11, 'D', "#~", "druid", &["grow_tree"], 1, 5, 6),
        actor(13, 'K', "#~", "knight", &["charge"], 2, 9, 2),
        actor(50, '|', "#", "arrow", &[], 2, 1, 1),
        actor(51, '*', "#", "blast", &[], 2, 1, 1),
        actor(52, '+', "#", "healing current", &[], 0, 1, 1),
        actor(53, ')', "#", "boomerang", &[], 1, 1, 1),
        actor(54, '^', "#", "fire", &[], 2, 1, 1),
        actor(55, 'f', "#", "faerie", &[], 1, 1, 1),
    ];
    let items = vec![
        item(0, '%', "corpse", false, false),
        item(7, 'b', "boots", true, true),
        item(11, 'k', "key", true, true),
        item(18, '+', "door", false, false),
        item(19, '/', "open door", false, false),
        item(200, ',', "debris", false, false),
    ];
    let tiles = vec![
        TileStats { id: 1, glyph: '.', color: 0 },
        TileStats { id: 2, glyph: '#', color: 7 },
    ];
    Catalog::new(actors, items, tiles).unwrap()
}


fn fixtures() -> State {
    let mut state = State::new(catalog());
    state.world.reshape((5, 5));
    state.world_idx = 42;
    for kind in [0u8, 2, 1] {
        let mut actor = Actor::new(kind, 1, 0, (0, 0), &state.world.catalog);
        actor.is_persistent = true;
        state.player_team.insert(0, actor);
    }
    for (x, y) in [(0u16, 0u16), (1, 0), (2, 0)] {
        state.place_object(ObjectRecord { order: ORD_SPAWN, kind: 0, pos: (x, y), team: 0, direction: 0, level: 1, name: String::new() }).unwrap();
    }
    state.plan = Plan::new(state.world.size, &state.team_idxs);
    state.player_idx = 0;
    state.autopilot = true;
    state
}

#[test]
fn test_player_control() {
    let mut state = fixtures();
    state.player_control_confirm();
    assert!(state.player().is_playable());
    assert!(state.player().is_leader);
}

#[test]
fn spawn_points_take_the_squad_in_order() {
    let state = fixtures();
    assert_eq!(state.actors.len(), 3);
    assert!(state.player_team.is_empty());
    assert_eq!(state.actors[0].kind, 0);
    assert_eq!(state.actors[1].pos, (1, 0));
    assert_eq!(state.team_idxs, vec![0]);
}

#[test]
fn objects_are_decoded_and_placed() {
    let buffer = [ORD_ACTOR, 2, 0x20, 0x00, 0x30, 0x00, 1, 3, 0, 5];
    let rec = decode_object(&buffer, 1, String::from("ROBIN"));
    assert_eq!(rec.pos, (2, 3));
    assert_eq!(rec.level, 261);
    assert_eq!(rec.team, 1);
    let mut state = fixtures();
    assert!(state.place_object(rec).is_ok());
    let placed = state.actors.last().unwrap();
    assert_eq!(placed.kind, 2);
    assert!(placed.is_leader);
    assert_eq!(placed.name, "Robin");
    assert_eq!(placed.direction, 3);
    assert_eq!(placed.inventory.len(), 3);
    assert!(state.team_idxs.contains(&1));
    state.place_object(ObjectRecord { order: ORD_ITEM_OR_EXIT, kind: ITEM_EXIT, pos: (4, 4), team: 0, direction: 0, level: 7, name: String::new() }).unwrap();
    assert_eq!(state.world.exits.len(), 1);
    assert_eq!(state.world.exits[0].pos, (4, 4));
    let unknown = ObjectRecord { order: ORD_ACTOR, kind: 77, pos: (1, 1), team: 1, direction: 0, level: 1, name: String::new() };
    assert_eq!(state.place_object(unknown), Err(PlacementError::UnknownKind(77)));
}

#[test]
fn c_strings_stop_at_control_bytes() {
    assert_eq!(c_string_len(b"FSS\0abc"), 3);
    assert_eq!(c_string_len(b"name"), 4);
    assert_eq!(c_string_len(b"\x01x"), 0);
}

#[test]
fn random_teams_have_distinct_kinds() {
    let cat = catalog();
    let team = create_random_team(2, 3, &cat);
    assert_eq!(team.len(), 3);
    assert!(team.iter().all(|a| a.team == 2 && a.level == 1));
    assert_ne!(team[0].kind, team[1].kind);
    assert_eq!(create_random_team(1, 20, &cat).len(), 7);
}

#[test]
fn player_commands_set_directives() {
    let mut state = fixtures();
    state.player_control_confirm();
    assert_eq!(state.player_command(55), None);
    assert!(state.plan.is_defending(0));
    assert_eq!(state.plan.muster_point(0), state.player().pos);
    assert_eq!(state.player_command(58), None);
    assert!(state.plan.is_retreating(0));
    assert_eq!(state.player_command(3), Some(3));
    assert_eq!(state.player_command(70), None);
    assert!(state.player_command(59).is_some());
    assert!(state.plan.is_attacking(0));
}

#[test]
fn a_tick_merges_spawns_and_prunes_dead_projectiles() {
    let mut state = fixtures();
    let mut arrow = Actor::new(50, 1, 0, (3, 3), &state.world.catalog);
    arrow.health = 0;
    state.spawn.push(arrow);
    state.spawn.push(Actor::new(1, 1, 1, (4, 4), &state.world.catalog));
    let time = state.time;
    state.end_tick();
    assert_eq!(state.actors.len(), 4);
    assert!(state.spawn.is_empty());
    assert_eq!(state.time, time + 1);
}

#[test]
fn a_turn_acts_on_the_roster() {
    let mut state = fixtures();
    let enemy = Actor::new(2, 1, 1, (0, 1), &state.world.catalog);
    state.add_actor(enemy);
    state.plan = Plan::new(state.world.size, &state.team_idxs);
    state.refresh_occupancy();
    let before = state.actors[3].health;
    state.give_turn(0, 4);
    assert_eq!(state.actors.len(), 4);
    assert_eq!(state.actors[3].health, before - 2);
    assert_eq!(state.actors[0].direction, 4);
}

#[test]
fn a_victory_levels_up_the_squad() {
    let mut state = fixtures();
    assert!(state.finish_scenario(42));
    assert!(state.actors.is_empty());
    assert_eq!(state.player_team.len(), 3);
    assert!(state.player_team.iter().all(|a| a.level == 2));
    assert_eq!(state.score, 30);
    assert_eq!(state.world_completed, vec![42]);
}

#[test]
fn the_standard_squad_has_seven_members() {
    let mut state = State::new(catalog());
    state.create_player_team();
    assert_eq!(state.player_team.len(), 7);
    assert!(state.player_team.iter().all(|a| a.is_persistent));
}
