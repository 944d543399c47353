use gladiator::catalog::{ActorStats, Catalog, ItemStats, TileStats};
use gladiator::constants::{ITEM_DEBRIS, ITEM_DOOR, ITEM_DOOR_OPEN, ITEM_KEY, TILE_BLOOD};
use gladiator::item::Item;
use gladiator::world::World;

fn catalog() -> Catalog {
    let actor = |kind: u8, glyph: char, walls: &str, name: &str, skills: &[&str], strength: u16, con: u16, intel: u16| ActorStats {
        kind,
        glyph,
        walls: walls.to_string(),
        name: name.to_string(),
        move_lag: 2,
        skills: skills.iter().map(|s| s.to_string()).collect(),
        strength,
        con,
        intel,
    };
    let item = |kind: u8, glyph: char, name: &str, get: bool, keep: bool| ItemStats {
        kind,
        glyph,
        color: 1,
        name: name.to_string(),
        can_get: get,
        can_keep: keep,
        can_retain: keep,
    };
    let actors = vec![
        actor(0, 'S', "#~", "soldier", &["charge"], 2, 8, 4),
        actor(1, 'E', "#~", "elf", &["sprint"], 1, 5, 5),
        actor(2, 'A', "#~", "archer", &["shoot"], 1, 5, 5),
        actor(3, 'M', "#~", "mage", &["blast"], 1, 4, 8),
        actor(4, 'Z', "#~", "skeleton", &[], 1, 4, 1),
        actor(5, 'T', "#~", "thief", &["cloak"], 1, 5, 5),
        actor(8, 'o', "#~", "slime", &["multiply"], 1, 3, 3),
        actor(11, 'D', "#~", "druid", &["grow_tree"], 1, 5, 6),
        actor(13, 'K', "#~", "knight", &["charge"], 2, 9, 2),
        actor(50, '|', "#", "arrow", &[], 2, 1, 1),
        actor(51, '*', "#", "blast", &[], 2, 1, 1),
        actor(52, '+', "#", "healing current", &[], 0, 1, 1),
        actor(53, ')', "#", "boomerang", &[], 1, 1, 1),
        actor(54, '^', "#", "fire", &[], 2, 1, 1),
        actor(55, 'f', "#", "faerie", &[], 1, 1, 1),
    ];
    let items = vec![
        item(0, '%', "corpse", false, false),
        item(7, 'b', "boots", true, true),
        item(11, 'k', "key", true, true),
        item(18, '+', "door", false, false),
        item(19, '/', "open door", false, false),
        item(200, ',', "debris", false, false),
    ];
    let tiles = vec![
        TileStats { id: 1, glyph: '.', color: 0 },
        TileStats { id: 2, glyph: '#', color: 7 },
    ];
    Catalog::new(actors, items, tiles).unwrap()
}


fn fixtures() -> (World, String) {
    let cat = catalog();
    let door = Item::new(ITEM_DOOR, 0, 0, &cat);
    let key = Item::new(ITEM_KEY, 0, 0, &cat);
    let mut world = World::new(cat);
    world.reshape((5, 5));
    world.add_item(door, (1, 1));
    world.add_item(key, (4, 4));
    let impassable_tiles = String::from("#");
    (world, impassable_tiles)
}

#[test]
fn test_initialize_as() {
    let cat = catalog();
    let mut item = Item::new(ITEM_DEBRIS, 1, 0, &cat);
    assert!(item.is_debris());
    // reinitializing changes the item's type from debris:
    item.initialize_as(0, &cat);
    assert!(!item.is_debris());
}

#[test]
fn test_damage() {
    let cat = catalog();
    let mut item = Item::new(0, 1, 0, &cat);
    assert!(!item.is_debris());
    for _ii in 0..100 {
        item.damage(&cat);
    }
    assert!(item.is_debris());
}

#[test]
fn test_reshape() {
    let (world, _) = fixtures();
    assert_eq!(world.tiles.len(), 25);
    assert!(world.is_out_of_bounds((6, 6)));
    for xx in 0..5 {
        for yy in 0..5 {
            assert_eq!(world.tile_at((xx, yy)), ('.', 0));
            assert_eq!(world.glyph_at((xx, yy)), '.');
        }
    }
}

#[test]
fn test_offset_and_neighbor() {
    let (world, impassable_tiles) = fixtures();
    let dir = 0;
    assert_eq!(world.offset((0, 0), dir), (0, 0));
    assert_eq!(world.neighbor((0, 0), dir, 0, &impassable_tiles), (0, 0));
    assert_eq!(world.offset((2, 2), dir), (2, 1));
    assert_eq!(world.neighbor((2, 2), dir, 0, &impassable_tiles), (2, 1));
    assert_eq!(world.offset((2, 2), dir), (2, 1));
    assert_eq!(world.neighbor((2, 2), dir, 0, "."), (2, 2));
}

#[test]
fn test_change_tiles() {
    let (mut world, _) = fixtures();
    world.change_tiles((2, 2), TILE_BLOOD);
    assert!(world.tiles.iter().any(|tile| tile == &TILE_BLOOD));
}

#[test]
fn test_push_wall() {
    let (mut world, _) = fixtures();
    let mut actor_inventory = vec![];

    // pushing the door does not create an open door
    world.push_wall((0, 1), 2, &actor_inventory);
    assert!(!world.items.iter().any(|item| item.kind == ITEM_DOOR_OPEN));

    // reaching for the key on the ground picks it up:
    let treasure = world.push_wall((3, 4), 2, &actor_inventory).unwrap();
    assert_eq!(world.items.len(), 1);
    assert_eq!(treasure.kind, ITEM_KEY);

    // pushing against the locked door, with the key, opens it:
    actor_inventory.push(treasure);
    world.push_wall((0, 1), 2, &actor_inventory);
    assert!(world.items[0].kind == ITEM_DOOR_OPEN);
}

#[test]
fn portals_pair_up_and_doors_stop_strangers() {
    let cat = catalog();
    let a = Item::new(9, 3, 0, &cat);
    let b = Item::new(9, 3, 0, &cat);
    let door = Item::new(ITEM_DOOR, 1, 1, &cat);
    let mut world = World::new(cat);
    world.reshape((5, 5));
    world.add_item(a, (1, 1));
    world.add_item(b, (3, 3));
    world.add_item(door, (2, 2));
    // waiting on a portal steps through to its partner:
    assert_eq!(world.neighbor((1, 1), 8, 0, ""), (3, 3));
    assert_eq!(world.neighbor((1, 2), 2, 0, ""), (1, 2));
    assert_eq!(world.neighbor((1, 2), 3, 1, ""), (2, 3));
    assert_eq!(world.neighbor((1, 2), 2, 1, ""), (2, 2));
    // a second door on the same cell is not placed:
    let again = Item::new(ITEM_DOOR, 1, 1, &world.catalog);
    world.add_item(again, (2, 2));
    assert_eq!(world.items.len(), 3);
}
