use vstd::prelude::*;
use crate::actor::Actor;
use crate::catalog::{required_kind, Catalog};
use crate::constants::{ITEM_EXIT, ITEM_PORTAL};
use crate::item::Item;
use crate::skills::all_wf;
use crate::state::State;
use crate::text::sentence_case;
use crate::world::World;
use vstd::string::*;

verus! {

/// Object orders of a scenario file.
pub const ORD_ACTOR: u8 = 0;
pub const ORD_DOOR: u8 = 1;
pub const ORD_ITEM_OR_EXIT: u8 = 2;
pub const ORD_GENERATOR: u8 = 3;
pub const ORD_EFFECT: u8 = 4;
pub const ORD_SPAWN: u8 = 5;

/// Kind codes generators are shifted by to become agents.
pub const GENERATOR_KIND_OFFSET: u8 = 30;

/// Why an object of a scenario cannot be placed.
#[derive(Debug, PartialEq, Eq, Structural)]
pub enum PlacementError {
    /// The object is an agent of a kind the table does not list.
    UnknownKind(u8),
}

/// One object of a scenario file.
pub struct ObjectRecord {
    pub order: u8,
    pub kind: u8,
    pub pos: (u16, u16),
    pub team: usize,
    pub direction: u8,
    pub level: u16,
    pub name: String,
}

/// Length of a C-style string: up to the first control byte, or the whole buffer.
pub fn c_string_len(buffer: &[u8]) -> (r: usize)
    ensures
        r <= buffer@.len(),
        forall|i: int| 0 <= i < r ==> buffer@[i] >= 32,
        r < buffer@.len() ==> buffer@[r as int] < 32,
{
    let mut i: usize = 0;
    while i < buffer.len()
        invariant
            i <= buffer@.len(),
            forall|j: int| 0 <= j < i ==> buffer@[j] >= 32,
        decreases buffer@.len() - i,
    {
        if buffer[i] < 32 {
            return i;
        }
        i += 1;
    }
    i
}

/// Decodes the ten fixed bytes of an object record: order, kind, position in
/// sixteenths of a cell (little endian), team, facing, and the low byte of
/// the level, whose high byte comes separately.
pub fn decode_object(buffer: &[u8], level_high: u8, name: String) -> (r: ObjectRecord)
    requires
        buffer@.len() >= 10,
    ensures
        r.order == buffer@[0],
        r.kind == buffer@[1],
        r.pos == (((buffer@[2] + buffer@[3] * 256) / 16) as u16, ((buffer@[4] + buffer@[5] * 256) / 16) as u16),
        r.team == buffer@[6],
        r.direction == buffer@[7],
        r.level == buffer@[9] + level_high * 256,
        r.name == name,
{
    let x: u32 = buffer[2] as u32 + buffer[3] as u32 * 256;
    let y: u32 = buffer[4] as u32 + buffer[5] as u32 * 256;
    ObjectRecord {
        order: buffer[0],
        kind: buffer[1],
        pos: ((x / 16) as u16, (y / 16) as u16),
        team: buffer[6] as usize,
        direction: buffer[7],
        level: (buffer[9] as u32 + level_high as u32 * 256) as u16,
        name,
    }
}

/// Relies on `rand::seq::SliceRandom::choose_multiple`: `count` elements of
/// `pool` drawn without repetition (distinct places of the pool), or all of
/// them when `count` is larger.
#[verifier::external_body]
fn sample_kinds(pool: &[u8], count: usize) -> (r: Vec<u8>)
    ensures
        r@.len() == if count < pool@.len() { count as int } else { pool@.len() as int },
        forall|i: int| 0 <= i < r@.len() ==> pool@.contains(#[trigger] r@[i]),
        (forall|a: int, b: int| 0 <= a < b < pool@.len() ==> pool@[a] != pool@[b]) ==> forall|i: int, j: int|
            0 <= i < j < r@.len() ==> r@[i] != r@[j],
{
    rand::seq::SliceRandom::choose_multiple(pool, &mut rand::thread_rng(), count).cloned().collect()
}

/// A squad of `count` different kinds drawn from the recruitable ones
/// (at most seven), at level 1 on the origin.
pub fn create_random_team(team: usize, count: usize, catalog: &Catalog) -> (r: Vec<Actor>)
    requires
        catalog.wf(),
    ensures
        all_wf(r@),
        r@.len() == if count < 7 { count as int } else { 7 },
        forall|i: int| 0 <= i < r@.len() ==> (#[trigger] r@[i]).team == team && r@[i].level == 1 && r@[i].pos == (0u16, 0u16),
        forall|i: int, j: int| 0 <= i < j < r@.len() ==> r@[i].kind != r@[j].kind,
{
    let pool: [u8; 7] = [0, 1, 2, 3, 5, 11, 13];
    let kinds = sample_kinds(pool.as_slice(), count);
    assert(forall|j: int| 0 <= j < 7 ==> required_kind(#[trigger] pool@[j]));
    assert(forall|a: int, b: int| 0 <= a < b < 7 ==> pool@[a] != pool@[b]);
    let mut actors: Vec<Actor> = Vec::new();
    let mut i: usize = 0;
    while i < kinds.len()
        invariant
            catalog.wf(),
            forall|j: int| 0 <= j < 7 ==> required_kind(#[trigger] pool@[j]),
            forall|j: int| 0 <= j < kinds@.len() ==> pool@.contains(#[trigger] kinds@[j]),
            forall|a: int, b: int| 0 <= a < b < kinds@.len() ==> kinds@[a] != kinds@[b],
            forall|j: int| 0 <= j < i ==> (#[trigger] actors@[j]).kind == kinds@[j],
            pool@.len() == 7,
            i <= kinds@.len(),
            actors@.len() == i,
            all_wf(actors@),
            forall|j: int| 0 <= j < i ==> (#[trigger] actors@[j]).team == team && actors@[j].level == 1 && actors@[j].pos == (0u16, 0u16),
        decreases kinds@.len() - i,
    {
        proof {
            let j = choose|j: int| 0 <= j < pool@.len() && pool@[j] == kinds@[i as int];
            assert(required_kind(pool@[j]));
        }
        actors.push(Actor::new(kinds[i], 1, team, (0, 0), catalog));
        i += 1;
    }
    actors
}

/// A named leader of another team carries gold, silver and armor.
pub fn give_random_inventory(actor: &mut Actor, catalog: &Catalog)
    requires
        catalog.wf(),
    ensures
        *final(actor) == (Actor { inventory: final(actor).inventory, ..*old(actor) }),
        (old(actor).team == 0 || !old(actor).is_leader) ==> final(actor).inventory == old(actor).inventory,
        (old(actor).team != 0 && old(actor).is_leader) ==> final(actor).inventory@.len() == old(actor).inventory@.len() + 3
            && final(actor).inventory@[old(actor).inventory@.len() as int].kind == 2
            && final(actor).inventory@[old(actor).inventory@.len() as int + 1].kind == 3
            && final(actor).inventory@[old(actor).inventory@.len() as int + 2].kind == 6,
{
    if actor.team == 0 || !actor.is_leader {
        return;
    }
    let gold = Item::new(2, actor.level, actor.team, catalog);
    let silver = Item::new(3, actor.level, actor.team, catalog);
    let armor = Item::new(6, actor.level, actor.team, catalog);
    actor.inventory.push(gold);
    actor.inventory.push(silver);
    actor.inventory.push(armor);
}

impl World {
    /// Sets the map's size and tile types, one byte per cell in row-major order.
    pub fn set_layout(&mut self, size: (u16, u16), cells: &[u8])
        requires
            old(self).catalog.wf(),
            cells@.len() >= size.0 * size.1,
        ensures
            final(self).wf(),
            final(self).size == size,
            forall|i: int| 0 <= i < size.0 * size.1 ==> final(self).tiles@[i] == cells@[i] as u16,
            final(self).items == old(self).items,
            final(self).exits == old(self).exits,
            final(self).catalog == old(self).catalog,
    {
        self.reshape(size);
        let n = self.tiles.len();
        let mut i: usize = 0;
        while i < n
            invariant
                self.wf(),
                self.size == size,
                n == self.tiles@.len(),
                n == size.0 * size.1,
                cells@.len() >= n,
                i <= n,
                forall|j: int| 0 <= j < i ==> self.tiles@[j] == cells@[j] as u16,
                self.items == old(self).items,
                self.exits == old(self).exits,
                self.catalog == old(self).catalog,
            decreases n - i,
        {
            self.tiles.set(i, cells[i] as u16);
            i += 1;
        }
    }
}

impl State {
    /// Records a team as present in the scenario.
    pub fn add_team(&mut self, team: usize)
        ensures
            final(self).team_idxs@.contains(team),
            forall|t: usize| old(self).team_idxs@.contains(t) ==> final(self).team_idxs@.contains(t),
            *final(self) == (State { team_idxs: final(self).team_idxs, ..*old(self) }),
    {
        let mut i: usize = 0;
        while i < self.team_idxs.len()
            invariant
                *self == *old(self),
                i <= self.team_idxs@.len(),
                forall|j: int| 0 <= j < i ==> self.team_idxs@[j] != team,
            decreases self.team_idxs@.len() - i,
        {
            if self.team_idxs[i] == team {
                assert(self.team_idxs@[i as int] == team);
                return;
            }
            i += 1;
        }
        self.team_idxs.push(team);
        assert(self.team_idxs@[self.team_idxs@.len() - 1] == team);
        assert forall|t: usize| old(self).team_idxs@.contains(t) implies self.team_idxs@.contains(t) by {
            let j = choose|j: int| 0 <= j < old(self).team_idxs@.len() && old(self).team_idxs@[j] == t;
            assert(self.team_idxs@[j] == t);
        }
    }

    /// Whether the current scenario was won before.
    pub fn current_world_completed(&self) -> (r: bool)
        ensures
            r == self.world_completed@.contains(self.world_idx),
    {
        let mut i: usize = 0;
        while i < self.world_completed.len()
            invariant
                i <= self.world_completed@.len(),
                forall|j: int| 0 <= j < i ==> self.world_completed@[j] != self.world_idx,
            decreases self.world_completed@.len() - i,
        {
            if self.world_completed[i] == self.world_idx {
                assert(self.world_completed@[i as int] == self.world_idx);
                return true;
            }
            i += 1;
        }
        false
    }

    /// Places one object of a scenario: spawn points take the next squad
    /// member (or a random recruit of another team), exits and portals are
    /// always placed; on a scenario won before nothing else is; otherwise doors
    /// and items are laid down and agents (generators among them) created,
    /// named leaders of other teams carrying coin and armor. An agent of a
    /// kind the table does not list is refused.
    pub fn place_object(&mut self, rec: ObjectRecord) -> (r: Result<(), PlacementError>)
        requires
            old(self).wf(),
        ensures
            final(self).wf(),
            rec.order != ORD_ACTOR && rec.order != ORD_GENERATOR ==> r is Ok,
            r is Err ==> !old(self).world.catalog.has_actor(r->Err_0->UnknownKind_0),
            rec.order == ORD_SPAWN && rec.team == 0 && old(self).player_team@.len() > 0 ==> final(self).actors@
                == old(self).actors@.push(Actor { pos: rec.pos, ..old(self).player_team@.last() })
                && final(self).player_team@ == old(self).player_team@.drop_last(),
            rec.order == ORD_ITEM_OR_EXIT && rec.kind == ITEM_EXIT ==> final(self).world.exits@.len() == old(self).world.exits@.len() + 1
                && final(self).world.exits@.last().pos == rec.pos && final(self).world.exits@.last().level == rec.level,
            rec.order == ORD_EFFECT ==> final(self).actors == old(self).actors,
    {
        if rec.order == ORD_SPAWN {
            if rec.team == 0 {
                if self.player_team.len() > 0 {
                    let ghost before = self.player_team@;
                    let mut teammate = match self.player_team.pop() {
                        Some(a) => a,
                        None => {
                            return Ok(());
                        },
                    };
                    assert(teammate == before.last());
                    assert forall|j: int| 0 <= j < self.player_team@.len() implies (#[trigger] self.player_team@[j]).wf() by {
                        assert(self.player_team@[j] == before[j]);
                    }
                    teammate.pos = rec.pos;
                    self.add_actor(teammate);
                    self.add_team(rec.team);
                }
            } else {
                let mut recruits = create_random_team(rec.team, 1, &self.world.catalog);
                if let Some(mut enemy) = recruits.pop() {
                    enemy.pos = rec.pos;
                    self.add_actor(enemy);
                }
                self.add_team(rec.team);
            }
            return Ok(());
        } else if rec.order == ORD_ITEM_OR_EXIT {
            if rec.kind == ITEM_EXIT {
                let mut exit = Item::new(rec.kind, rec.level, rec.team, &self.world.catalog);
                exit.pos = rec.pos;
                self.world.exits.push(exit);
                return Ok(());
            } else if rec.kind == ITEM_PORTAL {
                let portal = Item::new(rec.kind, rec.level, rec.team, &self.world.catalog);
                self.world.add_item(portal, rec.pos);
            }
        }
        if rec.order == ORD_EFFECT || self.current_world_completed() {
            return Ok(());
        }
        let mut kind = rec.kind;
        if rec.order == ORD_DOOR || rec.order == ORD_ITEM_OR_EXIT {
            let item = Item::new(kind, rec.level, rec.team, &self.world.catalog);
            self.world.add_item(item, rec.pos);
            return Ok(());
        } else if rec.order == ORD_GENERATOR {
            kind = if kind <= 255 - GENERATOR_KIND_OFFSET { kind + GENERATOR_KIND_OFFSET } else { 255 };
        } else if rec.order != ORD_ACTOR {
            return Ok(());
        }
        if self.world.catalog.find_actor(kind).is_none() {
            return Err(PlacementError::UnknownKind(kind));
        }
        let mut actor = Actor::new(kind, rec.level, rec.team, rec.pos, &self.world.catalog);
        actor.direction = rec.direction % 8;
        let named = rec.name.as_str().unicode_len() > 0;
        actor.is_leader = named && rec.team != 0;
        if named {
            actor.name = sentence_case(rec.name.as_str());
        }
        give_random_inventory(&mut actor, &self.world.catalog);
        self.add_actor(actor);
        Ok(())
    }
}

} // verus!
