use vstd::prelude::*;
use crate::actor::Actor;
use crate::constants::{same_pos, ITEM_DOOR, ITEM_DOOR_OPEN, ITEM_TELEPORT_MARKER, ITEM_TREE, TILE_BLOOD, TILE_TREE};
use crate::item::Item;
use crate::plan::Plan;
use crate::rng::rand_int;
use crate::text::{join, join3, sentence_case};
use crate::world::World;

verus! {

/// Glyphs a ray does not pass through.
pub const RAY_BLOCKERS: &'static str = "#%\"'";

/// Every agent of the list is well formed.
pub open spec fn all_wf(actors: Seq<Actor>) -> bool {
    forall|i: int| 0 <= i < actors.len() ==> (#[trigger] actors[i]).wf()
}

/// `after` is `before` with well-formed agents appended.
pub open spec fn spawned_from(after: Seq<Actor>, before: Seq<Actor>) -> bool {
    &&& after.len() >= before.len()
    &&& after.subrange(0, before.len() as int) == before
    &&& all_wf(after)
}

/// First occupied cell along a ray: the occupant's team and the cells passed
/// before it, looking at most `len - dist` more cells from `from`.
pub open spec fn ray(world: &World, plan: &Plan, team: usize, from: (u16, u16), dir: u8, dist: int, len: int) -> Option<(usize, u16)>
    decreases len - dist,
{
    if dist >= len {
        None
    } else {
        let next = world.spec_neighbor(from, dir, team, RAY_BLOCKERS@);
        if next == from {
            None
        } else {
            match plan.spec_whos_at(next) {
                Some(t) => Some((t, dist as u16)),
                None => ray(world, plan, team, next, dir, dist + 1, len),
            }
        }
    }
}

/// Looks along `dir` for the first occupied cell within `len` steps.
pub fn raycast(slf: &Actor, dir: u8, wld: &World, p: &Plan, len: u16) -> (r: Option<(usize, u16)>)
    requires
        wld.wf(),
        p.wf(),
    ensures
        r == ray(wld, p, slf.team, slf.pos, dir, 0, len as int),
{
    let mut pos = slf.pos;
    let mut dist: u16 = 0;
    while dist < len
        invariant
            wld.wf(),
            p.wf(),
            dist <= len,
            ray(wld, p, slf.team, slf.pos, dir, 0, len as int) == ray(wld, p, slf.team, pos, dir, dist as int, len as int),
        decreases len - dist,
    {
        let new_pos = wld.neighbor(pos, dir, slf.team, RAY_BLOCKERS);
        if same_pos(new_pos, pos) {
            return None;
        }
        if let Some(team) = p.whos_at(new_pos) {
            return Some((team, dist));
        }
        pos = new_pos;
        dist += 1;
    }
    None
}

/// Spins one notch clockwise every other tick.
pub fn passive_spin(slf: &mut Actor)
    requires
        old(slf).wf(),
    ensures
        final(slf).wf(),
        *final(slf) == (Actor {
            direction: if old(slf).time % 2 == 0 { ((old(slf).direction + 1) % 8) as u8 } else { old(slf).direction },
            ..*old(slf)
        }),
{
    if slf.time % 2 == 0 {
        slf.direction = (slf.direction + 1) % 8;
    }
}

/// Every tenth tick drifts sideways or ahead; a blocked drift costs momentum.
pub fn passive_drift(slf: &mut Actor, wld: &World)
    requires
        old(slf).wf(),
        wld.wf(),
    ensures
        final(slf).wf(),
        *final(slf) == (Actor { pos: final(slf).pos, momentum: final(slf).momentum, ..*old(slf) }),
        old(slf).time % 10 != 0 ==> *final(slf) == *old(slf),
{
    if slf.time % 10 == 0 {
        let drift_dir: u8 = if slf.random_seed % 4 == 0 {
            slf.direction + 2
        } else if slf.random_seed % 4 == 1 {
            slf.direction + 6
        } else {
            slf.direction
        };
        let pos = wld.neighbor(slf.pos, drift_dir % 8, slf.team, slf.walls.as_str());
        if same_pos(pos, slf.pos) {
            slf.lose_momentum(1);
            return;
        }
        slf.pos = pos;
    }
}

/// Loses a point of health each tick, and dies outright once out of momentum.
pub fn passive_descend(slf: &mut Actor, wld: &mut World)
    requires
        old(slf).wf(),
        old(wld).wf(),
    ensures
        final(slf).wf(),
        final(wld).wf(),
        final(wld).size == old(wld).size,
        final(wld).exits == old(wld).exits,
        final(wld).catalog == old(wld).catalog,
        old(slf).spec_is_alive() && (old(slf).health <= 1 || old(slf).momentum == 0) ==> final(slf).died_from(old(slf)),
        old(slf).spec_is_alive() && old(slf).health > 1 && old(slf).momentum > 0 ==> *final(slf) == (Actor {
            health: (old(slf).health - 1) as u16,
            ..*old(slf)
        }),
        !old(slf).spec_is_alive() ==> *final(slf) == *old(slf),
{
    slf.hurt(1, wld);
    if slf.momentum == 0 && slf.is_alive() {
        slf.act_die(wld);
    }
}

/// With momentum, a blow along the facing knocks the victim down and back
/// up to two cells, leaving blood.
pub fn passive_slam(slf: &mut Actor, action: u8, vic: &mut Actor, wld: &mut World, p: &Plan)
    requires
        old(slf).wf(),
        old(vic).wf(),
        old(wld).wf(),
        p.wf(),
    ensures
        final(slf).wf(),
        final(vic).wf(),
        final(wld).wf(),
        final(wld).size == old(wld).size,
        final(wld).items == old(wld).items,
        final(wld).exits == old(wld).exits,
        final(wld).catalog == old(wld).catalog,
        *final(slf) == (Actor { log: final(slf).log, ..*old(slf) }),
        final(vic).health == old(vic).health,
        (old(slf).momentum != 0 && old(vic).spec_is_mobile() && old(slf).direction == action) ==> final(vic).stun == 2,
        !(old(slf).momentum != 0 && old(vic).spec_is_mobile() && old(slf).direction == action) ==> *final(vic) == *old(vic)
            && *final(slf) == *old(slf) && *final(wld) == *old(wld),
{
    if slf.momentum != 0 && vic.is_mobile() && slf.direction == action {
        slf.log_interaction("slammed into", vic);
        vic.stun(2);
        let mut k: u8 = 0;
        while k < 2
            invariant
                old(slf).momentum != 0 && old(vic).spec_is_mobile() && old(slf).direction == action,
                slf.wf(),
                *slf == (Actor { log: slf.log, ..*old(slf) }),
                vic.wf(),
                wld.wf(),
                p.wf(),
                vic.stun == 2,
                vic.health == old(vic).health,
                wld.size == old(wld).size,
                wld.items == old(wld).items,
                wld.exits == old(wld).exits,
                wld.catalog == old(wld).catalog,
            decreases 2 - k,
        {
            wld.change_tiles(vic.pos, TILE_BLOOD);
            let pos = wld.neighbor(vic.pos, slf.direction, vic.team, vic.walls.as_str());
            if p.whos_at(pos).is_some() {
                return;
            }
            vic.pos = pos;
            k += 1;
        }
    }
}

/// A blow from the side of the attacker's facing knocks the victim down.
pub fn passive_whirl(slf: &mut Actor, action: u8, vic: &mut Actor)
    requires
        old(slf).wf(),
        old(vic).wf(),
    ensures
        final(slf).wf(),
        final(vic).wf(),
        *final(slf) == (Actor { log: final(slf).log, ..*old(slf) }),
        final(vic).health == old(vic).health,
        final(vic).pos == old(vic).pos,
        (action == (old(slf).direction + 2) % 8 || action == (old(slf).direction + 6) % 8) ==> final(vic).stun == 1,
        !(action == (old(slf).direction + 2) % 8 || action == (old(slf).direction + 6) % 8) ==> *final(vic) == *old(vic),
{
    let left = (slf.direction + 2) % 8;
    let right = (slf.direction + 6) % 8;
    if action == left || action == right {
        slf.log_interaction("whirled at", vic);
        vic.stun(1);
    }
}

/// Angle between two compass directions, as the absolute difference of their codes.
pub open spec fn angle(a: u8, b: u8) -> int {
    if a >= b {
        a - b
    } else {
        b - a
    }
}

fn abs_diff(a: u8, b: u8) -> (r: u8)
    ensures
        r == angle(a, b),
{
    if a >= b {
        a - b
    } else {
        b - a
    }
}

/// A blow struck backwards over the shoulder trips the victim.
pub fn passive_trip(slf: &mut Actor, dir: u8, vic: &mut Actor)
    requires
        old(slf).wf(),
        old(vic).wf(),
    ensures
        final(slf).wf(),
        final(vic).wf(),
        *final(slf) == (Actor { log: final(slf).log, ..*old(slf) }),
        final(vic).health == old(vic).health,
        final(vic).pos == old(vic).pos,
        (3 <= angle(dir, old(slf).direction) <= 5) ==> final(vic).stun == 1,
        !(3 <= angle(dir, old(slf).direction) <= 5) ==> *final(vic) == *old(vic),
{
    let a = abs_diff(dir, slf.direction);
    if a == 3 || a == 4 || a == 5 {
        slf.log_interaction("spun and tripped", vic);
        vic.stun(1);
    }
}

/// A blow from behind halves the victim's health; from the flank it takes a third.
pub fn passive_backstab(slf: &mut Actor, dir: u8, vic: &mut Actor)
    requires
        old(slf).wf(),
        old(vic).wf(),
    ensures
        final(slf).wf(),
        final(vic).wf(),
        *final(slf) == (Actor { log: final(slf).log, ..*old(slf) }),
        final(vic).pos == old(vic).pos,
        ({
            let a = angle(dir, old(vic).direction);
            &&& old(vic).spec_is_mobile() && (a == 0 || a == 1 || a == 7) ==> final(vic).health == old(vic).health / 2
                && final(vic).stun == 2
            &&& old(vic).spec_is_mobile() && (a == 2 || a == 6) ==> final(vic).health == old(vic).health * 2 / 3
                && final(vic).stun == 1
            &&& !(old(vic).spec_is_mobile() && (a == 0 || a == 1 || a == 7 || a == 2 || a == 6)) ==> *final(vic) == *old(vic)
        }),
{
    if vic.is_mobile() {
        let a = abs_diff(dir, vic.direction);
        if a == 0 || a == 1 || a == 7 {
            vic.health = vic.health / 2;
            vic.stun(2);
            slf.log_interaction("backstabbed", vic);
        } else if a == 2 || a == 6 {
            vic.health = (vic.health as u32 * 2 / 3) as u16;
            vic.stun(1);
            slf.log_interaction("blindsided", vic);
        }
    }
}

/// Touching a hurt ally spends five mana to heal it by twenty.
pub fn passive_heal(slf: &mut Actor, pal: &mut Actor)
    requires
        old(slf).wf(),
        old(pal).wf(),
    ensures
        final(slf).wf(),
        final(pal).wf(),
        (old(slf).mana >= 5 && old(pal).health < old(pal).spec_max_health()) ==> final(slf).mana == old(slf).mana - 5
            && final(pal).health == if old(pal).health + 20 > old(pal).spec_max_health() {
                old(pal).spec_max_health() as int
            } else {
                old(pal).health + 20
            },
        !(old(slf).mana >= 5 && old(pal).health < old(pal).spec_max_health()) ==> *final(slf) == *old(slf) && *final(pal) == *old(pal),
        final(pal).pos == old(pal).pos,
        *final(slf) == (Actor { mana: final(slf).mana, log: final(slf).log, ..*old(slf) }),
{
    if slf.mana >= 5 && pal.health < pal.max_health() {
        let msg = join3("healed ", pal.name.as_str(), ".");
        slf.act_exert(5, msg.as_str());
        let time = slf.time;
        let name = sentence_case(slf.name.as_str());
        let theirs = join(name.as_str(), " healed me.");
        pal.log_event(theirs.as_str(), time);
        pal.recover(20);
    }
}

/// Trees sprout around the agent.
pub fn passive_grow(slf: &Actor, wld: &mut World)
    requires
        old(wld).wf(),
    ensures
        final(wld).wf(),
        final(wld).size == old(wld).size,
        final(wld).items == old(wld).items,
        final(wld).exits == old(wld).exits,
        final(wld).log == old(wld).log,
        final(wld).catalog == old(wld).catalog,
{
    wld.change_tiles(slf.pos, TILE_TREE);
}

/// Turns toward the nearest enemy within ten cells along the eight directions,
/// preferring directions closer to the current facing on ties.
pub fn passive_aim(slf: &mut Actor, wld: &World, p: &Plan)
    requires
        old(slf).wf(),
        wld.wf(),
        p.wf(),
    ensures
        final(slf).wf(),
        *final(slf) == (Actor { direction: final(slf).direction, ..*old(slf) }),
        final(slf).direction == old(slf).direction || ({
            match ray(wld, p, old(slf).team, old(slf).pos, final(slf).direction, 0, 10) {
                Some(hit) => hit.0 != old(slf).team,
                None => false,
            }
        }),
{
    let mut closest: u16 = 65535;
    let init_dir = slf.direction;
    let mut delta: u8 = 0;
    while delta < 8
        invariant
            slf.wf(),
            wld.wf(),
            p.wf(),
            init_dir == old(slf).direction,
            init_dir < 8,
            *slf == (Actor { direction: slf.direction, ..*old(slf) }),
            slf.direction == old(slf).direction || ({
                match ray(wld, p, old(slf).team, old(slf).pos, slf.direction, 0, 10) {
                    Some(hit) => hit.0 != old(slf).team,
                    None => false,
                }
            }),
        decreases 8 - delta,
    {
        let dir = (init_dir + delta) % 8;
        if let Some((team, dist)) = raycast(slf, dir, wld, p, 10) {
            if dist < closest && team != slf.team {
                closest = dist;
                slf.direction = dir;
            }
        }
        delta += 1;
    }
}

/// Level plus a bonus, saturated.
fn boosted(level: u16, bonus: u16) -> (r: u16)
    ensures
        r == if level as int + bonus as int > 65535 { 65535 } else { level + bonus },
{
    if level > 65535 - bonus {
        65535
    } else {
        level + bonus
    }
}

/// Steps ahead along the facing up to `n` times, stopping before an occupied cell.
fn dash(slf: &mut Actor, wld: &World, p: &Plan, n: u8)
    requires
        old(slf).wf(),
        wld.wf(),
        p.wf(),
    ensures
        final(slf).wf(),
        *final(slf) == (Actor { pos: final(slf).pos, ..*old(slf) }),
{
    let mut k: u8 = 0;
    while k < n
        invariant
            slf.wf(),
            wld.wf(),
            p.wf(),
            *slf == (Actor { pos: slf.pos, ..*old(slf) }),
        decreases n - k,
    {
        let new_pos = wld.neighbor(slf.pos, slf.direction, slf.team, slf.walls.as_str());
        if p.whos_at(new_pos).is_some() {
            return;
        }
        slf.pos = new_pos;
        k += 1;
    }
}

/// Three quick steps ahead, then momentum fades.
pub fn sprint(slf: &mut Actor, wld: &World, p: &Plan)
    requires
        old(slf).wf(),
        wld.wf(),
        p.wf(),
    ensures
        final(slf).wf(),
        final(slf).mana == old(slf).mana - if old(slf).mana < 2 { old(slf).mana } else { 2 },
        final(slf).momentum == old(slf).momentum - if old(slf).momentum < 1 { old(slf).momentum } else { 1 },
        final(slf).health == old(slf).health,
{
    slf.act_exert(2, "sprinted ahead.");
    dash(slf, wld, p, 3);
    slf.lose_momentum(1);
}

/// Up to two steps along the facing; running into an ally ends the rush and
/// costs momentum, an enemy is simply not stepped onto.
fn rush(slf: &mut Actor, wld: &World, p: &Plan)
    requires
        old(slf).wf(),
        wld.wf(),
        p.wf(),
    ensures
        final(slf).wf(),
        *final(slf) == (Actor { pos: final(slf).pos, momentum: final(slf).momentum, ..*old(slf) }),
        final(slf).momentum <= old(slf).momentum,
{
    let mut k: u8 = 0;
    while k < 2
        invariant
            slf.wf(),
            wld.wf(),
            p.wf(),
            *slf == (Actor { pos: slf.pos, ..*old(slf) }),
        decreases 2 - k,
    {
        let new_pos = wld.neighbor(slf.pos, slf.direction, slf.team, slf.walls.as_str());
        match p.whos_at(new_pos) {
            Some(team) => {
                if team == slf.team {
                    slf.lose_momentum(1);
                    return;
                }
            },
            None => {
                slf.pos = new_pos;
            },
        }
        k += 1;
    }
}

/// Spends four mana to rush ahead.
pub fn charge(slf: &mut Actor, wld: &World, p: &Plan)
    requires
        old(slf).wf(),
        wld.wf(),
        p.wf(),
    ensures
        final(slf).wf(),
        final(slf).mana == old(slf).mana - if old(slf).mana < 4 { old(slf).mana } else { 4 },
        final(slf).health == old(slf).health,
{
    slf.act_exert(4, "charged!");
    rush(slf, wld, p);
}

/// Spends one mana to turn about and leap away.
pub fn leap(slf: &mut Actor, wld: &World, p: &Plan)
    requires
        old(slf).wf(),
        wld.wf(),
        p.wf(),
    ensures
        final(slf).wf(),
        final(slf).mana == old(slf).mana - if old(slf).mana < 1 { old(slf).mana } else { 1 },
        final(slf).direction == (old(slf).direction + 4) % 8,
        final(slf).health == old(slf).health,
{
    slf.act_exert(1, "leapt back!");
    slf.direction = (slf.direction + 4) % 8;
    rush(slf, wld, p);
}

/// Spends five mana to hide for ten more ticks.
pub fn cloak(slf: &mut Actor)
    requires
        old(slf).wf(),
    ensures
        final(slf).wf(),
        final(slf).mana == old(slf).mana - if old(slf).mana < 5 { old(slf).mana } else { 5 },
        final(slf).invis == if old(slf).invis > 32757 { 32767 } else { old(slf).invis + 10 },
        final(slf).health == old(slf).health,
        final(slf).pos == old(slf).pos,
{
    slf.act_exert(5, "started to sneak around.");
    slf.invis = if slf.invis > 32757 { 32767 } else { slf.invis + 10 };
}

/// Glyph of an arrow flying in a direction.
pub open spec fn arrow_glyph(dir: u8) -> char {
    if dir == 0 || dir == 4 {
        '|'
    } else if dir == 2 || dir == 6 {
        '-'
    } else if dir == 1 || dir == 5 {
        '/'
    } else {
        '\\'
    }
}

/// Looses an arrow along the facing (after aiming, with that skill); an agent
/// with momentum steadies its aim instead.
pub fn shoot(slf: &mut Actor, wld: &World, p: &Plan, spawn: &mut Vec<Actor>)
    requires
        old(slf).wf(),
        wld.wf(),
        p.wf(),
        all_wf(old(spawn)@),
    ensures
        final(slf).wf(),
        spawned_from(final(spawn)@, old(spawn)@),
        final(slf).health == old(slf).health,
        final(slf).pos == old(slf).pos,
        final(slf).team == old(slf).team,
        old(slf).momentum > 0 ==> final(slf).momentum == 0 && final(spawn)@ == old(spawn)@,
        old(slf).momentum == 0 ==> final(spawn)@.len() == old(spawn)@.len() + 1 && ({
            let shot = final(spawn)@.last();
            &&& shot.kind == 50
            &&& shot.team == old(slf).team
            &&& shot.pos == old(slf).pos
            &&& shot.direction == final(slf).direction
            &&& shot.glyph == arrow_glyph(final(slf).direction)
        }),
{
    assert(spawn@.subrange(0, old(spawn)@.len() as int) =~= old(spawn)@);
    if slf.has_skill("passive_aim") {
        passive_aim(slf, wld, p);
    }
    if slf.momentum > 0 {
        slf.log_action("steadied my aim.");
        slf.momentum = 0;
        return;
    }
    let mut shot = Actor::new(50, boosted(slf.level, 10), slf.team, slf.pos, &wld.catalog);
    let msg = join3("released ", shot.name.as_str(), ".");
    slf.act_exert(2, msg.as_str());
    shot.glyph = if slf.direction == 0 || slf.direction == 4 {
        '|'
    } else if slf.direction == 2 || slf.direction == 6 {
        '-'
    } else if slf.direction == 1 || slf.direction == 5 {
        '/'
    } else {
        '\\'
    };
    shot.direction = slf.direction;
    spawn.push(shot);
    assert(spawn@.subrange(0, old(spawn)@.len() as int) =~= old(spawn)@);
}

/// Three arrows in a fan around the facing.
pub fn barrage(slf: &mut Actor, wld: &World, p: &Plan, spawn: &mut Vec<Actor>)
    requires
        old(slf).wf(),
        wld.wf(),
        p.wf(),
        all_wf(old(spawn)@),
    ensures
        final(slf).wf(),
        spawned_from(final(spawn)@, old(spawn)@),
        final(slf).health == old(slf).health,
        final(slf).pos == old(slf).pos,
        old(slf).momentum > 0 ==> final(slf).momentum == 0 && final(spawn)@ == old(spawn)@,
{
    assert(spawn@.subrange(0, old(spawn)@.len() as int) =~= old(spawn)@);
    if slf.momentum > 0 {
        slf.log_action("steadied my aim.");
        slf.momentum = 0;
        return;
    }
    slf.direction = (slf.direction + 7) % 8;
    let mut k: u8 = 0;
    assert(spawn@.subrange(0, old(spawn)@.len() as int) =~= old(spawn)@);
    while k < 3
        invariant
            slf.wf(),
            wld.wf(),
            p.wf(),
            spawned_from(spawn@, old(spawn)@),
            slf.health == old(slf).health,
            slf.pos == old(slf).pos,
            slf.team == old(slf).team,
        decreases 3 - k,
    {
        let ghost mid = spawn@;
        shoot(slf, wld, p, spawn);
        assert(spawn@.subrange(0, old(spawn)@.len() as int) =~= mid.subrange(0, old(spawn)@.len() as int));
        slf.direction = (slf.direction + 1) % 8;
        k += 1;
    }
}

/// Spends ten mana on a boomerang thrown to the left of the facing.
pub fn boomerang(slf: &mut Actor, wld: &World, spawn: &mut Vec<Actor>)
    requires
        old(slf).wf(),
        wld.wf(),
        all_wf(old(spawn)@),
    ensures
        final(slf).wf(),
        final(slf).mana == old(slf).mana - if old(slf).mana < 10 { old(slf).mana } else { 10 },
        final(spawn)@.len() == old(spawn)@.len() + 1,
        spawned_from(final(spawn)@, old(spawn)@),
        final(spawn)@.last().kind == 53,
        final(spawn)@.last().momentum == 100,
        final(spawn)@.last().direction == (old(slf).direction + 7) % 8,
{
    slf.act_exert(10, "threw a boomerang.");
    let mut b = Actor::new(53, slf.level, slf.team, slf.pos, &wld.catalog);
    b.direction = (slf.direction + 7) % 8;
    b.momentum = 100;
    spawn.push(b);
    assert(spawn@.subrange(0, old(spawn)@.len() as int) =~= old(spawn)@);
}

/// Spends twenty mana on eight fiery currents, one per direction.
pub fn starburst(slf: &mut Actor, wld: &World, spawn: &mut Vec<Actor>)
    requires
        old(slf).wf(),
        wld.wf(),
        all_wf(old(spawn)@),
    ensures
        final(slf).wf(),
        final(slf).mana == old(slf).mana - if old(slf).mana < 20 { old(slf).mana } else { 20 },
        final(spawn)@.len() == old(spawn)@.len() + 8,
        spawned_from(final(spawn)@, old(spawn)@),
{
    slf.act_exert(20, "unleashed fiery currents!");
    fan_out(slf, wld, spawn, 54, boosted(slf.level, 5));
}

/// Eight new agents of `kind` on the agent's cell, facing the eight directions.
fn fan_out(slf: &Actor, wld: &World, spawn: &mut Vec<Actor>, kind: u8, level: u16)
    requires
        slf.wf(),
        wld.wf(),
        wld.catalog.has_actor(kind),
        all_wf(old(spawn)@),
    ensures
        final(spawn)@.len() == old(spawn)@.len() + 8,
        spawned_from(final(spawn)@, old(spawn)@),
        forall|i: int| old(spawn)@.len() <= i < final(spawn)@.len() ==> (#[trigger] final(spawn)@[i]).kind == kind
            && final(spawn)@[i].direction == i - old(spawn)@.len() && final(spawn)@[i].pos == slf.pos,
{
    let mut direction: u8 = 0;
    assert(spawn@.subrange(0, old(spawn)@.len() as int) =~= old(spawn)@);
    while direction < 8
        invariant
            wld.wf(),
            wld.catalog.has_actor(kind),
            direction <= 8,
            spawn@.len() == old(spawn)@.len() + direction,
            spawned_from(spawn@, old(spawn)@),
            forall|i: int| old(spawn)@.len() <= i < spawn@.len() ==> (#[trigger] spawn@[i]).kind == kind
                && spawn@[i].direction == i - old(spawn)@.len() && spawn@[i].pos == slf.pos,
        decreases 8 - direction,
    {
        let mut a = Actor::new(kind, level, slf.team, slf.pos, &wld.catalog);
        a.direction = direction;
        let ghost mid = spawn@;
        spawn.push(a);
        assert(spawn@.subrange(0, old(spawn)@.len() as int) =~= mid.subrange(0, old(spawn)@.len() as int));
        direction += 1;
    }
}

/// Spends two mana on an energy blast along the facing (after aiming).
pub fn blast(slf: &mut Actor, wld: &World, p: &Plan, spawn: &mut Vec<Actor>)
    requires
        old(slf).wf(),
        wld.wf(),
        p.wf(),
        all_wf(old(spawn)@),
    ensures
        final(slf).wf(),
        final(slf).mana == old(slf).mana - if old(slf).mana < 2 { old(slf).mana } else { 2 },
        final(spawn)@.len() == old(spawn)@.len() + 1,
        spawned_from(final(spawn)@, old(spawn)@),
        final(spawn)@.last().kind == 51,
        final(spawn)@.last().direction == final(slf).direction,
{
    if slf.has_skill("passive_aim") {
        passive_aim(slf, wld, p);
    }
    slf.act_exert(2, "released an energy blast.");
    let mut b = Actor::new(51, boosted(slf.level, 5), slf.team, slf.pos, &wld.catalog);
    b.direction = slf.direction;
    spawn.push(b);
    assert(spawn@.subrange(0, old(spawn)@.len() as int) =~= old(spawn)@);
}

/// Spends three mana to jump to the oldest usable teleport marker carried, or
/// else to a random free cell (a few tries).
pub fn teleport(slf: &mut Actor, wld: &World, p: &Plan)
    requires
        old(slf).wf(),
        wld.wf(),
        p.wf(),
    ensures
        final(slf).wf(),
        final(slf).mana == old(slf).mana - if old(slf).mana < 3 { old(slf).mana } else { 3 },
        final(slf).health == old(slf).health,
        final(slf).inventory@.len() == old(slf).inventory@.len(),
{
    slf.act_exert(3, "teleported.");
    let n = slf.inventory.len();
    let mut k: usize = n;
    while k > 0
        invariant
            slf.wf(),
            wld.wf(),
            k <= n,
            n == slf.inventory@.len(),
            n == old(slf).inventory@.len(),
            slf.mana == old(slf).mana - if old(slf).mana < 3 { old(slf).mana } else { 3 },
            slf.health == old(slf).health,
        decreases k,
    {
        let idx = k - 1;
        let r = &slf.inventory[idx];
        if r.kind == ITEM_TELEPORT_MARKER && r.team == slf.team && !same_pos(r.pos, slf.pos) {
            slf.inventory[idx].damage(&wld.catalog);
            slf.pos = slf.inventory[idx].pos;
            return;
        }
        k -= 1;
    }
    let mut tries: u8 = 0;
    while tries < 10
        invariant
            slf.wf(),
            wld.wf(),
            p.wf(),
            n == slf.inventory@.len(),
            n == old(slf).inventory@.len(),
            slf.mana == old(slf).mana - if old(slf).mana < 3 { old(slf).mana } else { 3 },
            slf.health == old(slf).health,
        decreases 10 - tries,
    {
        let pos = slf.teleport(wld);
        if p.whos_at(pos).is_none() {
            return;
        }
        tries += 1;
    }
}

/// Spends ten mana on a teleport marker placed on the cell ahead.
pub fn teleport_marker(slf: &mut Actor, wld: &mut World)
    requires
        old(slf).wf(),
        old(wld).wf(),
    ensures
        final(slf).wf(),
        final(wld).wf(),
        final(wld).size == old(wld).size,
        final(wld).exits == old(wld).exits,
        final(wld).catalog == old(wld).catalog,
        final(wld).items@.len() == old(wld).items@.len() + 1,
        final(wld).items@.last().kind == ITEM_TELEPORT_MARKER,
        final(wld).items@.last().pos == old(wld).spec_offset(old(slf).pos, old(slf).direction),
{
    slf.log_action("conjured a strange glyph.");
    let pos = wld.offset(slf.pos, slf.direction);
    let marker = Item::new(ITEM_TELEPORT_MARKER, slf.level, slf.team, &wld.catalog);
    wld.add_item(marker, pos);
}

/// Spends five mana on eight healing currents, one per direction.
pub fn heal(slf: &mut Actor, wld: &World, spawn: &mut Vec<Actor>)
    requires
        old(slf).wf(),
        wld.wf(),
        all_wf(old(spawn)@),
    ensures
        final(slf).wf(),
        final(slf).mana == old(slf).mana - if old(slf).mana < 5 { old(slf).mana } else { 5 },
        final(spawn)@.len() == old(spawn)@.len() + 8,
        spawned_from(final(spawn)@, old(spawn)@),
{
    slf.act_exert(5, "released a healing current.");
    fan_out(slf, wld, spawn, 52, 4);
}

/// Plays dead: lies down for ten ticks, fully recovered.
pub fn lie(slf: &mut Actor)
    requires
        old(slf).wf(),
    ensures
        final(slf).wf(),
        final(slf).stun == 10,
        old(slf).spec_is_alive() ==> final(slf).health == old(slf).spec_max_health() && final(slf).mana == old(slf).spec_max_mana(),
        final(slf).pos == old(slf).pos,
{
    slf.log_action("crumpled to the ground.");
    let extra = rand_int(1);
    slf.stun(10 + extra as i16);
    slf.recover_fully();
}

/// Spends five mana to call a faerie, facing as the caller does.
pub fn summon_faerie(slf: &mut Actor, wld: &World, spawn: &mut Vec<Actor>)
    requires
        old(slf).wf(),
        wld.wf(),
        all_wf(old(spawn)@),
    ensures
        final(slf).wf(),
        final(slf).mana == old(slf).mana - if old(slf).mana < 5 { old(slf).mana } else { 5 },
        final(spawn)@.len() == old(spawn)@.len() + 1,
        spawned_from(final(spawn)@, old(spawn)@),
        final(spawn)@.last().kind == 55,
        final(spawn)@.last().direction == old(slf).direction,
{
    slf.act_exert(5, "called a faerie.");
    let mut f = Actor::new(55, boosted(slf.level, 5), slf.team, slf.pos, &wld.catalog);
    f.direction = slf.direction;
    spawn.push(f);
    assert(spawn@.subrange(0, old(spawn)@.len() as int) =~= old(spawn)@);
}

/// Grows trees on the open cells around the facing, six mana each, while mana lasts.
pub fn grow_tree(slf: &mut Actor, wld: &mut World)
    requires
        old(slf).wf(),
        old(wld).wf(),
    ensures
        final(slf).wf(),
        final(wld).wf(),
        final(slf).mana <= old(slf).mana,
        final(slf).pos == old(slf).pos,
        final(slf).health == old(slf).health,
        final(wld).size == old(wld).size,
        final(wld).exits == old(wld).exits,
        final(wld).catalog == old(wld).catalog,
{
    let mut k: u8 = 0;
    while k < 7
        invariant
            slf.wf(),
            wld.wf(),
            slf.mana <= old(slf).mana,
            slf.pos == old(slf).pos,
            slf.health == old(slf).health,
            wld.size == old(wld).size,
            wld.exits == old(wld).exits,
            wld.catalog == old(wld).catalog,
        decreases 7 - k,
    {
        if slf.mana < 6 {
            return;
        }
        let d: u8 = if k == 0 { 0 } else if k == 1 { 7 } else if k == 2 { 1 } else if k == 3 { 6 } else if k == 4 { 2 } else if k == 5 { 5 } else { 3 };
        let pos = wld.neighbor(slf.pos, (slf.direction + d) % 8, slf.team, slf.walls.as_str());
        if !same_pos(pos, slf.pos) {
            slf.act_exert(6, "grew a tree.");
            let tree = Item::new(ITEM_TREE, slf.level, slf.team, &wld.catalog);
            wld.add_item(tree, pos);
        }
        k += 1;
    }
}

/// Evolves into the next kind, at half of the new maximum health.
pub fn expand(slf: &mut Actor, wld: &World)
    requires
        old(slf).wf(),
        wld.wf(),
    ensures
        final(slf).wf(),
        final(slf).health == final(slf).spec_max_health() / 2,
        final(slf).pos == old(slf).pos,
{
    let new_kind: u8 = if slf.kind < 255 { slf.kind + 1 } else { 255 };
    slf.initialize(new_kind, &wld.catalog);
    slf.health = slf.max_health() / 2;
}

/// Splits in two: both halves are of kind 8 at half health.
pub fn multiply(slf: &mut Actor, wld: &World, spawn: &mut Vec<Actor>)
    requires
        old(slf).wf(),
        wld.wf(),
        all_wf(old(spawn)@),
    ensures
        final(slf).wf(),
        final(slf).health == final(slf).spec_max_health() / 2,
        final(spawn)@.len() == old(spawn)@.len() + 1,
        spawned_from(final(spawn)@, old(spawn)@),
        final(spawn)@.last().kind == 8,
{
    slf.initialize(8, &wld.catalog);
    slf.health = slf.max_health() / 2;
    let pos = wld.neighbor(slf.pos, slf.direction, slf.team, slf.walls.as_str());
    let mut twin = Actor::new(8, slf.level, slf.team, pos, &wld.catalog);
    twin.health = twin.health / 2;
    spawn.push(twin);
    assert(spawn@.subrange(0, old(spawn)@.len() as int) =~= old(spawn)@);
}

/// A new agent of `kind` on the agent's cell.
pub fn spawn_kind(slf: &Actor, wld: &World, spawn: &mut Vec<Actor>, kind: u8)
    requires
        slf.wf(),
        wld.wf(),
        wld.catalog.has_actor(kind),
        all_wf(old(spawn)@),
    ensures
        final(spawn)@.len() == old(spawn)@.len() + 1,
        spawned_from(final(spawn)@, old(spawn)@),
        final(spawn)@.last().kind == kind,
        final(spawn)@.last().team == slf.team,
        final(spawn)@.last().pos == slf.pos,
{
    spawn.push(Actor::new(kind, slf.level, slf.team, slf.pos, &wld.catalog));
    assert(spawn@.subrange(0, old(spawn)@.len() as int) =~= old(spawn)@);
}

/// Opens the locked door ahead, or relocks an open one nobody stands in,
/// for all of the agent's mana.
pub fn pick(slf: &mut Actor, wld: &mut World, p: &Plan)
    requires
        old(slf).wf(),
        old(wld).wf(),
        p.wf(),
    ensures
        final(slf).wf(),
        final(wld).wf(),
        final(slf).pos == old(slf).pos,
        final(slf).health == old(slf).health,
        final(wld).size == old(wld).size,
        final(wld).exits == old(wld).exits,
        final(wld).catalog == old(wld).catalog,
        final(wld).items@.len() == old(wld).items@.len(),
{
    let door_pos = wld.offset(slf.pos, slf.direction);
    let cost = slf.max_mana();
    let mut i: usize = 0;
    while i < wld.items.len()
        invariant
            slf.wf(),
            wld.wf(),
            p.wf(),
            *slf == *old(slf),
            *wld == *old(wld),
        decreases wld.items@.len() - i,
    {
        if same_pos(wld.items[i].pos, door_pos) {
            if wld.items[i].kind == ITEM_DOOR {
                wld.items[i].initialize_as(ITEM_DOOR_OPEN, &wld.catalog);
                slf.act_exert(cost, "picked the lock.");
                return;
            } else if wld.items[i].kind == ITEM_DOOR_OPEN && p.whos_at(door_pos).is_none() {
                wld.items[i].initialize_as(ITEM_DOOR, &wld.catalog);
                wld.items[i].team = slf.team;
                slf.act_exert(cost, "relocked the door.");
                return;
            }
        }
        i += 1;
    }
}

} // verus!
