use vstd::prelude::*;
use crate::actor::Actor;
use crate::plan::Plan;
use crate::rng::rand_int;
use crate::skills::{
    all_wf, barrage, blast, boomerang, charge, cloak, expand, grow_tree, heal, leap, lie, multiply, pick, ray, raycast, shoot,
    spawn_kind, spawned_from, sprint, starburst, summon_faerie, teleport, teleport_marker,
};
use crate::text::str_eq;
use crate::world::World;

verus! {

/// Number of skills in the rule table.
pub const SKILL_COUNT: usize = 21;

/// Name of the skill at a place of the rule table; the table's order is the
/// priority order of skill selection.
pub open spec fn spec_skill_name(i: int) -> Seq<char> {
    if i == 0 {
        "sprint"@
    } else if i == 1 {
        "charge"@
    } else if i == 2 {
        "cloak"@
    } else if i == 3 {
        "shoot"@
    } else if i == 4 {
        "barrage"@
    } else if i == 5 {
        "boomerang"@
    } else if i == 6 {
        "blast"@
    } else if i == 7 {
        "teleport"@
    } else if i == 8 {
        "heal"@
    } else if i == 9 {
        "lie"@
    } else if i == 10 {
        "summon_faerie"@
    } else if i == 11 {
        "grow_tree"@
    } else if i == 12 {
        "expand"@
    } else if i == 13 {
        "multiply"@
    } else if i == 14 {
        "spawn_elf"@
    } else if i == 15 {
        "spawn_dead"@
    } else if i == 16 {
        "spawn_mage"@
    } else if i == 17 {
        "pick"@
    } else if i == 18 {
        "leap"@
    } else if i == 19 {
        "starburst"@
    } else {
        "teleport_marker"@
    }
}

pub fn skill_name(i: usize) -> (r: &'static str)
    requires
        i < SKILL_COUNT,
    ensures
        r@ == spec_skill_name(i as int),
{
    if i == 0 {
        "sprint"
    } else if i == 1 {
        "charge"
    } else if i == 2 {
        "cloak"
    } else if i == 3 {
        "shoot"
    } else if i == 4 {
        "barrage"
    } else if i == 5 {
        "boomerang"
    } else if i == 6 {
        "blast"
    } else if i == 7 {
        "teleport"
    } else if i == 8 {
        "heal"
    } else if i == 9 {
        "lie"
    } else if i == 10 {
        "summon_faerie"
    } else if i == 11 {
        "grow_tree"
    } else if i == 12 {
        "expand"
    } else if i == 13 {
        "multiply"
    } else if i == 14 {
        "spawn_elf"
    } else if i == 15 {
        "spawn_dead"
    } else if i == 16 {
        "spawn_mage"
    } else if i == 17 {
        "pick"
    } else if i == 18 {
        "leap"
    } else if i == 19 {
        "starburst"
    } else {
        "teleport_marker"
    }
}

/// Sides of the die a skill's trigger rolls (a roll of 0 fires); 0 for skills without one.
pub open spec fn spec_dice(i: int) -> u16 {
    if i == 0 {
        10
    } else if i == 1 || i == 5 {
        60
    } else if i == 12 {
        5
    } else if i == 14 || i == 15 || i == 16 {
        50
    } else {
        0
    }
}

pub fn dice(i: usize) -> (r: u16)
    ensures
        r == spec_dice(i as int),
{
    if i == 0 {
        10
    } else if i == 1 || i == 5 {
        60
    } else if i == 12 {
        5
    } else if i == 14 || i == 15 || i == 16 {
        50
    } else {
        0
    }
}

/// Whether the agent can afford the skill right now.
pub open spec fn spec_can_use(i: int, a: Actor) -> bool {
    if i == 0 {
        a.momentum > 0 && a.mana >= 2
    } else if i == 1 {
        a.mana >= 4
    } else if i == 2 {
        a.mana >= 5
    } else if i == 3 {
        a.mana >= 2
    } else if i == 4 {
        a.mana >= 6
    } else if i == 5 {
        a.mana >= 10
    } else if i == 6 {
        a.mana >= 2
    } else if i == 7 {
        a.mana >= 3
    } else if i == 8 {
        a.mana >= 5
    } else if i == 9 {
        true
    } else if i == 10 {
        a.mana >= 5
    } else if i == 11 {
        a.mana >= 6
    } else if i == 12 {
        a.health == a.spec_max_health()
    } else if i == 13 {
        a.mana == a.spec_max_mana() && a.health == a.spec_max_health()
    } else if i == 14 || i == 15 || i == 16 {
        true
    } else if i == 17 {
        a.mana >= a.spec_max_mana()
    } else if i == 18 {
        a.mana >= 1
    } else if i == 19 {
        a.mana >= 20
    } else {
        a.mana >= 10
    }
}

pub fn can_use(i: usize, a: &Actor) -> (r: bool)
    ensures
        r == spec_can_use(i as int, *a),
{
    if i == 0 {
        a.momentum > 0 && a.mana >= 2
    } else if i == 1 {
        a.mana >= 4
    } else if i == 2 {
        a.mana >= 5
    } else if i == 3 {
        a.mana >= 2
    } else if i == 4 {
        a.mana >= 6
    } else if i == 5 {
        a.mana >= 10
    } else if i == 6 {
        a.mana >= 2
    } else if i == 7 {
        a.mana >= 3
    } else if i == 8 {
        a.mana >= 5
    } else if i == 9 {
        true
    } else if i == 10 {
        a.mana >= 5
    } else if i == 11 {
        a.mana >= 6
    } else if i == 12 {
        a.health == a.max_health()
    } else if i == 13 {
        a.mana == a.max_mana() && a.health == a.max_health()
    } else if i == 14 || i == 15 || i == 16 {
        true
    } else if i == 17 {
        a.mana >= a.max_mana()
    } else if i == 18 {
        a.mana >= 1
    } else if i == 19 {
        a.mana >= 20
    } else {
        a.mana >= 10
    }
}

/// An enemy lies along the facing within `level + 5` cells.
pub open spec fn spec_should_shoot(a: Actor, w: &World, p: &Plan) -> bool {
    let len = if a.level as int + 5 > 65535 { 65535 } else { a.level + 5 };
    match ray(w, p, a.team, a.pos, a.direction, 0, len) {
        Some(hit) => hit.0 != a.team,
        None => false,
    }
}

/// The tactical trigger of a skill, given the roll of its die.
pub open spec fn spec_should_use(i: int, a: Actor, w: &World, p: &Plan, roll: u16) -> bool {
    let near = p.spec_is_near_enemy(a.pos, a.team);
    let dist = p.spec_distance_to_goal(a.pos, a.team);
    if i == 0 {
        !a.spec_is_hurt() && roll == 0
    } else if i == 1 {
        roll == 0
    } else if i == 2 {
        a.spec_is_hurt() && !near
    } else if i == 3 {
        spec_should_shoot(a, w, p)
    } else if i == 4 {
        near && spec_should_shoot(a, w, p)
    } else if i == 5 {
        p.enemies > 5 && near && roll == 0
    } else if i == 6 {
        !a.spec_is_hurt() && spec_should_shoot(a, w, p)
    } else if i == 7 {
        near && a.health < a.spec_max_health() / 2
    } else if i == 8 {
        match ray(w, p, a.team, a.pos, a.direction, 0, 2) {
            Some(hit) => !a.spec_is_hurt() && hit.0 == a.team && p.enemies != 0,
            None => false,
        }
    } else if i == 9 {
        a.team != 0 && dist > 10
    } else if i == 10 {
        near
    } else if i == 11 {
        (p.tactic_of(a.team) == Some(crate::plan::PLAN_DEFEND) && dist < 3) || (p.tactic_of(a.team) == Some(
            crate::plan::PLAN_RETREAT,
        ) && dist > 20)
    } else if i == 12 {
        roll == 0
    } else if i == 13 {
        p.enemies < 300
    } else if i == 14 || i == 15 || i == 16 {
        roll == 0
    } else if i == 18 {
        a.spec_is_hurt()
    } else if i == 19 {
        !a.spec_is_hurt() && dist < 5
    } else {
        false
    }
}

pub fn should_use(i: usize, a: &Actor, w: &World, p: &Plan, roll: u16) -> (r: bool)
    requires
        w.wf(),
        p.wf(),
    ensures
        r == spec_should_use(i as int, *a, w, p, roll),
{
    if i == 0 {
        !a.is_hurt() && roll == 0
    } else if i == 1 {
        roll == 0
    } else if i == 2 {
        a.is_hurt() && !p.is_near_enemy(a.pos, a.team)
    } else if i == 3 {
        should_shoot(a, w, p)
    } else if i == 4 {
        p.is_near_enemy(a.pos, a.team) && should_shoot(a, w, p)
    } else if i == 5 {
        p.num_enemies() > 5 && p.is_near_enemy(a.pos, a.team) && roll == 0
    } else if i == 6 {
        !a.is_hurt() && should_shoot(a, w, p)
    } else if i == 7 {
        p.is_near_enemy(a.pos, a.team) && a.health < a.max_health() / 2
    } else if i == 8 {
        match raycast(a, a.direction, w, p, 2) {
            Some((team, _dist)) => !a.is_hurt() && team == a.team && p.num_enemies() != 0,
            None => false,
        }
    } else if i == 9 {
        a.team != 0 && p.distance_to_goal(a.pos, a.team) > 10
    } else if i == 10 {
        p.is_near_enemy(a.pos, a.team)
    } else if i == 11 {
        (p.is_defending(a.team) && p.distance_to_goal(a.pos, a.team) < 3) || (p.is_retreating(a.team)
            && p.distance_to_goal(a.pos, a.team) > 20)
    } else if i == 12 {
        roll == 0
    } else if i == 13 {
        p.num_enemies() < 300
    } else if i == 14 || i == 15 || i == 16 {
        roll == 0
    } else if i == 18 {
        a.is_hurt()
    } else if i == 19 {
        !a.is_hurt() && p.distance_to_goal(a.pos, a.team) < 5
    } else {
        false
    }
}

/// Whether an enemy lies along the facing within `level + 5` cells.
pub fn should_shoot(a: &Actor, w: &World, p: &Plan) -> (r: bool)
    requires
        w.wf(),
        p.wf(),
    ensures
        r == spec_should_shoot(*a, w, p),
{
    let len: u16 = if a.level > 65530 { 65535 } else { a.level + 5 };
    match raycast(a, a.direction, w, p, len) {
        Some((team, _dist)) => team != a.team,
        None => false,
    }
}

/// The agent lists the skill, can afford it, and its trigger fires for `roll`.
pub open spec fn skill_ready(i: int, a: Actor, w: &World, p: &Plan, roll: u16) -> bool {
    a.spec_has_skill(spec_skill_name(i)) && spec_can_use(i, a) && spec_should_use(i, a, w, p, roll)
}

/// The first skill of the table, from place `k` on, that is ready for its roll.
pub open spec fn first_ready_from(a: Actor, w: &World, p: &Plan, rolls: Seq<u16>, k: int) -> Option<int>
    decreases SKILL_COUNT - k,
{
    if k >= SKILL_COUNT {
        None
    } else if skill_ready(k, a, w, p, rolls[k]) {
        Some(k)
    } else {
        first_ready_from(a, w, p, rolls, k + 1)
    }
}

/// Place of the first table entry named `name`, searching from place `k`.
pub open spec fn spec_skill_index(name: Seq<char>, k: int) -> Option<int>
    decreases SKILL_COUNT - k,
{
    if k >= SKILL_COUNT {
        None
    } else if spec_skill_name(k) == name {
        Some(k)
    } else {
        spec_skill_index(name, k + 1)
    }
}

/// The skill that selection picks, for given rolls of the dice.
pub open spec fn chosen_skill(a: Actor, w: &World, p: &Plan, rolls: Seq<u16>) -> Option<int> {
    first_ready_from(a, w, p, rolls, 0)
}

/// Selection picks the first ready skill in table order: the chosen skill is
/// ready, no earlier one is, and when none is chosen none is ready.
pub proof fn lemma_first_ready_wins(a: Actor, w: &World, p: &Plan, rolls: Seq<u16>)
    requires
        rolls.len() == SKILL_COUNT,
    ensures
        chosen_skill(a, w, p, rolls) is Some ==> {
            let i = chosen_skill(a, w, p, rolls)->Some_0;
            &&& 0 <= i < SKILL_COUNT
            &&& skill_ready(i, a, w, p, rolls[i])
            &&& forall|j: int| 0 <= j < i ==> !skill_ready(j, a, w, p, rolls[j])
        },
        chosen_skill(a, w, p, rolls) is None ==> forall|j: int| 0 <= j < SKILL_COUNT ==> !skill_ready(j, a, w, p, rolls[j]),
{
    lemma_first_ready_from(a, w, p, rolls, 0);
}

proof fn lemma_first_ready_from(a: Actor, w: &World, p: &Plan, rolls: Seq<u16>, k: int)
    requires
        rolls.len() == SKILL_COUNT,
        0 <= k <= SKILL_COUNT,
    ensures
        first_ready_from(a, w, p, rolls, k) is Some ==> {
            let i = first_ready_from(a, w, p, rolls, k)->Some_0;
            &&& k <= i < SKILL_COUNT
            &&& skill_ready(i, a, w, p, rolls[i])
            &&& forall|j: int| k <= j < i ==> !skill_ready(j, a, w, p, rolls[j])
        },
        first_ready_from(a, w, p, rolls, k) is None ==> forall|j: int| k <= j < SKILL_COUNT ==> !skill_ready(j, a, w, p, rolls[j]),
    decreases SKILL_COUNT - k,
{
    if k < SKILL_COUNT {
        lemma_first_ready_from(a, w, p, rolls, k + 1);
    }
}

/// The first skill of the table that the agent lists, can afford, and whose
/// trigger fires for its roll in `rolls`.
pub fn first_ready_skill(a: &Actor, w: &World, p: &Plan, rolls: &Vec<u16>) -> (r: Option<usize>)
    requires
        w.wf(),
        p.wf(),
        rolls@.len() == SKILL_COUNT,
    ensures
        r is Some ==> chosen_skill(*a, w, p, rolls@) == Some(r->Some_0 as int),
        r is None ==> chosen_skill(*a, w, p, rolls@) is None,
{
    let mut k: usize = 0;
    while k < SKILL_COUNT
        invariant
            w.wf(),
            p.wf(),
            rolls@.len() == SKILL_COUNT,
            k <= SKILL_COUNT,
            chosen_skill(*a, w, p, rolls@) == first_ready_from(*a, w, p, rolls@, k as int),
        decreases SKILL_COUNT - k,
    {
        if a.has_skill(skill_name(k)) && can_use(k, a) && should_use(k, a, w, p, rolls[k]) {
            return Some(k);
        }
        k += 1;
    }
    None
}

/// Rolls that dice can come up with: a value below the die's sides for each
/// skill (0 for a skill without a die).
pub open spec fn admissible_rolls(rolls: Seq<u16>) -> bool {
    &&& rolls.len() == SKILL_COUNT
    &&& forall|k: int| 0 <= k < SKILL_COUNT ==> rolls[k] < if spec_dice(k) == 0 { 1 } else { spec_dice(k) }
}

/// Some skill without a die is ready: selection cannot miss it.
pub open spec fn sure_skill_ready(a: Actor, w: &World, p: &Plan) -> bool {
    exists|i: int| 0 <= i < SKILL_COUNT && spec_dice(i) == 0 && #[trigger] skill_ready(i, a, w, p, 0)
}

/// The outcome of skill selection for one admissible set of rolls: a skill
/// is selected exactly when one is ready, and it is the first ready one.
pub open spec fn selection_outcome(after: Actor, before: Actor, w: &World, p: &Plan, rolls: Seq<u16>, selected: bool) -> bool {
    &&& admissible_rolls(rolls)
    &&& selected <==> chosen_skill(before, w, p, rolls) is Some
    &&& selected ==> after.spec_selected_skill() == spec_skill_name(chosen_skill(before, w, p, rolls)->Some_0)
}

/// Rolls every skill's die, then selects the first ready skill, if any.
pub fn should_use_skill(actor: &mut Actor, wld: &World, p: &Plan) -> (r: bool)
    requires
        wld.wf(),
        p.wf(),
    ensures
        *final(actor) == (Actor { skill_idx: final(actor).skill_idx, ..*old(actor) }),
        exists|rolls: Seq<u16>| #[trigger] selection_outcome(*final(actor), *old(actor), wld, p, rolls, r),
        sure_skill_ready(*old(actor), wld, p) ==> r,
        !r ==> *final(actor) == *old(actor),
{
    let mut rolls: Vec<u16> = Vec::new();
    let mut k: usize = 0;
    while k < SKILL_COUNT
        invariant
            rolls@.len() == k,
            k <= SKILL_COUNT,
            forall|j: int| 0 <= j < k ==> rolls@[j] < if spec_dice(j) == 0 { 1 } else { spec_dice(j) },
        decreases SKILL_COUNT - k,
    {
        let d = dice(k);
        let roll = if d == 0 { 0 } else { rand_int(d) };
        rolls.push(roll);
        k += 1;
    }
    proof {
        lemma_first_ready_wins(*actor, wld, p, rolls@);
        if sure_skill_ready(*actor, wld, p) {
            let i = choose|i: int| 0 <= i < SKILL_COUNT && spec_dice(i) == 0 && #[trigger] skill_ready(i, *actor, wld, p, 0);
            assert(rolls@[i] == 0);
        }
    }
    match first_ready_skill(actor, wld, p, &rolls) {
        Some(i) => {
            let ghost before = *actor;
            actor.select_skill(skill_name(i));
            assert(spec_skill_name(i as int) == actor.spec_selected_skill());
            assert(selection_outcome(*actor, before, wld, p, rolls@, true));
            true
        },
        None => {
            assert(selection_outcome(*actor, *actor, wld, p, rolls@, false));
            false
        },
    }
}

/// Mana left after spending up to `cost`.
pub open spec fn spent(before: Actor, after: Actor, cost: int) -> bool {
    after.mana == before.mana - if before.mana < cost { before.mana as int } else { cost }
}

/// `sp1` is `sp0` with one agent appended, of kind `kind`.
pub open spec fn spawned_one(sp1: Seq<Actor>, sp0: Seq<Actor>, kind: u8) -> bool {
    sp1.len() == sp0.len() + 1 && sp1.last().kind == kind
}

/// What running the skill at place `i` does to the agent and the spawn list.
pub open spec fn skill_outcome(i: int, a1: Actor, a0: Actor, sp1: Seq<Actor>, sp0: Seq<Actor>) -> bool {
    if i == 0 {
        spent(a0, a1, 2) && a1.momentum == a0.momentum - if a0.momentum < 1 { a0.momentum as int } else { 1 }
    } else if i == 1 {
        spent(a0, a1, 4)
    } else if i == 2 {
        spent(a0, a1, 5) && a1.invis == if a0.invis > 32757 { 32767 } else { a0.invis + 10 }
    } else if i == 3 {
        (a0.momentum > 0 ==> a1.momentum == 0 && sp1 == sp0) && (a0.momentum == 0 ==> spawned_one(sp1, sp0, 50))
    } else if i == 4 {
        a0.momentum > 0 ==> a1.momentum == 0 && sp1 == sp0
    } else if i == 5 {
        spent(a0, a1, 10) && spawned_one(sp1, sp0, 53)
    } else if i == 6 {
        spent(a0, a1, 2) && spawned_one(sp1, sp0, 51)
    } else if i == 7 {
        spent(a0, a1, 3)
    } else if i == 8 {
        spent(a0, a1, 5) && sp1.len() == sp0.len() + 8
    } else if i == 9 {
        a1.stun == 10 && (a0.spec_is_alive() ==> a1.health == a0.spec_max_health() && a1.mana == a0.spec_max_mana())
    } else if i == 10 {
        spent(a0, a1, 5) && spawned_one(sp1, sp0, 55)
    } else if i == 11 {
        a1.mana <= a0.mana
    } else if i == 12 {
        a1.health == a1.spec_max_health() / 2
    } else if i == 13 {
        a1.health == a1.spec_max_health() / 2 && spawned_one(sp1, sp0, 8)
    } else if i == 14 {
        spawned_one(sp1, sp0, 1)
    } else if i == 15 {
        spawned_one(sp1, sp0, 4)
    } else if i == 16 {
        spawned_one(sp1, sp0, 3)
    } else if i == 17 {
        a1.pos == a0.pos
    } else if i == 18 {
        spent(a0, a1, 1) && a1.direction == (a0.direction + 4) % 8
    } else if i == 19 {
        spent(a0, a1, 20) && sp1.len() == sp0.len() + 8
    } else {
        sp1 == sp0
    }
}

/// Runs the skill at place `i` of the table.
fn run_skill(i: usize, actor: &mut Actor, wld: &mut World, p: &Plan, spawn: &mut Vec<Actor>)
    requires
        i < SKILL_COUNT,
        old(actor).wf(),
        old(wld).wf(),
        p.wf(),
        all_wf(old(spawn)@),
    ensures
        final(actor).wf(),
        final(wld).wf(),
        spawned_from(final(spawn)@, old(spawn)@),
        final(wld).size == old(wld).size,
        final(wld).exits == old(wld).exits,
        final(wld).catalog == old(wld).catalog,
        skill_outcome(i as int, *final(actor), *old(actor), final(spawn)@, old(spawn)@),
{
    assert(spawn@.subrange(0, old(spawn)@.len() as int) =~= old(spawn)@);
    if i == 0 {
        sprint(actor, wld, p);
    } else if i == 1 {
        charge(actor, wld, p);
    } else if i == 2 {
        cloak(actor);
    } else if i == 3 {
        shoot(actor, wld, p, spawn);
    } else if i == 4 {
        barrage(actor, wld, p, spawn);
    } else if i == 5 {
        boomerang(actor, wld, spawn);
    } else if i == 6 {
        blast(actor, wld, p, spawn);
    } else if i == 7 {
        teleport(actor, wld, p);
    } else if i == 8 {
        heal(actor, wld, spawn);
    } else if i == 9 {
        lie(actor);
    } else if i == 10 {
        summon_faerie(actor, wld, spawn);
    } else if i == 11 {
        grow_tree(actor, wld);
    } else if i == 12 {
        expand(actor, wld);
    } else if i == 13 {
        multiply(actor, wld, spawn);
    } else if i == 14 {
        spawn_kind(actor, wld, spawn, 1);
    } else if i == 15 {
        spawn_kind(actor, wld, spawn, 4);
    } else if i == 16 {
        spawn_kind(actor, wld, spawn, 3);
    } else if i == 17 {
        pick(actor, wld, p);
    } else if i == 18 {
        leap(actor, wld, p);
    } else if i == 19 {
        starburst(actor, wld, spawn);
    } else {
        teleport_marker(actor, wld);
    }
}

/// Place in the table of the skill named `name`.
pub fn skill_index(name: &str) -> (r: Option<usize>)
    ensures
        r is Some ==> r->Some_0 < SKILL_COUNT && spec_skill_index(name@, 0) == Some(r->Some_0 as int),
        r is None ==> spec_skill_index(name@, 0) is None,
{
    let mut k: usize = 0;
    while k < SKILL_COUNT
        invariant
            k <= SKILL_COUNT,
            spec_skill_index(name@, 0) == spec_skill_index(name@, k as int),
        decreases SKILL_COUNT - k,
    {
        if str_eq(skill_name(k), name) {
            return Some(k);
        }
        k += 1;
    }
    None
}

/// Runs the selected skill if the agent can still afford it; otherwise the
/// agent is too tired and only says so. An unknown skill does nothing.
pub fn use_skill(actor: &mut Actor, wld: &mut World, p: &Plan, spawn: &mut Vec<Actor>)
    requires
        old(actor).wf(),
        old(wld).wf(),
        p.wf(),
        all_wf(old(spawn)@),
    ensures
        final(actor).wf(),
        final(wld).wf(),
        spawned_from(final(spawn)@, old(spawn)@),
        final(wld).size == old(wld).size,
        final(wld).exits == old(wld).exits,
        final(wld).catalog == old(wld).catalog,
        match spec_skill_index(old(actor).spec_selected_skill(), 0) {
            None => *final(actor) == *old(actor) && *final(wld) == *old(wld) && final(spawn)@ == old(spawn)@,
            Some(i) => {
                &&& !spec_can_use(i, *old(actor)) ==> *final(actor) == (Actor { log: final(actor).log, ..*old(actor) })
                    && *final(wld) == *old(wld) && final(spawn)@ == old(spawn)@
                &&& spec_can_use(i, *old(actor)) ==> skill_outcome(i, *final(actor), *old(actor), final(spawn)@, old(spawn)@)
            },
        },
{
    assert(spawn@.subrange(0, old(spawn)@.len() as int) =~= old(spawn)@);
    let selected = actor.selected_skill();
    match skill_index(selected.as_str()) {
        Some(i) => {
            if can_use(i, actor) {
                run_skill(i, actor, wld, p, spawn);
            } else {
                actor.log_action("was too tired!");
            }
        },
        None => {},
    }
}

} // verus!
