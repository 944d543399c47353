use vstd::prelude::*;
use crate::actor::{hit_damage, kept_pickups, left_behind, Actor};
use crate::constants::{is_move, is_turn, same_pos, ACT_DROP, ACT_SKILL, ACT_WAIT, TILE_BLOOD};
use crate::actor::no_unique_kinds;
use crate::plan::{Plan, PLAN_ATTACK, PLAN_RETREAT};
use crate::rng::rand_int;
use crate::skills::{
    all_wf, passive_aim, passive_backstab, passive_descend, passive_drift, passive_grow, passive_heal, passive_slam,
    passive_spin, passive_trip, passive_whirl, spawned_from,
};
use crate::skills_registry::{
    selection_outcome, should_use_skill, skill_outcome, spec_can_use, spec_skill_index, sure_skill_ready, use_skill,
};
use crate::item::Item;
use crate::text::contains_char;
use crate::world::World;

verus! {

/// The `i`-th direction tried when scanning from `start`: the eight moves and
/// wait, wrapping around.
pub open spec fn candidate(start: u8, i: int) -> u8 {
    ((start + i) % 9) as u8
}

impl Actor {
    pub open spec fn spec_can_displace(&self, plan: &Plan) -> bool {
        if !self.is_leader && self.team == 0 {
            false
        } else {
            self.spec_has_skill("passive_displace"@) || plan.enemies == 0
        }
    }

    /// Whether the agent may swap places with a friend: leaders and other
    /// teams can, with the skill or once no enemy is left.
    pub fn can_displace(&self, plan: &Plan) -> (r: bool)
        ensures
            r == self.spec_can_displace(plan),
    {
        if !self.is_leader && self.team == 0 {
            return false;
        }
        self.has_skill("passive_displace") || plan.num_enemies() == 0
    }

    pub open spec fn spec_can_help(&self) -> bool {
        !self.spec_is_hurt() && self.spec_has_skill("heal"@)
    }

    /// A healer in good shape seeks out allies.
    pub fn can_help(&self) -> (r: bool)
        ensures
            r == self.spec_can_help(),
    {
        !self.is_hurt() && self.has_skill("heal")
    }

    pub open spec fn spec_is_retreating(&self, plan: &Plan) -> bool {
        plan.tactic_of(self.team) == Some(PLAN_RETREAT) || (self.spec_is_hurt() && plan.tactic_of(self.team) == Some(PLAN_ATTACK))
    }

    /// The team retreats, or the agent is hurt while its team attacks.
    pub fn is_retreating(&self, plan: &Plan) -> (r: bool)
        requires
            plan.wf(),
        ensures
            r == self.spec_is_retreating(plan),
    {
        plan.is_retreating(self.team) || (self.is_hurt() && plan.is_attacking(self.team))
    }

    pub open spec fn spec_value_of_pos(&self, pos: (u16, u16), plan: &Plan) -> int {
        let dist = plan.spec_distance_to_goal(pos, self.team);
        if self.spec_is_retreating(plan) {
            dist as int
        } else {
            -dist
        }
    }

    /// How good a cell is to stand on (larger is better): closer to the goal,
    /// or farther when retreating. An unknown distance is worst unless retreating.
    pub fn value_of_pos(&self, pos: (u16, u16), plan: &Plan) -> (r: i32)
        requires
            plan.wf(),
        ensures
            r == self.spec_value_of_pos(pos, plan),
            r > i32::MIN,
    {
        let dist = plan.distance_to_goal(pos, self.team);
        proof {
            plan.lemma_distance_nonneg(pos, self.team);
        }
        if self.is_retreating(plan) {
            dist
        } else {
            -dist
        }
    }

    /// A cell no search reached is worth no more than any other to an agent
    /// that is not retreating: the unknown distance never looks closer.
    pub proof fn lemma_unreachable_is_worst(&self, plan: &Plan, unreached: (u16, u16), other: (u16, u16))
        requires
            plan.wf(),
            !self.spec_is_retreating(plan),
            plan.spec_distance_to_goal(unreached, self.team) == crate::flood::PATH_UNKNOWN_DISTANCE,
        ensures
            self.spec_value_of_pos(unreached, plan) <= self.spec_value_of_pos(other, plan),
    {
    }

    /// Where a candidate direction leads, and whether it moves the agent at all
    /// (a blocked step looks at the raw neighboring cell instead).
    pub open spec fn probe(&self, world: &World, d: u8) -> ((u16, u16), bool) {
        let n = world.spec_neighbor(self.pos, d, self.team, self.walls@);
        if n != self.pos {
            (n, true)
        } else {
            (world.spec_offset(self.pos, d), false)
        }
    }

    /// Not hurt and not retreating with the team: the agent engages what it meets.
    pub open spec fn bold(&self, plan: &Plan) -> bool {
        !self.spec_is_hurt() && plan.tactic_of(self.team) != Some(PLAN_RETREAT)
    }

    /// Direction `d` leads to an enemy to attack, or an ally to help.
    pub open spec fn engages(&self, world: &World, plan: &Plan, d: u8) -> bool {
        let pos = self.probe(world, d).0;
        self.bold(plan) && match plan.spec_whos_at(pos) {
            Some(t) => t != self.team || (pos != self.pos && self.spec_can_help()),
            None => false,
        }
    }

    /// Direction `d` is a real move (not into a friend that cannot be displaced), or wait.
    pub open spec fn eligible(&self, world: &World, plan: &Plan, d: u8) -> bool {
        let (pos, moved) = self.probe(world, d);
        let blocked = self.bold(plan) && plan.spec_whos_at(pos) is Some && !self.spec_can_displace(plan);
        (moved && !blocked) || d == ACT_WAIT
    }

    /// Value of the cell direction `d` leads to.
    pub open spec fn dir_value(&self, world: &World, plan: &Plan, d: u8) -> int {
        self.spec_value_of_pos(self.probe(world, d).0, plan)
    }

    /// `r` is what the movement scan from `start_dir` picks: the first
    /// direction that engages an enemy or a hurt ally when the agent is bold;
    /// otherwise the first of the best-valued eligible directions.
    pub open spec fn is_action_choice(&self, world: &World, plan: &Plan, start_dir: u8, r: u8) -> bool {
        let engaging = exists|i: int| 0 <= i < 9 && self.engages(world, plan, #[trigger] candidate(start_dir, i));
        &&& engaging ==> exists|i: int|
            0 <= i < 9 && r == candidate(start_dir, i) && self.engages(world, plan, r) && forall|j: int|
                0 <= j < i ==> !self.engages(world, plan, #[trigger] candidate(start_dir, j))
        &&& !engaging ==> exists|k: int|
            0 <= k < 9 && r == candidate(start_dir, k) && self.eligible(world, plan, r) && (forall|j: int|
                0 <= j < 9 && self.eligible(world, plan, #[trigger] candidate(start_dir, j)) ==> self.dir_value(
                world,
                plan,
                candidate(start_dir, j),
            ) <= self.dir_value(world, plan, r)) && (forall|j: int|
                0 <= j < k && self.eligible(world, plan, #[trigger] candidate(start_dir, j)) ==> self.dir_value(
                world,
                plan,
                candidate(start_dir, j),
            ) < self.dir_value(world, plan, r))
    }

    /// Movement choice, scanning the moves and wait from `start_dir`: the first
    /// direction that engages an enemy or a hurt ally when the agent is bold;
    /// otherwise the first of the best-valued eligible directions.
    pub fn choose_action(&self, world: &World, plan: &Plan, start_dir: u8) -> (r: u8)
        requires
            world.wf(),
            plan.wf(),
            start_dir <= 8,
        ensures
            self.is_action_choice(world, plan, start_dir, r),
    {
        let mut best_value: i32 = i32::MIN;
        let mut best_direction: u8 = start_dir;
        let ghost mut kb: int = -1;
        let bold = !self.is_hurt() && !plan.is_retreating(self.team);
        let mut i: u8 = 0;
        while i < 9
            invariant
                world.wf(),
                plan.wf(),
                start_dir <= 8,
                i <= 9,
                bold == self.bold(plan),
                forall|j: int| 0 <= j < i ==> !self.engages(world, plan, #[trigger] candidate(start_dir, j)),
                -1 <= kb < i,
                kb == -1 ==> best_value == i32::MIN && forall|j: int| 0 <= j < i ==> !self.eligible(world, plan, #[trigger] candidate(start_dir, j)),
                kb >= 0 ==> {
                    &&& self.eligible(world, plan, candidate(start_dir, kb))
                    &&& best_direction == candidate(start_dir, kb)
                    &&& best_value == self.spec_value_of_pos(self.probe(world, candidate(start_dir, kb)).0, plan)
                    &&& forall|j: int| 0 <= j < i && self.eligible(world, plan, #[trigger] candidate(start_dir, j))
                        ==> self.spec_value_of_pos(self.probe(world, candidate(start_dir, j)).0, plan) <= best_value
                    &&& forall|j: int| 0 <= j < kb && self.eligible(world, plan, #[trigger] candidate(start_dir, j))
                        ==> self.spec_value_of_pos(self.probe(world, candidate(start_dir, j)).0, plan) < best_value
                },
            decreases 9 - i,
        {
            let mv: u8 = (start_dir + i) % 9;
            assert(mv == candidate(start_dir, i as int));
            let mut pos = world.neighbor(self.pos, mv, self.team, self.walls.as_str());
            let mut movement = !same_pos(pos, self.pos);
            if !movement {
                pos = world.offset(self.pos, mv);
            }
            assert(pos == self.probe(world, mv).0);
            if bold {
                if let Some(team) = plan.whos_at(pos) {
                    if team != self.team || (!same_pos(pos, self.pos) && self.can_help()) {
                        assert(self.engages(world, plan, candidate(start_dir, i as int)));
                        return mv;
                    } else if !self.can_displace(plan) {
                        movement = false;
                    }
                }
            }
            assert(!self.engages(world, plan, candidate(start_dir, i as int)));
            assert((movement || mv == ACT_WAIT) == self.eligible(world, plan, mv));
            if movement || mv == ACT_WAIT {
                let value = self.value_of_pos(pos, plan);
                if value > best_value {
                    best_direction = mv;
                    best_value = value;
                    proof {
                        kb = i as int;
                    }
                }
            }
            i += 1;
        }
        proof {
            assert(self.eligible(world, plan, candidate(start_dir, ((ACT_WAIT + 9 - start_dir) % 9) as int)));
        }
        best_direction
    }

    /// A random facing one time in five (never for projectiles), else the current one.
    pub fn choose_preferred_dir(&self) -> (r: u8)
        requires
            self.wf(),
        ensures
            r < 8,
            self.spec_is_projectile() ==> r == self.direction,
    {
        if !self.is_projectile() && rand_int(5) == 0 {
            return rand_int(8) as u8;
        }
        self.direction
    }

    /// The agent's decision: a projectile flies on; otherwise a ready skill,
    /// or else a movement chosen from a (sometimes random) preferred direction.
    pub fn decide(&mut self, world: &World, plan: &Plan) -> (r: u8)
        requires
            old(self).wf(),
            world.wf(),
            plan.wf(),
        ensures
            final(self).wf(),
            *final(self) == (Actor { skill_idx: final(self).skill_idx, ..*old(self) }),
            old(self).spec_is_projectile() ==> r == old(self).direction && *final(self) == *old(self),
            !old(self).spec_is_projectile() && r != ACT_SKILL ==> *final(self) == *old(self) && exists|start: u8|
                start < 8 && #[trigger] old(self).is_action_choice(world, plan, start, r),
            !old(self).spec_is_projectile() ==> ({
                let skilled = r == ACT_SKILL;
                exists|rolls: Seq<u16>| #[trigger] selection_outcome(*final(self), *old(self), world, plan, rolls, skilled)
            }),
            !old(self).spec_is_projectile() && sure_skill_ready(*old(self), world, plan) ==> r == ACT_SKILL,
            r <= 8 || r == ACT_SKILL,
    {
        if self.is_projectile() {
            return self.direction;
        } else if should_use_skill(self, world, plan) {
            return ACT_SKILL;
        }
        let start = self.choose_preferred_dir();
        let r = self.choose_action(world, plan, start);
        assert(self.is_action_choice(world, plan, start, r));
        assert(r <= 8) by {
            if exists|i: int| 0 <= i < 9 && self.engages(world, plan, #[trigger] candidate(start, i)) {
            }
        }
        r
    }

    /// Touching `other` is a plain hit: it is an enemy, the agent has strength
    /// and none of the combat passives.
    pub open spec fn hits_plainly(&self, other: &Actor) -> bool {
        &&& other.spec_is_enemy_of(self.team)
        &&& self.strength > 0
        &&& !self.spec_has_skill("passive_trip"@)
        &&& !self.spec_has_skill("passive_whirl"@)
        &&& !self.spec_has_skill("passive_backstab"@)
        &&& !self.spec_has_skill("passive_slam"@)
    }

    /// Health `other` is left with after a plain hit.
    pub open spec fn plain_hit_health(&self, other: &Actor) -> int {
        let dmg = hit_damage(self.strength, self.level);
        if dmg < other.health {
            other.health - dmg
        } else {
            0
        }
    }

    /// Touching another agent: an enemy is struck (after the combat passives
    /// in the order trip, whirl, backstab, slam); a friend is swapped with
    /// when allowed; otherwise the agent helps (and may heal) it.
    pub fn act_touch(&mut self, other: &mut Actor, world: &mut World, action: u8, plan: &Plan)
        requires
            old(self).wf(),
            old(other).wf(),
            old(world).wf(),
            plan.wf(),
        ensures
            final(self).wf(),
            final(other).wf(),
            final(world).wf(),
            final(world).size == old(world).size,
            final(world).exits == old(world).exits,
            final(world).catalog == old(world).catalog,
            final(self).strength == old(self).strength,
            final(self).level == old(self).level,
            final(self).team == old(self).team,
            final(self).skills == old(self).skills,
            old(self).hits_plainly(old(other)) ==> final(other).health == old(self).plain_hit_health(old(other)),
    {
        if other.is_enemy_of(self.team) && self.strength > 0 {
            if self.has_skill("passive_trip") {
                passive_trip(self, action, other);
            }
            if self.has_skill("passive_whirl") {
                passive_whirl(self, action, other);
            }
            if self.has_skill("passive_backstab") {
                passive_backstab(self, action, other);
            }
            if self.has_skill("passive_slam") {
                passive_slam(self, action, other, world, plan);
            }
            self.act_hit(other, world);
            return;
        } else if self.can_displace(plan) && other.is_mobile() {
            self.act_displace(other, world);
            return;
        }
        if self.has_skill("passive_heal") {
            passive_heal(self, other);
        }
        self.act_help(other);
    }

    /// Steps toward `mv`: an occupied destination is touched instead, a free
    /// one is entered with a gain of momentum, and a blocked step pushes on
    /// whatever stands there.
    pub fn act_move(&mut self, mv: u8, wld: &mut World, plan: &Plan, others: &mut Vec<Actor>)
        requires
            old(self).wf(),
            old(wld).wf(),
            plan.wf(),
            all_wf(old(others)@),
        ensures
            final(self).wf(),
            final(wld).wf(),
            all_wf(final(others)@),
            final(others)@.len() == old(others)@.len(),
            final(wld).size == old(wld).size,
            final(wld).exits == old(wld).exits,
            final(wld).catalog == old(wld).catalog,
            final(self).skills == old(self).skills,
            ({
                let dest = old(wld).spec_neighbor(old(self).pos, mv, old(self).team, old(self).walls@);
                dest != old(self).pos && plan.spec_whos_at(dest) is None ==> final(self).pos == dest && final(self).momentum >= 1
                    && *final(others) == *old(others)
            }),
            ({
                let (dest, moved) = old(self).probe(old(wld), mv);
                &&& !moved && plan.spec_whos_at(dest) is None ==> final(self).pos == old(self).pos
                &&& forall|j: int|
                    0 <= j < old(others)@.len() && #[trigger] old(others)@[j].spec_is_blocking(dest) && (forall|k: int|
                        0 <= k < old(others)@.len() && k != j ==> !old(others)@[k].spec_is_blocking(dest))
                        && plan.spec_whos_at(dest) is Some && old(self).hits_plainly(&old(others)@[j]) ==> final(others)@[j].health
                        == old(self).plain_hit_health(&old(others)@[j])
            }),
    {
        let mut pos = wld.neighbor(self.pos, mv, self.team, self.walls.as_str());
        let movement = !same_pos(self.pos, pos);
        if !movement {
            pos = wld.offset(self.pos, mv);
            self.lose_momentum(1);
        }
        assert(pos == old(self).probe(old(wld), mv).0);
        if plan.whos_at(pos).is_some() {
            let mut i: usize = 0;
            while i < others.len()
                invariant
                    self.wf(),
                    wld.wf(),
                    plan.wf(),
                    all_wf(others@),
                    others@.len() == old(others)@.len(),
                    pos == old(self).probe(old(wld), mv).0,
                    self.strength == old(self).strength,
                    self.level == old(self).level,
                    self.team == old(self).team,
                    self.skills == old(self).skills,
                    forall|k: int| i <= k < others@.len() ==> others@[k] == old(others)@[k],
                    forall|k: int| 0 <= k < i && !old(others)@[k].spec_is_blocking(pos) ==> others@[k] == old(others)@[k],
                    forall|k: int|
                        0 <= k < i && old(others)@[k].spec_is_blocking(pos) && (forall|q: int|
                            0 <= q < old(others)@.len() && q != k ==> !old(others)@[q].spec_is_blocking(pos)) && old(self).hits_plainly(
                            &old(others)@[k],
                        ) ==> others@[k].health == old(self).plain_hit_health(&old(others)@[k]),
                    wld.size == old(wld).size,
                    wld.exits == old(wld).exits,
                    wld.catalog == old(wld).catalog,
                    i <= others@.len(),
                decreases others@.len() - i,
            {
                if others[i].is_blocking(pos) {
                    let ghost before = others@;
                    let ghost me = *self;
                    self.act_touch(&mut others[i], wld, mv, plan);
                    assert forall|j: int| 0 <= j < others@.len() implies (#[trigger] others@[j]).wf() by {
                        if j != i {
                            assert(others@[j] == before[j]);
                        }
                    }
                    proof {
                        assert(me.hits_plainly(&before[i as int]) == old(self).hits_plainly(&old(others)@[i as int]));
                        assert(me.plain_hit_health(&before[i as int]) == old(self).plain_hit_health(&old(others)@[i as int]));
                        assert forall|k: int|
                            0 <= k < i + 1 && old(others)@[k].spec_is_blocking(pos) && (forall|q: int|
                                0 <= q < old(others)@.len() && q != k ==> !old(others)@[q].spec_is_blocking(pos)) && old(self).hits_plainly(
                                &old(others)@[k],
                            ) implies others@[k].health == old(self).plain_hit_health(&old(others)@[k]) by {
                            if k < i {
                                assert(old(others)@[i as int].spec_is_blocking(pos));
                            }
                        }
                    }
                }
                i += 1;
            }
        } else if movement {
            self.pos = pos;
            self.gain_momentum(1);
            if self.has_skill("passive_grow") {
                passive_grow(self, wld);
            }
        } else if is_move(mv) {
            self.act_push_wall(wld, mv);
        }
    }

    /// Faces the direction of a move or turn (a wait faces north); turning
    /// in place is logged. An aiming agent then turns toward the nearest enemy.
    pub fn act_change_direction(&mut self, dir: u8, wld: &World, plan: &Plan)
        requires
            old(self).wf(),
            wld.wf(),
            plan.wf(),
        ensures
            final(self).wf(),
            final(self).pos == old(self).pos,
            final(self).health == old(self).health,
            final(self).inventory == old(self).inventory,
            !old(self).spec_has_skill("passive_aim"@) && (is_move(dir) || is_turn(dir)) ==> final(self).direction == dir % 8,
            !old(self).spec_has_skill("passive_aim"@) && !(is_move(dir) || is_turn(dir)) ==> final(self).direction == old(self).direction,
    {
        if is_move(dir) {
            self.direction = dir % 8;
        } else if is_turn(dir) {
            self.log_action("turned in place.");
            self.direction = dir % 8;
        }
        if self.has_skill("passive_aim") {
            passive_aim(self, wld, plan);
        }
    }

    /// Performs the chosen action at `time`; a stunned agent does nothing.
    pub fn act(&mut self, mv: u8, time: u32, wld: &mut World, plan: &Plan, others: &mut Vec<Actor>, spawn: &mut Vec<Actor>)
        requires
            old(self).wf(),
            old(wld).wf(),
            plan.wf(),
            all_wf(old(others)@),
            all_wf(old(spawn)@),
        ensures
            final(self).wf(),
            final(wld).wf(),
            all_wf(final(others)@),
            final(others)@.len() == old(others)@.len(),
            spawned_from(final(spawn)@, old(spawn)@),
            final(wld).size == old(wld).size,
            final(wld).exits == old(wld).exits,
            final(wld).catalog == old(wld).catalog,
            old(self).stun != 0 ==> *final(self) == (Actor { time, ..*old(self) }) && *final(wld) == *old(wld) && *final(others)
                == *old(others) && final(spawn)@ == old(spawn)@,
            old(self).stun == 0 && mv == ACT_DROP && old(self).inventory@.len() > 0 ==> {
                let q = old(wld).spec_offset(old(self).pos, old(self).direction);
                let it = old(self).inventory@.last();
                &&& final(self).inventory@ == old(self).inventory@.drop_last()
                &&& no_unique_kinds(old(self).inventory@) ==> final(wld).items@ == old(wld).items@.push(Item { pos: q, ..it })
            },
            old(self).stun == 0 && mv == ACT_SKILL ==> match spec_skill_index(old(self).spec_selected_skill(), 0) {
                None => *final(self) == (Actor { time, ..*old(self) }) && final(spawn)@ == old(spawn)@,
                Some(i) => spec_can_use(i, *old(self)) ==> skill_outcome(
                    i,
                    *final(self),
                    Actor { time, ..*old(self) },
                    final(spawn)@,
                    old(spawn)@,
                ),
            },
            old(self).stun == 0 && mv != ACT_SKILL && mv != ACT_DROP && (is_move(mv) || is_turn(mv)) && !old(self).spec_has_skill(
                "passive_aim"@,
            ) ==> final(self).direction == mv % 8,
            old(self).stun == 0 && mv != ACT_SKILL && mv != ACT_DROP && old(self).spec_is_mobile() ==> {
                let (dest, moved) = old(self).probe(old(wld), mv);
                &&& moved && plan.spec_whos_at(dest) is None ==> final(self).pos == dest && *final(others) == *old(others)
                &&& !moved && plan.spec_whos_at(dest) is None ==> final(self).pos == old(self).pos
                &&& forall|j: int|
                    0 <= j < old(others)@.len() && #[trigger] old(others)@[j].spec_is_blocking(dest) && (forall|k: int|
                        0 <= k < old(others)@.len() && k != j ==> !old(others)@[k].spec_is_blocking(dest))
                        && plan.spec_whos_at(dest) is Some && old(self).hits_plainly(&old(others)@[j]) ==> final(others)@[j].health
                        == old(self).plain_hit_health(&old(others)@[j])
            },
    {
        self.time = time;
        assert(spawn@.subrange(0, old(spawn)@.len() as int) =~= old(spawn)@);
        if self.stun == 0 {
            if mv == ACT_SKILL {
                use_skill(self, wld, plan, spawn);
            } else if mv == ACT_DROP {
                self.act_drop_item(wld);
            } else {
                if self.is_mobile() {
                    self.act_move(mv, wld, plan, others);
                }
                self.act_change_direction(mv, wld, plan);
            }
        }
    }

    /// A living, mobile agent that is not a projectile, with no passive hook
    /// on ticks and no hazard underfoot: its tick is regeneration, a chance to
    /// collapse, and picking up.
    pub open spec fn plain_tick(&self, world: &World) -> bool {
        &&& self.spec_is_alive()
        &&& self.spec_is_mobile()
        &&& !self.spec_is_projectile()
        &&& !self.spec_has_skill("passive_spin"@)
        &&& !self.spec_has_skill("passive_drift"@)
        &&& !self.spec_has_skill("passive_descend"@)
        &&& !self.walls@.contains(world.spec_glyph_at(self.pos))
    }

    /// What a status tick did, whatever the collapse roll came out as.
    pub open spec fn tick_outcome(after: Actor, before: Actor, w1: &World, w0: &World) -> bool {
        &&& after.kind == before.kind
        &&& after.team == before.team
        &&& after.level == before.level
        &&& before.health == 0 ==> after.health == 0
        &&& before.plain_tick(w0) ==> {
            let s1 = if before.stun > 0 { before.stun - 1 } else { before.stun as int };
            let h1 = if before.health + 1 > before.spec_max_health() { before.spec_max_health() as int } else { before.health + 1 };
            &&& after.pos == before.pos
            &&& after.mana == if before.mana + 1 > before.spec_max_mana() { before.spec_max_mana() as int } else { before.mana + 1 }
            &&& after.health >= h1
            &&& after.stun == s1 || (s1 == 0 && after.stun == 2)
            &&& after.invis == (if before.invis > 0 { before.invis - 1 } else { before.invis as int }) || after.invis == 199
            &&& after.inventory@ == before.inventory@ + kept_pickups(w0.items@, before.pos)
            &&& w1.items@ == left_behind(w0.items@, before.pos)
        }
    }

    /// The per-tick status update: passive hooks, then for a mobile
    /// non-projectile regeneration, hazardous terrain, a chance to collapse
    /// when hurt, and picking up what lies underfoot; invisibility wears off.
    /// A dead agent stays dead.
    pub fn update(&mut self, world: &mut World)
        requires
            old(self).wf(),
            old(world).wf(),
        ensures
            final(self).wf(),
            final(world).wf(),
            final(world).size == old(world).size,
            final(world).exits == old(world).exits,
            final(world).catalog == old(world).catalog,
            Actor::tick_outcome(*final(self), *old(self), final(world), old(world)),
    {
        if self.has_skill("passive_spin") {
            passive_spin(self);
        }
        if self.has_skill("passive_drift") {
            passive_drift(self, world);
        }
        if self.has_skill("passive_descend") {
            passive_descend(self, world);
        }
        if !self.is_projectile() && self.is_mobile() && self.is_alive() {
            self.recover(1);
            let mm = self.max_mana();
            self.mana = if self.mana < mm { self.mana + 1 } else { mm };
            if contains_char(self.walls.as_str(), world.glyph_at(self.pos)) {
                self.hurt(5, world);
            }
            if self.is_hurt() && self.stun == 0 && rand_int(self.health) == 0 {
                self.log_action("fell, bleeding profusely.");
                self.stun(2);
                world.change_tiles(self.pos, TILE_BLOOD);
            }
            if self.is_alive() {
                self.act_get(world);
            }
        }
        if self.invis > 0 {
            self.invis = self.invis - 1;
        }
    }
}

} // verus!
