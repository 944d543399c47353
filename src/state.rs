use vstd::prelude::*;
use crate::actor::{is_passive_name, lemma_stat_cap_level_monotone, Actor};
use crate::catalog::{required_kind, Catalog};
use crate::constants::same_pos;
use crate::item::Item;
use crate::plan::{Plan, PLAN_ATTACK, PLAN_DEFEND, PLAN_FOLLOW, PLAN_RETREAT};
use crate::skills::all_wf;
use crate::text::join3;
use crate::world::World;

verus! {

/// Size of the player's starting squad.
pub const TEAM_SIZE: usize = 4;

/// Agents of a roster that stay after a tick: all but dead projectiles.
pub open spec fn survivors(actors: Seq<Actor>) -> Seq<Actor>
    decreases actors.len(),
{
    if actors.len() == 0 {
        seq![]
    } else {
        let rest = survivors(actors.drop_last());
        if actors.last().spec_is_alive() || !actors.last().spec_is_projectile() {
            rest.push(actors.last())
        } else {
            rest
        }
    }
}

/// Items that survive into the next scenario, in order.
pub open spec fn retained(items: Seq<Item>) -> Seq<Item>
    decreases items.len(),
{
    if items.len() == 0 {
        seq![]
    } else {
        let rest = retained(items.drop_last());
        if items.last().can_retain {
            rest.push(items.last())
        } else {
            rest
        }
    }
}

/// The whole game between scenarios and within one: map, roster, plan,
/// agents spawned during the current tick, and the squad carried between scenarios.
pub struct State {
    pub world: World,
    pub world_idx: usize,
    pub world_completed: Vec<usize>,
    pub world_desc: String,
    pub world_name: String,
    pub score: u32,
    pub time: u32,
    pub autopilot: bool,
    pub actors: Vec<Actor>,
    pub player_idx: usize,
    /// The persistent squad between scenarios; its front is `player_team[0]`.
    pub player_team: Vec<Actor>,
    pub team_idxs: Vec<usize>,
    pub plan: Plan,
    pub spawn: Vec<Actor>,
}

/// Keeps only the items that survive into the next scenario.
fn keep_retained(items: &mut Vec<Item>)
    ensures
        final(items)@ == retained(old(items)@),
{
    let ghost orig = items@;
    let ghost n = orig.len();
    let ghost mut j: int = 0;
    let mut idx: usize = 0;
    while idx < items.len()
        invariant
            0 <= j <= n,
            n == orig.len(),
            idx == retained(orig.subrange(0, j)).len(),
            items@ == retained(orig.subrange(0, j)) + orig.subrange(j, n as int),
        decreases n - j,
    {
        let ghost kept = retained(orig.subrange(0, j));
        proof {
            assert(orig.subrange(0, j + 1).drop_last() =~= orig.subrange(0, j));
            assert(orig.subrange(0, j + 1).last() == orig[j]);
            assert(items@[idx as int] == orig[j]);
        }
        if !items[idx].can_retain {
            items.remove(idx);
            proof {
                assert(items@ =~= kept + orig.subrange(j + 1, n as int));
                j = j + 1;
            }
        } else {
            idx += 1;
            proof {
                assert(items@ =~= kept.push(orig[j]) + orig.subrange(j + 1, n as int));
                j = j + 1;
            }
        }
    }
    proof {
        assert(j == n) by {
            if j < n {
                assert(items@.len() > idx);
            }
        }
        assert(orig.subrange(0, n as int) =~= orig);
        assert(items@ =~= retained(orig));
    }
}

impl State {
    pub open spec fn wf(&self) -> bool {
        &&& self.world.wf()
        &&& self.plan.wf()
        &&& all_wf(self.actors@)
        &&& all_wf(self.spawn@)
        &&& all_wf(self.player_team@)
    }

    /// Before the first scenario: an empty map over the given tables.
    pub fn new(catalog: Catalog) -> (r: State)
        requires
            catalog.wf(),
        ensures
            r.wf(),
            r.world_idx == 1,
            r.time == 1,
            r.score == 0,
            r.actors@.len() == 0,
            r.player_team@.len() == 0,
    {
        State {
            world: World::new(catalog),
            world_idx: 1,
            world_completed: Vec::new(),
            world_desc: String::new(),
            world_name: String::new(),
            score: 0,
            time: 1,
            autopilot: false,
            actors: Vec::new(),
            player_idx: 0,
            player_team: Vec::new(),
            team_idxs: Vec::new(),
            plan: Plan::new((0, 0), &[]),
            spawn: Vec::new(),
        }
    }

    /// Adds an agent to the roster, and its team to the known teams.
    pub fn add_actor(&mut self, actor: Actor)
        requires
            old(self).wf(),
            actor.wf(),
        ensures
            final(self).wf(),
            final(self).actors@ == old(self).actors@.push(actor),
            *final(self) == (State { actors: final(self).actors, team_idxs: final(self).team_idxs, ..*old(self) }),
            final(self).team_idxs@.contains(actor.team),
            forall|t: usize| old(self).team_idxs@.contains(t) ==> final(self).team_idxs@.contains(t),
    {
        let team = actor.team;
        let mut found = false;
        let mut i: usize = 0;
        while i < self.team_idxs.len()
            invariant
                i <= self.team_idxs@.len(),
                found == exists|j: int| 0 <= j < i && self.team_idxs@[j] == team,
            decreases self.team_idxs@.len() - i,
        {
            if self.team_idxs[i] == team {
                found = true;
            }
            i += 1;
        }
        if !found {
            self.team_idxs.push(team);
            assert(self.team_idxs@[self.team_idxs@.len() - 1] == team);
            assert forall|t: usize| old(self).team_idxs@.contains(t) implies self.team_idxs@.contains(t) by {
                let j = choose|j: int| 0 <= j < old(self).team_idxs@.len() && old(self).team_idxs@[j] == t;
                assert(self.team_idxs@[j] == t);
            }
        }
        self.actors.push(actor);
        assert forall|j: int| 0 <= j < self.actors@.len() implies (#[trigger] self.actors@[j]).wf() by {
            if j < old(self).actors@.len() {
                assert(self.actors@[j] == old(self).actors@[j]);
            }
        }
    }

    /// Refreshes who stands where, as every agent's turn begins.
    pub fn refresh_occupancy(&mut self)
        requires
            old(self).wf(),
        ensures
            final(self).wf(),
            *final(self) == (State { plan: final(self).plan, ..*old(self) }),
            forall|pos: (u16, u16)| final(self).plan.spec_whos_at(pos) == crate::plan::occupant(old(self).actors@, pos),
    {
        self.plan.fast_update(self.actors.as_slice());
    }

    /// Recomputes every team's distance field, once per tick.
    pub fn refresh_plan(&mut self)
        requires
            old(self).wf(),
        ensures
            final(self).wf(),
            *final(self) == (State { plan: final(self).plan, ..*old(self) }),
            final(self).plan.occupied == old(self).plan.occupied,
    {
        self.plan.update(self.team_idxs.as_slice(), &self.world, self.actors.as_slice());
    }

    /// The decision of the agent at `idx`.
    pub fn choice_from_ai(&mut self, idx: usize) -> (r: u8)
        requires
            old(self).wf(),
            idx < old(self).actors@.len(),
        ensures
            final(self).wf(),
            final(self).actors@.len() == old(self).actors@.len(),
            final(self).world == old(self).world,
            final(self).plan == old(self).plan,
            *final(self) == (State { actors: final(self).actors, ..*old(self) }),
            final(self).actors@ == old(self).actors@.update(idx as int, final(self).actors@[idx as int]),
            final(self).actors@[idx as int] == (Actor {
                skill_idx: final(self).actors@[idx as int].skill_idx,
                ..old(self).actors@[idx as int]
            }),
    {
        let ghost before = self.actors@;
        let r = self.actors[idx].decide(&self.world, &self.plan);
        assert forall|j: int| 0 <= j < self.actors@.len() implies (#[trigger] self.actors@[j]).wf() by {
            if j != idx {
                assert(self.actors@[j] == before[j]);
            }
        }
        assert(self.actors@ =~= before.update(idx as int, self.actors@[idx as int]));
        r
    }

    /// The agent at `idx` performs `choice`, touching any other agent of the
    /// roster, then takes its status tick. Agents it spawns wait in `spawn`.
    pub fn give_turn(&mut self, idx: usize, choice: u8)
        requires
            old(self).wf(),
            idx < old(self).actors@.len(),
        ensures
            final(self).wf(),
            final(self).actors@.len() == old(self).actors@.len(),
            final(self).spawn@.len() >= old(self).spawn@.len(),
            final(self).spawn@.subrange(0, old(self).spawn@.len() as int) == old(self).spawn@,
            final(self).time == old(self).time,
            final(self).actors@[idx as int].time == old(self).time,
            old(self).actors@[idx as int].stun != 0 ==> {
                &&& Actor::tick_outcome(
                    final(self).actors@[idx as int],
                    Actor { time: old(self).time, ..old(self).actors@[idx as int] },
                    &final(self).world,
                    &old(self).world,
                )
                &&& final(self).actors@ == old(self).actors@.update(idx as int, final(self).actors@[idx as int])
                &&& final(self).spawn@ == old(self).spawn@
            },
    {
        let time = self.time;
        let ghost before = self.actors@;
        let mut actor = self.actors.remove(idx);
        assert forall|j: int| 0 <= j < self.actors@.len() implies (#[trigger] self.actors@[j]).wf() by {
            if j < idx {
                assert(self.actors@[j] == before[j]);
            } else {
                assert(self.actors@[j] == before[j + 1]);
            }
        }
        actor.time = time;
        actor.act(choice, time, &mut self.world, &self.plan, &mut self.actors, &mut self.spawn);
        actor.update(&mut self.world);
        actor.time = time;
        let ghost mid = self.actors@;
        self.actors.insert(idx, actor);
        assert forall|j: int| 0 <= j < self.actors@.len() implies (#[trigger] self.actors@[j]).wf() by {
            if j < idx {
                assert(self.actors@[j] == mid[j]);
            } else if j > idx {
                assert(self.actors@[j] == mid[j - 1]);
            }
        }
        proof {
            if old(self).actors@[idx as int].stun != 0 {
                assert(self.actors@ =~= old(self).actors@.update(idx as int, self.actors@[idx as int]));
            }
        }
    }

    /// Closes a tick: spawned agents join the roster, dead projectiles leave
    /// it, debris is swept, and time moves on.
    pub fn end_tick(&mut self)
        requires
            old(self).wf(),
        ensures
            final(self).wf(),
            final(self).actors@ == survivors(old(self).actors@ + old(self).spawn@),
            final(self).spawn@.len() == 0,
            final(self).time == if old(self).time < u32::MAX { (old(self).time + 1) as u32 } else { u32::MAX },
    {
        self.actors.append(&mut self.spawn);
        let ghost orig = self.actors@;
        assert forall|k: int| 0 <= k < orig.len() implies (#[trigger] orig[k]).wf() by {
            if k < old(self).actors@.len() {
                assert(orig[k] == old(self).actors@[k]);
            } else {
                assert(orig[k] == old(self).spawn@[k - old(self).actors@.len()]);
            }
        }
        let ghost n = orig.len();
        let ghost mut j: int = 0;
        let mut idx: usize = 0;
        while idx < self.actors.len()
            invariant
                self.world == old(self).world,
                self.plan == old(self).plan,
                self.player_team == old(self).player_team,
                self.time == old(self).time,
                self.spawn@.len() == 0,
                self.world.wf(),
                self.plan.wf(),
                all_wf(self.player_team@),
                orig == old(self).actors@ + old(self).spawn@,
                0 <= j <= n,
                n == orig.len(),
                all_wf(orig),
                idx == survivors(orig.subrange(0, j)).len(),
                self.actors@ == survivors(orig.subrange(0, j)) + orig.subrange(j, n as int),
                forall|k: int| 0 <= k < survivors(orig.subrange(0, j)).len() ==> (#[trigger] survivors(orig.subrange(0, j))[k]).wf(),
            decreases n - j,
        {
            let ghost kept = survivors(orig.subrange(0, j));
            proof {
                assert(orig.subrange(0, j + 1).drop_last() =~= orig.subrange(0, j));
                assert(orig.subrange(0, j + 1).last() == orig[j]);
                assert(self.actors@[idx as int] == orig[j]);
            }
            if !self.actors[idx].is_alive() && self.actors[idx].is_projectile() {
                self.actors.remove(idx);
                proof {
                    assert(self.actors@ =~= kept + orig.subrange(j + 1, n as int));
                    j = j + 1;
                }
            } else {
                idx += 1;
                proof {
                    assert(self.actors@ =~= kept.push(orig[j]) + orig.subrange(j + 1, n as int));
                    assert(orig[j].wf());
                    j = j + 1;
                }
            }
        }
        proof {
            assert(j == n) by {
                if j < n {
                    assert(self.actors@.len() > idx);
                }
            }
            assert(orig.subrange(0, n as int) =~= orig);
            assert(self.actors@ =~= survivors(orig));
            assert forall|k: int| 0 <= k < self.actors@.len() implies (#[trigger] self.actors@[k]).wf() by {
                assert(survivors(orig.subrange(0, j))[k].wf());
            }
        }
        self.world.clear_debris();
        self.time = if self.time < u32::MAX { self.time + 1 } else { u32::MAX };
    }

    /// Hands the global announcements to the living agents: important ones to
    /// everybody (in brackets), others to the agents nearby.
    pub fn update_logs(&mut self)
        requires
            old(self).wf(),
        ensures
            final(self).wf(),
            final(self).world.log@.len() == 0,
            final(self).actors@.len() == old(self).actors@.len(),
    {
        let time = self.time;
        let mut e: usize = 0;
        while e < self.world.log.len()
            invariant
                self.wf(),
                self.world == old(self).world,
                self.actors@.len() == old(self).actors@.len(),
                e <= self.world.log@.len(),
            decreases self.world.log@.len() - e,
        {
            let pos = self.world.log[e].0;
            let important = self.world.log[e].2;
            let bracketed = join3("[", self.world.log[e].1.as_str(), "]");
            let mut i: usize = 0;
            while i < self.actors.len()
                invariant
                    self.wf(),
                    self.world == old(self).world,
                    self.actors@.len() == old(self).actors@.len(),
                    e < self.world.log@.len(),
                    i <= self.actors@.len(),
                decreases self.actors@.len() - i,
            {
                if self.actors[i].is_alive() {
                    let ghost before = self.actors@;
                    if important {
                        self.actors[i].log_event(bracketed.as_str(), time);
                    } else if self.actors[i].is_near(pos) {
                        let txt = self.world.log[e].1.clone();
                        self.actors[i].log_event(txt.as_str(), time);
                    }
                    assert forall|j: int| 0 <= j < self.actors@.len() implies (#[trigger] self.actors@[j]).wf() by {
                        if j != i {
                            assert(self.actors@[j] == before[j]);
                        }
                    }
                }
                i += 1;
            }
            e += 1;
        }
        self.world.log.clear();
    }

    /// The player's agent.
    pub fn player(&self) -> (r: &Actor)
        requires
            self.player_idx < self.actors@.len(),
        ensures
            *r == self.actors@[self.player_idx as int],
    {
        &self.actors[self.player_idx]
    }

    /// Level of the exit the player stands on, when the player is ready to act
    /// and at most five enemies remain.
    pub fn exit_at_player(&self) -> (r: Option<usize>)
        requires
            self.player_idx < self.actors@.len(),
            self.actors@[self.player_idx as int].move_lag >= 1,
            self.plan.wf(),
        ensures
            r is Some ==> self.plan.enemies <= 5 && exists|k: int| 0 <= k < self.world.exits@.len()
                && self.world.exits@[k].pos == self.actors@[self.player_idx as int].pos && r->Some_0 == self.world.exits@[k].level,
    {
        let player = &self.actors[self.player_idx];
        if player.is_ready_to_act(self.time) && self.plan.num_enemies() <= 5 {
            let mut k: usize = 0;
            while k < self.world.exits.len()
                invariant
                    k <= self.world.exits@.len(),
                    self.plan.enemies <= 5,
                    *player == self.actors@[self.player_idx as int],
                decreases self.world.exits@.len() - k,
            {
                if same_pos(self.world.exits[k].pos, player.pos) {
                    return Some(self.world.exits[k].level as usize);
                }
                k += 1;
            }
        }
        None
    }

    /// Number of agents the player could control.
    fn count_playable(&self) -> (r: usize)
        ensures
            r <= self.actors@.len(),
    {
        let mut n: usize = 0;
        let mut i: usize = 0;
        while i < self.actors.len()
            invariant
                i <= self.actors@.len(),
                n <= i,
            decreases self.actors@.len() - i,
        {
            if self.actors[i].is_playable() {
                n += 1;
            }
            i += 1;
        }
        n
    }

    /// Hands control to the `num`-th playable agent (counting from 1, capped
    /// at the last one); with no playable agent left the scenario is lost.
    pub fn player_control_set_by_number(&mut self, num: usize)
        requires
            old(self).wf(),
        ensures
            final(self).wf(),
            final(self).actors@.len() == old(self).actors@.len(),
            final(self).time == old(self).time,
            final(self).plan == old(self).plan,
            final(self).world_idx == 0 || (final(self).world_idx == old(self).world_idx && final(self).player_idx
                < final(self).actors@.len() && final(self).actors@[final(self).player_idx as int].is_leader
                && final(self).actors@[final(self).player_idx as int].spec_is_playable()),
    {
        if self.player_idx < self.actors.len() && self.actors[self.player_idx].is_playable() {
            let ghost before = self.actors@;
            self.actors[self.player_idx].is_leader = false;
            assert forall|j: int| 0 <= j < self.actors@.len() implies (#[trigger] self.actors@[j]).wf() by {
                if j != self.player_idx {
                    assert(self.actors@[j] == before[j]);
                }
            }
        }
        let count = self.count_playable();
        let mut num = if num < count { num } else { count };
        let mut idx: usize = 0;
        while idx < self.actors.len()
            invariant
                self.wf(),
                self.actors@.len() == old(self).actors@.len(),
                self.world_idx == old(self).world_idx,
                self.time == old(self).time,
                self.plan == old(self).plan,
                idx <= self.actors@.len(),
            decreases self.actors@.len() - idx,
        {
            if self.actors[idx].is_playable() && num > 0 {
                num -= 1;
                if num == 0 {
                    self.player_idx = idx;
                    let ghost before = self.actors@;
                    self.actors[idx].is_leader = true;
                    assert forall|j: int| 0 <= j < self.actors@.len() implies (#[trigger] self.actors@[j]).wf() by {
                        if j != idx {
                            assert(self.actors@[j] == before[j]);
                        }
                    }
                    return;
                }
            }
            idx += 1;
        }
        self.world_idx = 0;
    }

    /// Makes sure the player controls a playable leader, else picks the first playable agent.
    pub fn player_control_confirm(&mut self)
        requires
            old(self).wf(),
        ensures
            final(self).wf(),
            final(self).actors@.len() == old(self).actors@.len(),
            final(self).time == old(self).time,
            final(self).plan == old(self).plan,
            final(self).world_idx == 0 || (final(self).world_idx == old(self).world_idx && final(self).player_idx
                < final(self).actors@.len() && final(self).actors@[final(self).player_idx as int].is_leader
                && final(self).actors@[final(self).player_idx as int].spec_is_playable()),
    {
        if self.player_idx >= self.actors.len() || !self.actors[self.player_idx].is_leader
            || !self.actors[self.player_idx].is_playable() {
            self.player_idx = 0;
            self.player_control_set_by_number(1);
        }
    }

    /// Hands control to the next playable agent in roster order.
    pub fn player_control_next(&mut self)
        requires
            old(self).wf(),
        ensures
            final(self).wf(),
            final(self).actors@.len() == old(self).actors@.len(),
            old(self).actors@.len() > 0 ==> final(self).player_idx < final(self).actors@.len(),
    {
        let n = self.actors.len();
        if n == 0 {
            return;
        }
        if self.player_idx < n && self.actors[self.player_idx].is_playable() {
            let ghost before = self.actors@;
            self.actors[self.player_idx].is_leader = false;
            assert forall|j: int| 0 <= j < self.actors@.len() implies (#[trigger] self.actors@[j]).wf() by {
                if j != self.player_idx {
                    assert(self.actors@[j] == before[j]);
                }
            }
        }
        if self.player_idx >= n {
            self.player_idx = 0;
        }
        let mut k: usize = 0;
        while k < n
            invariant
                self.wf(),
                n == self.actors@.len(),
                n == old(self).actors@.len(),
                self.player_idx < n,
            decreases n - k,
        {
            self.player_idx = if self.player_idx + 1 < n { self.player_idx + 1 } else { 0 };
            if self.actors[self.player_idx].is_playable() {
                let ghost before = self.actors@;
                self.actors[self.player_idx].is_leader = true;
                assert forall|j: int| 0 <= j < self.actors@.len() implies (#[trigger] self.actors@[j]).wf() by {
                    if j != self.player_idx {
                        assert(self.actors@[j] == before[j]);
                    }
                }
                return;
            }
            k += 1;
        }
    }

    /// Logs an order the player shouted.
    fn player_shouts(&mut self, verb: &str)
        requires
            old(self).wf(),
            old(self).player_idx < old(self).actors@.len(),
        ensures
            final(self).wf(),
            final(self).actors@.len() == old(self).actors@.len(),
            final(self).player_idx == old(self).player_idx,
            final(self).plan == old(self).plan,
            final(self).world == old(self).world,
    {
        let ghost before = self.actors@;
        let idx = self.player_idx;
        self.actors[idx].log_action(verb);
        assert forall|j: int| 0 <= j < self.actors@.len() implies (#[trigger] self.actors@[j]).wf() by {
            if j != idx {
                assert(self.actors@[j] == before[j]);
            }
        }
    }

    /// Interprets one player command. Squad orders, skill cycling and the
    /// inventory listing are handled here and yield no action (`None`); view
    /// commands (scrolling 70, 71; key bindings 90) yield none either. Handing
    /// the turn to the AI (59 attack, 60 next agent, 61 to 69 agent by number)
    /// yields the AI's action for the current agent; any other code is the action itself.
    pub fn player_command(&mut self, input: u8) -> (r: Option<u8>)
        requires
            old(self).wf(),
            old(self).player_idx < old(self).actors@.len(),
        ensures
            final(self).wf(),
            final(self).actors@.len() == old(self).actors@.len(),
            (input == 32 || input == 41 || (55 <= input <= 58) || input == 70 || input == 71 || input == 90) <==> r is None,
            !(input == 32 || input == 41 || (55 <= input <= 71) || input == 90) ==> r == Some(input),
            input == 55 ==> final(self).plan.tactic_of(0) == Some(PLAN_DEFEND) && final(self).plan.slot(0).muster
                == old(self).actors@[old(self).player_idx as int].pos,
            input == 56 ==> final(self).plan.tactic_of(0) == Some(PLAN_FOLLOW),
            input == 57 || input == 59 ==> final(self).plan.tactic_of(0) == Some(PLAN_ATTACK),
            input == 58 ==> final(self).plan.tactic_of(0) == Some(PLAN_RETREAT),
            ({
                let i = old(self).player_idx as int;
                let before = old(self).actors@[i];
                &&& input == 32 ==> final(self).actors@ == old(self).actors@.update(i, final(self).actors@[i]) && final(self).actors@[i]
                    == (Actor { skill_idx: final(self).actors@[i].skill_idx, log: final(self).actors@[i].log, ..before }) && ((exists|j: int|
                    0 <= j < before.skills@.len() && !is_passive_name(#[trigger] before.skills@[j]@)) ==> !is_passive_name(
                    final(self).actors@[i].spec_selected_skill(),
                ))
                &&& input == 41 ==> final(self).actors@ == old(self).actors@.update(i, final(self).actors@[i]) && final(self).actors@[i]
                    == (Actor { log: final(self).actors@[i].log, ..before })
            }),
            input == 60 ==> final(self).player_idx < final(self).actors@.len(),
            61 <= input <= 69 ==> final(self).world_idx == 0 || (final(self).world_idx == old(self).world_idx && final(self).player_idx
                < final(self).actors@.len() && final(self).actors@[final(self).player_idx as int].is_leader
                && final(self).actors@[final(self).player_idx as int].spec_is_playable()),
    {
        let player_idx = self.player_idx;
        if input == 32 {
            let ghost before = self.actors@;
            self.actors[player_idx].next_skill();
            assert forall|j: int| 0 <= j < self.actors@.len() implies (#[trigger] self.actors@[j]).wf() by {
                if j != player_idx {
                    assert(self.actors@[j] == before[j]);
                }
            }
            assert(self.actors@ =~= before.update(player_idx as int, self.actors@[player_idx as int]));
            None
        } else if input == 41 {
            let ghost before = self.actors@;
            self.actors[player_idx].inventory();
            assert forall|j: int| 0 <= j < self.actors@.len() implies (#[trigger] self.actors@[j]).wf() by {
                if j != player_idx {
                    assert(self.actors@[j] == before[j]);
                }
            }
            assert(self.actors@ =~= before.update(player_idx as int, self.actors@[player_idx as int]));
            None
        } else if input == 55 {
            let pos = self.actors[player_idx].pos;
            self.plan.tactic_defend(pos);
            self.player_shouts("yelled, 'defend this position!'");
            None
        } else if input == 56 {
            self.plan.tactic_follow();
            self.player_shouts("yelled, 'follow me!'");
            None
        } else if input == 57 {
            self.plan.tactic_attack();
            self.player_shouts("yelled, 'attack!'");
            None
        } else if input == 58 {
            self.plan.tactic_retreat();
            self.player_shouts("yelled, 'retreat!'");
            None
        } else if input == 59 {
            self.plan.tactic_attack();
            Some(self.choice_from_ai(player_idx))
        } else if input == 60 {
            self.player_control_next();
            Some(self.choice_from_ai(player_idx))
        } else if 61 <= input && input <= 69 {
            self.player_control_set_by_number((input - 60) as usize);
            Some(self.choice_from_ai(player_idx))
        } else if input == 70 || input == 71 || input == 90 {
            None
        } else {
            Some(input)
        }
    }

    /// Moves the surviving persistent agents back to the squad (leveled up
    /// after a victory, fully recovered, keeping only retainable items) and
    /// empties the roster.
    pub fn extract_team(&mut self, level_up: bool)
        requires
            old(self).wf(),
        ensures
            final(self).wf(),
            final(self).actors@.len() == 0,
            final(self).player_team@.len() >= old(self).player_team@.len(),
            final(self).world_completed == old(self).world_completed,
            final(self).score == old(self).score,
            final(self).plan == old(self).plan,
    {
        while self.actors.len() > 0
            invariant
                self.wf(),
                self.world_completed == old(self).world_completed,
                self.score == old(self).score,
                self.plan == old(self).plan,
                self.player_team@.len() >= old(self).player_team@.len(),
            decreases self.actors@.len(),
        {
            let ghost before = self.actors@;
            let mut actor = self.actors.remove(0);
            assert(actor == before[0]);
            assert forall|j: int| 0 <= j < self.actors@.len() implies (#[trigger] self.actors@[j]).wf() by {
                assert(self.actors@[j] == before[j + 1]);
            }
            keep_retained(&mut actor.inventory);
            if actor.is_persistent && actor.is_alive() {
                actor.is_leader = false;
                if level_up {
                    let next: u16 = if actor.level < 65535 { actor.level + 1 } else { 65535 };
                    proof {
                        lemma_stat_cap_level_monotone(actor.con, actor.level, next);
                        lemma_stat_cap_level_monotone(actor.intel, actor.level, next);
                    }
                    actor.level = next;
                    actor.log_action("survived the battle!");
                }
                actor.recover_fully();
                let ghost team_before = self.player_team@;
                self.player_team.insert(0, actor);
                assert forall|j: int| 0 <= j < self.player_team@.len() implies (#[trigger] self.player_team@[j]).wf() by {
                    if j > 0 {
                        assert(self.player_team@[j] == team_before[j - 1]);
                    }
                }
            }
        }
    }

    /// Closes a scenario: a victory (at most five enemies left on a scenario
    /// not won before) levels the squad up and scores ten per squad member.
    pub fn finish_scenario(&mut self, current_world_idx: usize) -> (victory: bool)
        requires
            old(self).wf(),
        ensures
            final(self).wf(),
            final(self).actors@.len() == 0,
            victory == (old(self).plan.enemies <= 5 && !old(self).world_completed@.contains(current_world_idx)),
            victory ==> final(self).world_completed@ == old(self).world_completed@.push(current_world_idx),
            !victory ==> final(self).world_completed == old(self).world_completed && final(self).score == old(self).score,
    {
        let mut completed = false;
        let mut i: usize = 0;
        while i < self.world_completed.len()
            invariant
                i <= self.world_completed@.len(),
                completed == exists|j: int| 0 <= j < i && self.world_completed@[j] == current_world_idx,
            decreases self.world_completed@.len() - i,
        {
            if self.world_completed[i] == current_world_idx {
                completed = true;
            }
            i += 1;
        }
        let victory = self.plan.num_enemies() <= 5 && !completed;
        self.extract_team(victory);
        if victory {
            self.world_completed.push(current_world_idx);
            let members: u64 = if self.player_team.len() as u64 > 1000000 { 1000000 } else { self.player_team.len() as u64 };
            let gain: u64 = 10 * members;
            let total: u64 = self.score as u64 + if gain > u32::MAX as u64 { u32::MAX as u64 } else { gain };
            self.score = if total > u32::MAX as u64 { u32::MAX } else { total as u32 };
        }
        victory
    }

    /// The standard squad: one persistent agent of each starting kind, at level 1.
    pub fn create_player_team(&mut self)
        requires
            old(self).wf(),
        ensures
            final(self).wf(),
            final(self).player_team@.len() == old(self).player_team@.len() + 7,
            forall|i: int| 0 <= i < 7 ==> (#[trigger] final(self).player_team@[i]).is_persistent && final(self).player_team@[i].team == 0,
    {
        let kinds: [u8; 7] = [0, 2, 11, 1, 13, 5, 3];
        assert(forall|j: int| 0 <= j < 7 ==> required_kind(#[trigger] kinds@[j]));
        let mut k: usize = 0;
        while k < 7
            invariant
                self.wf(),
                forall|j: int| 0 <= j < 7 ==> required_kind(#[trigger] kinds@[j]),
                k <= 7,
                self.player_team@.len() == old(self).player_team@.len() + k,
                forall|i: int| 0 <= i < k ==> (#[trigger] self.player_team@[i]).is_persistent && self.player_team@[i].team == 0,
            decreases 7 - k,
        {
            let mut actor = Actor::new(kinds[k], 1, 0, (0, 0), &self.world.catalog);
            actor.is_persistent = true;
            let ghost before = self.player_team@;
            self.player_team.insert(0, actor);
            assert forall|j: int| 0 <= j < self.player_team@.len() implies (#[trigger] self.player_team@[j]).wf() by {
                if j > 0 {
                    assert(self.player_team@[j] == before[j - 1]);
                }
            }
            assert forall|i: int| 0 <= i < k + 1 implies (#[trigger] self.player_team@[i]).is_persistent && self.player_team@[i].team == 0 by {
                if i > 0 {
                    assert(self.player_team@[i] == before[i - 1]);
                }
            }
            k += 1;
        }
    }

    /// Opens a tick: control goes to a playable leader (or the scenario is
    /// lost), and the occupancy and every team's distance field are computed
    /// once, before any agent acts.
    pub fn begin_tick(&mut self)
        requires
            old(self).wf(),
        ensures
            final(self).wf(),
            final(self).actors@.len() == old(self).actors@.len(),
            final(self).time == old(self).time,
            final(self).world_idx == 0 || (final(self).world_idx == old(self).world_idx && final(self).player_idx
                < final(self).actors@.len() && final(self).actors@[final(self).player_idx as int].is_leader
                && final(self).actors@[final(self).player_idx as int].spec_is_playable()),
            final(self).world_idx != 0 ==> forall|pos: (u16, u16)|
                final(self).plan.spec_whos_at(pos) == crate::plan::occupant(final(self).actors@, pos),
    {
        self.player_control_confirm();
        if self.world_idx != 0 {
            self.refresh_occupancy();
            let ghost mid = *self;
            self.refresh_plan();
            assert forall|pos: (u16, u16)| self.plan.spec_whos_at(pos) == crate::plan::occupant(self.actors@, pos) by {
                assert(mid.plan.spec_whos_at(pos) == crate::plan::occupant(mid.actors@, pos));
            }
        }
    }

    /// The first agent at or after `from`, in roster order, whose cadence fires now.
    pub fn next_ready(&self, from: usize) -> (r: Option<usize>)
        requires
            all_wf(self.actors@),
        ensures
            r is Some ==> from <= r->Some_0 < self.actors@.len() && self.actors@[r->Some_0 as int].spec_is_ready_to_act(self.time)
                && forall|j: int| from <= j < r->Some_0 ==> !(#[trigger] self.actors@[j]).spec_is_ready_to_act(self.time),
            r is None ==> forall|j: int| from <= j < self.actors@.len() ==> !(#[trigger] self.actors@[j]).spec_is_ready_to_act(self.time),
    {
        let mut i: usize = from;
        while i < self.actors.len()
            invariant
                all_wf(self.actors@),
                from <= i,
                forall|j: int| from <= j < i ==> !(#[trigger] self.actors@[j]).spec_is_ready_to_act(self.time),
            decreases self.actors@.len() - i,
        {
            assert(self.actors@[i as int].wf());
            if self.actors[i].is_ready_to_act(self.time) {
                return Some(i);
            }
            i += 1;
        }
        None
    }
}

} // verus!
