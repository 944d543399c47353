use vstd::prelude::*;
use crate::actor::Actor;
use crate::constants::same_pos;
use crate::flood::{cell_of, field_bounded, field_relaxed, field_supported, flood, grid_index, in_grid, lemma_cell_in_range, PATH_UNKNOWN_DISTANCE};
use crate::world::World;

verus! {

pub const PLAN_ATTACK: u8 = 0;
pub const PLAN_FOLLOW: u8 = 1;
pub const PLAN_DEFEND: u8 = 2;
pub const PLAN_RETREAT: u8 = 3;
pub const PLAN_EXIT: u8 = 4;

/// Search depth of the player's team.
pub const PLAYER_SEARCH_STEPS: i32 = 200;
/// Search depth of the other teams.
pub const AI_SEARCH_STEPS: i32 = 12;

/// Search depth of a team.
pub open spec fn search_cap(team: usize) -> i32 {
    if team == 0 {
        PLAYER_SEARCH_STEPS
    } else {
        AI_SEARCH_STEPS
    }
}

/// Directive, muster point and distance field of one team.
pub struct TeamPlan {
    pub team: usize,
    pub tactic: u8,
    pub muster: (u16, u16),
    pub distances: Vec<i32>,
}

/// Per-team tactics and distance fields, plus who occupies which cell.
pub struct Plan {
    pub teams: Vec<TeamPlan>,
    /// Combatants outside the player's team, as of the last `fast_update`.
    pub enemies: usize,
    /// One entry per occupied cell: the position and the occupant's team.
    pub occupied: Vec<((u16, u16), usize)>,
    pub world_size: (u16, u16),
}

/// Team of the last combatant of `actors` standing at `pos`.
pub open spec fn occupant(actors: Seq<Actor>, pos: (u16, u16)) -> Option<usize>
    decreases actors.len(),
{
    if actors.len() == 0 {
        None
    } else if actors.last().spec_is_blocking(pos) {
        Some(actors.last().team)
    } else {
        occupant(actors.drop_last(), pos)
    }
}

/// Number of combatants of `actors` outside the player's team.
pub open spec fn count_enemies(actors: Seq<Actor>) -> nat
    decreases actors.len(),
{
    if actors.len() == 0 {
        0
    } else {
        count_enemies(actors.drop_last()) + if actors.last().spec_is_combatant() && actors.last().team != 0 {
            1nat
        } else {
            0nat
        }
    }
}

/// Positions of the visible enemies of `team`, in roster order.
pub open spec fn enemy_positions(actors: Seq<Actor>, team: usize) -> Seq<(u16, u16)>
    decreases actors.len(),
{
    if actors.len() == 0 {
        seq![]
    } else {
        let rest = enemy_positions(actors.drop_last(), team);
        if actors.last().spec_is_enemy_of(team) && actors.last().invis == 0 {
            rest.push(actors.last().pos)
        } else {
            rest
        }
    }
}

/// Positions of the leaders of `team`, in roster order.
pub open spec fn leader_positions(actors: Seq<Actor>, team: usize) -> Seq<(u16, u16)>
    decreases actors.len(),
{
    if actors.len() == 0 {
        seq![]
    } else {
        let rest = leader_positions(actors.drop_last(), team);
        if actors.last().is_leader && actors.last().team == team {
            rest.push(actors.last().pos)
        } else {
            rest
        }
    }
}

/// Team recorded at `pos` in an occupancy list.
pub open spec fn lookup(occ: Seq<((u16, u16), usize)>, pos: (u16, u16)) -> Option<usize> {
    if exists|i: int| 0 <= i < occ.len() && occ[i].0 == pos {
        Some(occ[choose|i: int| 0 <= i < occ.len() && occ[i].0 == pos].1)
    } else {
        None
    }
}

pub open spec fn unique_cells(occ: Seq<((u16, u16), usize)>) -> bool {
    forall|i: int, j: int| 0 <= i < j < occ.len() ==> occ[i].0 != occ[j].0
}

proof fn lemma_lookup_at(occ: Seq<((u16, u16), usize)>, i: int)
    requires
        unique_cells(occ),
        0 <= i < occ.len(),
    ensures
        lookup(occ, occ[i].0) == Some(occ[i].1),
{
    let pos = occ[i].0;
    let c = choose|c: int| 0 <= c < occ.len() && occ[c].0 == pos;
    if c < i {
        assert(occ[c].0 != occ[i].0);
    } else if c > i {
        assert(occ[i].0 != occ[c].0);
    }
}

impl Plan {
    pub open spec fn area(&self) -> int {
        self.world_size.0 * self.world_size.1
    }

    /// Team ids are unique, every field covers the map, and each cell is occupied once.
    pub open spec fn wf(&self) -> bool {
        &&& forall|i: int, j: int| 0 <= i < j < self.teams@.len() ==> self.teams@[i].team != self.teams@[j].team
        &&& forall|i: int| 0 <= i < self.teams@.len() ==> (#[trigger] self.teams@[i]).distances@.len() == self.area()
        &&& forall|i: int| 0 <= i < self.teams@.len() ==> field_bounded((#[trigger] self.teams@[i]).distances@, PLAYER_SEARCH_STEPS as int)
        &&& unique_cells(self.occupied@)
    }

    pub open spec fn has_team(&self, team: usize) -> bool {
        exists|i: int| 0 <= i < self.teams@.len() && self.teams@[i].team == team
    }

    /// The entry of a team.
    pub open spec fn slot(&self, team: usize) -> TeamPlan
        recommends
            self.has_team(team),
    {
        self.teams@[choose|i: int| 0 <= i < self.teams@.len() && self.teams@[i].team == team]
    }

    pub open spec fn tactic_of(&self, team: usize) -> Option<u8> {
        if self.has_team(team) {
            Some(self.slot(team).tactic)
        } else {
            None
        }
    }

    pub open spec fn spec_whos_at(&self, pos: (u16, u16)) -> Option<usize> {
        lookup(self.occupied@, pos)
    }

    pub open spec fn spec_distance_to_goal(&self, from: (u16, u16), team: usize) -> i32 {
        if !self.has_team(team) {
            0
        } else if in_grid(self.world_size, from) {
            self.slot(team).distances@[cell_of(self.world_size, from)]
        } else {
            PATH_UNKNOWN_DISTANCE
        }
    }

    /// Distances are never negative.
    pub proof fn lemma_distance_nonneg(&self, from: (u16, u16), team: usize)
        requires
            self.wf(),
        ensures
            self.spec_distance_to_goal(from, team) >= 0,
    {
        if self.has_team(team) && in_grid(self.world_size, from) {
            let a = choose|a: int| 0 <= a < self.teams@.len() && self.teams@[a].team == team;
            self.lemma_slot_at(a);
            lemma_cell_in_range(self.world_size, from);
            let d = self.teams@[a].distances@;
            assert(d[cell_of(self.world_size, from)] == PATH_UNKNOWN_DISTANCE || 0 <= d[cell_of(self.world_size, from)]);
        }
    }

    /// Index of a team's entry.
    pub fn find_team(&self, team: usize) -> (r: Option<usize>)
        requires
            self.wf(),
        ensures
            r is None <==> !self.has_team(team),
            r is Some ==> r->Some_0 < self.teams@.len() && self.teams@[r->Some_0 as int] == self.slot(team)
                && self.teams@[r->Some_0 as int].team == team,
    {
        let mut i: usize = 0;
        while i < self.teams.len()
            invariant
                self.wf(),
                i <= self.teams@.len(),
                forall|a: int| 0 <= a < i ==> self.teams@[a].team != team,
            decreases self.teams@.len() - i,
        {
            if self.teams[i].team == team {
                proof {
                    let c = choose|a: int| 0 <= a < self.teams@.len() && self.teams@[a].team == team;
                    if c < i {
                        assert(self.teams@[c].team != self.teams@[i as int].team);
                    } else if c > i {
                        assert(self.teams@[i as int].team != self.teams@[c].team);
                    }
                }
                return Some(i);
            }
            i += 1;
        }
        None
    }

    /// A plan for a map of `world_size` and the listed teams: the player's team
    /// follows its leader, the others attack, and no distance is known yet.
    pub fn new(world_size: (u16, u16), teams: &[usize]) -> (r: Plan)
        ensures
            r.wf(),
            r.world_size == world_size,
            r.enemies == 0,
            r.occupied@.len() == 0,
            forall|k: int| 0 <= k < teams@.len() ==> r.tactic_of(#[trigger] teams@[k]) == Some(
                if teams@[k] == 0 { PLAN_FOLLOW } else { PLAN_ATTACK },
            ),
            forall|t: usize| r.has_team(t) ==> teams@.contains(t),
            forall|t: usize, p: (u16, u16)| r.has_team(t) ==> r.spec_distance_to_goal(p, t) == PATH_UNKNOWN_DISTANCE,
    {
        assert(world_size.0 as int * world_size.1 as int <= 65535 * 65535) by (nonlinear_arith)
            requires
                world_size.0 <= 65535,
                world_size.1 <= 65535,
        ;
        let area: usize = (world_size.0 as u32 * world_size.1 as u32) as usize;
        let mut plan = Plan { teams: Vec::new(), enemies: 0, occupied: Vec::new(), world_size };
        let mut k: usize = 0;
        while k < teams.len()
            invariant
                plan.wf(),
                area == plan.area(),
                plan.world_size == world_size,
                plan.enemies == 0,
                plan.occupied@.len() == 0,
                k <= teams@.len(),
                forall|j: int| 0 <= j < k ==> plan.has_team(#[trigger] teams@[j]),
                forall|i: int| 0 <= i < plan.teams@.len() ==> teams@.contains(#[trigger] plan.teams@[i].team),
                forall|i: int| 0 <= i < plan.teams@.len() ==> (#[trigger] plan.teams@[i]).tactic == if plan.teams@[i].team == 0 {
                    PLAN_FOLLOW
                } else {
                    PLAN_ATTACK
                },
                forall|i: int, c: int| 0 <= i < plan.teams@.len() && 0 <= c < area ==> #[trigger] plan.teams@[i].distances@[c] == PATH_UNKNOWN_DISTANCE,
            decreases teams@.len() - k,
        {
            let team = teams[k];
            if plan.find_team(team).is_none() {
                let distances = vec![PATH_UNKNOWN_DISTANCE; area];
                let tactic = if team == 0 { PLAN_FOLLOW } else { PLAN_ATTACK };
                let ghost before = plan.teams@;
                plan.teams.push(TeamPlan { team, tactic, muster: (0, 0), distances });
                proof {
                    assert(plan.teams@[before.len() as int].team == team);
                    assert(teams@[k as int] == team);
                    assert forall|j: int| 0 <= j < k + 1 implies plan.has_team(#[trigger] teams@[j]) by {
                        if j < k {
                            let a = choose|a: int| 0 <= a < before.len() && before[a].team == teams@[j];
                            assert(plan.teams@[a].team == teams@[j]);
                        } else {
                            assert(plan.teams@[before.len() as int].team == teams@[j]);
                        }
                    }
                }
            }
            k += 1;
        }
        proof {
            assert forall|j: int| 0 <= j < teams@.len() implies plan.tactic_of(#[trigger] teams@[j]) == Some(
                if teams@[j] == 0 { PLAN_FOLLOW } else { PLAN_ATTACK },
            ) by {
                assert(plan.has_team(teams@[j]));
            }
            assert forall|t: usize| plan.has_team(t) implies teams@.contains(t) by {
                let a = choose|a: int| 0 <= a < plan.teams@.len() && plan.teams@[a].team == t;
                assert(teams@.contains(plan.teams@[a].team));
            }
            assert forall|t: usize, p: (u16, u16)| plan.has_team(t) implies plan.spec_distance_to_goal(p, t) == PATH_UNKNOWN_DISTANCE by {
                if in_grid(world_size, p) {
                    lemma_cell_in_range(world_size, p);
                }
            }
        }
        plan
    }

    /// The entry holding a team is its slot.
    pub proof fn lemma_slot_at(&self, i: int)
        requires
            self.wf(),
            0 <= i < self.teams@.len(),
        ensures
            self.has_team(self.teams@[i].team),
            self.slot(self.teams@[i].team) == self.teams@[i],
    {
        let t = self.teams@[i].team;
        assert(self.has_team(t));
        let c = choose|a: int| 0 <= a < self.teams@.len() && self.teams@[a].team == t;
        if c < i {
            assert(self.teams@[c].team != self.teams@[i].team);
        } else if c > i {
            assert(self.teams@[i].team != self.teams@[c].team);
        }
    }

    /// Sets the player's team's directive, and its muster point when one is given.
    fn set_player_tactic(&mut self, tactic: u8, muster: Option<(u16, u16)>)
        requires
            old(self).wf(),
        ensures
            final(self).wf(),
            final(self).tactic_of(0) == Some(tactic),
            muster is Some ==> final(self).slot(0).muster == muster->Some_0,
            forall|t: usize| t != 0 ==> final(self).tactic_of(t) == old(self).tactic_of(t),
            forall|t: usize, p: (u16, u16)| final(self).has_team(t) && old(self).has_team(t) ==>
                final(self).spec_distance_to_goal(p, t) == old(self).spec_distance_to_goal(p, t),
            final(self).occupied == old(self).occupied,
            final(self).enemies == old(self).enemies,
            final(self).world_size == old(self).world_size,
    {
        let ghost before = *self;
        match self.find_team(0) {
            Some(i) => {
                let old_muster = self.teams[i].muster;
                let m = match muster {
                    Some(m) => m,
                    None => old_muster,
                };
                self.teams[i].tactic = tactic;
                self.teams[i].muster = m;
                proof {
                    self.lemma_slot_at(i as int);
                    assert forall|t: usize| t != 0 implies self.tactic_of(t) == before.tactic_of(t) by {
                        if before.has_team(t) {
                            let a = choose|a: int| 0 <= a < before.teams@.len() && before.teams@[a].team == t;
                            before.lemma_slot_at(a);
                            self.lemma_slot_at(a);
                        } else if self.has_team(t) {
                            let a = choose|a: int| 0 <= a < self.teams@.len() && self.teams@[a].team == t;
                            assert(before.teams@[a].team == t);
                        }
                    }
                    assert forall|t: usize, p: (u16, u16)| self.has_team(t) && before.has_team(t) implies
                        self.spec_distance_to_goal(p, t) == before.spec_distance_to_goal(p, t) by {
                        let a = choose|a: int| 0 <= a < before.teams@.len() && before.teams@[a].team == t;
                        before.lemma_slot_at(a);
                        self.lemma_slot_at(a);
                    }
                }
            },
            None => {
                assert(self.world_size.0 as int * self.world_size.1 as int <= 65535 * 65535) by (nonlinear_arith)
                    requires
                        self.world_size.0 <= 65535,
                        self.world_size.1 <= 65535,
                ;
                let area: usize = (self.world_size.0 as u32 * self.world_size.1 as u32) as usize;
                let m = match muster {
                    Some(m) => m,
                    None => (0, 0),
                };
                self.teams.push(TeamPlan { team: 0, tactic, muster: m, distances: vec![PATH_UNKNOWN_DISTANCE; area] });
                proof {
                    let n = before.teams@.len() as int;
                    assert forall|i: int, j: int| 0 <= i < j < self.teams@.len() implies self.teams@[i].team != self.teams@[j].team by {
                        if j == n {
                            assert(before.teams@[i].team != 0);
                        }
                    }
                    assert(self.wf());
                    self.lemma_slot_at(n);
                    assert forall|t: usize| t != 0 implies self.tactic_of(t) == before.tactic_of(t) by {
                        if before.has_team(t) {
                            let a = choose|a: int| 0 <= a < before.teams@.len() && before.teams@[a].team == t;
                            before.lemma_slot_at(a);
                            self.lemma_slot_at(a);
                        } else if self.has_team(t) {
                            let a = choose|a: int| 0 <= a < self.teams@.len() && self.teams@[a].team == t;
                            assert(before.teams@[a].team == t);
                        }
                    }
                    assert forall|t: usize, p: (u16, u16)| self.has_team(t) && before.has_team(t) implies
                        self.spec_distance_to_goal(p, t) == before.spec_distance_to_goal(p, t) by {
                        let a = choose|a: int| 0 <= a < before.teams@.len() && before.teams@[a].team == t;
                        before.lemma_slot_at(a);
                        self.lemma_slot_at(a);
                    }
                }
            },
        }
    }

    /// The player's team holds `pos`.
    pub fn tactic_defend(&mut self, pos: (u16, u16))
        requires
            old(self).wf(),
        ensures
            final(self).wf(),
            final(self).tactic_of(0) == Some(PLAN_DEFEND),
            final(self).slot(0).muster == pos,
            forall|t: usize| t != 0 ==> final(self).tactic_of(t) == old(self).tactic_of(t),
            final(self).occupied == old(self).occupied,
            final(self).enemies == old(self).enemies,
            final(self).world_size == old(self).world_size,
    {
        self.set_player_tactic(PLAN_DEFEND, Some(pos));
    }

    /// The player's team follows its leader.
    pub fn tactic_follow(&mut self)
        requires
            old(self).wf(),
        ensures
            final(self).wf(),
            final(self).tactic_of(0) == Some(PLAN_FOLLOW),
            forall|t: usize| t != 0 ==> final(self).tactic_of(t) == old(self).tactic_of(t),
            final(self).occupied == old(self).occupied,
            final(self).enemies == old(self).enemies,
            final(self).world_size == old(self).world_size,
    {
        self.set_player_tactic(PLAN_FOLLOW, None);
    }

    /// The player's team attacks.
    pub fn tactic_attack(&mut self)
        requires
            old(self).wf(),
        ensures
            final(self).wf(),
            final(self).tactic_of(0) == Some(PLAN_ATTACK),
            forall|t: usize| t != 0 ==> final(self).tactic_of(t) == old(self).tactic_of(t),
            final(self).occupied == old(self).occupied,
            final(self).enemies == old(self).enemies,
            final(self).world_size == old(self).world_size,
    {
        self.set_player_tactic(PLAN_ATTACK, None);
    }

    /// The player's team retreats.
    pub fn tactic_retreat(&mut self)
        requires
            old(self).wf(),
        ensures
            final(self).wf(),
            final(self).tactic_of(0) == Some(PLAN_RETREAT),
            forall|t: usize| t != 0 ==> final(self).tactic_of(t) == old(self).tactic_of(t),
            final(self).occupied == old(self).occupied,
            final(self).enemies == old(self).enemies,
            final(self).world_size == old(self).world_size,
    {
        self.set_player_tactic(PLAN_RETREAT, None);
    }

    /// Where a defending team musters; the origin for an unknown team.
    pub fn muster_point(&self, team: usize) -> (r: (u16, u16))
        requires
            self.wf(),
        ensures
            self.has_team(team) ==> r == self.slot(team).muster,
            !self.has_team(team) ==> r == (0u16, 0u16),
    {
        match self.find_team(team) {
            Some(i) => self.teams[i].muster,
            None => (0, 0),
        }
    }

    fn has_tactic(&self, team: usize, tactic: u8) -> (r: bool)
        requires
            self.wf(),
        ensures
            r == (self.tactic_of(team) == Some(tactic)),
    {
        match self.find_team(team) {
            Some(i) => self.teams[i].tactic == tactic,
            None => false,
        }
    }

    pub fn is_defending(&self, team: usize) -> (r: bool)
        requires
            self.wf(),
        ensures
            r == (self.tactic_of(team) == Some(PLAN_DEFEND)),
    {
        self.has_tactic(team, PLAN_DEFEND)
    }

    pub fn is_attacking(&self, team: usize) -> (r: bool)
        requires
            self.wf(),
        ensures
            r == (self.tactic_of(team) == Some(PLAN_ATTACK)),
    {
        self.has_tactic(team, PLAN_ATTACK)
    }

    pub fn is_retreating(&self, team: usize) -> (r: bool)
        requires
            self.wf(),
        ensures
            r == (self.tactic_of(team) == Some(PLAN_RETREAT)),
    {
        self.has_tactic(team, PLAN_RETREAT)
    }

    /// Team occupying `pos`, if any.
    pub fn whos_at(&self, pos: (u16, u16)) -> (r: Option<usize>)
        requires
            self.wf(),
        ensures
            r == self.spec_whos_at(pos),
    {
        let mut i: usize = 0;
        while i < self.occupied.len()
            invariant
                self.wf(),
                i <= self.occupied@.len(),
                forall|j: int| 0 <= j < i ==> self.occupied@[j].0 != pos,
            decreases self.occupied@.len() - i,
        {
            if same_pos(self.occupied[i].0, pos) {
                proof {
                    lemma_lookup_at(self.occupied@, i as int);
                }
                return Some(self.occupied[i].1);
            }
            i += 1;
        }
        None
    }

    /// Combatants outside the player's team at the last `fast_update`.
    pub fn num_enemies(&self) -> (r: usize)
        ensures
            r == self.enemies,
    {
        self.enemies
    }

    /// Rebuilds the occupancy map and the enemy count from the roster.
    pub fn fast_update(&mut self, actors: &[Actor])
        requires
            old(self).wf(),
        ensures
            final(self).wf(),
            forall|pos: (u16, u16)| final(self).spec_whos_at(pos) == occupant(actors@, pos),
            final(self).enemies == count_enemies(actors@),
            final(self).teams == old(self).teams,
            final(self).world_size == old(self).world_size,
    {
        self.occupied.clear();
        self.enemies = 0;
        let mut i: usize = 0;
        while i < actors.len()
            invariant
                i <= actors@.len(),
                forall|a: int, b: int| 0 <= a < b < self.teams@.len() ==> self.teams@[a].team != self.teams@[b].team,
                forall|a: int| 0 <= a < self.teams@.len() ==> (#[trigger] self.teams@[a]).distances@.len() == self.area(),
                forall|a: int| 0 <= a < self.teams@.len() ==> field_bounded((#[trigger] self.teams@[a]).distances@, PLAYER_SEARCH_STEPS as int),
                self.teams == old(self).teams,
                self.world_size == old(self).world_size,
                unique_cells(self.occupied@),
                forall|pos: (u16, u16)| lookup(self.occupied@, pos) == occupant(actors@.subrange(0, i as int), pos),
                self.enemies == count_enemies(actors@.subrange(0, i as int)),
                self.enemies <= i,
            decreases actors@.len() - i,
        {
            let ghost pre = actors@.subrange(0, i as int);
            let ghost occ0 = self.occupied@;
            assert(actors@.subrange(0, i + 1).drop_last() =~= pre);
            assert(actors@.subrange(0, i + 1).last() == actors@[i as int]);
            let actor = &actors[i];
            if actor.is_combatant() {
                let pos = actor.pos;
                let team = actor.team;
                let mut j: usize = 0;
                let mut found = false;
                while j < self.occupied.len() && !found
                    invariant
                        self.occupied@ == occ0,
                        j <= occ0.len(),
                        found ==> j < occ0.len() && occ0[j as int].0 == pos,
                        forall|x: int| 0 <= x < j ==> occ0[x].0 != pos,
                    decreases occ0.len() - j + if found { 0int } else { 1int },
                {
                    if same_pos(self.occupied[j].0, pos) {
                        found = true;
                    } else {
                        j += 1;
                    }
                }
                if found {
                    self.occupied.set(j, (pos, team));
                    proof {
                        assert forall|a: int, b: int| 0 <= a < b < self.occupied@.len() implies self.occupied@[a].0 != self.occupied@[b].0 by {
                            assert(occ0[a].0 != occ0[b].0);
                        }
                        assert(unique_cells(self.occupied@));
                        assert forall|p: (u16, u16)| lookup(self.occupied@, p) == occupant(actors@.subrange(0, i + 1), p) by {
                            lemma_lookup_at(self.occupied@, j as int);
                            if p != pos {
                                assert(lookup(occ0, p) == occupant(pre, p));
                                if exists|x: int| 0 <= x < occ0.len() && occ0[x].0 == p {
                                    let x = choose|x: int| 0 <= x < occ0.len() && occ0[x].0 == p;
                                    lemma_lookup_at(occ0, x);
                                    lemma_lookup_at(self.occupied@, x);
                                } else {
                                    assert(!exists|x: int| 0 <= x < self.occupied@.len() && self.occupied@[x].0 == p) by {
                                        if exists|x: int| 0 <= x < self.occupied@.len() && self.occupied@[x].0 == p {
                                            let x = choose|x: int| 0 <= x < self.occupied@.len() && self.occupied@[x].0 == p;
                                            assert(occ0[x].0 == p);
                                        }
                                    }
                                }
                            }
                        }
                    }
                } else {
                    self.occupied.push((pos, team));
                    proof {
                        assert forall|a: int, b: int| 0 <= a < b < self.occupied@.len() implies self.occupied@[a].0 != self.occupied@[b].0 by {
                            if b == occ0.len() {
                                assert(occ0[a].0 != pos);
                            }
                        }
                        assert forall|p: (u16, u16)| lookup(self.occupied@, p) == occupant(actors@.subrange(0, i + 1), p) by {
                            lemma_lookup_at(self.occupied@, occ0.len() as int);
                            if p != pos {
                                assert(lookup(occ0, p) == occupant(pre, p));
                                if exists|x: int| 0 <= x < occ0.len() && occ0[x].0 == p {
                                    let x = choose|x: int| 0 <= x < occ0.len() && occ0[x].0 == p;
                                    lemma_lookup_at(occ0, x);
                                    lemma_lookup_at(self.occupied@, x);
                                } else {
                                    assert(!exists|x: int| 0 <= x < self.occupied@.len() && self.occupied@[x].0 == p) by {
                                        if exists|x: int| 0 <= x < self.occupied@.len() && self.occupied@[x].0 == p {
                                            let x = choose|x: int| 0 <= x < self.occupied@.len() && self.occupied@[x].0 == p;
                                            assert(occ0[x].0 == p);
                                        }
                                    }
                                }
                            }
                        }
                    }
                }
                if team != 0 {
                    self.enemies = self.enemies + 1;
                }
            }
            i += 1;
        }
        assert(actors@.subrange(0, i as int) =~= actors@);
    }

    /// Steps from `from` to the goal of `team`: unknown off the map, and 0 for a team without a plan.
    pub fn distance_to_goal(&self, from: (u16, u16), team: usize) -> (r: i32)
        requires
            self.wf(),
        ensures
            r == self.spec_distance_to_goal(from, team),
    {
        match self.find_team(team) {
            Some(i) => {
                match grid_index(self.world_size, from) {
                    Some(c) => self.teams[i].distances[c],
                    None => PATH_UNKNOWN_DISTANCE,
                }
            },
            None => 0,
        }
    }

    pub open spec fn spec_is_near_enemy(&self, pos: (u16, u16), team: usize) -> bool {
        (self.tactic_of(team) == Some(PLAN_ATTACK) || self.tactic_of(team) == Some(PLAN_RETREAT))
            && self.spec_distance_to_goal(pos, team) < 10
    }

    /// Whether `pos` lies within ten steps of the enemies `team` is fighting or fleeing.
    pub fn is_near_enemy(&self, pos: (u16, u16), team: usize) -> (r: bool)
        requires
            self.wf(),
        ensures
            r == self.spec_is_near_enemy(pos, team),
    {
        (self.is_attacking(team) || self.is_retreating(team)) && self.distance_to_goal(pos, team) < 10
    }

    /// Goal cells of a team's search, given its directive: the exits when
    /// heading out, the muster point when defending, the team's leaders when
    /// following, and the visible enemies when attacking or retreating.
    pub open spec fn goals_for(tp: TeamPlan, world: &World, actors: Seq<Actor>) -> Seq<(u16, u16)> {
        if tp.tactic == PLAN_EXIT {
            world.exits@.map_values(|e: crate::item::Item| e.pos)
        } else if tp.tactic == PLAN_DEFEND {
            seq![tp.muster]
        } else if tp.tactic == PLAN_FOLLOW {
            leader_positions(actors, tp.team)
        } else if tp.tactic == PLAN_ATTACK || tp.tactic == PLAN_RETREAT {
            enemy_positions(actors, tp.team)
        } else {
            seq![]
        }
    }

    /// Goal cells of the team at place `ti`.
    pub open spec fn goals_of(&self, ti: int, world: &World, actors: Seq<Actor>) -> Seq<(u16, u16)> {
        Plan::goals_for(self.teams@[ti], world, actors)
    }

    /// The field of `tp` is the breadth-first distance from its goals, up to its search depth.
    pub open spec fn field_is_search(&self, tp: TeamPlan, world: &World, actors: Seq<Actor>) -> bool {
        let goals = Plan::goals_for(tp, world, actors);
        &&& field_relaxed(tp.distances@, self.world_size, world, tp.team, search_cap(tp.team))
        &&& field_supported(tp.distances@, self.world_size, world, tp.team, goals)
        &&& forall|k: int|
            0 <= k < goals.len() && in_grid(self.world_size, goals[k]) ==> tp.distances@[cell_of(self.world_size, #[trigger] goals[k])] == 0
    }

    fn open_list(&self, ti: usize, world: &World, actors: &[Actor]) -> (r: Vec<(u16, u16)>)
        requires
            ti < self.teams@.len(),
        ensures
            r@ == self.goals_of(ti as int, world, actors@),
    {
        let tactic = self.teams[ti].tactic;
        let team = self.teams[ti].team;
        if tactic == PLAN_EXIT {
            let r = world.exit_positions();
            assert(r@ =~= world.exits@.map_values(|e: crate::item::Item| e.pos));
            r
        } else if tactic == PLAN_DEFEND {
            let r = vec![self.teams[ti].muster];
            assert(r@ =~= seq![self.teams@[ti as int].muster]);
            r
        } else if tactic == PLAN_FOLLOW {
            locate_leaders(team, actors)
        } else if tactic == PLAN_ATTACK || tactic == PLAN_RETREAT {
            locate_enemies(team, actors)
        } else {
            let r: Vec<(u16, u16)> = Vec::new();
            assert(r@ =~= seq![]);
            r
        }
    }

    fn update_paths(&mut self, ti: usize, world: &World, actors: &[Actor])
        requires
            old(self).wf(),
            world.wf(),
            ti < old(self).teams@.len(),
        ensures
            final(self).wf(),
            final(self).teams@.len() == old(self).teams@.len(),
            forall|j: int| 0 <= j < final(self).teams@.len() && j != ti ==> final(self).teams@[j] == old(self).teams@[j],
            final(self).teams@[ti as int].team == old(self).teams@[ti as int].team,
            final(self).teams@[ti as int].tactic == old(self).teams@[ti as int].tactic,
            final(self).teams@[ti as int].muster == old(self).teams@[ti as int].muster,
            final(self).field_is_search(final(self).teams@[ti as int], world, actors@),
            final(self).occupied == old(self).occupied,
            final(self).enemies == old(self).enemies,
            final(self).world_size == old(self).world_size,
    {
        let team = self.teams[ti].team;
        let cap: i32 = if team == 0 { PLAYER_SEARCH_STEPS } else { AI_SEARCH_STEPS };
        let goals = self.open_list(ti, world, actors);
        let size = self.world_size;
        flood(&mut self.teams[ti].distances, size, world, team, &goals, cap);
        proof {
            assert forall|a: int| 0 <= a < self.teams@.len() implies field_bounded((#[trigger] self.teams@[a]).distances@, PLAYER_SEARCH_STEPS as int) by {
                if a == ti {
                    let d = self.teams@[a].distances@;
                    assert forall|c: int| 0 <= c < d.len() implies #[trigger] d[c] == PATH_UNKNOWN_DISTANCE || 0 <= d[c] <= PLAYER_SEARCH_STEPS by {
                    }
                }
            }
        }
    }

    /// Refreshes every listed team's distance field; a player's team attacking
    /// with no enemy left heads for the exit first.
    pub fn update(&mut self, teams: &[usize], world: &World, actors: &[Actor])
        requires
            old(self).wf(),
            world.wf(),
        ensures
            final(self).wf(),
            old(self).enemies == 0 && old(self).tactic_of(0) == Some(PLAN_ATTACK) ==> final(self).tactic_of(0) == Some(PLAN_EXIT),
            !(old(self).enemies == 0 && old(self).tactic_of(0) == Some(PLAN_ATTACK)) ==> final(self).tactic_of(0) == old(self).tactic_of(0),
            forall|t: usize| t != 0 ==> final(self).tactic_of(t) == old(self).tactic_of(t),
            forall|k: int| 0 <= k < teams@.len() && final(self).has_team(#[trigger] teams@[k]) ==> final(self).field_is_search(
                final(self).slot(teams@[k]), world, actors@),
            final(self).occupied == old(self).occupied,
            final(self).enemies == old(self).enemies,
            final(self).world_size == old(self).world_size,
    {
        if self.enemies == 0 && self.is_attacking(0) {
            self.set_player_tactic(PLAN_EXIT, None);
        }
        let ghost mid = *self;
        let mut k: usize = 0;
        while k < teams.len()
            invariant
                self.wf(),
                world.wf(),
                k <= teams@.len(),
                self.teams@.len() == mid.teams@.len(),
                forall|j: int| 0 <= j < self.teams@.len() ==> #[trigger] self.teams@[j].team == mid.teams@[j].team
                    && self.teams@[j].tactic == mid.teams@[j].tactic,
                forall|j: int| 0 <= j < k && self.has_team(#[trigger] teams@[j]) ==> self.field_is_search(
                    self.slot(teams@[j]), world, actors@),
                forall|j: int| 0 <= j < self.teams@.len() ==> #[trigger] self.teams@[j].muster == mid.teams@[j].muster,
                self.occupied == mid.occupied,
                self.enemies == mid.enemies,
                self.world_size == mid.world_size,
            decreases teams@.len() - k,
        {
            if let Some(ti) = self.find_team(teams[k]) {
                let ghost pre = *self;
                self.update_paths(ti, world, actors);
                proof {
                    self.lemma_slot_at(ti as int);
                    assert forall|j: int| 0 <= j < k + 1 && self.has_team(#[trigger] teams@[j]) implies self.field_is_search(
                        self.slot(teams@[j]), world, actors@) by {
                        let a = choose|a: int| 0 <= a < self.teams@.len() && self.teams@[a].team == teams@[j];
                        self.lemma_slot_at(a);
                        if a != ti {
                            assert(pre.teams@[a].team == teams@[j]);
                            pre.lemma_slot_at(a);
                        }
                    }
                }
            }
            k += 1;
        }
        proof {
            assert forall|t: usize| true implies self.tactic_of(t) == mid.tactic_of(t) by {
                if mid.has_team(t) {
                    let a = choose|a: int| 0 <= a < mid.teams@.len() && mid.teams@[a].team == t;
                    mid.lemma_slot_at(a);
                    assert(self.teams@[a].team == t);
                    self.lemma_slot_at(a);
                } else if self.has_team(t) {
                    let a = choose|a: int| 0 <= a < self.teams@.len() && self.teams@[a].team == t;
                    assert(mid.teams@[a].team == t);
                }
            }
        }
    }
}

/// Positions of the visible enemies of `team`.
fn locate_enemies(team: usize, actors: &[Actor]) -> (r: Vec<(u16, u16)>)
    ensures
        r@ == enemy_positions(actors@, team),
{
    let mut r: Vec<(u16, u16)> = Vec::new();
    let mut i: usize = 0;
    while i < actors.len()
        invariant
            i <= actors@.len(),
            r@ == enemy_positions(actors@.subrange(0, i as int), team),
        decreases actors@.len() - i,
    {
        assert(actors@.subrange(0, i + 1).drop_last() =~= actors@.subrange(0, i as int));
        assert(actors@.subrange(0, i + 1).last() == actors@[i as int]);
        if actors[i].is_enemy_of(team) && actors[i].invis == 0 {
            r.push(actors[i].pos);
        }
        i += 1;
    }
    assert(actors@.subrange(0, i as int) =~= actors@);
    r
}

/// Positions of the leaders of `team`.
fn locate_leaders(team: usize, actors: &[Actor]) -> (r: Vec<(u16, u16)>)
    ensures
        r@ == leader_positions(actors@, team),
{
    let mut r: Vec<(u16, u16)> = Vec::new();
    let mut i: usize = 0;
    while i < actors.len()
        invariant
            i <= actors@.len(),
            r@ == leader_positions(actors@.subrange(0, i as int), team),
        decreases actors@.len() - i,
    {
        assert(actors@.subrange(0, i + 1).drop_last() =~= actors@.subrange(0, i as int));
        assert(actors@.subrange(0, i + 1).last() == actors@[i as int]);
        if actors[i].is_leader && actors[i].team == team {
            r.push(actors[i].pos);
        }
        i += 1;
    }
    assert(actors@.subrange(0, i as int) =~= actors@);
    r
}

} // verus!
