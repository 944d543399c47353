use vstd::prelude::*;
use crate::catalog::{clone_strings, Catalog};
use vstd::string::*;
use crate::constants::{same_pos, ITEM_DOOR, ITEM_TREE, TILE_BLOOD};
use crate::item::Item;
use crate::world::World;
use crate::item_effects::item_effect_on;
use crate::rng::rand_int;
use crate::text::{contains_char, join, join3, lower_of, lowercase_char, sentence_case, sentence_case_of, starts_with, str_eq};
use crate::item_effects::use_on_actor;

verus! {

/// A living agent or a projectile.
pub struct Actor {
    pub name: String,
    pub kind: u8,
    pub team: usize,
    pub glyph: char,
    pub pos: (u16, u16),
    /// Facing, a compass direction below 8.
    pub direction: u8,
    pub time: u32,
    pub level: u16,
    pub health: u16,
    /// Ticks between two activations.
    pub move_lag: u16,
    pub mana: u16,
    pub intel: u16,
    pub con: u16,
    pub strength: u16,
    /// Terrain glyphs this agent cannot enter; a `.` marks it immobile.
    pub walls: String,
    pub skill_idx: usize,
    pub momentum: u8,
    /// Ticks left lying on the ground; 0 is active.
    pub stun: i16,
    /// Ticks left hidden from enemies; -1 marks an agent whose death was handled.
    pub invis: i16,
    /// Chronological events: time, text, and how many times in a row it happened.
    pub log: Vec<(u32, String, usize)>,
    pub random_seed: u16,
    pub skills: Vec<String>,
    pub inventory: Vec<Item>,
    pub is_leader: bool,
    pub is_persistent: bool,
}

/// `max(1, stat * level)`, saturated at the largest `u16`.
pub open spec fn stat_cap(stat: u16, level: u16) -> u16 {
    let p = stat as int * level as int;
    if p < 1 {
        1
    } else if p > 65535 {
        65535
    } else {
        p as u16
    }
}

fn compute_cap(stat: u16, level: u16) -> (r: u16)
    ensures
        r == stat_cap(stat, level),
{
    assert(stat as int * level as int <= 65535 * 65535) by (nonlinear_arith)
        requires
            stat <= 65535,
            level <= 65535,
    ;
    let p: u32 = stat as u32 * level as u32;
    if p < 1 {
        1
    } else if p > 65535 {
        65535
    } else {
        p as u16
    }
}

/// `stat_cap` grows with the stat.
pub proof fn lemma_stat_cap_monotone(s1: u16, s2: u16, level: u16)
    requires
        s1 <= s2,
    ensures
        stat_cap(s1, level) <= stat_cap(s2, level),
{
    assert(s1 as int * level as int <= s2 as int * level as int) by (nonlinear_arith)
        requires
            s1 <= s2,
            0 <= level,
    ;
}

/// `stat_cap` grows with the level.
pub proof fn lemma_stat_cap_level_monotone(stat: u16, l1: u16, l2: u16)
    requires
        l1 <= l2,
    ensures
        stat_cap(stat, l1) <= stat_cap(stat, l2),
{
    assert(stat as int * l1 as int <= stat as int * l2 as int) by (nonlinear_arith)
        requires
            l1 <= l2,
            0 <= stat,
    ;
}

/// `log` is `before` with one more event `txt` at `time`: a repeat of the last
/// event bumps its counter instead.
pub open spec fn logged(log: Seq<(u32, String, usize)>, before: Seq<(u32, String, usize)>, txt: Seq<char>, time: u32) -> bool {
    if before.len() > 0 && before.last().1@ == txt {
        log == before.update(
            before.len() - 1,
            (time, before.last().1, if before.last().2 < usize::MAX { (before.last().2 + 1) as usize } else { usize::MAX }),
        )
    } else {
        &&& log.len() == before.len() + 1
        &&& log.drop_last() == before
        &&& log.last().0 == time
        &&& log.last().1@ == txt
        &&& log.last().2 == 1
    }
}

/// Items of `items` an agent standing at `pos` leaves on the ground.
pub open spec fn left_behind(items: Seq<Item>, pos: (u16, u16)) -> Seq<Item>
    decreases items.len(),
{
    if items.len() == 0 {
        seq![]
    } else {
        let rest = left_behind(items.drop_last(), pos);
        if items.last().pos == pos && items.last().can_get {
            rest
        } else {
            rest.push(items.last())
        }
    }
}

/// Items of `items` an agent standing at `pos` picks up and keeps, in order.
pub open spec fn kept_pickups(items: Seq<Item>, pos: (u16, u16)) -> Seq<Item>
    decreases items.len(),
{
    if items.len() == 0 {
        seq![]
    } else {
        let rest = kept_pickups(items.drop_last(), pos);
        if items.last().pos == pos && items.last().can_get && items.last().can_keep {
            rest.push(items.last())
        } else {
            rest
        }
    }
}

/// No item of the list is a door or a tree (the kinds a cell holds only once).
pub open spec fn no_unique_kinds(items: Seq<Item>) -> bool {
    forall|k: int| 0 <= k < items.len() ==> items[k].kind != ITEM_DOOR && items[k].kind != ITEM_TREE
}

/// `after` is `before` followed by the items of `inv`, last one first
/// (as far as their kinds go; each lands on its own cell).
pub open spec fn scattered(after: Seq<Item>, before: Seq<Item>, inv: Seq<Item>) -> bool {
    &&& after.len() == before.len() + inv.len()
    &&& after.subrange(0, before.len() as int) == before
    &&& forall|j: int| before.len() <= j < after.len() ==> (#[trigger] after[j]).kind == inv[before.len() + inv.len() - 1 - j].kind
}

/// Damage of one hit: `strength * level`, saturated at the largest `u16`.
pub open spec fn hit_damage(strength: u16, level: u16) -> u16 {
    let p = strength as int * level as int;
    if p > 65535 {
        65535
    } else {
        p as u16
    }
}

/// Nothing at `pos` can be picked up, so nothing is kept from there.
pub proof fn lemma_no_pickups(items: Seq<Item>, pos: (u16, u16))
    requires
        forall|i: int| 0 <= i < items.len() && items[i].pos == pos ==> !items[i].can_get,
    ensures
        kept_pickups(items, pos) == Seq::<Item>::empty(),
    decreases items.len(),
{
    if items.len() > 0 {
        lemma_no_pickups(items.drop_last(), pos);
    }
}

/// Dropping the last carried item onto a cell where nothing else can be
/// picked up, then picking up from that cell, gives back the same inventory:
/// `act_drop_item` leaves `inventory.drop_last()` and appends the item at the
/// target cell to the map; `act_get` appends what is kept from the cell. The
/// item comes back carrying the position where it lay.
pub proof fn lemma_drop_then_pick_up(inventory: Seq<Item>, items: Seq<Item>, target: (u16, u16))
    requires
        inventory.len() > 0,
        inventory.last().can_get,
        inventory.last().can_keep,
        forall|i: int| 0 <= i < items.len() && items[i].pos == target ==> !items[i].can_get,
    ensures
        ({
            let after = inventory.drop_last() + kept_pickups(items.push(Item { pos: target, ..inventory.last() }), target);
            &&& after.len() == inventory.len()
            &&& after.drop_last() == inventory.drop_last()
            &&& after.last() == (Item { pos: target, ..inventory.last() })
        }),
{
    let dropped = Item { pos: target, ..inventory.last() };
    lemma_no_pickups(items, target);
    assert(items.push(dropped).drop_last() =~= items);
    assert(kept_pickups(items.push(dropped), target) =~= seq![dropped]);
    assert((inventory.drop_last() + seq![dropped]).drop_last() =~= inventory.drop_last());
}

/// Names of passive skills start with `passive`.
pub open spec fn is_passive_name(s: Seq<char>) -> bool {
    "passive"@.len() <= s.len() && s.subrange(0, "passive"@.len() as int) == "passive"@
}

/// Place `u` steps after `p` on a cycle of `n` places (`u < n`).
pub open spec fn cyclic(p: int, u: int, n: int) -> int {
    if p + u < n {
        p + u
    } else {
        p + u - n
    }
}

/// Whether `s` is among `skills`.
pub open spec fn lists_skill(skills: Seq<String>, s: Seq<char>) -> bool {
    exists|i: int| 0 <= i < skills.len() && skills[i]@ == s
}

impl Actor {
    pub open spec fn spec_max_health(&self) -> u16 {
        stat_cap(self.con, self.level)
    }

    pub open spec fn spec_max_mana(&self) -> u16 {
        stat_cap(self.intel, self.level)
    }

    /// Health and mana within their maxima, a positive cadence, a proper facing,
    /// and a stun counter that is never negative.
    pub open spec fn wf(&self) -> bool {
        &&& self.health <= self.spec_max_health()
        &&& self.mana <= self.spec_max_mana()
        &&& self.move_lag >= 1
        &&& self.direction < 8
        &&& self.stun >= 0
    }

    /// `max(1, con * level)`.
    #[verifier::when_used_as_spec(spec_max_health)]
    pub fn max_health(&self) -> (r: u16)
        ensures
            r == self.spec_max_health(),
    {
        compute_cap(self.con, self.level)
    }

    /// `max(1, intel * level)`.
    #[verifier::when_used_as_spec(spec_max_mana)]
    pub fn max_mana(&self) -> (r: u16)
        ensures
            r == self.spec_max_mana(),
    {
        compute_cap(self.intel, self.level)
    }

    pub open spec fn spec_is_alive(&self) -> bool {
        self.health > 0
    }

    #[verifier::when_used_as_spec(spec_is_alive)]
    pub fn is_alive(&self) -> (r: bool)
        ensures
            r == self.spec_is_alive(),
    {
        self.health > 0
    }

    pub open spec fn spec_is_projectile(&self) -> bool {
        50 <= self.kind < 60
    }

    /// Projectile kinds are 50 to 59.
    #[verifier::when_used_as_spec(spec_is_projectile)]
    pub fn is_projectile(&self) -> (r: bool)
        ensures
            r == self.spec_is_projectile(),
    {
        self.kind >= 50 && self.kind < 60
    }

    pub open spec fn spec_is_combatant(&self) -> bool {
        !self.spec_is_projectile() && self.spec_is_alive()
    }

    /// A living agent that is not a projectile.
    #[verifier::when_used_as_spec(spec_is_combatant)]
    pub fn is_combatant(&self) -> (r: bool)
        ensures
            r == self.spec_is_combatant(),
    {
        !self.is_projectile() && self.is_alive()
    }

    pub open spec fn spec_is_blocking(&self, pos: (u16, u16)) -> bool {
        self.spec_is_combatant() && self.pos == pos
    }

    /// A combatant standing at `pos`.
    #[verifier::when_used_as_spec(spec_is_blocking)]
    pub fn is_blocking(&self, pos: (u16, u16)) -> (r: bool)
        ensures
            r == self.spec_is_blocking(pos),
    {
        self.is_combatant() && same_pos(self.pos, pos)
    }

    pub open spec fn spec_is_mobile(&self) -> bool {
        !self.walls@.contains('.')
    }

    /// Mobile unless its walls hold the floor glyph.
    #[verifier::when_used_as_spec(spec_is_mobile)]
    pub fn is_mobile(&self) -> (r: bool)
        ensures
            r == self.spec_is_mobile(),
    {
        !contains_char(self.walls.as_str(), '.')
    }

    pub open spec fn spec_is_undead(&self) -> bool {
        self.kind == 4 || self.kind == 12
    }

    #[verifier::when_used_as_spec(spec_is_undead)]
    pub fn is_undead(&self) -> (r: bool)
        ensures
            r == self.spec_is_undead(),
    {
        self.kind == 4 || self.kind == 12
    }

    pub open spec fn spec_is_flesh(&self) -> bool {
        !self.spec_is_projectile() && !self.spec_is_undead() && self.spec_is_mobile()
    }

    /// Organic: bleeds, leaves a corpse.
    #[verifier::when_used_as_spec(spec_is_flesh)]
    pub fn is_flesh(&self) -> (r: bool)
        ensures
            r == self.spec_is_flesh(),
    {
        !self.is_projectile() && !self.is_undead() && self.is_mobile()
    }

    pub open spec fn spec_is_enemy_of(&self, team: usize) -> bool {
        self.team != team && self.spec_is_alive()
    }

    /// Alive and of another team.
    #[verifier::when_used_as_spec(spec_is_enemy_of)]
    pub fn is_enemy_of(&self, team: usize) -> (r: bool)
        ensures
            r == self.spec_is_enemy_of(team),
    {
        self.team != team && self.is_alive()
    }

    pub open spec fn spec_is_playable(&self) -> bool {
        self.team == 0 && self.spec_is_alive() && self.spec_is_mobile() && !self.spec_is_projectile()
    }

    /// An agent the player can take control of.
    #[verifier::when_used_as_spec(spec_is_playable)]
    pub fn is_playable(&self) -> (r: bool)
        ensures
            r == self.spec_is_playable(),
    {
        self.team == 0 && self.is_alive() && self.is_mobile() && !self.is_projectile()
    }

    pub open spec fn spec_is_hurt(&self) -> bool {
        self.health < self.spec_max_health() / 2
    }

    /// Below half health.
    #[verifier::when_used_as_spec(spec_is_hurt)]
    pub fn is_hurt(&self) -> (r: bool)
        ensures
            r == self.spec_is_hurt(),
    {
        self.health < self.max_health() / 2
    }

    pub open spec fn spec_has_skill(&self, skill: Seq<char>) -> bool {
        lists_skill(self.skills@, skill)
    }

    /// Whether the skill list names `skill`.
    pub fn has_skill(&self, skill: &str) -> (r: bool)
        ensures
            r == self.spec_has_skill(skill@),
    {
        let mut i: usize = 0;
        while i < self.skills.len()
            invariant
                i <= self.skills@.len(),
                forall|j: int| 0 <= j < i ==> self.skills@[j]@ != skill@,
            decreases self.skills@.len() - i,
        {
            if str_eq(self.skills[i].as_str(), skill) {
                return true;
            }
            i += 1;
        }
        false
    }

    pub open spec fn spec_is_important(&self) -> bool {
        self.team == 0 || self.is_persistent || self.is_leader
    }

    /// Deaths of important agents are announced to everyone.
    #[verifier::when_used_as_spec(spec_is_important)]
    pub fn is_important(&self) -> (r: bool)
        ensures
            r == self.spec_is_important(),
    {
        self.team == 0 || self.is_persistent || self.is_leader
    }

    pub open spec fn spec_is_near(&self, pos: (u16, u16)) -> bool {
        let dx = self.pos.0 - pos.0;
        let dy = self.pos.1 - pos.1;
        dx * dx + dy * dy <= 18
    }

    /// Within a radius of about four cells.
    #[verifier::when_used_as_spec(spec_is_near)]
    pub fn is_near(&self, pos: (u16, u16)) -> (r: bool)
        ensures
            r == self.spec_is_near(pos),
    {
        let dx: i32 = self.pos.0 as i32 - pos.0 as i32;
        let dy: i32 = self.pos.1 as i32 - pos.1 as i32;
        if dx > 4 || dx < -4 || dy > 4 || dy < -4 {
            assert(dx * dx + dy * dy > 18) by (nonlinear_arith)
                requires
                    dx > 4 || dx < -4 || dy > 4 || dy < -4,
            ;
            return false;
        }
        assert(0 <= dx * dx <= 16 && 0 <= dy * dy <= 16) by (nonlinear_arith)
            requires
                -4 <= dx <= 4,
                -4 <= dy <= 4,
        ;
        dx * dx + dy * dy <= 18
    }

    pub open spec fn spec_is_ready_to_act(&self, time: u32) -> bool {
        self.spec_is_alive() && (time as int + self.random_seed as int) % (self.move_lag as int) == 0
    }

    /// Alive, and its cadence fires at `time`.
    #[verifier::when_used_as_spec(spec_is_ready_to_act)]
    pub fn is_ready_to_act(&self, time: u32) -> (r: bool)
        requires
            self.move_lag >= 1,
        ensures
            r == self.spec_is_ready_to_act(time),
    {
        self.is_alive() && (time as u64 + self.random_seed as u64) % (self.move_lag as u64) == 0
    }

    /// Display glyph: `x` when dead, lowercase while stunned.
    pub fn glyph(&self) -> (r: char)
        ensures
            !self.spec_is_alive() ==> r == 'x',
            self.spec_is_alive() && self.stun == 0 ==> r == self.glyph,
            self.spec_is_alive() && self.stun != 0 ==> r == lower_of(self.glyph),
    {
        if !self.is_alive() {
            return 'x';
        } else if self.stun == 0 {
            return self.glyph;
        }
        lowercase_char(self.glyph)
    }

    /// Records an event; a repeat of the last one bumps its counter.
    pub fn log_event(&mut self, txt: &str, time: u32)
        ensures
            logged(final(self).log@, old(self).log@, txt@, time),
            *final(self) == (Actor { log: final(self).log, ..*old(self) }),
    {
        let n = self.log.len();
        if n > 0 && str_eq(self.log[n - 1].1.as_str(), txt) {
            let count = self.log[n - 1].2;
            let bumped = if count < usize::MAX { count + 1 } else { usize::MAX };
            let text = self.log[n - 1].1.clone();
            self.log.set(n - 1, (time, text, bumped));
            assert(self.log@ =~= old(self).log@.update(n - 1, (time, old(self).log@.last().1, bumped)));
            return;
        }
        self.log.push((time, String::from_str(txt), 1));
        assert(self.log@.drop_last() =~= old(self).log@);
    }

    /// Records "I <verb>" at the agent's own time.
    pub fn log_action(&mut self, verb: &str)
        ensures
            logged(final(self).log@, old(self).log@, "I "@ + verb@, old(self).time),
            *final(self) == (Actor { log: final(self).log, ..*old(self) }),
    {
        let time = self.time;
        let txt = join("I ", verb);
        self.log_event(txt.as_str(), time);
    }

    /// Records an interaction in both agents' logs, at the later of their times.
    pub fn log_interaction(&mut self, verb: &str, other: &mut Actor)
        ensures
            ({
                let time = if old(self).time >= old(other).time { old(self).time } else { old(other).time };
                &&& logged(final(self).log@, old(self).log@, "I "@ + verb@ + " "@ + old(other).name@ + "."@, time)
                &&& logged(final(other).log@, old(other).log@, sentence_case_of(old(self).name@) + " "@ + verb@ + " me!"@, time)
            }),
            *final(self) == (Actor { log: final(self).log, ..*old(self) }),
            *final(other) == (Actor { log: final(other).log, ..*old(other) }),
    {
        let time = if self.time >= other.time { self.time } else { other.time };
        let capitalized_name = sentence_case(self.name.as_str());
        let mine = join3("I ", verb, " ").concat(other.name.as_str()).concat(".");
        self.log_event(mine.as_str(), time);
        let theirs = join3(capitalized_name.as_str(), " ", verb).concat(" me!");
        other.log_event(theirs.as_str(), time);
        assert(mine@ =~= "I "@ + verb@ + " "@ + old(other).name@ + "."@);
        assert(theirs@ =~= sentence_case_of(old(self).name@) + " "@ + verb@ + " me!"@);
    }

    /// Selects the first skill named `skill`; an unknown name changes nothing.
    pub fn select_skill(&mut self, skill: &str)
        ensures
            old(self).spec_has_skill(skill@) ==> final(self).skill_idx < old(self).skills@.len()
                && old(self).skills@[final(self).skill_idx as int]@ == skill@
                && forall|j: int| 0 <= j < final(self).skill_idx ==> old(self).skills@[j]@ != skill@,
            !old(self).spec_has_skill(skill@) ==> final(self).skill_idx == old(self).skill_idx,
            *final(self) == (Actor { skill_idx: final(self).skill_idx, ..*old(self) }),
    {
        let mut i: usize = 0;
        while i < self.skills.len()
            invariant
                *self == *old(self),
                i <= self.skills@.len(),
                forall|j: int| 0 <= j < i ==> self.skills@[j]@ != skill@,
            decreases self.skills@.len() - i,
        {
            if str_eq(self.skills[i].as_str(), skill) {
                self.skill_idx = i;
                return;
            }
            i += 1;
        }
    }

    pub open spec fn spec_selected_skill(&self) -> Seq<char> {
        if self.skill_idx < self.skills@.len() {
            self.skills@[self.skill_idx as int]@
        } else {
            Seq::empty()
        }
    }

    /// Name of the selected skill, empty when none is selected.
    pub fn selected_skill(&self) -> (r: String)
        ensures
            r@ == self.spec_selected_skill(),
    {
        if self.skill_idx < self.skills.len() {
            self.skills[self.skill_idx].clone()
        } else {
            String::new()
        }
    }

    /// Cycles to the next skill that is not passive (one whose name starts
    /// with `passive`), and says so.
    pub fn next_skill(&mut self)
        ensures
            old(self).skills@.len() == 0 ==> *final(self) == *old(self),
            old(self).skills@.len() > 0 ==> final(self).skill_idx < old(self).skills@.len(),
            *final(self) == (Actor { skill_idx: final(self).skill_idx, log: final(self).log, ..*old(self) }),
            (exists|j: int| 0 <= j < old(self).skills@.len() && !is_passive_name(#[trigger] old(self).skills@[j]@)) ==> !is_passive_name(
                final(self).spec_selected_skill(),
            ),
    {
        let n = self.skills.len();
        if n == 0 {
            return;
        }
        let p: usize = if self.skill_idx < n - 1 { self.skill_idx + 1 } else { 0 };
        let mut t: usize = 0;
        let mut found = false;
        let mut chosen: usize = p;
        while t < n && !found
            invariant
                n == self.skills@.len(),
                p < n,
                t <= n,
                chosen < n,
                *self == *old(self),
                found ==> !is_passive_name(self.skills@[chosen as int]@),
                forall|u: int| 0 <= u < t ==> is_passive_name(#[trigger] self.skills@[cyclic(p as int, u, n as int)]@),
            decreases n - t + if found { 0int } else { 1int },
        {
            let j: usize = if t < n - p { p + t } else { t - (n - p) };
            assert(j == cyclic(p as int, t as int, n as int));
            if !starts_with(self.skills[j].as_str(), "passive") {
                chosen = j;
                found = true;
            } else {
                t += 1;
            }
        }
        proof {
            if !found {
                assert forall|j: int| 0 <= j < n implies is_passive_name(#[trigger] self.skills@[j]@) by {
                    let u = if j >= p { j - p } else { j + n - p };
                    assert(cyclic(p as int, u, n as int) == j);
                }
            }
        }
        self.skill_idx = chosen;
        let skill = self.selected_skill();
        let msg = join3("switched to ", skill.as_str(), ".");
        self.log_action(msg.as_str());
    }

    /// Lists the inventory in the log.
    pub fn inventory(&mut self)
        ensures
            *final(self) == (Actor { log: final(self).log, ..*old(self) }),
            final(self).log@.len() >= old(self).log@.len(),
    {
        self.log_action("turned out my pockets.");
        let mut i: usize = 0;
        while i < self.inventory.len()
            invariant
                i <= self.inventory@.len(),
                *self == (Actor { log: self.log, ..*old(self) }),
                self.log@.len() >= old(self).log@.len(),
            decreases self.inventory@.len() - i,
        {
            let msg = join3("had ", self.inventory[i].name.as_str(), ".");
            self.log_action(msg.as_str());
            i += 1;
        }
    }

    /// Loses up to `amt` momentum, never below zero.
    pub fn lose_momentum(&mut self, amt: u8)
        ensures
            final(self).momentum == old(self).momentum - if old(self).momentum < amt { old(self).momentum } else { amt },
            *final(self) == (Actor { momentum: final(self).momentum, ..*old(self) }),
    {
        self.momentum = self.momentum - if self.momentum < amt { self.momentum } else { amt };
    }

    /// Gains momentum: at least one afterwards.
    pub fn gain_momentum(&mut self, _amt: u8)
        ensures
            final(self).momentum == if old(self).momentum >= 1 { old(self).momentum } else { 1 },
            *final(self) == (Actor { momentum: final(self).momentum, ..*old(self) }),
    {
        if self.momentum < 1 {
            self.momentum = 1;
        }
    }

    /// Knocked down for `amt` ticks; loses one momentum.
    pub fn stun(&mut self, amt: i16)
        requires
            amt >= 0,
        ensures
            final(self).stun == amt,
            final(self).momentum == old(self).momentum - if old(self).momentum < 1 { old(self).momentum } else { 1 },
            *final(self) == (Actor { stun: amt, momentum: final(self).momentum, ..*old(self) }),
    {
        self.stun = amt;
        self.lose_momentum(1);
    }

    /// Spends up to `amt` mana, never below zero, and logs the action.
    pub fn act_exert(&mut self, amt: u16, action: &str)
        ensures
            final(self).mana == old(self).mana - if old(self).mana < amt { old(self).mana } else { amt },
            logged(final(self).log@, old(self).log@, "I "@ + action@, old(self).time),
            *final(self) == (Actor { mana: final(self).mana, log: final(self).log, ..*old(self) }),
    {
        self.mana = self.mana - if self.mana < amt { self.mana } else { amt };
        self.log_action(action);
    }

    /// One tick of recovery: a stunned agent gets one tick closer to standing,
    /// and health grows by `amt` up to its maximum.
    pub fn recover(&mut self, amt: u16)
        requires
            old(self).wf(),
        ensures
            final(self).wf(),
            final(self).stun == if old(self).stun > 0 { old(self).stun - 1 } else { old(self).stun as int },
            final(self).health == if old(self).health as int + amt as int > old(self).spec_max_health() {
                old(self).spec_max_health() as int
            } else {
                old(self).health + amt
            },
            *final(self) == (Actor { stun: final(self).stun, health: final(self).health, log: final(self).log, ..*old(self) }),
    {
        if self.stun > 0 {
            self.stun = self.stun - 1;
            if self.stun == 0 {
                self.log_action("managed to get up.");
            } else {
                self.log_action("struggled on the ground.");
            }
        }
        let max = self.max_health();
        let sum: u32 = self.health as u32 + amt as u32;
        self.health = if sum > max as u32 { max } else { sum as u16 };
    }

    /// A living agent is restored to full health and mana.
    pub fn recover_fully(&mut self)
        requires
            old(self).wf(),
        ensures
            final(self).wf(),
            old(self).spec_is_alive() ==> *final(self) == (Actor {
                health: old(self).spec_max_health(),
                mana: old(self).spec_max_mana(),
                ..*old(self)
            }),
            !old(self).spec_is_alive() ==> *final(self) == *old(self),
    {
        if self.is_alive() {
            self.health = self.max_health();
            self.mana = self.max_mana();
        }
    }

    /// The body of an agent: who it is and where it stands.
    pub open spec fn same_body(&self, other: &Actor) -> bool {
        &&& self.kind == other.kind
        &&& self.team == other.team
        &&& self.pos == other.pos
        &&& self.level == other.level
        &&& self.direction == other.direction
        &&& self.time == other.time
    }

    /// Lowers health and mana to their maxima.
    fn clamp_vitals(&mut self)
        requires
            old(self).move_lag >= 1,
            old(self).direction < 8,
            old(self).stun >= 0,
        ensures
            final(self).wf(),
            *final(self) == (Actor { health: final(self).health, mana: final(self).mana, ..*old(self) }),
            final(self).health == if old(self).health > old(self).spec_max_health() { old(self).spec_max_health() } else { old(self).health },
            final(self).mana == if old(self).mana > old(self).spec_max_mana() { old(self).spec_max_mana() } else { old(self).mana },
    {
        let mh = self.max_health();
        let mm = self.max_mana();
        if self.health > mh {
            self.health = mh;
        }
        if self.mana > mm {
            self.mana = mm;
        }
    }

    /// Reapplies the effects of every carried item.
    fn initialize_inventory(&mut self)
        requires
            old(self).wf(),
        ensures
            final(self).wf(),
            final(self).same_body(old(self)),
            final(self).inventory == old(self).inventory,
            final(self).skills == old(self).skills,
            final(self).name == old(self).name,
            final(self).glyph == old(self).glyph,
            final(self).strength == old(self).strength,
            final(self).log == old(self).log,
            final(self).momentum == old(self).momentum,
            final(self).stun == old(self).stun,
            final(self).is_leader == old(self).is_leader,
            final(self).is_persistent == old(self).is_persistent,
            final(self).random_seed == old(self).random_seed,
            final(self).skill_idx == old(self).skill_idx,
            old(self).inventory@.len() == 0 ==> *final(self) == *old(self),
            old(self).health >= 1 ==> final(self).health >= 1,
            final(self).con >= old(self).con,
            final(self).intel >= old(self).intel,
            final(self).move_lag <= old(self).move_lag,
    {
        let mut i: usize = 0;
        while i < self.inventory.len()
            invariant
                self.wf(),
                i <= self.inventory@.len(),
                self.same_body(old(self)),
                self.inventory == old(self).inventory,
                self.skills == old(self).skills,
                self.name == old(self).name,
                self.glyph == old(self).glyph,
                self.strength == old(self).strength,
                self.log == old(self).log,
                self.momentum == old(self).momentum,
                self.stun == old(self).stun,
                self.is_leader == old(self).is_leader,
                self.is_persistent == old(self).is_persistent,
                self.random_seed == old(self).random_seed,
                old(self).inventory@.len() == 0 ==> *self == *old(self),
                old(self).health >= 1 ==> self.health >= 1,
                self.skill_idx == old(self).skill_idx,
                self.con >= old(self).con,
                self.intel >= old(self).intel,
                self.move_lag <= old(self).move_lag,
            decreases self.inventory@.len() - i,
        {
            let kind = self.inventory[i].kind;
            use_on_actor(self, kind);
            i += 1;
        }
    }

    /// Takes the stats of an agent kind from the table, keeping a given name,
    /// then reapplies the carried items; health and mana are capped at the new maxima.
    pub fn initialize(&mut self, kind: u8, catalog: &Catalog)
        requires
            old(self).wf(),
            catalog.wf(),
        ensures
            final(self).wf(),
            final(self).team == old(self).team,
            final(self).pos == old(self).pos,
            final(self).level == old(self).level,
            final(self).direction == old(self).direction,
            final(self).time == old(self).time,
            final(self).inventory == old(self).inventory,
            final(self).log == old(self).log,
            final(self).momentum == old(self).momentum,
            final(self).stun == old(self).stun,
            final(self).is_leader == old(self).is_leader,
            final(self).is_persistent == old(self).is_persistent,
            final(self).random_seed == old(self).random_seed,
            final(self).health <= old(self).health || old(self).inventory@.len() > 0,
            old(self).health >= 1 ==> final(self).health >= 1,
            final(self).skill_idx == old(self).skill_idx,
            old(self).inventory@.len() == 0 ==> final(self).invis == old(self).invis,
            catalog.has_actor(kind) ==> {
                let row = catalog.actor_row(kind);
                &&& final(self).kind == kind
                &&& final(self).glyph == row.glyph
                &&& final(self).strength == row.strength
                &&& final(self).skills@ == row.skills@
                &&& old(self).name@.len() == 0 ==> final(self).name@ == row.name@
                &&& old(self).name@.len() > 0 ==> final(self).name == old(self).name
                &&& final(self).con >= row.con
                &&& final(self).intel >= row.intel
                &&& final(self).move_lag <= row.move_lag
                &&& old(self).inventory@.len() == 0 ==> {
                    &&& final(self).con == row.con
                    &&& final(self).intel == row.intel
                    &&& final(self).move_lag == row.move_lag
                    &&& final(self).walls@ == row.walls@
                }
            },
            !catalog.has_actor(kind) ==> final(self).kind == old(self).kind && final(self).skills@.len() == 0,
    {
        self.skills = Vec::new();
        if let Some(i) = catalog.find_actor(kind) {
            let row = &catalog.actors[i];
            self.kind = kind;
            self.glyph = row.glyph;
            self.walls = row.walls.clone();
            if self.name.as_str().unicode_len() == 0 {
                self.name = row.name.clone();
            }
            self.move_lag = row.move_lag;
            self.skills = clone_strings(&row.skills);
            self.strength = row.strength;
            self.con = row.con;
            self.intel = row.intel;
        }
        self.clamp_vitals();
        self.initialize_inventory();
    }

    /// A fresh agent of a kind the table lists, at full health and mana.
    pub fn new(kind: u8, level: u16, team: usize, pos: (u16, u16), catalog: &Catalog) -> (r: Actor)
        requires
            catalog.wf(),
            catalog.has_actor(kind),
        ensures
            r.wf(),
            r.kind == kind,
            r.level == level,
            r.team == team,
            r.pos == pos,
            r.health == r.spec_max_health(),
            r.mana == r.spec_max_mana(),
            r.spec_is_alive(),
            r.direction == 0,
            r.time == 1,
            r.momentum == 0,
            r.stun == 0,
            r.invis == 0,
            r.skill_idx == 0,
            r.inventory@.len() == 0,
            r.log@.len() == 0,
            !r.is_leader,
            !r.is_persistent,
            catalog.has_actor(kind) ==> {
                let row = catalog.actor_row(kind);
                &&& r.glyph == row.glyph
                &&& r.strength == row.strength
                &&& r.con == row.con
                &&& r.intel == row.intel
                &&& r.move_lag == row.move_lag
                &&& r.skills@ == row.skills@
                &&& r.walls@ == row.walls@
                &&& r.name@ == row.name@
            },
    {
        let mut actor = Actor {
            kind,
            pos,
            level,
            team,
            direction: 0,
            health: 1,
            strength: 1,
            con: 1,
            intel: 1,
            mana: 1,
            name: String::new(),
            walls: String::new(),
            random_seed: rand_int(65535),
            is_leader: false,
            stun: 0,
            glyph: '?',
            move_lag: 1,
            is_persistent: false,
            momentum: 0,
            skill_idx: 0,
            skills: Vec::new(),
            time: 1,
            log: Vec::new(),
            inventory: Vec::new(),
            invis: 0,
        };
        actor.initialize(kind, catalog);
        actor.recover_fully();
        actor
    }

    /// The agent's death: no health, no inventory, no leadership, and the
    /// marker that its death was handled.
    pub open spec fn died_from(&self, before: &Actor) -> bool {
        &&& self.health == 0
        &&& self.inventory@.len() == 0
        &&& !self.is_leader
        &&& self.invis == -1
        &&& self.kind == before.kind
        &&& self.team == before.team
        &&& self.pos == before.pos
        &&& self.level == before.level
    }

    /// What a death did to the map: one announcement (none for a projectile);
    /// the carried items scattered onto the map when none is a door or tree;
    /// then a corpse on the agent's cell if it is organic, and nothing more if not.
    pub open spec fn death_effects(&self, before: &Actor, w1: &World, w0: &World) -> bool {
        &&& self.died_from(before)
        &&& w1.wf()
        &&& w1.size == w0.size
        &&& w1.exits == w0.exits
        &&& w1.catalog == w0.catalog
        &&& w1.log@.len() == w0.log@.len() + if before.spec_is_projectile() { 0int } else { 1int }
        &&& self.spec_is_flesh() ==> w1.items@.len() > 0 && w1.items@.last().kind == 0 && w1.items@.last().pos == before.pos
        &&& no_unique_kinds(before.inventory@) && self.spec_is_flesh() ==> scattered(w1.items@.drop_last(), w0.items@, before.inventory@)
        &&& no_unique_kinds(before.inventory@) && !self.spec_is_flesh() ==> scattered(w1.items@, w0.items@, before.inventory@)
    }

    /// Drops the last carried item on the cell ahead (one geometric step along
    /// the facing, clipped at the map's edge), then takes the kind's
    /// stats afresh since passive effects may have changed.
    pub fn act_drop_item(&mut self, world: &mut World)
        requires
            old(self).wf(),
            old(world).wf(),
        ensures
            final(self).wf(),
            final(world).wf(),
            final(self).kind == old(self).kind,
            final(self).team == old(self).team,
            final(self).pos == old(self).pos,
            final(self).level == old(self).level,
            final(self).direction == old(self).direction,
            final(self).is_leader == old(self).is_leader,
            final(self).stun == old(self).stun,
            final(self).momentum == old(self).momentum,
            final(world).size == old(world).size,
            final(world).tiles == old(world).tiles,
            final(world).exits == old(world).exits,
            final(world).log == old(world).log,
            final(world).catalog == old(world).catalog,
            old(self).inventory@.len() == 0 ==> *final(world) == *old(world) && *final(self) == (Actor { log: final(self).log, ..*old(self) }),
            old(self).inventory@.len() > 0 ==> {
                let q = old(world).spec_offset(old(self).pos, old(self).direction);
                let it = old(self).inventory@.last();
                &&& final(self).inventory@ == old(self).inventory@.drop_last()
                &&& !World::blocks_duplicate(old(world).items@, it.kind, q) ==> final(world).items@ == old(world).items@.push(Item { pos: q, ..it })
                &&& World::blocks_duplicate(old(world).items@, it.kind, q) ==> final(world).items == old(world).items
            },
            old(self).health == 0 && old(self).inventory@.len() <= 1 ==> final(self).health == 0,
    {
        if self.inventory.len() > 0 {
            let item = match self.inventory.pop() {
                Some(it) => it,
                None => {
                    return;
                },
            };
            let msg = join3("dropped ", item.name.as_str(), ".");
            self.log_action(msg.as_str());
            let pos = world.offset(self.pos, self.direction);
            world.add_item(item, pos);
            let kind = self.kind;
            self.initialize(kind, &world.catalog);
            return;
        }
        self.log_action("had nothing to drop.");
    }

    /// Drops everything, turning a little between items so they scatter.
    pub fn act_drop_all(&mut self, world: &mut World)
        requires
            old(self).wf(),
            old(world).wf(),
        ensures
            final(self).wf(),
            final(world).wf(),
            final(self).inventory@.len() == 0,
            final(self).kind == old(self).kind,
            final(self).team == old(self).team,
            final(self).pos == old(self).pos,
            final(self).level == old(self).level,
            final(self).is_leader == old(self).is_leader,
            final(world).size == old(world).size,
            final(world).exits == old(world).exits,
            final(world).log == old(world).log,
            final(world).catalog == old(world).catalog,
            old(self).inventory@.len() == 0 ==> *final(world) == *old(world),
            no_unique_kinds(old(self).inventory@) ==> scattered(final(world).items@, old(world).items@, old(self).inventory@),
    {
        let ghost n = self.inventory@.len();
        assert(old(world).items@.subrange(0, old(world).items@.len() as int) =~= old(world).items@);
        assert(self.inventory@.subrange(0, n as int) =~= self.inventory@);
        while !self.inventory.is_empty()
            invariant
                n == old(self).inventory@.len(),
                self.inventory@.len() <= n,
                self.inventory@ == old(self).inventory@.subrange(0, self.inventory@.len() as int),
                no_unique_kinds(old(self).inventory@) ==> scattered(world.items@, old(world).items@,
                    old(self).inventory@.subrange(self.inventory@.len() as int, n as int)),
                self.wf(),
                world.wf(),
                self.kind == old(self).kind,
                self.team == old(self).team,
                self.pos == old(self).pos,
                self.level == old(self).level,
                self.is_leader == old(self).is_leader,
                world.size == old(world).size,
                world.exits == old(world).exits,
                world.log == old(world).log,
                world.catalog == old(world).catalog,
                old(self).inventory@.len() == 0 ==> *world == *old(world),
                old(self).inventory@.len() == 0 ==> self.inventory@.len() == 0,
            decreases self.inventory@.len(),
        {
            let ghost m = self.inventory@.len() as int;
            let ghost w0 = world.items@;
            proof {
                assert(self.inventory@.last() == old(self).inventory@[m - 1]);
            }
            self.act_drop_item(world);
            self.direction = (self.direction + 1) % 8;
            proof {
                assert(self.inventory@ =~= old(self).inventory@.subrange(0, m - 1));
                if no_unique_kinds(old(self).inventory@) {
                    let inv0 = old(self).inventory@.subrange(m, n as int);
                    let inv1 = old(self).inventory@.subrange(m - 1, n as int);
                    let b = old(world).items@;
                    assert(old(self).inventory@[m - 1].kind != ITEM_DOOR && old(self).inventory@[m - 1].kind != ITEM_TREE);
                    assert(world.items@ == w0.push(Item { pos: world.items@.last().pos, ..old(self).inventory@[m - 1] }));
                    assert(world.items@.subrange(0, b.len() as int) =~= w0.subrange(0, b.len() as int));
                    assert forall|j: int| b.len() <= j < world.items@.len() implies (#[trigger] world.items@[j]).kind == inv1[b.len()
                        + inv1.len() - 1 - j].kind by {
                        if j < w0.len() {
                            assert(world.items@[j] == w0[j]);
                            assert(inv1[b.len() + inv1.len() - 1 - j] == inv0[b.len() + inv0.len() - 1 - j]);
                        }
                    }
                }
            }
        }
        assert(old(self).inventory@.subrange(0, n as int) =~= old(self).inventory@);
    }

    /// Death: health drops to zero, the death is announced, the inventory is
    /// scattered, and an organic body leaves a corpse and blood behind.
    pub fn act_die(&mut self, world: &mut World)
        requires
            old(self).wf(),
            old(world).wf(),
        ensures
            final(self).wf(),
            final(self).death_effects(old(self), final(world), old(world)),
    {
        self.health = 0;
        if !self.is_projectile() {
            let verb = if self.is_flesh() { "died" } else { "collapsed" };
            let name = sentence_case(self.name.as_str());
            let msg = join3(name.as_str(), " ", verb).concat("!");
            let important = self.is_important();
            world.log_global(msg.as_str(), self.pos, important);
        }
        self.act_drop_all(world);
        self.health = 0;
        self.is_leader = false;
        if self.is_flesh() {
            let corpse = Item::new(0, self.level, self.team, &world.catalog);
            let ghost scattered_items = world.items@;
            world.add_item(corpse, self.pos);
            world.change_tiles(self.pos, TILE_BLOOD);
            assert(world.items@.drop_last() =~= scattered_items);
        }
        self.invis = -1;
    }

    /// Takes `amt` damage; damage at or above the remaining health kills,
    /// and a dead agent is left alone, so death happens once.
    pub fn hurt(&mut self, amt: u16, world: &mut World)
        requires
            old(self).wf(),
            old(world).wf(),
        ensures
            final(self).wf(),
            final(world).wf(),
            !old(self).spec_is_alive() ==> *final(self) == *old(self) && *final(world) == *old(world),
            old(self).spec_is_alive() && amt < old(self).health ==> *final(self) == (Actor {
                health: (old(self).health - amt) as u16,
                ..*old(self)
            }) && *final(world) == *old(world),
            old(self).spec_is_alive() && amt >= old(self).health ==> final(self).death_effects(old(self), final(world), old(world)),
            final(world).size == old(world).size,
            final(world).exits == old(world).exits,
            final(world).catalog == old(world).catalog,
    {
        if !self.is_alive() {
            return;
        }
        if amt < self.health {
            self.health = self.health - amt;
            return;
        }
        self.act_die(world);
    }

    /// Strikes `other` for `strength * level`; with momentum left the attacker
    /// lunges into the defender's cell.
    pub fn act_hit(&mut self, other: &mut Actor, world: &mut World)
        requires
            old(self).wf(),
            old(other).wf(),
            old(world).wf(),
        ensures
            final(self).wf(),
            final(other).wf(),
            final(world).wf(),
            final(self).momentum == old(self).momentum - if old(self).momentum < 1 { old(self).momentum } else { 1 },
            final(self).pos == if final(self).momentum > 0 { old(other).pos } else { old(self).pos },
            ({
                let dmg = hit_damage(old(self).strength, old(self).level);
                &&& old(other).spec_is_alive() && dmg < old(other).health ==> final(other).health == old(other).health - dmg
                &&& old(other).spec_is_alive() && dmg >= old(other).health ==> final(other).died_from(old(other))
                &&& !old(other).spec_is_alive() ==> final(other).health == 0
            }),
            final(other).pos == old(other).pos,
            *final(self) == (Actor { log: final(self).log, momentum: final(self).momentum, pos: final(self).pos, ..*old(self) }),
            final(world).size == old(world).size,
            final(world).exits == old(world).exits,
            final(world).catalog == old(world).catalog,
    {
        self.log_interaction("hit", other);
        self.lose_momentum(1);
        assert(self.strength as int * self.level as int <= 65535 * 65535) by (nonlinear_arith)
            requires
                self.strength <= 65535,
                self.level <= 65535,
        ;
        let p: u32 = self.strength as u32 * self.level as u32;
        let dmg: u16 = if p > 65535 { 65535 } else { p as u16 };
        other.hurt(dmg, world);
        if self.momentum > 0 {
            self.pos = other.pos;
        }
    }

    /// Helping an ally: a stunned one is hoisted back up.
    pub fn act_help(&mut self, other: &mut Actor)
        requires
            old(self).wf(),
            old(other).wf(),
        ensures
            final(self).wf(),
            final(other).wf(),
            final(other).stun == if old(other).stun > 0 && !old(self).spec_is_projectile() { 0 } else { old(other).stun },
            *final(other) == (Actor { stun: final(other).stun, log: final(other).log, ..*old(other) }),
            *final(self) == (Actor { momentum: final(self).momentum, log: final(self).log, ..*old(self) }),
            final(self).momentum == old(self).momentum - if old(self).momentum < 1 { old(self).momentum } else { 1 },
    {
        if other.stun > 0 && !self.is_projectile() {
            other.stun = 0;
            let mine = join3("hoisted ", other.name.as_str(), " up.");
            self.log_action(mine.as_str());
            let theirs = join3("was hoisted up by ", self.name.as_str(), ".");
            other.log_action(theirs.as_str());
        }
        self.lose_momentum(1);
    }

    /// Trades places with `other` when each can stand on the other's cell.
    pub fn act_displace(&mut self, other: &mut Actor, world: &World)
        requires
            old(self).wf(),
            old(other).wf(),
            world.wf(),
        ensures
            final(self).wf(),
            final(other).wf(),
            ({
                let ok = !old(self).walls@.contains(world.spec_glyph_at(old(other).pos))
                    && !old(other).walls@.contains(world.spec_glyph_at(old(self).pos));
                &&& ok ==> final(self).pos == old(other).pos && final(other).pos == old(self).pos && final(other).stun == 1
                &&& !ok ==> *final(self) == *old(self) && *final(other) == *old(other)
            }),
            *final(self) == (Actor { pos: final(self).pos, momentum: final(self).momentum, log: final(self).log, ..*old(self) }),
            final(other).health == old(other).health,
    {
        if !contains_char(self.walls.as_str(), world.glyph_at(other.pos))
            && !contains_char(other.walls.as_str(), world.glyph_at(self.pos)) {
            let new_pos = other.pos;
            other.pos = self.pos;
            other.stun(1);
            self.pos = new_pos;
            self.lose_momentum(1);
            self.log_interaction("displaced", other);
        }
    }

    /// Reaching for the cell ahead: a loose item is taken (and kept if it can
    /// be), a locked door may yield to a carried key.
    pub fn act_push_wall(&mut self, world: &mut World, action: u8)
        requires
            old(self).wf(),
            old(world).wf(),
        ensures
            final(self).wf(),
            final(world).wf(),
            final(self).same_body(old(self)),
            final(self).skills == old(self).skills,
            final(self).inventory@.len() >= old(self).inventory@.len(),
            final(world).size == old(world).size,
            final(world).exits == old(world).exits,
            final(world).catalog == old(world).catalog,
    {
        let treasure = world.push_wall(self.pos, action, self.inventory.as_slice());
        if let Some(t) = treasure {
            let msg = join3("pulled on ", t.name.as_str(), ".");
            self.log_action(msg.as_str());
            use_on_actor(self, t.kind);
            if t.can_keep {
                let msg = join3("got ", t.name.as_str(), ".");
                self.log_action(msg.as_str());
                self.inventory.push(t);
            }
        }
    }

    /// Picks up every loose item lying under the agent, applying each one's
    /// effect and keeping those that can be kept.
    pub fn act_get(&mut self, world: &mut World)
        requires
            old(self).wf(),
            old(world).wf(),
        ensures
            final(self).wf(),
            final(world).wf(),
            final(self).same_body(old(self)),
            final(self).inventory@ == old(self).inventory@ + kept_pickups(old(world).items@, old(self).pos),
            final(self).mana == old(self).mana,
            final(self).stun == old(self).stun,
            final(self).momentum == old(self).momentum,
            final(self).health >= old(self).health,
            final(self).invis == old(self).invis || final(self).invis == 200,
            final(world).items@ == left_behind(old(world).items@, old(self).pos),
            final(world).size == old(world).size,
            final(world).tiles == old(world).tiles,
            final(world).exits == old(world).exits,
            final(world).log == old(world).log,
            final(world).catalog == old(world).catalog,
    {
        let ghost orig = world.items@;
        let ghost n = orig.len();
        let ghost mut j: int = 0;
        let mut idx: usize = 0;
        while idx < world.items.len()
            invariant
                self.wf(),
                world.wf(),
                self.same_body(old(self)),
                self.mana == old(self).mana,
                self.stun == old(self).stun,
                self.momentum == old(self).momentum,
                self.health >= old(self).health,
                self.invis == old(self).invis || self.invis == 200,
                0 <= j <= n,
                n == orig.len(),
                idx == left_behind(orig.subrange(0, j), old(self).pos).len(),
                world.items@ == left_behind(orig.subrange(0, j), old(self).pos) + orig.subrange(j, n as int),
                self.inventory@ == old(self).inventory@ + kept_pickups(orig.subrange(0, j), old(self).pos),
                world.size == old(world).size,
                world.tiles == old(world).tiles,
                world.exits == old(world).exits,
                world.log == old(world).log,
                world.catalog == old(world).catalog,
                orig == old(world).items@,
            decreases n - j,
        {
            let ghost lb = left_behind(orig.subrange(0, j), old(self).pos);
            proof {
                assert(orig.subrange(0, j + 1).drop_last() =~= orig.subrange(0, j));
                assert(orig.subrange(0, j + 1).last() == orig[j]);
                assert(world.items@[idx as int] == orig[j]);
            }
            if same_pos(self.pos, world.items[idx].pos) && world.items[idx].can_get {
                let item = world.items.remove(idx);
                let msg = join3("got ", item.name.as_str(), ".");
                self.log_action(msg.as_str());
                use_on_actor(self, item.kind);
                if item.can_keep {
                    self.inventory.push(item);
                }
                proof {
                    assert(world.items@ =~= lb + orig.subrange(j + 1, n as int));
                    j = j + 1;
                }
            } else {
                idx += 1;
                proof {
                    assert(world.items@ =~= lb.push(orig[j]) + orig.subrange(j + 1, n as int));
                    j = j + 1;
                }
            }
        }
        proof {
            assert(j == n) by {
                if j < n {
                    assert(world.items@.len() > idx);
                }
            }
            assert(orig.subrange(0, n as int) =~= orig);
            assert(orig.subrange(n as int, n as int) =~= Seq::<Item>::empty());
            assert(world.items@ =~= left_behind(orig, old(self).pos));
        }
    }

    /// Jumps to a random cell the agent can stand on (scanning the map in order
    /// when chance keeps missing); stays put when there is none.
    pub fn teleport(&mut self, wld: &World) -> (r: (u16, u16))
        requires
            wld.wf(),
        ensures
            *final(self) == (Actor { pos: r, ..*old(self) }),
            r == old(self).pos || !old(self).walls@.contains(wld.spec_glyph_at(r)),
            (exists|p: (u16, u16)| p.0 < wld.size.0 && p.1 < wld.size.1 && !old(self).walls@.contains(wld.spec_glyph_at(p)))
                ==> !old(self).walls@.contains(wld.spec_glyph_at(r)),
    {
        let mut tries: u32 = 0;
        while tries < 100
            invariant
                *self == *old(self),
                wld.wf(),
            decreases 100 - tries,
        {
            let pos = (rand_int(wld.size.0), rand_int(wld.size.1));
            if !contains_char(self.walls.as_str(), wld.glyph_at(pos)) {
                self.pos = pos;
                return pos;
            }
            tries += 1;
        }
        let mut y: u16 = 0;
        while y < wld.size.1
            invariant
                *self == *old(self),
                wld.wf(),
                forall|p: (u16, u16)| p.0 < wld.size.0 && p.1 < y ==> self.walls@.contains(wld.spec_glyph_at(p)),
            decreases wld.size.1 - y,
        {
            let mut x: u16 = 0;
            while x < wld.size.0
                invariant
                    *self == *old(self),
                    wld.wf(),
                    y < wld.size.1,
                    forall|p: (u16, u16)| p.0 < wld.size.0 && p.1 < y ==> self.walls@.contains(wld.spec_glyph_at(p)),
                    forall|p: (u16, u16)| p.0 < x && p.1 == y ==> self.walls@.contains(wld.spec_glyph_at(p)),
                decreases wld.size.0 - x,
            {
                if !contains_char(self.walls.as_str(), wld.glyph_at((x, y))) {
                    self.pos = (x, y);
                    return (x, y);
                }
                x += 1;
            }
            y += 1;
        }
        self.pos
    }
}

} // verus!
