use vstd::prelude::*;
use crate::actor::{lemma_stat_cap_monotone, Actor};
use crate::catalog::Catalog;
use crate::text::{not_char, without_char};
use crate::constants::{same_pos, ITEM_DOOR, ITEM_DOOR_OPEN, ITEM_KEY, ITEM_PORTAL, ITEM_TREE};
use crate::item::Item;

verus! {

/// Position of the first portal among `items` that pairs with a portal of `level`
/// standing at `at`.
pub open spec fn portal_partner(items: Seq<Item>, level: u16, at: (u16, u16)) -> Option<(u16, u16)>
    decreases items.len(),
{
    if items.len() == 0 {
        None
    } else {
        let earlier = portal_partner(items.drop_last(), level, at);
        let last = items.last();
        if earlier is Some {
            earlier
        } else if last.kind == ITEM_PORTAL && last.level == level && last.pos != at {
            Some(last.pos)
        } else {
            None
        }
    }
}

/// Where a mover from `from` bound for `to` ends up, given the item lying at `to`.
pub open spec fn portal_rule(item: Item, from: (u16, u16), to: (u16, u16), team: usize, items: Seq<Item>) -> (u16, u16) {
    if item.kind == ITEM_PORTAL && from == to {
        match portal_partner(items, item.level, item.pos) {
            Some(p) => p,
            None => to,
        }
    } else if (item.kind == ITEM_DOOR || item.kind == ITEM_TREE) && item.team != team {
        from
    } else {
        to
    }
}

/// A portal sends the mover to its partner of the same level; a door or tree
/// of another team sends it back to `from`; anything else lets it through.
pub fn use_as_portal(item: &Item, from: (u16, u16), to: (u16, u16), team: usize, other_items: &[Item]) -> (r: (u16, u16))
    ensures
        r == portal_rule(*item, from, to, team, other_items@),
{
    if item.kind == ITEM_PORTAL && same_pos(from, to) {
        let mut i: usize = 0;
        while i < other_items.len()
            invariant
                item.kind == ITEM_PORTAL,
                from == to,
                i <= other_items@.len(),
                portal_partner(other_items@.subrange(0, i as int), item.level, item.pos) is None,
            decreases other_items@.len() - i,
        {
            let portal = &other_items[i];
            assert(other_items@.subrange(0, i + 1).drop_last() =~= other_items@.subrange(0, i as int));
            if portal.kind == ITEM_PORTAL && portal.level == item.level && !same_pos(portal.pos, item.pos) {
                proof {
                    assert(other_items@.subrange(0, i + 1).last() == other_items@[i as int]);
                    assert(portal_partner(other_items@.subrange(0, i + 1), item.level, item.pos) == Some(portal.pos));
                    lemma_partner_prefix(other_items@, item.level, item.pos, i + 1);
                    assert(portal_partner(other_items@, item.level, item.pos) == Some(portal.pos));
                }
                return portal.pos;
            }
            i += 1;
        }
        assert(other_items@.subrange(0, i as int) =~= other_items@);
    } else if (item.kind == ITEM_DOOR || item.kind == ITEM_TREE) && item.team != team {
        return from;
    }
    to
}

/// A partner found in a prefix is the partner of the whole list.
pub proof fn lemma_partner_prefix(items: Seq<Item>, level: u16, at: (u16, u16), n: int)
    requires
        0 <= n <= items.len(),
        portal_partner(items.subrange(0, n), level, at) is Some,
    ensures
        portal_partner(items, level, at) == portal_partner(items.subrange(0, n), level, at),
    decreases items.len() - n,
{
    if n < items.len() {
        assert(items.subrange(0, n + 1).drop_last() =~= items.subrange(0, n));
        lemma_partner_prefix(items, level, at, n + 1);
    } else {
        assert(items.subrange(0, n) =~= items);
    }
}

/// A key opens a door; nothing else acts on an item.
pub fn use_on_item(item: &mut Item, kind: u8, catalog: &Catalog) -> (r: bool)
    requires
        catalog.wf(),
    ensures
        r == (kind == ITEM_KEY && old(item).kind == ITEM_DOOR),
        r ==> final(item).kind == ITEM_DOOR_OPEN && final(item).same_identity(old(item))
            && (catalog.has_item(ITEM_DOOR_OPEN) ==> final(item).looks_like(catalog.item_row(ITEM_DOOR_OPEN))),
        !r ==> *final(item) == *old(item),
{
    if kind == ITEM_KEY && item.kind == ITEM_DOOR {
        item.initialize_as(ITEM_DOOR_OPEN, catalog);
        return true;
    }
    false
}

/// What an item of `kind` does to the agent that takes it.
pub open spec fn item_effect_on(after: Actor, before: Actor, kind: u8) -> bool {
    if kind == 1 {
        after == (Actor { health: before.spec_max_health(), ..before })
    } else if kind == 4 {
        after == (Actor { intel: if before.intel < 65535 { (before.intel + 1) as u16 } else { 65535 }, ..before })
    } else if kind == 5 {
        after == (Actor { invis: 200, ..before })
    } else if kind == 6 {
        after == (Actor { con: if before.con < 65535 { (before.con + 1) as u16 } else { 65535 }, ..before })
    } else if kind == 7 {
        after == (Actor { walls: after.walls, ..before }) && after.walls@ == before.walls@.filter(not_char('~'))
    } else if kind == 12 {
        after == (Actor { move_lag: (before.move_lag / 2 + 1) as u16, ..before })
    } else {
        after == before
    }
}

/// Kinds of items that act on the agent taking them (gold and silver act by doing nothing).
pub open spec fn acts_on_actor(kind: u8) -> bool {
    kind == 1 || kind == 2 || kind == 3 || kind == 4 || kind == 5 || kind == 6 || kind == 7 || kind == 12
}

/// Applies an item's effect to an agent: healing, a stat, invisibility,
/// wading through water, or speed.
pub fn use_on_actor(actor: &mut Actor, kind: u8) -> (r: bool)
    requires
        old(actor).wf(),
    ensures
        final(actor).wf(),
        r == acts_on_actor(kind),
        item_effect_on(*final(actor), *old(actor), kind),
{
    if kind == 1 {
        actor.health = actor.max_health();
    } else if kind == 2 || kind == 3 {
    } else if kind == 4 {
        proof {
            lemma_stat_cap_monotone(actor.intel, if actor.intel < 65535 { (actor.intel + 1) as u16 } else { 65535 }, actor.level);
        }
        actor.intel = if actor.intel < 65535 { actor.intel + 1 } else { 65535 };
    } else if kind == 5 {
        actor.invis = 200;
    } else if kind == 6 {
        proof {
            lemma_stat_cap_monotone(actor.con, if actor.con < 65535 { (actor.con + 1) as u16 } else { 65535 }, actor.level);
        }
        actor.con = if actor.con < 65535 { actor.con + 1 } else { 65535 };
    } else if kind == 7 {
        actor.walls = without_char(actor.walls.as_str(), '~');
    } else if kind == 12 {
        actor.move_lag = actor.move_lag / 2 + 1;
    } else {
        return false;
    }
    true
}

} // verus!
