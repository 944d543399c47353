use vstd::prelude::*;
use crate::catalog::{Catalog, ItemStats};
use crate::constants::ITEM_DEBRIS;

verus! {

/// Inert entity lying on the map or carried in an inventory.
pub struct Item {
    pub name: String,
    pub kind: u8,
    pub team: usize,
    pub level: u16,
    pub glyph: char,
    pub color: i16,
    pub pos: (u16, u16),
    pub can_get: bool,
    pub can_keep: bool,
    pub can_retain: bool,
    /// Decay counter: damage wears it down, and at one the item turns to debris.
    pub health: u16,
}

/// Durability of a fresh item.
pub const ITEM_DURABILITY: u16 = 20;

impl Item {
    /// The looks and capabilities of the item are those of the table row.
    pub open spec fn looks_like(&self, row: ItemStats) -> bool {
        &&& self.kind == row.kind
        &&& self.glyph == row.glyph
        &&& self.color == row.color
        &&& self.name@ == row.name@
        &&& self.can_get == row.can_get
        &&& self.can_keep == row.can_keep
        &&& self.can_retain == row.can_retain
    }

    /// Everything but the looks and capabilities is kept.
    pub open spec fn same_identity(&self, other: &Item) -> bool {
        &&& self.team == other.team
        &&& self.level == other.level
        &&& self.pos == other.pos
        &&& self.health == other.health
    }

    /// A fresh item of a kind, at the origin, with full durability.
    pub fn new(kind: u8, level: u16, team: usize, catalog: &Catalog) -> (r: Item)
        requires
            catalog.wf(),
        ensures
            r.kind == kind,
            r.level == level,
            r.team == team,
            r.pos == (0u16, 0u16),
            r.health == ITEM_DURABILITY,
            catalog.has_item(kind) ==> r.looks_like(catalog.item_row(kind)),
            !catalog.has_item(kind) ==> !r.can_get && !r.can_keep && !r.can_retain,
    {
        let mut item = Item {
            kind,
            level,
            team,
            pos: (0, 0),
            name: String::new(),
            glyph: '0',
            color: 0,
            can_get: false,
            can_keep: false,
            can_retain: false,
            health: ITEM_DURABILITY,
        };
        item.initialize_as(kind, catalog);
        item
    }

    /// Turns the item into one of another kind, keeping owner, level, place and durability.
    pub fn initialize_as(&mut self, kind: u8, catalog: &Catalog)
        requires
            catalog.wf(),
        ensures
            final(self).kind == kind,
            final(self).same_identity(old(self)),
            catalog.has_item(kind) ==> final(self).looks_like(catalog.item_row(kind)),
            !catalog.has_item(kind) ==> final(self).name == old(self).name && final(self).glyph == old(self).glyph
                && final(self).color == old(self).color && final(self).can_get == old(self).can_get
                && final(self).can_keep == old(self).can_keep && final(self).can_retain == old(self).can_retain,
    {
        self.kind = kind;
        if let Some(i) = catalog.find_item(kind) {
            let row = &catalog.items[i];
            self.glyph = row.glyph;
            self.color = row.color;
            self.name = row.name.clone();
            self.can_get = row.can_get;
            self.can_keep = row.can_keep;
            self.can_retain = row.can_retain;
        }
    }

    /// `self` is `before` worn down by one point.
    pub open spec fn damaged_from(&self, before: &Item, catalog: &Catalog) -> bool {
        &&& before.health == 0 ==> *self == *before
        &&& before.health == 1 ==> self.kind == ITEM_DEBRIS && self.same_identity(before)
            && (catalog.has_item(ITEM_DEBRIS) ==> self.looks_like(catalog.item_row(ITEM_DEBRIS)))
        &&& before.health > 1 ==> *self == (Item { health: (before.health - 1) as u16, ..*before })
    }

    /// Wears the item down by one; the last point of durability turns it to debris.
    pub fn damage(&mut self, catalog: &Catalog)
        requires
            catalog.wf(),
        ensures
            final(self).damaged_from(old(self), catalog),
    {
        if self.health == 1 {
            self.initialize_as(ITEM_DEBRIS, catalog);
        } else if self.health > 1 {
            self.health = self.health - 1;
        }
    }

    pub open spec fn spec_is_debris(&self) -> bool {
        self.kind == ITEM_DEBRIS
    }

    /// Whether the item has decayed into debris.
    #[verifier::when_used_as_spec(spec_is_debris)]
    pub fn is_debris(&self) -> (r: bool)
        ensures
            r == self.spec_is_debris(),
    {
        self.kind == ITEM_DEBRIS
    }
}

} // verus!
