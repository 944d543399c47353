use vstd::prelude::*;

verus! {

/// Static row of the item table: how an item of one kind looks and behaves.
pub struct ItemStats {
    pub kind: u8,
    pub glyph: char,
    pub color: i16,
    pub name: String,
    pub can_get: bool,
    pub can_keep: bool,
    pub can_retain: bool,
}

/// Static row of the agent table.
pub struct ActorStats {
    pub kind: u8,
    pub glyph: char,
    /// Terrain glyphs this kind cannot enter; a `.` marks an immobile kind.
    pub walls: String,
    pub name: String,
    /// Ticks between two activations.
    pub move_lag: u16,
    pub skills: Vec<String>,
    pub strength: u16,
    pub con: u16,
    pub intel: u16,
}

/// Static row of the tile table.
pub struct TileStats {
    pub id: u16,
    pub glyph: char,
    pub color: i16,
}

/// The three static tables the core reads: agent kinds, item kinds, tile types.
pub struct Catalog {
    pub actors: Vec<ActorStats>,
    pub items: Vec<ItemStats>,
    pub tiles: Vec<TileStats>,
}

/// Why a set of tables cannot be used.
#[derive(Debug, PartialEq, Eq, Structural)]
pub enum CatalogError {
    DuplicateActor(u8),
    DuplicateItem(u8),
    DuplicateTile(u16),
    /// An agent kind with a cadence of zero ticks.
    ZeroCadence(u8),
    /// An agent kind the rules create is missing from the table.
    MissingActor(u8),
}

pub open spec fn unique_actor_kinds(rows: Seq<ActorStats>) -> bool {
    forall|i: int, j: int| 0 <= i < j < rows.len() ==> rows[i].kind != rows[j].kind
}

pub open spec fn unique_item_kinds(rows: Seq<ItemStats>) -> bool {
    forall|i: int, j: int| 0 <= i < j < rows.len() ==> rows[i].kind != rows[j].kind
}

pub open spec fn unique_tile_ids(rows: Seq<TileStats>) -> bool {
    forall|i: int, j: int| 0 <= i < j < rows.len() ==> rows[i].id != rows[j].id
}

/// Agent kinds the rules create: recruits, the undead and the split kind,
/// and the projectiles and summons of skills.
pub open spec fn required_kind(k: u8) -> bool {
    k == 0 || k == 1 || k == 2 || k == 3 || k == 4 || k == 5 || k == 8 || k == 11 || k == 13 || (50 <= k <= 55)
}

/// The agent table lists every kind the rules create.
pub open spec fn lists_required_kinds(rows: Seq<ActorStats>) -> bool {
    forall|k: u8| required_kind(k) ==> exists|i: int| 0 <= i < rows.len() && #[trigger] rows[i].kind == k
}

/// One of the kinds the rules create.
pub const REQUIRED_KINDS: [u8; 15] = [0, 1, 2, 3, 4, 5, 8, 11, 13, 50, 51, 52, 53, 54, 55];

pub open spec fn positive_cadences(rows: Seq<ActorStats>) -> bool {
    forall|i: int| 0 <= i < rows.len() ==> rows[i].move_lag >= 1
}

/// Copy of a list of strings.
pub fn clone_strings(v: &Vec<String>) -> (r: Vec<String>)
    ensures
        r@ == v@,
{
    let mut r: Vec<String> = Vec::new();
    let mut i: usize = 0;
    while i < v.len()
        invariant
            i <= v.len(),
            r@ == v@.subrange(0, i as int),
        decreases v.len() - i,
    {
        r.push(v[i].clone());
        i += 1;
    }
    assert(r@ =~= v@);
    r
}

impl Catalog {
    /// Each kind and tile id appears once, and every agent kind has a cadence.
    pub open spec fn wf(&self) -> bool {
        &&& unique_actor_kinds(self.actors@)
        &&& unique_item_kinds(self.items@)
        &&& unique_tile_ids(self.tiles@)
        &&& positive_cadences(self.actors@)
        &&& forall|k: u8| required_kind(k) ==> #[trigger] self.has_actor(k)
    }

    pub open spec fn has_actor(&self, kind: u8) -> bool {
        exists|i: int| 0 <= i < self.actors@.len() && self.actors@[i].kind == kind
    }

    pub open spec fn has_item(&self, kind: u8) -> bool {
        exists|i: int| 0 <= i < self.items@.len() && self.items@[i].kind == kind
    }

    /// The row of an item kind (the only one, in a well-formed catalog).
    pub open spec fn item_row(&self, kind: u8) -> ItemStats
        recommends
            self.has_item(kind),
    {
        self.items@[choose|i: int| 0 <= i < self.items@.len() && self.items@[i].kind == kind]
    }

    /// The row of an agent kind.
    pub open spec fn actor_row(&self, kind: u8) -> ActorStats
        recommends
            self.has_actor(kind),
    {
        self.actors@[choose|i: int| 0 <= i < self.actors@.len() && self.actors@[i].kind == kind]
    }

    /// Display glyph and color of a tile type, if the table lists it.
    pub open spec fn tile_spec(&self, id: u16) -> Option<(char, i16)> {
        if exists|i: int| 0 <= i < self.tiles@.len() && self.tiles@[i].id == id {
            let row = self.tiles@[choose|i: int| 0 <= i < self.tiles@.len() && self.tiles@[i].id == id];
            Some((row.glyph, row.color))
        } else {
            None
        }
    }

    /// Checks the tables and bundles them; a duplicated key or a zero cadence is refused.
    pub fn new(actors: Vec<ActorStats>, items: Vec<ItemStats>, tiles: Vec<TileStats>) -> (r: Result<Catalog, CatalogError>)
        ensures
            r is Ok <==> (unique_actor_kinds(actors@) && unique_item_kinds(items@) && unique_tile_ids(tiles@)
                && positive_cadences(actors@) && lists_required_kinds(actors@)),
            r is Ok ==> r->Ok_0.actors@ == actors@ && r->Ok_0.items@ == items@ && r->Ok_0.tiles@ == tiles@,
            r is Ok ==> r->Ok_0.wf(),
    {
        let mut i: usize = 0;
        while i < actors.len()
            invariant
                i <= actors.len(),
                forall|a: int, b: int| 0 <= a < b < i ==> actors@[a].kind != actors@[b].kind,
                forall|a: int| 0 <= a < i ==> actors@[a].move_lag >= 1,
            decreases actors.len() - i,
        {
            if actors[i].move_lag == 0 {
                return Err(CatalogError::ZeroCadence(actors[i].kind));
            }
            let mut j: usize = 0;
            while j < i
                invariant
                    i < actors.len(),
                    j <= i,
                    forall|a: int| 0 <= a < j ==> actors@[a].kind != actors@[i as int].kind,
                decreases i - j,
            {
                if actors[j].kind == actors[i].kind {
                    return Err(CatalogError::DuplicateActor(actors[i].kind));
                }
                j += 1;
            }
            i += 1;
        }
        let mut i: usize = 0;
        while i < items.len()
            invariant
                i <= items.len(),
                forall|a: int, b: int| 0 <= a < b < i ==> items@[a].kind != items@[b].kind,
            decreases items.len() - i,
        {
            let mut j: usize = 0;
            while j < i
                invariant
                    i < items.len(),
                    j <= i,
                    forall|a: int| 0 <= a < j ==> items@[a].kind != items@[i as int].kind,
                decreases i - j,
            {
                if items[j].kind == items[i].kind {
                    return Err(CatalogError::DuplicateItem(items[i].kind));
                }
                j += 1;
            }
            i += 1;
        }
        let mut i: usize = 0;
        while i < tiles.len()
            invariant
                i <= tiles.len(),
                forall|a: int, b: int| 0 <= a < b < i ==> tiles@[a].id != tiles@[b].id,
            decreases tiles.len() - i,
        {
            let mut j: usize = 0;
            while j < i
                invariant
                    i < tiles.len(),
                    j <= i,
                    forall|a: int| 0 <= a < j ==> tiles@[a].id != tiles@[i as int].id,
                decreases i - j,
            {
                if tiles[j].id == tiles[i].id {
                    return Err(CatalogError::DuplicateTile(tiles[i].id));
                }
                j += 1;
            }
            i += 1;
        }
        let mut r: usize = 0;
        while r < 15
            invariant
                r <= 15,
                forall|j: int|
                    #![trigger REQUIRED_KINDS@[j]]
                    0 <= j < r ==> exists|i: int| 0 <= i < actors@.len() && #[trigger] actors@[i].kind == REQUIRED_KINDS@[j],
            decreases 15 - r,
        {
            let k = REQUIRED_KINDS[r];
            let mut i: usize = 0;
            let mut found = false;
            while i < actors.len() && !found
                invariant
                    i <= actors@.len(),
                    found ==> i < actors@.len() && actors@[i as int].kind == k,
                    forall|a: int| 0 <= a < i ==> actors@[a].kind != k,
                decreases actors@.len() - i + if found { 0int } else { 1int },
            {
                if actors[i].kind == k {
                    found = true;
                } else {
                    i += 1;
                }
            }
            if !found {
                proof {
                    assert(required_kind(k));
                }
                return Err(CatalogError::MissingActor(k));
            }
            r += 1;
        }
        proof {
            assert forall|k: u8| required_kind(k) implies exists|i: int| 0 <= i < actors@.len() && #[trigger] actors@[i].kind == k by {
                let j: int = if k == 0 { 0 } else if k == 1 { 1 } else if k == 2 { 2 } else if k == 3 { 3 } else if k == 4 { 4 } else if k
                    == 5 { 5 } else if k == 8 { 6 } else if k == 11 { 7 } else if k == 13 { 8 } else { k - 41 };
                assert(REQUIRED_KINDS@[j] == k);
            }
        }
        Ok(Catalog { actors, items, tiles })
    }

    /// Index of the row of an agent kind.
    pub fn find_actor(&self, kind: u8) -> (r: Option<usize>)
        requires
            self.wf(),
        ensures
            r is None <==> !self.has_actor(kind),
            r is Some ==> r->Some_0 < self.actors@.len() && self.actors@[r->Some_0 as int] == self.actor_row(kind),
    {
        let mut i: usize = 0;
        while i < self.actors.len()
            invariant
                self.wf(),
                i <= self.actors.len(),
                forall|a: int| 0 <= a < i ==> self.actors@[a].kind != kind,
            decreases self.actors.len() - i,
        {
            if self.actors[i].kind == kind {
                assert(self.has_actor(kind));
                proof {
                    let c = choose|a: int| 0 <= a < self.actors@.len() && self.actors@[a].kind == kind;
                    assert(c == i as int) by {
                        if c < i {
                            assert(self.actors@[c].kind != self.actors@[i as int].kind);
                        } else if c > i {
                            assert(self.actors@[i as int].kind != self.actors@[c].kind);
                        }
                    }
                }
                return Some(i);
            }
            i += 1;
        }
        None
    }

    /// Index of the row of an item kind.
    pub fn find_item(&self, kind: u8) -> (r: Option<usize>)
        requires
            self.wf(),
        ensures
            r is None <==> !self.has_item(kind),
            r is Some ==> r->Some_0 < self.items@.len() && self.items@[r->Some_0 as int] == self.item_row(kind),
    {
        let mut i: usize = 0;
        while i < self.items.len()
            invariant
                self.wf(),
                i <= self.items.len(),
                forall|a: int| 0 <= a < i ==> self.items@[a].kind != kind,
            decreases self.items.len() - i,
        {
            if self.items[i].kind == kind {
                assert(self.has_item(kind));
                proof {
                    let c = choose|a: int| 0 <= a < self.items@.len() && self.items@[a].kind == kind;
                    assert(c == i as int) by {
                        if c < i {
                            assert(self.items@[c].kind != self.items@[i as int].kind);
                        } else if c > i {
                            assert(self.items@[i as int].kind != self.items@[c].kind);
                        }
                    }
                }
                return Some(i);
            }
            i += 1;
        }
        None
    }

    /// Glyph and color of a tile type.
    pub fn find_tile(&self, id: u16) -> (r: Option<(char, i16)>)
        requires
            self.wf(),
        ensures
            r == self.tile_spec(id),
    {
        let mut i: usize = 0;
        while i < self.tiles.len()
            invariant
                self.wf(),
                i <= self.tiles.len(),
                forall|a: int| 0 <= a < i ==> self.tiles@[a].id != id,
            decreases self.tiles.len() - i,
        {
            if self.tiles[i].id == id {
                assert(exists|a: int| 0 <= a < self.tiles@.len() && self.tiles@[a].id == id);
                proof {
                    let c = choose|a: int| 0 <= a < self.tiles@.len() && self.tiles@[a].id == id;
                    assert(c == i as int) by {
                        if c < i {
                            assert(self.tiles@[c].id != self.tiles@[i as int].id);
                        } else if c > i {
                            assert(self.tiles@[i as int].id != self.tiles@[c].id);
                        }
                    }
                }
                return Some((self.tiles[i].glyph, self.tiles[i].color));
            }
            i += 1;
        }
        None
    }
}

} // verus!
