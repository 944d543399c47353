use vstd::prelude::*;
use crate::catalog::Catalog;
use crate::constants::{same_pos, ITEM_DOOR, ITEM_KEY, ITEM_TREE};
use crate::item::Item;
use crate::item_effects::{portal_rule, use_as_portal, use_on_item};
use crate::text::contains_char;

verus! {

/// Column step of a compass direction (0 is north, counting clockwise).
pub open spec fn dir_dx(dir: u8) -> int {
    if dir == 1 || dir == 2 || dir == 3 {
        1
    } else if dir == 5 || dir == 6 || dir == 7 {
        -1
    } else {
        0
    }
}

/// Row step of a compass direction.
pub open spec fn dir_dy(dir: u8) -> int {
    if dir == 0 || dir == 1 || dir == 7 {
        -1
    } else if dir == 3 || dir == 4 || dir == 5 {
        1
    } else {
        0
    }
}

/// Items of `items` that have not decayed to debris, in order.
pub open spec fn without_debris(items: Seq<Item>) -> Seq<Item>
    decreases items.len(),
{
    if items.len() == 0 {
        seq![]
    } else {
        let rest = without_debris(items.drop_last());
        if items.last().spec_is_debris() {
            rest
        } else {
            rest.push(items.last())
        }
    }
}

/// The scenario's map: tiles, the items lying on it, exits and a global announcement log.
pub struct World {
    /// Columns by rows.
    pub size: (u16, u16),
    pub items: Vec<Item>,
    pub exits: Vec<Item>,
    pub tiles: Vec<u16>,
    pub log: Vec<((u16, u16), String, bool)>,
    pub catalog: Catalog,
}

impl World {
    pub open spec fn wf(&self) -> bool {
        &&& self.catalog.wf()
        &&& self.tiles@.len() == self.size.0 * self.size.1
    }

    pub open spec fn in_bounds(&self, x: int, y: int) -> bool {
        0 <= x < self.size.0 && 0 <= y < self.size.1
    }

    /// One geometric step, clipped: a step off the map stays put.
    pub open spec fn spec_offset(&self, from: (u16, u16), dir: u8) -> (u16, u16) {
        let x = from.0 + dir_dx(dir);
        let y = from.1 + dir_dy(dir);
        if self.in_bounds(x, y) {
            (x as u16, y as u16)
        } else {
            from
        }
    }

    /// Row-major index of a position in the tile array.
    pub open spec fn cell(&self, pos: (u16, u16)) -> int {
        pos.1 * self.size.0 + pos.0
    }

    pub open spec fn spec_tile_at(&self, pos: (u16, u16)) -> (char, i16) {
        let idx = self.cell(pos);
        if idx < self.tiles@.len() {
            match self.catalog.tile_spec(self.tiles@[idx]) {
                Some(t) => t,
                None => ('?', 0i16),
            }
        } else {
            ('?', 0i16)
        }
    }

    pub open spec fn spec_glyph_at(&self, pos: (u16, u16)) -> char {
        self.spec_tile_at(pos).0
    }

    /// Where a mover from `from` bound for `to` stands after the first `n` items
    /// have had their say.
    pub open spec fn portal_walk(&self, from: (u16, u16), to: (u16, u16), team: usize, n: nat) -> (u16, u16)
        decreases n,
    {
        if n == 0 {
            to
        } else {
            let p = self.portal_walk(from, to, team, (n - 1) as nat);
            let it = self.items@[n - 1];
            if it.pos == p {
                portal_rule(it, from, p, team, self.items@)
            } else {
                p
            }
        }
    }

    /// Destination of a step honoring portals, doors, trees and the mover's walls.
    pub open spec fn spec_neighbor(&self, from: (u16, u16), dir: u8, team: usize, walls: Seq<char>) -> (u16, u16) {
        let p = self.portal_walk(from, self.spec_offset(from, dir), team, self.items@.len());
        if walls.contains(self.spec_glyph_at(p)) {
            from
        } else {
            p
        }
    }

    /// An empty map of size zero over the given tables.
    pub fn new(catalog: Catalog) -> (r: World)
        requires
            catalog.wf(),
        ensures
            r.wf(),
            r.size == (0u16, 0u16),
            r.items@.len() == 0,
            r.exits@.len() == 0,
            r.log@.len() == 0,
            r.catalog == catalog,
    {
        World { size: (0, 0), items: Vec::new(), exits: Vec::new(), tiles: Vec::new(), log: Vec::new(), catalog }
    }

    /// Sets the size and fills the map with the plain floor tile (id 1).
    pub fn reshape(&mut self, size: (u16, u16))
        requires
            old(self).catalog.wf(),
        ensures
            final(self).wf(),
            final(self).size == size,
            final(self).tiles@ == Seq::new((size.0 * size.1) as nat, |i: int| 1u16),
            final(self).items == old(self).items,
            final(self).exits == old(self).exits,
            final(self).log == old(self).log,
            final(self).catalog == old(self).catalog,
    {
        self.size = size;
        assert(size.0 as int * size.1 as int <= 65535 * 65535) by (nonlinear_arith)
            requires
                size.0 <= 65535,
                size.1 <= 65535,
        ;
        let area: u64 = size.0 as u64 * size.1 as u64;
        let mut tiles: Vec<u16> = Vec::new();
        let mut i: u64 = 0;
        while i < area
            invariant
                area == size.0 * size.1,
                i <= area,
                tiles@ == Seq::new(i as nat, |j: int| 1u16),
            decreases area - i,
        {
            tiles.push(1);
            i += 1;
            assert(tiles@ =~= Seq::new(i as nat, |j: int| 1u16));
        }
        self.tiles = tiles;
    }

    /// Index of a position in the tile array, when it has one.
    pub fn cell_index(&self, pos: (u16, u16)) -> (r: Option<usize>)
        ensures
            r is Some <==> self.cell(pos) < self.tiles@.len(),
            r is Some ==> r->Some_0 == self.cell(pos),
    {
        assert(pos.1 as int * self.size.0 as int <= 65535 * 65535) by (nonlinear_arith)
            requires
                pos.1 <= 65535,
                self.size.0 <= 65535,
        ;
        let idx: u64 = pos.1 as u64 * self.size.0 as u64 + pos.0 as u64;
        if idx < self.tiles.len() as u64 {
            Some(idx as usize)
        } else {
            None
        }
    }

    /// One geometric step from `from` in compass direction `dir`, clipped at the edges.
    pub fn offset(&self, from: (u16, u16), dir: u8) -> (r: (u16, u16))
        ensures
            r == self.spec_offset(from, dir),
    {
        let dx: i32 = if dir == 1 || dir == 2 || dir == 3 {
            1
        } else if dir == 5 || dir == 6 || dir == 7 {
            -1
        } else {
            0
        };
        let dy: i32 = if dir == 0 || dir == 1 || dir == 7 {
            -1
        } else if dir == 3 || dir == 4 || dir == 5 {
            1
        } else {
            0
        };
        let x: i32 = from.0 as i32 + dx;
        let y: i32 = from.1 as i32 + dy;
        if x < 0 || y < 0 || x >= self.size.0 as i32 || y >= self.size.1 as i32 {
            return from;
        }
        (x as u16, y as u16)
    }

    /// Whether a signed position lies off the map.
    pub fn is_out_of_bounds(&self, pos: (i16, i16)) -> (r: bool)
        ensures
            r == !self.in_bounds(pos.0 as int, pos.1 as int),
    {
        pos.0 < 0 || pos.1 < 0 || pos.0 as i32 >= self.size.0 as i32 || pos.1 as i32 >= self.size.1 as i32
    }

    /// Display glyph and color of the tile at a position; `('?', 0)` when unknown.
    pub fn tile_at(&self, pos: (u16, u16)) -> (r: (char, i16))
        requires
            self.wf(),
        ensures
            r == self.spec_tile_at(pos),
    {
        if let Some(idx) = self.cell_index(pos) {
            if let Some(t) = self.catalog.find_tile(self.tiles[idx]) {
                return t;
            }
        }
        ('?', 0)
    }

    /// Display glyph of the tile at a position.
    pub fn glyph_at(&self, pos: (u16, u16)) -> (r: char)
        requires
            self.wf(),
        ensures
            r == self.spec_glyph_at(pos),
    {
        self.tile_at(pos).0
    }

    /// Where a step from `from` in direction `dir` leads a mover of `team` that
    /// cannot enter the glyphs in `walls`; a blocked step stays at `from`.
    pub fn neighbor(&self, from: (u16, u16), dir: u8, team: usize, walls: &str) -> (r: (u16, u16))
        requires
            self.wf(),
        ensures
            r == self.spec_neighbor(from, dir, team, walls@),
    {
        let pos = self.offset(from, dir);
        let mut final_pos = pos;
        let mut i: usize = 0;
        while i < self.items.len()
            invariant
                i <= self.items@.len(),
                final_pos == self.portal_walk(from, pos, team, i as nat),
            decreases self.items@.len() - i,
        {
            if same_pos(self.items[i].pos, final_pos) {
                final_pos = use_as_portal(&self.items[i], from, final_pos, team, self.items.as_slice());
            }
            i += 1;
        }
        if contains_char(walls, self.glyph_at(final_pos)) {
            return from;
        }
        final_pos
    }

    /// Paints up to three plain-floor cells around `at` with `tile`; only
    /// cells that showed the floor glyph `.` change.
    pub fn change_tiles(&mut self, at: (u16, u16), tile: u16)
        requires
            old(self).wf(),
        ensures
            final(self).wf(),
            final(self).size == old(self).size,
            final(self).items == old(self).items,
            final(self).exits == old(self).exits,
            final(self).log == old(self).log,
            final(self).catalog == old(self).catalog,
            final(self).tiles@.len() == old(self).tiles@.len(),
            forall|i: int|
                0 <= i < old(self).tiles@.len() && #[trigger] final(self).tiles@[i] != old(self).tiles@[i] ==> {
                    &&& final(self).tiles@[i] == tile
                    &&& exists|d: u8|
                        d < 8 && old(self).cell(old(self).spec_offset(at, d)) == i && old(self).spec_glyph_at(old(self).spec_offset(at, d))
                            == '.'
                },
    {
        let ghost before = *self;
        let mut dir: u16 = at.0 % 8;
        let mut k: u16 = 0;
        while k < at.1 % 4
            invariant
                self.wf(),
                dir < 8,
                self.size == before.size,
                self.items == before.items,
                self.exits == before.exits,
                self.log == before.log,
                self.catalog == before.catalog,
                self.tiles@.len() == before.tiles@.len(),
                forall|i: int|
                    0 <= i < before.tiles@.len() && #[trigger] self.tiles@[i] != before.tiles@[i] ==> {
                        &&& self.tiles@[i] == tile
                        &&& exists|d: u8|
                            d < 8 && before.cell(before.spec_offset(at, d)) == i && before.spec_glyph_at(before.spec_offset(at, d)) == '.'
                    },
            decreases at.1 % 4 - k,
        {
            let pos = self.offset(at, dir as u8);
            if self.glyph_at(pos) == '.' {
                if let Some(idx) = self.cell_index(pos) {
                    proof {
                        if self.tiles@[idx as int] == before.tiles@[idx as int] {
                            assert(before.spec_glyph_at(pos) == '.');
                        }
                    }
                    self.tiles.set(idx, tile);
                    assert(before.cell(before.spec_offset(at, dir as u8)) == idx);
                }
            }
            dir = (dir + 3) % 8;
            k += 1;
        }
    }

    /// Adds a line to the global announcement log.
    pub fn log_global(&mut self, txt: &str, pos: (u16, u16), important: bool)
        ensures
            final(self).log@.len() == old(self).log@.len() + 1,
            final(self).log@.last().0 == pos,
            final(self).log@.last().1@ == txt@,
            final(self).log@.last().2 == important,
            final(self).log@.drop_last() == old(self).log@,
            final(self).size == old(self).size,
            final(self).items == old(self).items,
            final(self).exits == old(self).exits,
            final(self).tiles == old(self).tiles,
            final(self).catalog == old(self).catalog,
    {
        self.log.push((pos, String::from_str(txt), important));
        assert(self.log@.drop_last() =~= old(self).log@);
    }

    /// Whether `items` holds a door or tree of `kind` at `pos` already.
    pub open spec fn blocks_duplicate(items: Seq<Item>, kind: u8, pos: (u16, u16)) -> bool {
        (kind == ITEM_DOOR || kind == ITEM_TREE) && exists|i: int|
            0 <= i < items.len() && items[i].kind == kind && items[i].pos == pos
    }

    /// Places an item at `pos`; a second door or tree on one cell is not placed.
    pub fn add_item(&mut self, new_item: Item, pos: (u16, u16))
        ensures
            World::blocks_duplicate(old(self).items@, new_item.kind, pos) ==> *final(self) == *old(self),
            !World::blocks_duplicate(old(self).items@, new_item.kind, pos) ==> final(self).items@ == old(self).items@.push(
                Item { pos, ..new_item },
            ),
            final(self).size == old(self).size,
            final(self).exits == old(self).exits,
            final(self).tiles == old(self).tiles,
            final(self).log == old(self).log,
            final(self).catalog == old(self).catalog,
    {
        let ghost given = new_item;
        let mut placed = new_item;
        placed.pos = pos;
        let mut duplicate = false;
        if placed.kind == ITEM_DOOR || placed.kind == ITEM_TREE {
            let mut i: usize = 0;
            while i < self.items.len()
                invariant
                    placed.kind == ITEM_DOOR || placed.kind == ITEM_TREE,
                    placed == (Item { pos, ..given }),
                    i <= self.items@.len(),
                    duplicate == exists|j: int| 0 <= j < i && self.items@[j].kind == placed.kind && self.items@[j].pos == pos,
                decreases self.items@.len() - i,
            {
                if self.items[i].kind == placed.kind && same_pos(self.items[i].pos, pos) {
                    duplicate = true;
                }
                i += 1;
            }
        }
        if !duplicate {
            self.items.push(placed);
        }
    }

    /// Whether some tool in `tools` is a key.
    pub open spec fn holds_key(tools: Seq<Item>) -> bool {
        exists|i: int| 0 <= i < tools.len() && tools[i].kind == ITEM_KEY
    }

    /// Index of the first item lying at `pos`.
    pub open spec fn first_item_at(items: Seq<Item>, pos: (u16, u16), k: int) -> bool {
        &&& 0 <= k < items.len()
        &&& items[k].pos == pos
        &&& forall|j: int| 0 <= j < k ==> items[j].pos != pos
    }

    /// Pushing against the non-gettable item at `idx`: a door opens for a
    /// key among `tools`, and otherwise takes damage and yields a door item.
    fn push_item(&mut self, from: (u16, u16), idx: usize, tools: &[Item]) -> (r: Option<Item>)
        requires
            old(self).wf(),
            idx < old(self).items@.len(),
        ensures
            final(self).wf(),
            final(self).push_outcome(old(self), idx as int, tools@, r),
    {
        if self.items[idx].kind != ITEM_DOOR {
            return None;
        }
        let mut t: usize = 0;
        while t < tools.len()
            invariant
                self == old(self),
                idx < self.items@.len(),
                self.items@[idx as int].kind == ITEM_DOOR,
                self.wf(),
                t <= tools@.len(),
                forall|j: int| 0 <= j < t ==> tools@[j].kind != ITEM_KEY,
            decreases tools@.len() - t,
        {
            if tools[t].kind == ITEM_KEY {
                let opened = use_on_item(&mut self.items[idx], tools[t].kind, &self.catalog);
                assert(opened);
                assert(World::holds_key(tools@));
                self.log_global("A door swung open.", from, false);
                return None;
            }
            t += 1;
        }
        self.items[idx].damage(&self.catalog);
        Some(Item::new(ITEM_DOOR, 1, 0, &self.catalog))
    }

    /// What pushing against item `idx` did, for the given tools.
    pub open spec fn push_outcome(&self, before: &World, idx: int, tools: Seq<Item>, r: Option<Item>) -> bool {
        let it = before.items@[idx];
        let now = self.items@[idx];
        &&& self.size == before.size
        &&& self.exits == before.exits
        &&& self.tiles == before.tiles
        &&& self.catalog == before.catalog
        &&& self.items@.len() == before.items@.len()
        &&& forall|j: int| 0 <= j < self.items@.len() && j != idx ==> self.items@[j] == before.items@[j]
        &&& it.kind != ITEM_DOOR ==> r is None && *self == *before
        &&& it.kind == ITEM_DOOR && World::holds_key(tools) ==> {
            &&& r is None
            &&& now.kind == crate::constants::ITEM_DOOR_OPEN
            &&& now.same_identity(&it)
            &&& self.log@.len() == before.log@.len() + 1
        }
        &&& it.kind == ITEM_DOOR && !World::holds_key(tools) ==> {
            &&& r is Some && r->Some_0.kind == ITEM_DOOR
            &&& now.damaged_from(&it, &before.catalog)
            &&& self.log == before.log
        }
    }

    /// Reaching for the cell next to `from`: the first item lying there is
    /// taken when it can be picked up, and pushed against otherwise.
    pub fn push_wall(&mut self, from: (u16, u16), dir: u8, tools: &[Item]) -> (r: Option<Item>)
        requires
            old(self).wf(),
        ensures
            final(self).wf(),
            final(self).size == old(self).size,
            final(self).exits == old(self).exits,
            final(self).tiles == old(self).tiles,
            final(self).catalog == old(self).catalog,
            ({
                let dest = old(self).spec_offset(from, dir);
                &&& (forall|j: int| 0 <= j < old(self).items@.len() ==> old(self).items@[j].pos != dest)
                    ==> r is None && *final(self) == *old(self)
                &&& forall|k: int| #[trigger] World::first_item_at(old(self).items@, dest, k) ==> {
                    &&& old(self).items@[k].can_get ==> {
                        &&& r == Some(old(self).items@[k])
                        &&& final(self).items@ == old(self).items@.update(k, old(self).items@.last()).drop_last()
                        &&& final(self).size == old(self).size && final(self).exits == old(self).exits
                        &&& final(self).tiles == old(self).tiles && final(self).log == old(self).log
                        &&& final(self).catalog == old(self).catalog
                    }
                    &&& !old(self).items@[k].can_get ==> final(self).push_outcome(old(self), k, tools@, r)
                }
            }),
    {
        let dest = self.offset(from, dir);
        let mut idx: usize = 0;
        while idx < self.items.len()
            invariant
                self.wf(),
                *self == *old(self),
                dest == self.spec_offset(from, dir),
                idx <= self.items@.len(),
                forall|j: int| 0 <= j < idx ==> self.items@[j].pos != dest,
            decreases self.items@.len() - idx,
        {
            if same_pos(self.items[idx].pos, dest) {
                assert(World::first_item_at(self.items@, dest, idx as int));
                assert(forall|k: int| #[trigger] World::first_item_at(self.items@, dest, k) ==> k == idx);
                if self.items[idx].can_get {
                    return Some(self.items.swap_remove(idx));
                }
                return self.push_item(from, idx, tools);
            }
            idx += 1;
        }
        None
    }

    /// Positions of the level exits, in order.
    pub fn exit_positions(&self) -> (r: Vec<(u16, u16)>)
        ensures
            r@.len() == self.exits@.len(),
            forall|i: int| 0 <= i < r@.len() ==> r@[i] == self.exits@[i].pos,
    {
        let mut r: Vec<(u16, u16)> = Vec::new();
        let mut i: usize = 0;
        while i < self.exits.len()
            invariant
                i <= self.exits@.len(),
                r@.len() == i,
                forall|j: int| 0 <= j < i ==> r@[j] == self.exits@[j].pos,
            decreases self.exits@.len() - i,
        {
            r.push(self.exits[i].pos);
            i += 1;
        }
        r
    }

    /// Sweeps away the items that decayed to debris.
    pub fn clear_debris(&mut self)
        requires
            old(self).wf(),
        ensures
            final(self).wf(),
            final(self).items@ == without_debris(old(self).items@),
            final(self).size == old(self).size,
            final(self).tiles == old(self).tiles,
            final(self).exits == old(self).exits,
            final(self).log == old(self).log,
            final(self).catalog == old(self).catalog,
    {
        let ghost orig = self.items@;
        let ghost n = orig.len();
        let ghost mut j: int = 0;
        let mut idx: usize = 0;
        while idx < self.items.len()
            invariant
                self.wf(),
                0 <= j <= n,
                n == orig.len(),
                idx == without_debris(orig.subrange(0, j)).len(),
                self.items@ == without_debris(orig.subrange(0, j)) + orig.subrange(j, n as int),
                self.size == old(self).size,
                self.tiles == old(self).tiles,
                self.exits == old(self).exits,
                self.log == old(self).log,
                self.catalog == old(self).catalog,
            decreases n - j,
        {
            let ghost kept = without_debris(orig.subrange(0, j));
            proof {
                assert(orig.subrange(0, j + 1).drop_last() =~= orig.subrange(0, j));
                assert(orig.subrange(0, j + 1).last() == orig[j]);
                assert(self.items@[idx as int] == orig[j]);
            }
            if self.items[idx].is_debris() {
                self.items.remove(idx);
                proof {
                    assert(self.items@ =~= kept + orig.subrange(j + 1, n as int));
                    j = j + 1;
                }
            } else {
                idx += 1;
                proof {
                    assert(self.items@ =~= kept.push(orig[j]) + orig.subrange(j + 1, n as int));
                    j = j + 1;
                }
            }
        }
        proof {
            assert(j == n) by {
                if j < n {
                    assert(self.items@.len() > idx);
                }
            }
            assert(orig.subrange(0, n as int) =~= orig);
            assert(self.items@ =~= without_debris(orig));
        }
    }

    /// Clears the map for the next scenario, keeping the tables.
    pub fn reset(&mut self)
        requires
            old(self).catalog.wf(),
        ensures
            final(self).wf(),
            final(self).size == (0u16, 0u16),
            final(self).items@.len() == 0,
            final(self).exits@.len() == 0,
            final(self).log@.len() == 0,
            final(self).catalog == old(self).catalog,
    {
        self.size = (0, 0);
        self.items = Vec::new();
        self.exits = Vec::new();
        self.tiles = Vec::new();
        self.log = Vec::new();
    }
}

} // verus!
