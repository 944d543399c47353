use vstd::prelude::*;
use crate::text::contains_char;
use crate::world::World;

verus! {

/// Distance of a cell no search has reached.
pub const PATH_UNKNOWN_DISTANCE: i32 = 2147483647;
/// Glyphs a search never steps into.
pub const PATH_DONT_PROPAGATE_INTO: &'static str = "`'*#^";
/// Glyphs a search only leaves for a cell of the same glyph.
pub const PATH_DONT_PROPAGATE_OUT_OF: &'static str = "~`'*#%^";

/// A position on a grid of `size` columns by rows.
pub open spec fn in_grid(size: (u16, u16), p: (u16, u16)) -> bool {
    p.0 < size.0 && p.1 < size.1
}

/// Row-major index of a position.
pub open spec fn cell_of(size: (u16, u16), p: (u16, u16)) -> int {
    p.1 * size.0 + p.0
}

/// Distance stored for a position.
pub open spec fn dist_at(d: Seq<i32>, size: (u16, u16), p: (u16, u16)) -> i32 {
    d[cell_of(size, p)]
}

/// Whether a search may step from `a` to `b`: out of a sticky terrain only onto the same terrain.
pub open spec fn propagates(world: &World, a: (u16, u16), b: (u16, u16)) -> bool {
    !PATH_DONT_PROPAGATE_OUT_OF@.contains(world.spec_glyph_at(a)) || world.spec_glyph_at(b) == world.spec_glyph_at(a)
}

/// One search step from `a` in move direction `dir` (8 stays put).
pub open spec fn step_to(world: &World, a: (u16, u16), dir: u8, team: usize) -> (u16, u16) {
    world.spec_neighbor(a, dir, team, PATH_DONT_PROPAGATE_INTO@)
}

/// The step from `a` in direction `dir` reaches a cell at most one farther than `a`.
pub open spec fn edge_relaxed(d: Seq<i32>, size: (u16, u16), world: &World, team: usize, a: (u16, u16), dir: u8) -> bool {
    let b = step_to(world, a, dir, team);
    in_grid(size, b) && propagates(world, a, b) ==> dist_at(d, size, b) != PATH_UNKNOWN_DISTANCE && dist_at(d, size, b)
        <= dist_at(d, size, a) + 1
}

/// Every cell reached in fewer than `cap` steps has all its steps relaxed.
pub open spec fn field_relaxed(d: Seq<i32>, size: (u16, u16), world: &World, team: usize, cap: i32) -> bool {
    forall|a: (u16, u16), dir: u8|
        in_grid(size, a) && 0 <= dist_at(d, size, a) < cap && dir <= 8 ==> #[trigger] edge_relaxed(d, size, world, team, a, dir)
}

/// A reached cell is a goal at distance 0, or one search step beyond a cell
/// reached one step earlier.
pub open spec fn cell_supported(d: Seq<i32>, size: (u16, u16), world: &World, team: usize, goals: Seq<(u16, u16)>, b: (u16, u16)) -> bool {
    ||| dist_at(d, size, b) == 0 && goals.contains(b)
    ||| dist_at(d, size, b) > 0 && exists|a: (u16, u16), dir: u8|
        in_grid(size, a) && dir <= 8 && #[trigger] step_to(world, a, dir, team) == b && propagates(world, a, b) && dist_at(d, size, a)
            == dist_at(d, size, b) - 1
}

/// Every reached cell is supported: together with `field_relaxed` this makes
/// each stored distance the least number of search steps from a goal, and
/// leaves every cell the search cannot reach at the unknown distance.
pub open spec fn field_supported(d: Seq<i32>, size: (u16, u16), world: &World, team: usize, goals: Seq<(u16, u16)>) -> bool {
    forall|b: (u16, u16)|
        in_grid(size, b) && dist_at(d, size, b) != PATH_UNKNOWN_DISTANCE ==> #[trigger] cell_supported(d, size, world, team, goals, b)
}

/// Supported cells stay supported while known distances keep their values.
pub proof fn lemma_supported_stable(
    d0: Seq<i32>,
    d1: Seq<i32>,
    size: (u16, u16),
    world: &World,
    team: usize,
    goals: Seq<(u16, u16)>,
    b: (u16, u16),
)
    requires
        d0.len() == d1.len(),
        d0.len() == size.0 * size.1,
        forall|c: int| 0 <= c < d0.len() && d0[c] != PATH_UNKNOWN_DISTANCE ==> #[trigger] d1[c] == d0[c],
        field_bounded(d0, 1000),
        in_grid(size, b),
        dist_at(d0, size, b) != PATH_UNKNOWN_DISTANCE,
        cell_supported(d0, size, world, team, goals, b),
    ensures
        cell_supported(d1, size, world, team, goals, b),
{
    lemma_cell_in_range(size, b);
    if dist_at(d0, size, b) > 0 {
        let (a, dir) = choose|a: (u16, u16), dir: u8|
            in_grid(size, a) && dir <= 8 && #[trigger] step_to(world, a, dir, team) == b && propagates(world, a, b) && dist_at(d0, size, a)
                == dist_at(d0, size, b) - 1;
        lemma_cell_in_range(size, a);
        assert(dist_at(d1, size, a) == dist_at(d1, size, b) - 1);
    }
}

/// Every stored distance is a step count no larger than `bound`, or unknown.
pub open spec fn field_bounded(d: Seq<i32>, bound: int) -> bool {
    forall|c: int| 0 <= c < d.len() ==> #[trigger] d[c] == PATH_UNKNOWN_DISTANCE || 0 <= d[c] <= bound
}

pub proof fn lemma_cell_in_range(size: (u16, u16), p: (u16, u16))
    requires
        in_grid(size, p),
    ensures
        0 <= cell_of(size, p) < size.0 * size.1,
{
    assert(p.1 * size.0 + p.0 < size.0 * size.1) by (nonlinear_arith)
        requires
            p.0 < size.0,
            p.1 < size.1,
    ;
    assert(0 <= p.1 * size.0) by (nonlinear_arith)
        requires
            0 <= p.1,
            0 <= size.0,
    ;
}

pub proof fn lemma_cell_injective(size: (u16, u16), p: (u16, u16), q: (u16, u16))
    requires
        in_grid(size, p),
        in_grid(size, q),
        cell_of(size, p) == cell_of(size, q),
    ensures
        p == q,
{
    let w = size.0 as int;
    if p.1 < q.1 {
        assert(q.1 * w >= p.1 * w + w) by (nonlinear_arith)
            requires
                q.1 >= p.1 + 1,
                w >= 0,
        ;
    } else if q.1 < p.1 {
        assert(p.1 * w >= q.1 * w + w) by (nonlinear_arith)
            requires
                p.1 >= q.1 + 1,
                w >= 0,
        ;
    }
}

/// Relaxed steps stay relaxed while known distances keep their values.
pub proof fn lemma_relaxed_stable(d0: Seq<i32>, d1: Seq<i32>, size: (u16, u16), world: &World, team: usize, a: (u16, u16), dir: u8)
    requires
        d0.len() == d1.len(),
        d0.len() == size.0 * size.1,
        forall|c: int| 0 <= c < d0.len() && d0[c] != PATH_UNKNOWN_DISTANCE ==> #[trigger] d1[c] == d0[c],
        in_grid(size, a),
        dist_at(d0, size, a) != PATH_UNKNOWN_DISTANCE,
        edge_relaxed(d0, size, world, team, a, dir),
    ensures
        edge_relaxed(d1, size, world, team, a, dir),
{
    lemma_cell_in_range(size, a);
    let b = step_to(world, a, dir, team);
    if in_grid(size, b) {
        lemma_cell_in_range(size, b);
    }
}

/// Index of an in-grid position.
pub fn grid_index(size: (u16, u16), p: (u16, u16)) -> (r: Option<usize>)
    ensures
        r is Some <==> in_grid(size, p),
        r is Some ==> r->Some_0 == cell_of(size, p) && r->Some_0 < size.0 * size.1,
{
    if p.0 < size.0 && p.1 < size.1 {
        proof {
            lemma_cell_in_range(size, p);
        }
        assert(p.1 as int * size.0 as int <= 65535 * 65535) by (nonlinear_arith)
            requires
                p.1 <= 65535,
                size.0 <= 65535,
        ;
        Some((p.1 as u32 * size.0 as u32 + p.0 as u32) as usize)
    } else {
        None
    }
}

/// Multi-source breadth-first search: `dist` becomes the number of steps from
/// the nearest goal, for cells reached within `cap` layers, and unknown elsewhere.
pub fn flood(dist: &mut Vec<i32>, size: (u16, u16), world: &World, team: usize, goals: &Vec<(u16, u16)>, cap: i32)
    requires
        old(dist)@.len() == size.0 * size.1,
        world.wf(),
        0 <= cap <= 1000,
    ensures
        final(dist)@.len() == old(dist)@.len(),
        field_bounded(final(dist)@, cap as int),
        field_relaxed(final(dist)@, size, world, team, cap),
        field_supported(final(dist)@, size, world, team, goals@),
        forall|k: int| 0 <= k < goals@.len() && in_grid(size, goals@[k]) ==> dist_at(final(dist)@, size, goals@[k]) == 0,
{
    let n = dist.len();
    let mut i: usize = 0;
    while i < n
        invariant
            n == dist@.len(),
            n == size.0 * size.1,
            i <= n,
            forall|c: int| 0 <= c < i ==> dist@[c] == PATH_UNKNOWN_DISTANCE,
        decreases n - i,
    {
        dist.set(i, PATH_UNKNOWN_DISTANCE);
        i += 1;
    }
    let mut open: Vec<(u16, u16)> = Vec::new();
    assert forall|p: (u16, u16)| in_grid(size, p) implies dist_at(dist@, size, p) != 0 by {
        lemma_cell_in_range(size, p);
    }
    let mut g: usize = 0;
    while g < goals.len()
        invariant
            n == dist@.len(),
            n == size.0 * size.1,
            g <= goals@.len(),
            field_bounded(dist@, 0),
            forall|p: (u16, u16)| in_grid(size, p) && dist_at(dist@, size, p) == 0 ==> open@.contains(p),
            forall|k: int| 0 <= k < open@.len() ==> in_grid(size, #[trigger] open@[k]) && dist_at(dist@, size, open@[k]) == 0,
            forall|k: int| 0 <= k < g && in_grid(size, goals@[k]) ==> dist_at(dist@, size, #[trigger] goals@[k]) == 0,
            forall|b: (u16, u16)| in_grid(size, b) && dist_at(dist@, size, b) == 0 ==> goals@.contains(b),
        decreases goals@.len() - g,
    {
        let p = goals[g];
        if let Some(c) = grid_index(size, p) {
            let ghost d_prev = dist@;
            let ghost o_prev = open@;
            dist.set(c, 0);
            open.push(p);
            assert forall|q: (u16, u16)| in_grid(size, q) && dist_at(dist@, size, q) == 0 implies open@.contains(q) by {
                lemma_cell_in_range(size, q);
                if cell_of(size, q) == c {
                    lemma_cell_injective(size, p, q);
                    assert(open@[open@.len() - 1] == q);
                } else {
                    assert(dist_at(d_prev, size, q) == 0);
                    assert(o_prev.contains(q));
                    let k = choose|k: int| 0 <= k < o_prev.len() && o_prev[k] == q;
                    assert(open@[k] == q);
                }
            }
            assert forall|b: (u16, u16)| in_grid(size, b) && dist_at(dist@, size, b) == 0 implies goals@.contains(b) by {
                lemma_cell_in_range(size, b);
                if cell_of(size, b) == c {
                    lemma_cell_injective(size, p, b);
                    assert(goals@[g as int] == b);
                } else {
                    assert(dist_at(d_prev, size, b) == 0);
                }
            }
            assert forall|kk: int| 0 <= kk < open@.len() implies in_grid(size, #[trigger] open@[kk]) && dist_at(dist@, size, open@[kk]) == 0 by {
                if kk < o_prev.len() {
                    lemma_cell_in_range(size, open@[kk]);
                }
            }
            assert forall|kk: int| 0 <= kk < g + 1 && in_grid(size, goals@[kk]) implies dist_at(dist@, size, #[trigger] goals@[kk]) == 0 by {
                lemma_cell_in_range(size, goals@[kk]);
            }
        }
        g += 1;
    }
    assert forall|b: (u16, u16)| in_grid(size, b) && dist_at(dist@, size, b) != PATH_UNKNOWN_DISTANCE implies #[trigger] cell_supported(
        dist@,
        size,
        world,
        team,
        goals@,
        b,
    ) by {
        lemma_cell_in_range(size, b);
    }
    let mut step: i32 = 0;
    while open.len() > 0 && step < cap
        invariant
            n == dist@.len(),
            n == size.0 * size.1,
            world.wf(),
            0 <= step <= cap <= 1000,
            field_bounded(dist@, step as int),
            forall|p: (u16, u16)| in_grid(size, p) && dist_at(dist@, size, p) == step ==> open@.contains(p),
            forall|k: int| 0 <= k < open@.len() ==> in_grid(size, #[trigger] open@[k]) && dist_at(dist@, size, open@[k]) == step,
            field_relaxed(dist@, size, world, team, step),
            field_supported(dist@, size, world, team, goals@),
            forall|k: int| 0 <= k < goals@.len() && in_grid(size, goals@[k]) ==> dist_at(dist@, size, #[trigger] goals@[k]) == 0,
        decreases cap - step,
    {
        let ghost d0 = dist@;
        let mut next: Vec<(u16, u16)> = Vec::new();
        assert forall|p: (u16, u16)| in_grid(size, p) implies dist_at(dist@, size, p) != step + 1 by {
            lemma_cell_in_range(size, p);
        }
        let mut k: usize = 0;
        while k < open.len()
            invariant
                n == dist@.len(),
                n == size.0 * size.1,
                world.wf(),
                0 <= step < cap <= 1000,
                d0.len() == n,
                field_bounded(d0, step as int),
                field_bounded(dist@, step + 1),
                forall|c: int| 0 <= c < n && d0[c] != PATH_UNKNOWN_DISTANCE ==> #[trigger] dist@[c] == d0[c],
                forall|c: int| 0 <= c < n && d0[c] == PATH_UNKNOWN_DISTANCE ==> #[trigger] dist@[c] == PATH_UNKNOWN_DISTANCE || dist@[c] == step + 1,
                k <= open@.len(),
                forall|j: int| 0 <= j < open@.len() ==> in_grid(size, #[trigger] open@[j]) && dist_at(d0, size, open@[j]) == step,
                forall|j: int| 0 <= j < next@.len() ==> in_grid(size, #[trigger] next@[j]) && dist_at(dist@, size, next@[j]) == step + 1,
                forall|p: (u16, u16)| in_grid(size, p) && dist_at(dist@, size, p) == step + 1 ==> next@.contains(p),
                forall|j: int, dir: u8| 0 <= j < k && dir <= 8 ==> #[trigger] edge_relaxed(dist@, size, world, team, open@[j], dir),
                field_supported(dist@, size, world, team, goals@),
            decreases open@.len() - k,
        {
            let pos = open[k];
            let here = world.glyph_at(pos);
            let sticky = contains_char(PATH_DONT_PROPAGATE_OUT_OF, here);
            let mut dir: u8 = 0;
            while dir <= 8
                invariant
                    n == dist@.len(),
                    n == size.0 * size.1,
                    world.wf(),
                    0 <= step < cap <= 1000,
                    d0.len() == n,
                    field_bounded(dist@, step + 1),
                    forall|c: int| 0 <= c < n && d0[c] != PATH_UNKNOWN_DISTANCE ==> #[trigger] dist@[c] == d0[c],
                    forall|c: int| 0 <= c < n && d0[c] == PATH_UNKNOWN_DISTANCE ==> #[trigger] dist@[c] == PATH_UNKNOWN_DISTANCE || dist@[c] == step + 1,
                    k < open@.len(),
                    forall|j: int| 0 <= j < open@.len() ==> in_grid(size, #[trigger] open@[j]) && dist_at(d0, size, open@[j]) == step,
                    pos == open@[k as int],
                    in_grid(size, pos),
                    dist_at(d0, size, pos) == step,
                    here == world.spec_glyph_at(pos),
                    sticky == PATH_DONT_PROPAGATE_OUT_OF@.contains(here),
                    dir <= 9,
                    forall|j: int| 0 <= j < next@.len() ==> in_grid(size, #[trigger] next@[j]) && dist_at(dist@, size, next@[j]) == step + 1,
                    forall|p: (u16, u16)| in_grid(size, p) && dist_at(dist@, size, p) == step + 1 ==> next@.contains(p),
                    forall|j: int, e: u8| 0 <= j < k && e <= 8 ==> #[trigger] edge_relaxed(dist@, size, world, team, open@[j], e),
                    forall|e: u8| e < dir ==> #[trigger] edge_relaxed(dist@, size, world, team, pos, e),
                    field_supported(dist@, size, world, team, goals@),
                decreases 9 - dir,
            {
                let nb = world.neighbor(pos, dir, team, PATH_DONT_PROPAGATE_INTO);
                if let Some(c) = grid_index(size, nb) {
                    if dist[c] == PATH_UNKNOWN_DISTANCE && (!sticky || world.glyph_at(nb) == here) {
                        let ghost d1 = dist@;
                        let ghost n_prev = next@;
                        dist.set(c, step + 1);
                        next.push(nb);
                        proof {
                            lemma_cell_in_range(size, pos);
                            assert(forall|x: int| 0 <= x < n && d1[x] != PATH_UNKNOWN_DISTANCE ==> #[trigger] dist@[x] == d1[x]);
                            assert(dist_at(d1, size, pos) == step);
                            assert forall|j: int, e: u8| 0 <= j < k && e <= 8 implies #[trigger] edge_relaxed(dist@, size, world, team, open@[j], e) by {
                                lemma_cell_in_range(size, open@[j]);
                                assert(dist_at(d1, size, open@[j]) == step);
                                assert(edge_relaxed(d1, size, world, team, open@[j], e));
                                lemma_relaxed_stable(d1, dist@, size, world, team, open@[j], e);
                            }
                            assert forall|e: u8| e < dir implies #[trigger] edge_relaxed(dist@, size, world, team, pos, e) by {
                                assert(edge_relaxed(d1, size, world, team, pos, e));
                                lemma_relaxed_stable(d1, dist@, size, world, team, pos, e);
                            }
                            assert forall|p: (u16, u16)| in_grid(size, p) && dist_at(dist@, size, p) == step + 1 implies next@.contains(p) by {
                                lemma_cell_in_range(size, p);
                                if cell_of(size, p) == c {
                                    lemma_cell_injective(size, p, nb);
                                    assert(next@[next@.len() - 1] == p);
                                } else {
                                    assert(dist_at(d1, size, p) == step + 1);
                                    assert(n_prev.contains(p));
                                    let j = choose|j: int| 0 <= j < n_prev.len() && n_prev[j] == p;
                                    assert(next@[j] == p);
                                }
                            }
                            assert forall|b: (u16, u16)| in_grid(size, b) && dist_at(dist@, size, b) != PATH_UNKNOWN_DISTANCE implies #[trigger] cell_supported(
                                dist@,
                                size,
                                world,
                                team,
                                goals@,
                                b,
                            ) by {
                                lemma_cell_in_range(size, b);
                                if cell_of(size, b) == c {
                                    lemma_cell_injective(size, b, nb);
                                    assert(step_to(world, pos, dir, team) == b);
                                    assert(dist_at(dist@, size, pos) == step);
                                } else {
                                    assert(dist_at(d1, size, b) == dist_at(dist@, size, b));
                                    assert(cell_supported(d1, size, world, team, goals@, b));
                                    lemma_supported_stable(d1, dist@, size, world, team, goals@, b);
                                }
                            }
                            assert forall|j: int| 0 <= j < next@.len() implies in_grid(size, #[trigger] next@[j]) && dist_at(dist@, size, next@[j]) == step + 1 by {
                                if j < next@.len() - 1 {
                                    lemma_cell_in_range(size, next@[j]);
                                }
                            }
                        }
                    }
                }
                proof {
                    lemma_cell_in_range(size, pos);
                    assert(edge_relaxed(dist@, size, world, team, pos, dir));
                }
                dir += 1;
            }
            k += 1;
        }
        proof {
            assert forall|a: (u16, u16), dir: u8|
                in_grid(size, a) && 0 <= dist_at(dist@, size, a) < step + 1 && dir <= 8 implies #[trigger] edge_relaxed(dist@, size, world, team, a, dir) by {
                lemma_cell_in_range(size, a);
                if dist_at(d0, size, a) == step {
                    assert(open@.contains(a));
                    let j = choose|j: int| 0 <= j < open@.len() && open@[j] == a;
                    assert(edge_relaxed(dist@, size, world, team, open@[j], dir));
                } else {
                    assert(edge_relaxed(d0, size, world, team, a, dir));
                    lemma_relaxed_stable(d0, dist@, size, world, team, a, dir);
                }
            }
            assert forall|kk: int| 0 <= kk < goals@.len() && in_grid(size, goals@[kk]) implies dist_at(dist@, size, #[trigger] goals@[kk]) == 0 by {
                lemma_cell_in_range(size, goals@[kk]);
            }
        }
        open = next;
        step += 1;
    }
    proof {
        if open@.len() == 0 {
            assert forall|a: (u16, u16), dir: u8|
                in_grid(size, a) && 0 <= dist_at(dist@, size, a) < cap && dir <= 8 implies #[trigger] edge_relaxed(dist@, size, world, team, a, dir) by {
                lemma_cell_in_range(size, a);
                if dist_at(dist@, size, a) == step {
                    assert(open@.contains(a));
                }
            }
        }
    }
}

} // verus!
