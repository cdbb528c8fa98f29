//! Treasure placement by rejection sampling, and the discovery detector.
use vstd::prelude::*;

use crate::catalog::{TreasureInfo, EMPTY_CELL};
use crate::grid::MiningGrid;
use crate::point::{idx_to_xy, spec_idx_to_xy, UPoint};
use crate::random::{random_below, random_choice};

verus! {

/// A placed treasure: the grid indices it covers and whether it has been
/// fully uncovered.
#[derive(Debug, Clone)]
pub struct Treasure {
    pub id: u32,
    pub parts: Vec<usize>,
    pub is_discovered: bool,
}

/// Which treasure, by its position in the session's list, owns each cell.
#[derive(Debug, Clone)]
pub struct TreasureGrid {
    pub treasures: Vec<Option<usize>>,
    pub width: usize,
    pub height: usize,
}

/// The world cell that shape cell `i` lands on when the shape is anchored at
/// `anchor`: the local column is added to `anchor.x`, the local row is taken
/// off `anchor.y`.
pub open spec fn world_cell(def: TreasureInfo, anchor: UPoint, i: int) -> (int, int) {
    let o = spec_idx_to_xy(i, def.width as int);
    (anchor.x + o.0, anchor.y - o.1)
}

/// Grid index of the world cell of shape cell `i`.
pub open spec fn world_index(width: int, def: TreasureInfo, anchor: UPoint, i: int) -> int {
    let c = world_cell(def, anchor, i);
    c.0 + c.1 * width
}

/// The grid indices covered by the first `n` shape cells, in shape order.
pub open spec fn placed_cells(width: int, def: TreasureInfo, anchor: UPoint, n: int) -> Seq<usize>
    decreases n,
{
    if n <= 0 {
        Seq::empty()
    } else {
        let prev = placed_cells(width, def, anchor, n - 1);
        if def.is_filled(n - 1) {
            prev.push(world_index(width, def, anchor, n - 1) as usize)
        } else {
            prev
        }
    }
}

/// The grid indices that `def` anchored at `anchor` covers.
pub open spec fn placement(width: int, def: TreasureInfo, anchor: UPoint) -> Seq<usize> {
    placed_cells(width, def, anchor, def.shape.len() as int)
}

/// `t` is a fresh treasure made from one definition of `defs` anchored at a
/// cell of a `width` by `height` grid: it covers exactly that placement, each
/// cell once.
pub open spec fn placed_from(width: usize, height: usize, defs: Seq<TreasureInfo>, t: Treasure) -> bool {
    &&& !t.is_discovered
    &&& t.parts@.no_duplicates()
    &&& exists|d: int, a: UPoint|
        0 <= d < defs.len() && a.x < width && a.y < height && defs[d].id == t.id && t.parts@
            == #[trigger] placement(width as int, defs[d], a)
}

/// `v` is the grid index of one of the first `n` occupied shape cells.
pub open spec fn lands_from_shape(width: int, def: TreasureInfo, anchor: UPoint, n: int, v: usize) -> bool {
    exists|i: int| 0 <= i < n && def.is_filled(i) && v as int == world_index(width, def, anchor, i)
}

/// Two shape cells that both land inside a grid of width `width` land on the
/// same grid index only if they are the same shape cell.
pub proof fn lemma_world_index_injective(
    width: int,
    def: TreasureInfo,
    anchor: UPoint,
    i: int,
    j: int,
)
    requires
        def.width > 0,
        0 <= i,
        0 <= j,
        0 <= world_cell(def, anchor, i).1,
        0 <= world_cell(def, anchor, j).1,
        world_cell(def, anchor, i).0 < width,
        world_cell(def, anchor, j).0 < width,
        world_index(width, def, anchor, i) == world_index(width, def, anchor, j),
    ensures
        i == j,
{
    let w = def.width as int;
    let ci = world_cell(def, anchor, i);
    let cj = world_cell(def, anchor, j);
    assert(0 <= i / w && 0 <= j / w) by (nonlinear_arith)
        requires
            0 <= i,
            0 <= j,
            w > 0,
    ;
    let d = cj.1 - ci.1;
    assert(d * width == ci.0 - cj.0) by (nonlinear_arith)
        requires
            ci.0 + ci.1 * width == cj.0 + cj.1 * width,
            d == cj.1 - ci.1,
    ;
    if d >= 1 {
        assert(d * width >= width) by (nonlinear_arith)
            requires
                d >= 1,
                width > 0,
        ;
    } else if d <= -1 {
        assert(d * width <= -width) by (nonlinear_arith)
            requires
                d <= -1,
                width > 0,
        ;
    }
    assert(d == 0);
    vstd::arithmetic::div_mod::lemma_fundamental_div_mod(i, w);
    vstd::arithmetic::div_mod::lemma_fundamental_div_mod(j, w);
}

impl TreasureGrid {
    pub open spec fn wf(&self) -> bool {
        self.treasures.len() == self.width * self.height
    }

    /// Shape cell `i` stays on the grid and lands on a free cell.
    pub open spec fn cell_fits(&self, def: TreasureInfo, anchor: UPoint, i: int) -> bool {
        let o = spec_idx_to_xy(i, def.width as int);
        let c = world_cell(def, anchor, i);
        &&& o.1 <= anchor.y
        &&& c.0 < self.width
        &&& c.1 < self.height
        &&& self.treasures@[c.0 + c.1 * self.width] is None
    }

    /// Every occupied cell of `def` anchored at `anchor` fits.
    pub open spec fn fits(&self, def: TreasureInfo, anchor: UPoint) -> bool {
        forall|i: int| 0 <= i < def.shape.len() && def.is_filled(i) ==> #[trigger] self.cell_fits(def, anchor, i)
    }

    /// Every part of every treasure is a grid index owned by that treasure.
    pub open spec fn owns_parts(&self, ts: Seq<Treasure>) -> bool {
        forall|t: int, k: int|
            0 <= t < ts.len() && 0 <= k < ts[t].parts.len() ==> {
                &&& (#[trigger] ts[t].parts@[k]) < self.treasures.len()
                &&& self.treasures@[ts[t].parts@[k] as int] == Some(t as usize)
            }
    }

    /// Every taken cell is listed among the parts of the treasure that owns it.
    pub open spec fn claims_only_parts(&self, ts: Seq<Treasure>) -> bool {
        forall|j: int|
            0 <= j < self.treasures.len() && (#[trigger] self.treasures@[j]) is Some ==> {
                &&& self.treasures@[j]->Some_0 < ts.len()
                &&& ts[self.treasures@[j]->Some_0 as int].parts@.contains(j as usize)
            }
    }

    /// An occupancy grid with no treasure on it.
    pub fn new(width: usize, height: usize) -> (r: Self)
        requires
            width * height <= usize::MAX,
        ensures
            r.wf(),
            r.width == width,
            r.height == height,
            forall|i: int| 0 <= i < r.treasures.len() ==> r.treasures@[i] is None,
    {
        let n = width * height;
        let mut treasures: Vec<Option<usize>> = Vec::new();
        for i in 0..n
            invariant
                treasures.len() == i,
                forall|j: int| 0 <= j < i ==> treasures@[j] is None,
        {
            treasures.push(None);
        }
        Self { treasures, width, height }
    }

    /// Grid indices covered by `treasure` anchored at `start`; the placement
    /// must fit.
    pub fn placement_indices(&self, treasure: &TreasureInfo, start: UPoint) -> (cells: Vec<usize>)
        requires
            self.wf(),
            treasure.wf(),
            self.fits(*treasure, start),
        ensures
            cells@ == placement(self.width as int, *treasure, start),
            cells@.no_duplicates(),
            forall|k: int|
                0 <= k < cells.len() ==> (#[trigger] cells@[k]) < self.treasures.len()
                    && self.treasures@[cells@[k] as int] is None,
    {
        let mut cells: Vec<usize> = Vec::new();
        let n = treasure.shape.len();
        for idx in 0..n
            invariant
                n == treasure.shape.len(),
                self.wf(),
                treasure.wf(),
                self.fits(*treasure, start),
                cells@ == placed_cells(self.width as int, *treasure, start, idx as int),
                cells@.no_duplicates(),
                forall|k: int|
                    0 <= k < cells.len() ==> lands_from_shape(
                        self.width as int,
                        *treasure,
                        start,
                        idx as int,
                        #[trigger] cells@[k],
                    ),
                forall|k: int|
                    0 <= k < cells.len() ==> (#[trigger] cells@[k]) < self.treasures.len()
                        && self.treasures@[cells@[k] as int] is None,
        {
            let ghost c0 = cells@;
            if treasure.shape[idx] != EMPTY_CELL {
                assert(self.cell_fits(*treasure, start, idx as int));
                let offset = idx_to_xy(idx, treasure.width);
                let x = offset.x + start.x;
                let y = start.y - offset.y;
                proof {
                    crate::grid::lemma_index_in_grid(
                        x as int,
                        y as int,
                        self.width as int,
                        self.height as int,
                    );
                }
                let new_idx = x + y * self.width;
                proof {
                    assert forall|k: int| 0 <= k < cells.len() implies cells@[k] != new_idx by {
                        assert(lands_from_shape(self.width as int, *treasure, start, idx as int, cells@[k]));
                        let i = choose|i: int|
                            0 <= i < idx && treasure.is_filled(i) && cells@[k] as int
                                == world_index(self.width as int, *treasure, start, i);
                        assert(self.cell_fits(*treasure, start, i));
                        if cells@[k] == new_idx {
                            lemma_world_index_injective(
                                self.width as int,
                                *treasure,
                                start,
                                i,
                                idx as int,
                            );
                        }
                    }
                }
                cells.push(new_idx);
            }
            proof {
                assert forall|k: int| 0 <= k < cells.len() implies lands_from_shape(
                    self.width as int,
                    *treasure,
                    start,
                    idx + 1,
                    #[trigger] cells@[k],
                ) by {
                    if k < c0.len() {
                        assert(cells@[k] == c0[k]);
                        assert(lands_from_shape(self.width as int, *treasure, start, idx as int, c0[k]));
                        let i = choose|i: int|
                            0 <= i < idx && treasure.is_filled(i) && c0[k] as int
                                == world_index(self.width as int, *treasure, start, i);
                        assert(0 <= i < idx + 1);
                    } else {
                        assert(treasure.is_filled(idx as int));
                    }
                }
            }
        }
        cells
    }

    /// Whether `treasure` anchored at `start` stays on the grid and overlaps
    /// no placed treasure.
    pub fn does_treasure_fit(&self, treasure: &TreasureInfo, start: UPoint) -> (r: bool)
        requires
            self.wf(),
            treasure.wf(),
        ensures
            r == self.fits(*treasure, start),
    {
        let n = treasure.shape.len();
        for idx in 0..n
            invariant
                n == treasure.shape.len(),
                self.wf(),
                treasure.wf(),
                forall|i: int|
                    0 <= i < idx && treasure.is_filled(i) ==> #[trigger] self.cell_fits(
                        *treasure,
                        start,
                        i,
                    ),
        {
            if treasure.shape[idx] != EMPTY_CELL {
                let offset = idx_to_xy(idx, treasure.width);
                if offset.y > start.y {
                    assert(!self.cell_fits(*treasure, start, idx as int));
                    return false;
                }
                if start.x >= self.width || offset.x >= self.width - start.x {
                    assert(!self.cell_fits(*treasure, start, idx as int));
                    return false;
                }
                let x = offset.x + start.x;
                let y = start.y - offset.y;
                if y >= self.height {
                    assert(!self.cell_fits(*treasure, start, idx as int));
                    return false;
                }
                proof {
                    crate::grid::lemma_index_in_grid(
                        x as int,
                        y as int,
                        self.width as int,
                        self.height as int,
                    );
                }
                let new_idx = x + y * self.width;
                if self.treasures[new_idx].is_some() {
                    assert(!self.cell_fits(*treasure, start, idx as int));
                    return false;
                }
            }
        }
        true
    }

    /// Marks every index of `cells` as owned by `owner`.
    fn claim(&mut self, cells: &Vec<usize>, owner: usize)
        requires
            forall|k: int| 0 <= k < cells.len() ==> (#[trigger] cells@[k]) < old(self).treasures.len(),
        ensures
            final(self).width == old(self).width,
            final(self).height == old(self).height,
            final(self).treasures.len() == old(self).treasures.len(),
            forall|j: int|
                0 <= j < final(self).treasures.len() ==> #[trigger] final(self).treasures@[j] == if cells@.contains(
                    j as usize,
                ) {
                    Some(owner)
                } else {
                    old(self).treasures@[j]
                },
    {
        let n = cells.len();
        for m in 0..n
            invariant
                n == cells.len(),
                forall|k: int| 0 <= k < cells.len() ==> (#[trigger] cells@[k]) < old(self).treasures.len(),
                self.width == old(self).width,
                self.height == old(self).height,
                self.treasures.len() == old(self).treasures.len(),
                forall|j: int|
                    0 <= j < self.treasures.len() ==> #[trigger] self.treasures@[j] == if cells@.subrange(
                        0,
                        m as int,
                    ).contains(j as usize) {
                        Some(owner)
                    } else {
                        old(self).treasures@[j]
                    },
        {
            let c = cells[m];
            self.treasures.set(c, Some(owner));
            assert forall|j: int| 0 <= j < self.treasures.len() implies #[trigger] self.treasures@[j]
                == if cells@.subrange(0, m + 1).contains(j as usize) {
                Some(owner)
            } else {
                old(self).treasures@[j]
            } by {
                let s0 = cells@.subrange(0, m as int);
                let s1 = cells@.subrange(0, m + 1);
                assert(s1 =~= s0.push(c));
                if s1.contains(j as usize) && j != c as int {
                    let k = choose|k: int| 0 <= k < s1.len() && s1[k] == j as usize;
                    assert(s0[k] == j as usize);
                }
                if s0.contains(j as usize) {
                    let k = choose|k: int| 0 <= k < s0.len() && s0[k] == j as usize;
                    assert(s1[k] == j as usize);
                }
                if j == c as int {
                    assert(s1[m as int] == c);
                }
            }
        }
        assert(cells@.subrange(0, n as int) =~= cells@);
    }

    /// Places `def` anchored at `anchor` when it fits: its cells, and only
    /// those, are claimed for a new undiscovered treasure appended to
    /// `treasures`. When it does not fit nothing changes.
    pub fn try_place(&mut self, treasures: &mut Vec<Treasure>, def: &TreasureInfo, anchor: UPoint) -> (placed: bool)
        requires
            old(self).wf(),
            def.wf(),
            old(self).owns_parts(old(treasures)@),
        ensures
            placed == old(self).fits(*def, anchor),
            final(self).wf(),
            final(self).width == old(self).width,
            final(self).height == old(self).height,
            final(self).owns_parts(final(treasures)@),
            old(self).claims_only_parts(old(treasures)@) ==> final(self).claims_only_parts(
                final(treasures)@,
            ),
            placed ==> {
                &&& final(treasures).len() == old(treasures).len() + 1
                &&& final(treasures)@.take(old(treasures).len() as int) == old(treasures)@
                &&& final(treasures)@.last().id == def.id
                &&& final(treasures)@.last().parts@ == placement(old(self).width as int, *def, anchor)
                &&& final(treasures)@.last().parts@.no_duplicates()
                &&& !final(treasures)@.last().is_discovered
                &&& forall|j: int|
                    0 <= j < final(self).treasures.len() ==> #[trigger] final(self).treasures@[j]
                        == if placement(old(self).width as int, *def, anchor).contains(j as usize) {
                        Some(old(treasures).len() as usize)
                    } else {
                        old(self).treasures@[j]
                    }
            },
            !placed ==> *final(self) == *old(self) && final(treasures)@ == old(treasures)@,
    {
        if !self.does_treasure_fit(def, anchor) {
            return false;
        }
        let cells = self.placement_indices(def, anchor);
        let owner = treasures.len();
        let ghost old_ts = treasures@;
        let ghost old_occ = *self;
        self.claim(&cells, owner);
        treasures.push(Treasure { id: def.id, parts: cells, is_discovered: false });
        assert(treasures@.take(old_ts.len() as int) =~= old_ts);
        assert forall|t: int, k: int|
            0 <= t < treasures@.len() && 0 <= k < treasures@[t].parts.len() implies {
            &&& (#[trigger] treasures@[t].parts@[k]) < self.treasures.len()
            &&& self.treasures@[treasures@[t].parts@[k] as int] == Some(t as usize)
        } by {
            let p = treasures@[t].parts@[k];
            if t < old_ts.len() {
                assert(old_ts[t] == treasures@[t]);
                assert(old_ts[t].parts@[k] == p);
                assert(p < old_occ.treasures.len());
                assert(old_occ.treasures@[p as int] == Some(t as usize));
                if cells@.contains(p) {
                    let q = choose|q: int| 0 <= q < cells.len() && cells@[q] == p;
                    assert(old_occ.treasures@[cells@[q] as int] is None);
                }
            } else {
                assert(cells@[k] == p);
                assert(cells@.contains(p));
            }
        }
        proof {
            if old_occ.claims_only_parts(old_ts) {
                assert forall|j: int|
                    0 <= j < self.treasures.len() && (#[trigger] self.treasures@[j]) is Some implies {
                    &&& self.treasures@[j]->Some_0 < treasures@.len()
                    &&& treasures@[self.treasures@[j]->Some_0 as int].parts@.contains(j as usize)
                } by {
                    if cells@.contains(j as usize) {
                        assert(treasures@[owner as int].parts@ == cells@);
                    } else {
                        assert(old_occ.treasures@[j] is Some);
                        let o = old_occ.treasures@[j]->Some_0;
                        assert(treasures@[o as int] == old_ts[o as int]);
                    }
                }
            }
        }
        true
    }

    /// Rejection sampling: up to `max_attempts` times, draws a random anchor on
    /// the grid and a random definition, and places it if it fits; stops once
    /// `count` treasures have been added. Returns whether all `count` were
    /// placed. Every treasure added is undiscovered, covers exactly the cells
    /// of one definition of `defs` at an anchor on the grid, each once, and
    /// owns cells that no other treasure owns. A grid with no cells gets none.
    pub fn place_treasures(
        &mut self,
        treasures: &mut Vec<Treasure>,
        defs: &Vec<TreasureInfo>,
        count: usize,
        max_attempts: usize,
    ) -> (complete: bool)
        requires
            old(self).wf(),
            old(self).owns_parts(old(treasures)@),
            forall|d: int| 0 <= d < defs.len() ==> (#[trigger] defs@[d]).wf(),
        ensures
            final(self).wf(),
            final(self).width == old(self).width,
            final(self).height == old(self).height,
            final(self).owns_parts(final(treasures)@),
            old(self).claims_only_parts(old(treasures)@) ==> final(self).claims_only_parts(
                final(treasures)@,
            ),
            old(treasures).len() <= final(treasures).len() <= old(treasures).len() + count,
            final(treasures)@.take(old(treasures).len() as int) == old(treasures)@,
            forall|t: int|
                old(treasures).len() <= t < final(treasures).len() ==> placed_from(
                    old(self).width,
                    old(self).height,
                    defs@,
                    #[trigger] final(treasures)@[t],
                ),
            complete == (final(treasures).len() == old(treasures).len() + count),
            old(self).width == 0 || old(self).height == 0 ==> *final(self) == *old(self)
                && final(treasures)@ == old(treasures)@,
    {
        let ghost start_ts = treasures@;
        let mut placed: usize = 0;
        let mut attempt: usize = 0;
        while attempt < max_attempts && placed < count
            invariant
                self.wf(),
                self.width == old(self).width,
                self.height == old(self).height,
                self.owns_parts(treasures@),
                old(self).claims_only_parts(old(treasures)@) ==> self.claims_only_parts(
                    treasures@,
                ),
                forall|d: int| 0 <= d < defs.len() ==> (#[trigger] defs@[d]).wf(),
                placed <= count,
                treasures.len() == start_ts.len() + placed,
                treasures@.take(start_ts.len() as int) == start_ts,
                start_ts == old(treasures)@,
                forall|t: int|
                    start_ts.len() <= t < treasures.len() ==> placed_from(
                        self.width,
                        self.height,
                        defs@,
                        #[trigger] treasures@[t],
                    ),
                self.width == 0 || self.height == 0 ==> *self == *old(self) && placed == 0,
            decreases max_attempts - attempt,
        {
            attempt += 1;
            if self.width == 0 || self.height == 0 {
                break;
            }
            let left_x = random_below(self.width);
            let bottom_y = random_below(self.height);
            let def = match random_choice(defs) {
                Some(d) => d,
                None => break,
            };
            let ghost e = choose|e: int| 0 <= e < defs.len() && defs@[e] == *def;
            assert(defs@[e].wf());
            let ghost before = treasures@;
            let anchor = UPoint { x: left_x, y: bottom_y };
            if self.try_place(treasures, def, anchor) {
                placed += 1;
                proof {
                    assert(treasures@.take(start_ts.len() as int) =~= before.take(
                        start_ts.len() as int,
                    ));
                    assert forall|t: int| start_ts.len() <= t < treasures.len() implies placed_from(
                        self.width,
                        self.height,
                        defs@,
                        #[trigger] treasures@[t],
                    ) by {
                        if t < before.len() {
                            assert(treasures@[t] == before[t]);
                        } else {
                            assert(treasures@[t] == treasures@.last());
                            assert(defs@[e].id == treasures@[t].id);
                            assert(treasures@[t].parts@ == placement(self.width as int, defs@[e], anchor));
                        }
                    }
                }
            }
        }
        proof {
            if self.width == 0 || self.height == 0 {
                assert(treasures@ =~= treasures@.take(start_ts.len() as int));
            }
        }
        placed == count
    }
}

} // verus!

verus! {

/// Treasures that own their cells in one occupancy grid, as every placement
/// made by `try_place` and `place_treasures` leaves them, never share a cell.
pub proof fn lemma_parts_disjoint(occ: TreasureGrid, ts: Seq<Treasure>)
    requires
        occ.owns_parts(ts),
        ts.len() <= usize::MAX,
    ensures
        forall|t1: int, t2: int, k1: int, k2: int|
            0 <= t1 < ts.len() && 0 <= t2 < ts.len() && t1 != t2 && 0 <= k1 < ts[t1].parts.len()
                && 0 <= k2 < ts[t2].parts.len() ==> #[trigger] ts[t1].parts@[k1]
                != #[trigger] ts[t2].parts@[k2],
{
    assert forall|t1: int, t2: int, k1: int, k2: int|
        0 <= t1 < ts.len() && 0 <= t2 < ts.len() && t1 != t2 && 0 <= k1 < ts[t1].parts.len() && 0
            <= k2 < ts[t2].parts.len() implies #[trigger] ts[t1].parts@[k1]
        != #[trigger] ts[t2].parts@[k2] by {
        assert(occ.treasures@[ts[t1].parts@[k1] as int] == Some(t1 as usize));
        assert(occ.treasures@[ts[t2].parts@[k2] as int] == Some(t2 as usize));
    }
}

} // verus!
