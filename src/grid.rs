//! The grid of breakable rock tiles and the area of effect of each tool.
use bevy::utils::HashSet;
use vstd::prelude::*;

use crate::point::UPoint;
use crate::random::random_usize;
use crate::tools::{PickaxeRotation, ToolType};

verus! {

/// One breakable rock; `hp == 0` means destroyed and passable.
#[derive(Debug, Copy, Clone, PartialEq, Eq, Structural)]
pub struct MiningTile {
    pub hp: usize,
}

impl MiningTile {
    pub fn new(hp: usize) -> (r: Self)
        ensures
            r.hp == hp,
    {
        Self { hp }
    }

    /// Atlas index of the tile's sprite: `hp - 1`, or none once it is destroyed.
    pub fn atlas_index(&self) -> (r: Option<usize>)
        ensures
            self.hp == 0 ==> r is None,
            self.hp > 0 ==> r == Some((self.hp - 1) as usize),
    {
        if self.hp == 0 {
            None
        } else {
            Some(self.hp - 1)
        }
    }
}

/// The rock tiles of one session, row by row: cell `(x, y)` is at
/// `x + y * width`. An empty cell holds no breakable rock.
#[derive(Debug, Clone)]
pub struct MiningGrid {
    pub rock_tiles: Vec<Option<MiningTile>>,
    pub width: usize,
    pub height: usize,
}

/// Starting hit points for a random draw `roll`: one of `1..=4`.
pub open spec fn hp_from_roll(roll: usize) -> usize {
    (roll % 4 + 1) as usize
}

/// `v - 1`, stopping at zero.
pub open spec fn sat_dec(v: int) -> int {
    if v > 0 {
        v - 1
    } else {
        0
    }
}

/// The cells a tool aims at around `(x, y)`, before clipping to the grid.
pub open spec fn candidate_cells(tool: ToolType, x: int, y: int) -> Seq<(int, int)> {
    match tool {
        ToolType::TinyHammer => seq![(x, y)],
        ToolType::Pickaxe { rotation } => match rotation {
            PickaxeRotation::Horizontal => seq![(x, y), (sat_dec(x), y), (x + 1, y)],
            PickaxeRotation::Vertical => seq![(x, y), (x, sat_dec(y)), (x, y + 1)],
            PickaxeRotation::Cross => seq![
                (x, y),
                (x, sat_dec(y)),
                (x, y + 1),
                (sat_dec(x), y),
                (x + 1, y),
            ],
        },
    }
}

/// Stability spent by one action of `tool` that hits something.
pub open spec fn tool_cost(tool: ToolType) -> u32 {
    match tool {
        ToolType::TinyHammer => 75,
        ToolType::Pickaxe { rotation } => match rotation {
            PickaxeRotation::Horizontal => 25,
            PickaxeRotation::Vertical => 25,
            PickaxeRotation::Cross => 45,
        },
    }
}

/// The indices hit by `tool` aimed at `(x, y)`: the candidate cells that lie
/// inside the grid and hold a tile.
pub open spec fn hit_set(tool: ToolType, x: int, y: int, grid: MiningGrid) -> Set<usize> {
    Set::new(
        |i: usize|
            exists|k: int|
                0 <= k < candidate_cells(tool, x, y).len() && #[trigger] grid.hits_cell(
                    candidate_cells(tool, x, y)[k],
                    i as int,
                ),
    )
}

pub proof fn lemma_index_in_grid(x: int, y: int, width: int, height: int)
    requires
        0 <= x < width,
        0 <= y < height,
    ensures
        0 <= x + y * width < width * height,
{
    assert(0 <= y * width) by (nonlinear_arith)
        requires
            0 <= y,
            0 <= width,
    ;
    assert(x + y * width < width * height) by (nonlinear_arith)
        requires
            0 <= x < width,
            0 <= y < height,
    ;
}

impl MiningGrid {
    /// The tile vector covers the whole grid.
    pub open spec fn wf(&self) -> bool {
        self.rock_tiles.len() == self.width * self.height
    }

    pub open spec fn in_bounds(&self, c: (int, int)) -> bool {
        0 <= c.0 < self.width && 0 <= c.1 < self.height
    }

    pub open spec fn has_tile(&self, i: int) -> bool {
        0 <= i < self.rock_tiles.len() && self.rock_tiles@[i] is Some
    }

    /// Hit points at index `i`, when a tile is there.
    pub open spec fn hp_at(&self, i: int) -> usize {
        self.rock_tiles@[i]->Some_0.hp
    }

    /// Aiming at cell `c` hits index `i`.
    pub open spec fn hits_cell(&self, c: (int, int), i: int) -> bool {
        &&& self.in_bounds(c)
        &&& i == c.0 + c.1 * self.width
        &&& self.has_tile(i)
    }

    /// A grid with no tiles.
    pub fn new(width: usize, height: usize) -> (r: Self)
        requires
            width * height <= usize::MAX,
        ensures
            r.wf(),
            r.width == width,
            r.height == height,
            forall|i: int| 0 <= i < r.rock_tiles.len() ==> r.rock_tiles@[i] is None,
    {
        let n = width * height;
        let mut rock_tiles: Vec<Option<MiningTile>> = Vec::new();
        for i in 0..n
            invariant
                rock_tiles.len() == i,
                forall|j: int| 0 <= j < i ==> rock_tiles@[j] is None,
        {
            rock_tiles.push(None);
        }
        Self { rock_tiles, width, height }
    }

    /// A grid whose tile at index `i` starts with `hp_from_roll(rolls[i])`.
    pub fn from_rolls(width: usize, height: usize, rolls: &Vec<usize>) -> (r: Self)
        requires
            rolls.len() == width * height,
        ensures
            r.wf(),
            r.width == width,
            r.height == height,
            forall|i: int|
                0 <= i < r.rock_tiles.len() ==> r.rock_tiles@[i] == Some(
                    MiningTile { hp: hp_from_roll(rolls@[i]) },
                ),
    {
        let n = rolls.len();
        let mut rock_tiles: Vec<Option<MiningTile>> = Vec::new();
        for i in 0..n
            invariant
                n == rolls.len(),
                rock_tiles.len() == i,
                forall|j: int|
                    0 <= j < i ==> rock_tiles@[j] == Some(
                        MiningTile { hp: hp_from_roll(rolls@[j]) },
                    ),
        {
            let hp = rolls[i] % 4 + 1;
            rock_tiles.push(Some(MiningTile::new(hp)));
        }
        Self { rock_tiles, width, height }
    }

    /// A full grid whose tiles start with hit points drawn at random from `1..=4`.
    pub fn build(width: usize, height: usize) -> (r: Self)
        requires
            width * height <= usize::MAX,
        ensures
            r.wf(),
            r.width == width,
            r.height == height,
            forall|i: int|
                0 <= i < r.rock_tiles.len() ==> #[trigger] r.has_tile(i) && 1 <= r.hp_at(i) <= 4,
    {
        let n = width * height;
        let mut rolls: Vec<usize> = Vec::new();
        for i in 0..n
            invariant
                rolls.len() == i,
        {
            rolls.push(random_usize());
        }
        let r = Self::from_rolls(width, height, &rolls);
        assert forall|i: int| 0 <= i < r.rock_tiles.len() implies #[trigger] r.has_tile(i) && 1
            <= r.hp_at(i) <= 4 by {
            assert(r.rock_tiles@[i] == Some(MiningTile { hp: hp_from_roll(rolls@[i]) }));
        }
        r
    }

    /// Hit points of the tile at `index`, if there is one.
    pub fn query(&self, index: usize) -> (r: Option<usize>)
        ensures
            self.has_tile(index as int) ==> r == Some(self.hp_at(index as int)),
            !self.has_tile(index as int) ==> r is None,
    {
        if index < self.rock_tiles.len() {
            match self.rock_tiles[index] {
                Some(t) => Some(t.hp),
                None => None,
            }
        } else {
            None
        }
    }

    /// Takes `amount` hit points off the tile at `index`, stopping at zero.
    /// Returns whether the tile reached zero on this call. A cell without a
    /// tile is left alone.
    pub fn damage(&mut self, index: usize, amount: usize) -> (destroyed: bool)
        ensures
            final(self).width == old(self).width,
            final(self).height == old(self).height,
            final(self).rock_tiles.len() == old(self).rock_tiles.len(),
            old(self).has_tile(index as int) ==> {
                &&& final(self).rock_tiles@ == old(self).rock_tiles@.update(
                    index as int,
                    Some(
                        MiningTile {
                            hp: (if old(self).hp_at(index as int) > amount {
                                old(self).hp_at(index as int) - amount
                            } else {
                                0
                            }) as usize,
                        },
                    ),
                )
                &&& destroyed == (old(self).hp_at(index as int) > 0 && old(self).hp_at(
                    index as int,
                ) <= amount)
            },
            !old(self).has_tile(index as int) ==> *final(self) == *old(self) && !destroyed,
    {
        if index >= self.rock_tiles.len() {
            return false;
        }
        match self.rock_tiles[index] {
            Some(tile) => {
                let hp = tile.hp.saturating_sub(amount);
                self.rock_tiles.set(index, Some(MiningTile::new(hp)));
                tile.hp > 0 && hp == 0
            },
            None => false,
        }
    }

    /// Adds the index of cell `(cx, cy)` to `hits` when that cell is inside
    /// the grid and holds a tile.
    fn consider(&self, cx: usize, cy: usize, hits: &mut CellSet)
        requires
            self.wf(),
        ensures
            forall|i: usize|
                cell_set_contents(*final(hits)).contains(i) <==> (cell_set_contents(
                    *old(hits),
                ).contains(i) || self.hits_cell((cx as int, cy as int), i as int)),
    {
        if cx < self.width && cy < self.height {
            proof {
                lemma_index_in_grid(cx as int, cy as int, self.width as int, self.height as int);
            }
            let idx = cx + cy * self.width;
            if self.rock_tiles[idx].is_some() {
                hits.insert(idx);
            }
        }
    }
}

/// The grid indices gathered while resolving one action, kept in bevy's hash
/// set so that each index is listed once.
#[verifier::external_body]
pub struct CellSet {
    inner: HashSet<usize>,
}

/// The indices a `CellSet` holds.
pub uninterp spec fn cell_set_contents(s: CellSet) -> Set<usize>;

impl CellSet {
    /// Relies on `Default` for `hashbrown::HashSet` (bevy's `HashSet`): an
    /// empty set.
    #[verifier::external_body]
    fn new() -> (s: Self)
        ensures
            cell_set_contents(s) == Set::<usize>::empty(),
    {
        CellSet { inner: HashSet::default() }
    }

    /// Relies on `hashbrown::HashSet::insert`: afterwards `v` is in the set and
    /// nothing else changed; returns whether `v` was absent before.
    #[verifier::external_body]
    fn insert(&mut self, v: usize) -> (added: bool)
        ensures
            cell_set_contents(*final(self)) == cell_set_contents(*old(self)).insert(v),
            added == !cell_set_contents(*old(self)).contains(v),
    {
        self.inner.insert(v)
    }

    /// Relies on `IntoIterator` for `hashbrown::HashSet`: yields every element
    /// of the set exactly once, in an unspecified order.
    #[verifier::external_body]
    fn into_vec(self) -> (v: Vec<usize>)
        ensures
            v@.no_duplicates(),
            v@.to_set() == cell_set_contents(self),
    {
        self.inner.into_iter().collect()
    }
}

/// Stability cost of one action with `tool`; it does not depend on how many
/// tiles were hit.
pub fn get_hit_stability(tool: &ToolType, _hits: &[usize]) -> (cost: u32)
    ensures
        cost == tool_cost(*tool),
{
    match tool {
        ToolType::TinyHammer => 75,
        ToolType::Pickaxe { rotation } => match rotation {
            PickaxeRotation::Horizontal => 25,
            PickaxeRotation::Vertical => 25,
            PickaxeRotation::Cross => 45,
        },
    }
}

/// The indices that `tool` aimed at `start` damages: each candidate cell of the
/// tool, clipped to the grid, kept only if it holds a tile, listed once.
pub fn get_tile_hits(tool: &ToolType, start_pos: &UPoint, grid: &MiningGrid) -> (hits: Vec<usize>)
    requires
        grid.wf(),
    ensures
        hits@.no_duplicates(),
        hits@.to_set() == hit_set(*tool, start_pos.x as int, start_pos.y as int, *grid),
        hits@.len() == hit_set(*tool, start_pos.x as int, start_pos.y as int, *grid).len(),
        forall|k: int| 0 <= k < hits@.len() ==> grid.has_tile(#[trigger] hits@[k] as int),
{
    let x = start_pos.x;
    let y = start_pos.y;
    let ghost c = candidate_cells(*tool, x as int, y as int);
    let mut cells = CellSet::new();
    grid.consider(x, y, &mut cells);
    match tool {
        ToolType::TinyHammer => {},
        ToolType::Pickaxe { rotation } => match rotation {
            PickaxeRotation::Horizontal => {
                grid.consider(x.saturating_sub(1), y, &mut cells);
                grid.consider(x.saturating_add(1), y, &mut cells);
            },
            PickaxeRotation::Vertical => {
                grid.consider(x, y.saturating_sub(1), &mut cells);
                grid.consider(x, y.saturating_add(1), &mut cells);
            },
            PickaxeRotation::Cross => {
                grid.consider(x, y.saturating_sub(1), &mut cells);
                grid.consider(x, y.saturating_add(1), &mut cells);
                grid.consider(x.saturating_sub(1), y, &mut cells);
                grid.consider(x.saturating_add(1), y, &mut cells);
            },
        },
    }
    let ghost hs = hit_set(*tool, x as int, y as int, *grid);
    let ghost gathered = cell_set_contents(cells);
    assert(gathered =~= hs) by {
        assert forall|i: usize| #[trigger] gathered.contains(i) implies hs.contains(i) by {
            if grid.hits_cell(c[0], i as int) {
            } else if c.len() > 1 && grid.hits_cell(c[1], i as int) {
            } else if c.len() > 2 && grid.hits_cell(c[2], i as int) {
            } else if c.len() > 3 && grid.hits_cell(c[3], i as int) {
            } else {
                assert(grid.hits_cell(c[4], i as int));
            }
        }
    }
    let hits = cells.into_vec();
    proof {
        hits@.unique_seq_to_set();
        assert forall|k: int| 0 <= k < hits@.len() implies grid.has_tile(
            #[trigger] hits@[k] as int,
        ) by {
            assert(hits@.to_set().contains(hits@[k]));
            assert(hs.contains(hits@[k]));
        }
    }
    hits
}

} // verus!

verus! {

/// A tile after one point of damage: its hit points drop by one, stopping at
/// zero; an empty cell stays empty.
pub open spec fn after_hit(t: Option<MiningTile>) -> Option<MiningTile> {
    match t {
        Some(m) => Some(MiningTile { hp: if m.hp > 0 { (m.hp - 1) as usize } else { 0 } }),
        None => None,
    }
}

impl MiningGrid {
    /// Applies one point of damage to each index of `hits` and returns the
    /// indices whose tile reached zero.
    pub fn damage_all(&mut self, hits: &Vec<usize>) -> (destroyed: Vec<usize>)
        requires
            hits@.no_duplicates(),
        ensures
            final(self).width == old(self).width,
            final(self).height == old(self).height,
            final(self).rock_tiles.len() == old(self).rock_tiles.len(),
            forall|i: int|
                0 <= i < old(self).rock_tiles.len() ==> #[trigger] final(self).rock_tiles@[i] == if hits@.contains(
                    i as usize,
                ) {
                    after_hit(old(self).rock_tiles@[i])
                } else {
                    old(self).rock_tiles@[i]
                },
            forall|i: usize|
                destroyed@.contains(i) <==> (hits@.contains(i) && old(self).has_tile(i as int)
                    && old(self).hp_at(i as int) == 1),
    {
        let mut destroyed: Vec<usize> = Vec::new();
        let n = hits.len();
        for k in 0..n
            invariant
                n == hits.len(),
                hits@.no_duplicates(),
                self.width == old(self).width,
                self.height == old(self).height,
                self.rock_tiles.len() == old(self).rock_tiles.len(),
                forall|i: int|
                    0 <= i < old(self).rock_tiles.len() ==> #[trigger] self.rock_tiles@[i] == if hits@.subrange(
                        0,
                        k as int,
                    ).contains(i as usize) {
                        after_hit(old(self).rock_tiles@[i])
                    } else {
                        old(self).rock_tiles@[i]
                    },
                forall|i: usize|
                    destroyed@.contains(i) <==> (hits@.subrange(0, k as int).contains(i)
                        && old(self).has_tile(i as int) && old(self).hp_at(i as int) == 1),
        {
            let h = hits[k];
            let ghost s0 = hits@.subrange(0, k as int);
            let ghost s1 = hits@.subrange(0, k + 1);
            proof {
                assert(s1 =~= s0.push(h));
                if s0.contains(h) {
                    let q = choose|q: int| 0 <= q < s0.len() && s0[q] == h;
                    assert(hits@[q] == hits@[k as int]);
                }
                if h < old(self).rock_tiles.len() {
                    assert(self.rock_tiles@[h as int] == old(self).rock_tiles@[h as int]);
                }
            }
            let ghost before = *self;
            let ghost d0 = destroyed@;
            let gone = self.damage(h, 1);
            if gone {
                destroyed.push(h);
            }
            proof {
                assert forall|i: int| 0 <= i < old(self).rock_tiles.len() implies #[trigger] self.rock_tiles@[i]
                    == if s1.contains(i as usize) {
                    after_hit(old(self).rock_tiles@[i])
                } else {
                    old(self).rock_tiles@[i]
                } by {
                    if i == h as int {
                        assert(s1[k as int] == h);
                    } else {
                        assert(self.rock_tiles@[i] == before.rock_tiles@[i]);
                        if s1.contains(i as usize) {
                            let q = choose|q: int| 0 <= q < s1.len() && s1[q] == i as usize;
                            assert(s0[q] == i as usize);
                        }
                        if s0.contains(i as usize) {
                            let q = choose|q: int| 0 <= q < s0.len() && s0[q] == i as usize;
                            assert(s1[q] == i as usize);
                        }
                    }
                }
                assert(gone == (old(self).has_tile(h as int) && old(self).hp_at(h as int) == 1));
                assert forall|i: usize| #[trigger] destroyed@.contains(i) <==> (s1.contains(i)
                    && old(self).has_tile(i as int) && old(self).hp_at(i as int) == 1) by {
                    if s1.contains(i) && i != h {
                        let q = choose|q: int| 0 <= q < s1.len() && s1[q] == i;
                        assert(s0[q] == i);
                    }
                    if s0.contains(i) {
                        let q = choose|q: int| 0 <= q < s0.len() && s0[q] == i;
                        assert(s1[q] == i);
                    }
                    if i == h {
                        assert(s1[k as int] == h);
                    }
                    if gone {
                        assert(destroyed@ == d0.push(h));
                        if d0.contains(i) {
                            let q = choose|q: int| 0 <= q < d0.len() && d0[q] == i;
                            assert(destroyed@[q] == i);
                        }
                        if destroyed@.contains(i) && i != h {
                            let q = choose|q: int| 0 <= q < destroyed@.len() && destroyed@[q] == i;
                            assert(d0[q] == i);
                        }
                        assert(destroyed@[destroyed@.len() - 1] == h);
                    } else {
                        assert(destroyed@ == d0);
                    }
                }
            }
        }
        assert(hits@.subrange(0, n as int) =~= hits@);
        destroyed
    }
}

} // verus!

verus! {

/// `g2` is `g1` after some tiles took one point of damage: no tile appears,
/// vanishes or gains hit points.
pub open spec fn wears_down(g1: MiningGrid, g2: MiningGrid) -> bool {
    &&& g2.width == g1.width
    &&& g2.height == g1.height
    &&& g2.rock_tiles.len() == g1.rock_tiles.len()
    &&& forall|i: int|
        0 <= i < g1.rock_tiles.len() ==> #[trigger] g2.rock_tiles@[i] == g1.rock_tiles@[i]
            || g2.rock_tiles@[i] == after_hit(g1.rock_tiles@[i])
}

/// Hit points never rise: under `wears_down` every tile keeps its presence and
/// its hit points do not increase.
pub proof fn lemma_wear_is_monotonic(g1: MiningGrid, g2: MiningGrid, i: int)
    requires
        wears_down(g1, g2),
        0 <= i < g1.rock_tiles.len(),
    ensures
        g2.has_tile(i) == g1.has_tile(i),
        g1.has_tile(i) ==> g2.hp_at(i) <= g1.hp_at(i),
{
    assert(g2.rock_tiles@[i] == g1.rock_tiles@[i] || g2.rock_tiles@[i] == after_hit(
        g1.rock_tiles@[i],
    ));
}

/// On a full grid, a cross-shaped pickaxe aimed at a cell with
/// `1 < x < width - 2` and `1 < y < height - 2` hits exactly five distinct
/// cells: the target and its four neighbours.
pub proof fn lemma_cross_interior_hits_five(grid: MiningGrid, x: usize, y: usize)
    requires
        grid.wf(),
        forall|i: int| 0 <= i < grid.rock_tiles.len() ==> #[trigger] grid.has_tile(i),
        1 < x < grid.width - 2,
        1 < y < grid.height - 2,
    ensures
        ({
            let w = grid.width as int;
            let i = x + y * w;
            hit_set(
                ToolType::Pickaxe { rotation: PickaxeRotation::Cross },
                x as int,
                y as int,
                grid,
            ) == set![i as usize, (i - w) as usize, (i + w) as usize, (i - 1) as usize, (i + 1) as usize]
        }),
        hit_set(
            ToolType::Pickaxe { rotation: PickaxeRotation::Cross },
            x as int,
            y as int,
            grid,
        ).len() == 5,
{
    let tool = ToolType::Pickaxe { rotation: PickaxeRotation::Cross };
    let w = grid.width as int;
    let h = grid.height as int;
    let xi = x as int;
    let yi = y as int;
    let i = xi + yi * w;
    let c = candidate_cells(tool, xi, yi);
    assert((yi - 1) * w == yi * w - w) by (nonlinear_arith);
    assert((yi + 1) * w == yi * w + w) by (nonlinear_arith);
    lemma_index_in_grid(xi, yi, w, h);
    lemma_index_in_grid(xi, yi - 1, w, h);
    lemma_index_in_grid(xi, yi + 1, w, h);
    lemma_index_in_grid(xi - 1, yi, w, h);
    lemma_index_in_grid(xi + 1, yi, w, h);
    let expected = set![i as usize, (i - w) as usize, (i + w) as usize, (i - 1) as usize, (i + 1) as usize];
    let hs = hit_set(tool, xi, yi, grid);
    assert(c[0] == (xi, yi));
    assert(c[1] == (xi, yi - 1));
    assert(c[2] == (xi, yi + 1));
    assert(c[3] == (xi - 1, yi));
    assert(c[4] == (xi + 1, yi));
    assert forall|j: usize| expected.contains(j) implies hs.contains(j) by {
        if j == i as usize {
            assert(grid.hits_cell(c[0], j as int));
        } else if j == (i - w) as usize {
            assert(grid.hits_cell(c[1], j as int));
        } else if j == (i + w) as usize {
            assert(grid.hits_cell(c[2], j as int));
        } else if j == (i - 1) as usize {
            assert(grid.hits_cell(c[3], j as int));
        } else {
            assert(grid.hits_cell(c[4], j as int));
        }
    }
    assert(hs =~= expected);
    let s0 = Set::<usize>::empty();
    let s1 = s0.insert(i as usize);
    let s2 = s1.insert((i - w) as usize);
    let s3 = s2.insert((i + w) as usize);
    let s4 = s3.insert((i - 1) as usize);
    let s5 = s4.insert((i + 1) as usize);
    assert(s5 == expected);
    assert(!s1.contains((i - w) as usize));
    assert(!s2.contains((i + w) as usize));
    assert(!s3.contains((i - 1) as usize));
    assert(!s4.contains((i + 1) as usize));
    assert(s5.len() == 5);
}

/// A horizontal pickaxe aimed at the left edge `(0, y)` hits at most two
/// distinct cells, all of them inside the grid.
pub proof fn lemma_horizontal_left_edge(grid: MiningGrid, y: usize)
    requires
        grid.wf(),
    ensures
        ({
            let hs = hit_set(
                ToolType::Pickaxe { rotation: PickaxeRotation::Horizontal },
                0,
                y as int,
                grid,
            );
            &&& hs.len() <= 2
            &&& forall|i: usize| #[trigger] hs.contains(i) ==> i < grid.width * grid.height
        }),
{
    let tool = ToolType::Pickaxe { rotation: PickaxeRotation::Horizontal };
    let w = grid.width as int;
    let yi = y as int;
    let hs = hit_set(tool, 0, yi, grid);
    let c = candidate_cells(tool, 0, yi);
    let a = (yi * w) as usize;
    let b = (1 + yi * w) as usize;
    let pair = set![a, b];
    assert(c[0] == (0int, yi));
    assert(c[1] == (0int, yi));
    assert(c[2] == (1int, yi));
    assert forall|i: usize| hs.contains(i) implies pair.contains(i) by {
        let k = choose|k: int| 0 <= k < c.len() && #[trigger] grid.hits_cell(c[k], i as int);
        assert(0 <= yi * w) by (nonlinear_arith)
            requires
                0 <= yi,
                0 <= w,
        ;
        if k == 2 {
            assert(i == b);
        } else {
            assert(i == a);
        }
    }
    assert(hs.subset_of(pair));
    assert(pair.len() <= 2) by {
        let single = Set::<usize>::empty().insert(a);
        assert(single.len() == 1);
        assert(pair == single.insert(b));
    }
    vstd::set_lib::lemma_len_subset(hs, pair);
}

} // verus!
