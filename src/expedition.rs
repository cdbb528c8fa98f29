//! One expedition: the session state and the lifecycle that gates it.
use vstd::prelude::*;

use crate::catalog::{Area, LevelCatalog, TreasureInfo};
use crate::grid::{
    after_hit, get_hit_stability, get_tile_hits, hit_set, lemma_wear_is_monotonic, tool_cost,
    wears_down, MiningGrid,
};
use crate::point::UPoint;
use crate::stability::{spec_budget, Stability, StabilityDamage};
use crate::tools::ToolType;
use crate::treasure::{placed_from, placement, Treasure, TreasureGrid};

verus! {

/// Number of treasures packed into every session.
pub const TREASURE_COUNT: usize = 1;

/// Random placements tried before a session start gives up.
pub const MAX_PLACEMENT_ATTEMPTS: usize = 100000;

/// Where the session stands. It only moves forward: mining, then cleared, then
/// leaving; or from mining straight to leaving.
#[derive(Debug, Copy, Clone, PartialEq, Eq, Structural)]
pub enum ExpeditionStatus {
    Mining,
    Cleared,
    Leaving,
}

/// Request to start the level `level_idx` of `area`.
#[derive(Debug, Copy, Clone, PartialEq, Eq, Structural)]
pub struct LevelChange {
    pub area: Area,
    pub level_idx: usize,
}

/// Size of the grid of a session that is starting.
#[derive(Debug, Copy, Clone, PartialEq, Eq, Structural)]
pub struct InitExpedition {
    pub size_x: usize,
    pub size_y: usize,
}

/// What a start request resolves to: the grid size and the stability budget.
#[derive(Debug, Copy, Clone, PartialEq, Eq, Structural)]
pub struct ExpeditionPlan {
    pub init: InitExpedition,
    pub stability: Stability,
}

/// Why a session did not start.
#[derive(Debug, Copy, Clone, PartialEq, Eq, Structural)]
pub enum StartError {
    /// The catalog has no such area or level; the request is dropped.
    UnknownLevel,
    /// The treasures could not all be packed within the attempt limit.
    PlacementFailed,
}

/// A click on grid cell `(tile_x, tile_y)`.
#[derive(Debug, Copy, Clone, PartialEq, Eq, Structural)]
pub struct MineAction {
    pub tile_x: u32,
    pub tile_y: u32,
}

/// What one tool action did.
#[derive(Debug, Clone)]
pub struct ActionReport {
    /// Indices that took one point of damage.
    pub hits: Vec<usize>,
    /// Indices whose tile reached zero.
    pub destroyed: Vec<usize>,
    /// Stability paid; zero when nothing was hit.
    pub stability_cost: u32,
    /// Positions, in the session's list, of the treasures discovered now.
    pub discovered: Vec<usize>,
    /// Whether this action cleared the expedition.
    pub cleared: bool,
}

/// A single-slot buffer for start requests: within one tick only the first
/// request is kept, later ones are dropped.
#[derive(Debug, Copy, Clone, PartialEq, Eq, Structural)]
pub struct LevelChangeSlot {
    pub pending: Option<LevelChange>,
}

/// The state of one expedition.
#[derive(Debug, Clone)]
pub struct Expedition {
    pub grid: MiningGrid,
    pub occupancy: TreasureGrid,
    pub treasures: Vec<Treasure>,
    pub stability: Stability,
    pub status: ExpeditionStatus,
}

/// Every cell of treasure `t` is clear: no tile there, or a tile with no hit
/// points left.
pub open spec fn uncovered(grid: MiningGrid, t: Treasure) -> bool {
    forall|k: int|
        0 <= k < t.parts.len() ==> !grid.has_tile(#[trigger] t.parts@[k] as int) || grid.hp_at(
            t.parts@[k] as int,
        ) == 0
}

/// The discovery flag of `t` after the detector has run on `grid`.
pub open spec fn discovered_after(grid: MiningGrid, t: Treasure) -> bool {
    t.is_discovered || uncovered(grid, t)
}

/// Every treasure of `ts` is discovered.
pub open spec fn all_discovered(ts: Seq<Treasure>) -> bool {
    forall|t: int| 0 <= t < ts.len() ==> (#[trigger] ts[t]).is_discovered
}

/// The status after the detector has run: mining turns to cleared once every
/// treasure is discovered; any other status stays.
pub open spec fn status_after_check(status: ExpeditionStatus, ts: Seq<Treasure>) -> ExpeditionStatus {
    if status == ExpeditionStatus::Mining && all_discovered(ts) {
        ExpeditionStatus::Cleared
    } else {
        status
    }
}

/// The treasures of `ts` after the detector has run on `grid`.
pub open spec fn treasures_after_check(grid: MiningGrid, ts: Seq<Treasure>) -> Seq<Treasure> {
    Seq::new(
        ts.len(),
        |t: int| Treasure { is_discovered: discovered_after(grid, ts[t]), ..ts[t] },
    )
}

/// The treasures after the detector has run with the session in `status`:
/// outside mining it changes nothing.
pub open spec fn detector_treasures(status: ExpeditionStatus, grid: MiningGrid, ts: Seq<Treasure>) -> Seq<
    Treasure,
> {
    if status == ExpeditionStatus::Mining {
        treasures_after_check(grid, ts)
    } else {
        ts
    }
}

/// Stability paid by one tool action: the tool's fixed cost, once, when the
/// session is mining and the action hits at least one tile, however many;
/// nothing otherwise.
pub open spec fn action_cost(status: ExpeditionStatus, tool: ToolType, target: UPoint, grid: MiningGrid) -> u32 {
    if status == ExpeditionStatus::Mining && hit_set(tool, target.x as int, target.y as int, grid).len() > 0 {
        tool_cost(tool)
    } else {
        0
    }
}

/// The plan for a start request, if the catalog has the level.
pub open spec fn spec_plan(catalog: LevelCatalog, request: LevelChange) -> Option<ExpeditionPlan> {
    match catalog.spec_level(request.area, request.level_idx as int) {
        Some(level) => Some(
            ExpeditionPlan {
                init: InitExpedition { size_x: level.size.0, size_y: level.size.1 },
                stability: Stability { remaining: spec_budget(level.stability) },
            },
        ),
        None => None,
    }
}

/// Looks up a start request in the catalog: the level's grid size and the
/// budget of its stability tier, or none when the level is unknown.
pub fn setup_expedition(catalog: &LevelCatalog, request: &LevelChange) -> (plan: Option<ExpeditionPlan>)
    requires
        catalog.wf(),
    ensures
        plan == spec_plan(*catalog, *request),
        plan matches Some(p) ==> p.init.size_x * p.init.size_y <= usize::MAX,
{
    match catalog.get_level(request.area, request.level_idx) {
        Some(level) => Some(
            ExpeditionPlan {
                init: InitExpedition { size_x: level.size.0, size_y: level.size.1 },
                stability: Stability::new(level.stability.budget()),
            },
        ),
        None => None,
    }
}

impl MineAction {
    /// A mining action for a click on tile `(tile_x, tile_y)`, or none when the
    /// click falls outside a grid of the given size.
    pub fn from_click(tile_x: i32, tile_y: i32, width: usize, height: usize) -> (r: Option<Self>)
        ensures
            r is Some <==> (0 <= tile_x < width && 0 <= tile_y < height),
            r matches Some(a) ==> a.tile_x == tile_x && a.tile_y == tile_y,
    {
        if tile_x < 0 || tile_y < 0 || tile_x as usize >= width || tile_y as usize >= height {
            return None;
        }
        Some(MineAction { tile_x: tile_x as u32, tile_y: tile_y as u32 })
    }
}

impl LevelChangeSlot {
    pub fn new() -> (r: Self)
        ensures
            r.pending is None,
    {
        Self { pending: None }
    }

    /// Keeps `request` if the slot is empty; returns whether it was kept.
    pub fn offer(&mut self, request: LevelChange) -> (kept: bool)
        ensures
            kept == (old(self).pending is None),
            kept ==> final(self).pending == Some(request),
            !kept ==> *final(self) == *old(self),
    {
        if self.pending.is_none() {
            self.pending = Some(request);
            true
        } else {
            false
        }
    }

    /// Empties the slot and hands back what it held.
    pub fn take(&mut self) -> (r: Option<LevelChange>)
        ensures
            r == old(self).pending,
            final(self).pending is None,
    {
        let r = self.pending;
        self.pending = None;
        r
    }
}

impl Expedition {
    /// Grid and occupancy agree in size and every treasure owns its cells.
    pub open spec fn wf(&self) -> bool {
        &&& self.grid.wf()
        &&& self.occupancy.wf()
        &&& self.grid.width == self.occupancy.width
        &&& self.grid.height == self.occupancy.height
        &&& self.occupancy.owns_parts(self.treasures@)
        &&& self.occupancy.claims_only_parts(self.treasures@)
    }

    /// A session on `grid` with no treasure yet, mining.
    pub fn new(grid: MiningGrid, stability: Stability) -> (r: Self)
        requires
            grid.wf(),
        ensures
            r.wf(),
            r.grid == grid,
            r.treasures@.len() == 0,
            r.stability == stability,
            r.status == ExpeditionStatus::Mining,
            forall|i: int| 0 <= i < r.occupancy.treasures.len() ==> r.occupancy.treasures@[i] is None,
    {
        proof {
            assert(grid.width * grid.height <= usize::MAX);
        }
        let occupancy = TreasureGrid::new(grid.width, grid.height);
        let treasures: Vec<Treasure> = Vec::new();
        Self { grid, occupancy, treasures, stability, status: ExpeditionStatus::Mining }
    }

    /// Places `def` anchored at `anchor` if it fits; see `TreasureGrid::try_place`.
    pub fn place_treasure(&mut self, def: &TreasureInfo, anchor: UPoint) -> (placed: bool)
        requires
            old(self).wf(),
            def.wf(),
        ensures
            final(self).wf(),
            placed == old(self).occupancy.fits(*def, anchor),
            final(self).grid == old(self).grid,
            final(self).stability == old(self).stability,
            final(self).status == old(self).status,
            placed ==> {
                &&& final(self).treasures.len() == old(self).treasures.len() + 1
                &&& final(self).treasures@.take(old(self).treasures.len() as int)
                    == old(self).treasures@
                &&& final(self).treasures@.last().id == def.id
                &&& final(self).treasures@.last().parts@ == placement(
                    old(self).grid.width as int,
                    *def,
                    anchor,
                )
                &&& final(self).treasures@.last().parts@.no_duplicates()
                &&& !final(self).treasures@.last().is_discovered
                &&& final(self).occupancy.width == old(self).occupancy.width
                &&& final(self).occupancy.height == old(self).occupancy.height
                &&& forall|j: int|
                    0 <= j < final(self).occupancy.treasures.len() ==> #[trigger] final(self).occupancy.treasures@[j] == if placement(
                        old(self).grid.width as int,
                        *def,
                        anchor,
                    ).contains(j as usize) {
                        Some(old(self).treasures.len() as usize)
                    } else {
                        old(self).occupancy.treasures@[j]
                    }
            },
            !placed ==> final(self).occupancy == old(self).occupancy && final(self).treasures@
                == old(self).treasures@,
    {
        self.occupancy.try_place(&mut self.treasures, def, anchor)
    }

    /// Builds a session for `init`: a full grid with random hit points and
    /// `count` treasures packed at random within `max_attempts` tries. Returns
    /// the session and whether all `count` treasures were placed.
    pub fn build(
        init: &InitExpedition,
        stability: Stability,
        defs: &Vec<TreasureInfo>,
        count: usize,
        max_attempts: usize,
    ) -> (r: (Self, bool))
        requires
            init.size_x * init.size_y <= usize::MAX,
            forall|d: int| 0 <= d < defs.len() ==> (#[trigger] defs@[d]).wf(),
        ensures
            r.0.wf(),
            r.0.grid.width == init.size_x,
            r.0.grid.height == init.size_y,
            forall|i: int|
                0 <= i < r.0.grid.rock_tiles.len() ==> #[trigger] r.0.grid.has_tile(i) && 1
                    <= r.0.grid.hp_at(i) <= 4,
            r.0.stability == stability,
            r.0.status == ExpeditionStatus::Mining,
            r.0.treasures.len() <= count,
            r.1 == (r.0.treasures.len() == count),
            forall|t: int|
                0 <= t < r.0.treasures.len() ==> placed_from(
                    init.size_x,
                    init.size_y,
                    defs@,
                    #[trigger] r.0.treasures@[t],
                ),
    {
        let grid = MiningGrid::build(init.size_x, init.size_y);
        let mut session = Self::new(grid, stability);
        let complete = session.occupancy.place_treasures(
            &mut session.treasures,
            defs,
            count,
            max_attempts,
        );
        (session, complete)
    }

    /// Starts the session that `request` names: looks the level up, builds
    /// its grid, packs `TREASURE_COUNT` treasures and seeds stability from the
    /// level's tier.
    pub fn start(catalog: &LevelCatalog, defs: &Vec<TreasureInfo>, request: &LevelChange) -> (r:
        Result<Self, StartError>)
        requires
            catalog.wf(),
            forall|d: int| 0 <= d < defs.len() ==> (#[trigger] defs@[d]).wf(),
        ensures
            spec_plan(*catalog, *request) is None <==> r == Err::<Self, StartError>(
                StartError::UnknownLevel,
            ),
            r matches Ok(s) ==> {
                let p = spec_plan(*catalog, *request)->Some_0;
                &&& s.wf()
                &&& s.grid.width == p.init.size_x
                &&& s.grid.height == p.init.size_y
                &&& s.stability == p.stability
                &&& s.status == ExpeditionStatus::Mining
                &&& s.treasures.len() == TREASURE_COUNT
                &&& forall|i: int|
                    0 <= i < s.grid.rock_tiles.len() ==> #[trigger] s.grid.has_tile(i) && 1
                        <= s.grid.hp_at(i) <= 4
                &&& forall|t: int|
                    0 <= t < s.treasures.len() ==> placed_from(
                        p.init.size_x,
                        p.init.size_y,
                        defs@,
                        #[trigger] s.treasures@[t],
                    )
            },
    {
        let plan = match setup_expedition(catalog, request) {
            Some(p) => p,
            None => return Err(StartError::UnknownLevel),
        };
        let (session, complete) = Self::build(
            &plan.init,
            plan.stability,
            defs,
            TREASURE_COUNT,
            MAX_PLACEMENT_ATTEMPTS,
        );
        if complete {
            Ok(session)
        } else {
            Err(StartError::PlacementFailed)
        }
    }

    /// The discovery detector: marks every treasure whose cells are all clear
    /// as discovered, then turns mining into cleared once no treasure is left
    /// undiscovered. Returns the positions of the treasures discovered now and
    /// whether the expedition was cleared now.
    pub fn check_treasure_uncovered(&mut self) -> (r: (Vec<usize>, bool))
        requires
            old(self).wf(),
        ensures
            final(self).wf(),
            final(self).grid == old(self).grid,
            final(self).occupancy == old(self).occupancy,
            final(self).stability == old(self).stability,
            final(self).treasures@ == detector_treasures(
                old(self).status,
                old(self).grid,
                old(self).treasures@,
            ),
            final(self).status == status_after_check(old(self).status, final(self).treasures@),
            forall|t: usize|
                r.0@.contains(t) <==> (t < old(self).treasures.len()
                    && !old(self).treasures@[t as int].is_discovered
                    && final(self).treasures@[t as int].is_discovered),
            r.1 == (old(self).status == ExpeditionStatus::Mining && final(self).status
                == ExpeditionStatus::Cleared),
    {
        if self.status != ExpeditionStatus::Mining {
            return (Vec::new(), false);
        }
        let ghost old_ts = self.treasures@;
        let mut newly: Vec<usize> = Vec::new();
        let mut all_found = true;
        let n = self.treasures.len();
        for t in 0..n
            invariant
                n == self.treasures.len(),
                n == old_ts.len(),
                self.grid == old(self).grid,
                self.occupancy == old(self).occupancy,
                self.stability == old(self).stability,
                self.status == old(self).status,
                old_ts == old(self).treasures@,
                forall|u: int|
                    0 <= u < t ==> #[trigger] self.treasures@[u] == (Treasure {
                        is_discovered: discovered_after(self.grid, old_ts[u]),
                        ..old_ts[u]
                    }),
                forall|u: int| t <= u < n ==> #[trigger] self.treasures@[u] == old_ts[u],
                all_found == (forall|u: int| 0 <= u < t ==> (#[trigger] self.treasures@[u]).is_discovered),
                forall|u: usize|
                    newly@.contains(u) <==> (u < t && !old_ts[u as int].is_discovered
                        && discovered_after(self.grid, old_ts[u as int])),
        {
            let ghost pre = self.treasures@;
            let ghost pre_all = all_found;
            if !self.treasures[t].is_discovered {
                let found = self.parts_cleared(t);
                if found {
                    let ghost n0 = newly@;
                    newly.push(t);
                    proof {
                        assert forall|u: usize| #[trigger] newly@.contains(u) <==> (n0.contains(u) || u == t) by {
                            if n0.contains(u) {
                                let q = choose|q: int| 0 <= q < n0.len() && n0[q] == u;
                                assert(newly@[q] == u);
                            }
                            if newly@.contains(u) && u != t {
                                let q = choose|q: int| 0 <= q < newly@.len() && newly@[q] == u;
                                assert(n0[q] == u);
                            }
                            assert(newly@[newly@.len() - 1] == t);
                        }
                    }
                    self.treasures[t].is_discovered = true;
                } else {
                    all_found = false;
                }
            }
            proof {
                assert(forall|u: int| 0 <= u < t ==> self.treasures@[u] == pre[u]);
                if !all_found && self.treasures@[t as int].is_discovered {
                    assert(!pre_all);
                    let w = choose|u: int| 0 <= u < t && !(#[trigger] pre[u]).is_discovered;
                    assert(!self.treasures@[w].is_discovered);
                }
                assert(self.treasures@[t as int] == (Treasure {
                    is_discovered: discovered_after(self.grid, old_ts[t as int]),
                    ..old_ts[t as int]
                }));
            }
        }
        proof {
            assert(self.treasures@ =~= treasures_after_check(self.grid, old_ts));
            assert forall|t: int, k: int|
                0 <= t < self.treasures@.len() && 0 <= k < self.treasures@[t].parts.len() implies {
                &&& (#[trigger] self.treasures@[t].parts@[k]) < self.occupancy.treasures.len()
                &&& self.occupancy.treasures@[self.treasures@[t].parts@[k] as int] == Some(t as usize)
            } by {
                assert(self.treasures@[t].parts == old_ts[t].parts);
            }
            assert forall|j: int|
                0 <= j < self.occupancy.treasures.len() && (
                #[trigger] self.occupancy.treasures@[j]) is Some implies {
                &&& self.occupancy.treasures@[j]->Some_0 < self.treasures@.len()
                &&& self.treasures@[self.occupancy.treasures@[j]->Some_0 as int].parts@.contains(
                    j as usize,
                )
            } by {
                let o = self.occupancy.treasures@[j]->Some_0 as int;
                assert(self.treasures@[o].parts == old_ts[o].parts);
            }
        }
        let cleared = all_found && self.status == ExpeditionStatus::Mining;
        if cleared {
            self.status = ExpeditionStatus::Cleared;
        }
        (newly, cleared)
    }

    /// Whether every cell of treasure `t` is clear.
    fn parts_cleared(&self, t: usize) -> (b: bool)
        requires
            t < self.treasures.len(),
        ensures
            b == uncovered(self.grid, self.treasures@[t as int]),
    {
        let parts = &self.treasures[t].parts;
        let m = parts.len();
        for k in 0..m
            invariant
                m == parts.len(),
                parts == self.treasures@[t as int].parts,
                forall|j: int|
                    0 <= j < k ==> !self.grid.has_tile(#[trigger] parts@[j] as int)
                        || self.grid.hp_at(parts@[j] as int) == 0,
        {
            match self.grid.query(parts[k]) {
                Some(hp) => {
                    if hp != 0 {
                        return false;
                    }
                },
                None => {},
            }
        }
        true
    }

    /// A tool action aimed at `target` with `tool`. Ignored unless the status
    /// is mining. Otherwise the tool's hit set takes one point of damage per
    /// tile, its stability cost is paid if anything was hit, and the discovery
    /// detector runs. An action that hits nothing changes nothing.
    pub fn apply_tool_action(&mut self, tool: &ToolType, target: UPoint) -> (report: ActionReport)
        requires
            old(self).wf(),
            old(self).stability.remaining - action_cost(old(self).status, *tool, target, old(self).grid)
                >= i32::MIN,
        ensures
            final(self).wf(),
            final(self).occupancy == old(self).occupancy,
            wears_down(old(self).grid, final(self).grid),
            report.stability_cost == action_cost(old(self).status, *tool, target, old(self).grid),
            final(self).stability.remaining == old(self).stability.remaining - action_cost(
                old(self).status,
                *tool,
                target,
                old(self).grid,
            ),
            ({
                let hs = hit_set(*tool, target.x as int, target.y as int, old(self).grid);
                if old(self).status != ExpeditionStatus::Mining || hs.len() == 0 {
                    &&& *final(self) == *old(self)
                    &&& report.hits@.len() == 0
                    &&& report.destroyed@.len() == 0
                    &&& report.stability_cost == 0
                    &&& report.discovered@.len() == 0
                    &&& !report.cleared
                } else {
                    &&& report.hits@.no_duplicates()
                    &&& report.hits@.to_set() == hs
                    &&& report.stability_cost == tool_cost(*tool)
                    &&& final(self).stability.remaining == old(self).stability.remaining
                        - tool_cost(*tool)
                    &&& final(self).grid.width == old(self).grid.width
                    &&& final(self).grid.height == old(self).grid.height
                    &&& final(self).grid.rock_tiles.len() == old(self).grid.rock_tiles.len()
                    &&& forall|i: int|
                        0 <= i < old(self).grid.rock_tiles.len() ==> #[trigger] final(self).grid.rock_tiles@[i] == if hs.contains(i as usize) {
                            after_hit(old(self).grid.rock_tiles@[i])
                        } else {
                            old(self).grid.rock_tiles@[i]
                        }
                    &&& forall|i: usize|
                        report.destroyed@.contains(i) <==> (hs.contains(i) && old(self).grid.has_tile(i as int) && old(self).grid.hp_at(i as int) == 1)
                    &&& final(self).treasures@ == treasures_after_check(
                        final(self).grid,
                        old(self).treasures@,
                    )
                    &&& final(self).status == status_after_check(
                        old(self).status,
                        final(self).treasures@,
                    )
                    &&& forall|t: usize|
                        report.discovered@.contains(t) <==> (t < old(self).treasures.len()
                            && !old(self).treasures@[t as int].is_discovered
                            && final(self).treasures@[t as int].is_discovered)
                    &&& report.cleared == (final(self).status == ExpeditionStatus::Cleared)
                }
            }),
    {
        let ghost hs = hit_set(*tool, target.x as int, target.y as int, self.grid);
        let empty = ActionReport {
            hits: Vec::new(),
            destroyed: Vec::new(),
            stability_cost: 0,
            discovered: Vec::new(),
            cleared: false,
        };
        if self.status != ExpeditionStatus::Mining {
            return empty;
        }
        let hits = get_tile_hits(tool, &target, &self.grid);
        if hits.len() == 0 {
            return empty;
        }
        let destroyed = self.grid.damage_all(&hits);
        let cost = get_hit_stability(tool, hits.as_slice());
        self.stability.apply_damage(StabilityDamage::new(cost));
        proof {
            assert forall|i: usize| #[trigger] hits@.contains(i) <==> hs.contains(i) by {
                assert(hits@.to_set().contains(i) == hits@.contains(i));
            }
        }
        let (discovered, cleared) = self.check_treasure_uncovered();
        ActionReport { hits, destroyed, stability_cost: cost, discovered, cleared }
    }

    /// A leave request: from mining (early abandonment) or cleared (normal
    /// finish) the session moves to leaving and `true` is returned; a session
    /// already leaving is left alone.
    pub fn leave(&mut self) -> (ended: bool)
        ensures
            ended == (old(self).status != ExpeditionStatus::Leaving),
            final(self).status == ExpeditionStatus::Leaving,
            final(self).grid == old(self).grid,
            final(self).occupancy == old(self).occupancy,
            final(self).treasures == old(self).treasures,
            final(self).stability == old(self).stability,
    {
        if self.status == ExpeditionStatus::Leaving {
            false
        } else {
            self.status = ExpeditionStatus::Leaving;
            true
        }
    }
}

/// Once every cell of a treasure is clear, further damage keeps it clear, so
/// a discovered treasure is never covered again.
pub proof fn lemma_uncovered_stays_uncovered(g1: MiningGrid, g2: MiningGrid, t: Treasure)
    requires
        wears_down(g1, g2),
        uncovered(g1, t),
    ensures
        uncovered(g2, t),
{
    assert forall|k: int| 0 <= k < t.parts.len() implies !g2.has_tile(
        #[trigger] t.parts@[k] as int,
    ) || g2.hp_at(t.parts@[k] as int) == 0 by {
        let i = t.parts@[k] as int;
        if 0 <= i < g1.rock_tiles.len() {
            lemma_wear_is_monotonic(g1, g2, i);
        }
    }
}

/// The detector marks a treasure discovered exactly when all of its cells are
/// clear, and never unmarks one.
pub proof fn lemma_discovery_exact(grid: MiningGrid, ts: Seq<Treasure>, t: int)
    requires
        0 <= t < ts.len(),
    ensures
        !ts[t].is_discovered ==> (treasures_after_check(grid, ts)[t].is_discovered <==> uncovered(
            grid,
            ts[t],
        )),
        ts[t].is_discovered ==> treasures_after_check(grid, ts)[t].is_discovered,
{
}

/// The detector clears a mining session exactly when it leaves every treasure
/// discovered. Running it again on the same grid changes neither the
/// treasures nor the status, and outside mining a run changes nothing at
/// all, so the clear fires at most once per session.
pub proof fn lemma_clear_fires_once(grid: MiningGrid, ts: Seq<Treasure>, status: ExpeditionStatus)
    ensures
        ({
            let ts1 = detector_treasures(status, grid, ts);
            let s1 = status_after_check(status, ts1);
            &&& (status == ExpeditionStatus::Mining && s1 == ExpeditionStatus::Cleared) <==> (
            status == ExpeditionStatus::Mining && all_discovered(ts1))
            &&& detector_treasures(s1, grid, ts1) == ts1
            &&& status_after_check(s1, detector_treasures(s1, grid, ts1)) == s1
        }),
        forall|g: MiningGrid, later: Seq<Treasure>|
            status != ExpeditionStatus::Mining ==> #[trigger] detector_treasures(status, g, later)
                == later && status_after_check(status, later) == status,
{
    if status == ExpeditionStatus::Mining {
        let ts1 = treasures_after_check(grid, ts);
        let ts2 = treasures_after_check(grid, ts1);
        assert forall|t: int| 0 <= t < ts1.len() implies ts2[t] == ts1[t] by {
            assert(ts1[t].is_discovered == discovered_after(grid, ts[t]));
        }
        assert(ts2 =~= ts1);
    }
}

/// Position of a status along the session: mining, then cleared, then leaving.
pub open spec fn status_rank(status: ExpeditionStatus) -> int {
    match status {
        ExpeditionStatus::Mining => 0,
        ExpeditionStatus::Cleared => 1,
        ExpeditionStatus::Leaving => 2,
    }
}

/// The detector never moves the status back, and it only ever moves it from
/// mining to cleared; a leave request always ends at the last status.
pub proof fn lemma_status_moves_forward(status: ExpeditionStatus, ts: Seq<Treasure>)
    ensures
        status_rank(status_after_check(status, ts)) >= status_rank(status),
        status_after_check(status, ts) != status ==> status == ExpeditionStatus::Mining
            && status_after_check(status, ts) == ExpeditionStatus::Cleared,
        status_rank(ExpeditionStatus::Leaving) >= status_rank(status),
{
}

} // verus!
