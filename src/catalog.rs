//! Read-only reference data: the levels of each area and the treasure shapes.
use vstd::prelude::*;

use crate::stability::LevelStability;

verus! {

/// Marks a cell of a treasure shape that the treasure does not occupy.
pub const EMPTY_CELL: i32 = -1;

/// A treasure definition. `shape` lists the cells row by row; each is
/// `EMPTY_CELL` or a non-negative sprite index.
#[derive(Debug)]
pub struct TreasureInfo {
    pub id: u32,
    pub name: String,
    pub shape: Vec<i32>,
    pub width: usize,
    pub height: usize,
}

/// The levels of one area, in order.
#[derive(Debug)]
pub struct AreaInfo {
    pub levels: Vec<LevelInfo>,
}

/// One level: its display name, grid size and stability tier.
#[derive(Debug)]
pub struct LevelInfo {
    pub name: String,
    pub size: (usize, usize),
    pub stability: LevelStability,
}

/// The areas of the game.
#[derive(Debug, Copy, Clone, PartialEq, Eq, Structural)]
pub enum Area {
    TheCaves,
    TheCollapse,
}

/// The levels of one area as listed in the level catalog.
#[derive(Debug)]
pub struct AreaEntry {
    pub area: Area,
    pub info: AreaInfo,
}

/// Level reference data, one entry per area, built once before any session
/// and then only read.
#[derive(Debug)]
pub struct LevelCatalog {
    pub areas: Vec<AreaEntry>,
}

impl TreasureInfo {
    /// The shape has a positive width and exactly `width * height` cells.
    pub open spec fn wf(&self) -> bool {
        &&& self.width > 0
        &&& self.shape.len() == self.width * self.height
    }

    /// Whether the shape occupies its cell `i`.
    pub open spec fn is_filled(&self, i: int) -> bool {
        self.shape@[i] != EMPTY_CELL
    }
}

/// The name under which the level catalog lists `area`.
pub open spec fn spec_area_name(area: Area) -> Seq<char> {
    match area {
        Area::TheCaves => "The Caves"@,
        Area::TheCollapse => "The Collapse"@,
    }
}

impl Area {
    /// The name under which the level catalog lists the area.
    pub fn display_name(&self) -> (s: String)
        ensures
            s@ == spec_area_name(*self),
    {
        match self {
            Area::TheCaves => "The Caves".to_owned(),
            Area::TheCollapse => "The Collapse".to_owned(),
        }
    }
}

/// Every level's grid fits in memory.
pub open spec fn levels_fit(levels: Seq<LevelInfo>) -> bool {
    forall|l: int| 0 <= l < levels.len() ==> #[trigger] levels[l].size.0 * levels[l].size.1 <= usize::MAX
}

impl LevelCatalog {
    /// Each area is listed at most once, as a map from area to levels, and
    /// every level's grid fits in memory.
    pub open spec fn wf(&self) -> bool {
        &&& forall|a: int| 0 <= a < self.areas.len() ==> levels_fit(#[trigger] self.areas@[a].info.levels@)
        &&& forall|a: int, b: int|
            0 <= a < b < self.areas.len() ==> #[trigger] self.areas@[a].area != #[trigger] self.areas@[b].area
    }

    /// Position of the first entry for `area`, if any.
    pub open spec fn spec_area_pos(&self, area: Area) -> Option<int> {
        if exists|a: int| 0 <= a < self.areas.len() && #[trigger] self.areas@[a].area == area {
            Some(
                choose|a: int|
                    0 <= a < self.areas.len() && #[trigger] self.areas@[a].area == area && forall|
                        b: int,
                    |
                        0 <= b < a ==> self.areas@[b].area != area,
            )
        } else {
            None
        }
    }

    /// The level `level_idx` of `area`, if the catalog has it.
    pub open spec fn spec_level(&self, area: Area, level_idx: int) -> Option<LevelInfo> {
        match self.spec_area_pos(area) {
            Some(a) => if 0 <= level_idx < self.areas@[a].info.levels.len() {
                Some(self.areas@[a].info.levels@[level_idx])
            } else {
                None
            },
            None => None,
        }
    }

    /// Looks up the level `level_idx` of `area`.
    pub fn get_level(&self, area: Area, level_idx: usize) -> (r: Option<&LevelInfo>)
        requires
            self.wf(),
        ensures
            r matches Some(l) ==> self.spec_level(area, level_idx as int) == Some(*l),
            r is None ==> self.spec_level(area, level_idx as int) is None,
            r matches Some(l) ==> l.size.0 * l.size.1 <= usize::MAX,
    {
        let mut a: usize = 0;
        while a < self.areas.len()
            invariant
                self.wf(),
                a <= self.areas.len(),
                forall|b: int| 0 <= b < a ==> self.areas@[b].area != area,
            decreases self.areas.len() - a,
        {
            if self.areas[a].area == area {
                let ghost pos = a as int;
                proof {
                    assert(0 <= pos < self.areas.len() && self.areas@[pos].area == area);
                    let p = self.spec_area_pos(area).unwrap();
                    assert(p == pos) by {
                        if p < pos {
                        } else if p > pos {
                            assert(self.areas@[pos].area != area);
                        }
                    }
                    assert(levels_fit(self.areas@[pos].info.levels@));
                }
                let levels = &self.areas[a].info.levels;
                if level_idx < levels.len() {
                    return Some(&levels[level_idx]);
                } else {
                    return None;
                }
            }
            a += 1;
        }
        None
    }
}

} // verus!
