use underground_miner::catalog::{Area, AreaEntry, AreaInfo, LevelCatalog, LevelInfo, TreasureInfo};
use underground_miner::expedition::{
    setup_expedition, Expedition, ExpeditionStatus, LevelChange, LevelChangeSlot, MineAction,
    StartError, TREASURE_COUNT,
};
use underground_miner::grid::MiningGrid;
use underground_miner::point::UPoint;
use underground_miner::stability::{LevelStability, Stability, StabilityDamage};
use underground_miner::tools::{PickaxeRotation, ToolType};

const HORIZONTAL: ToolType = ToolType::Pickaxe { rotation: PickaxeRotation::Horizontal };

fn l_shape() -> TreasureInfo {
    TreasureInfo { id: 7, name: "amulet".to_string(), shape: vec![0, 1, -1, 2], width: 2, height: 2 }
}

/// A 10 by 10 session whose tiles all have one hit point, with the L-shaped
/// treasure anchored at (5, 5).
fn session_with_treasure(budget: i32) -> Expedition {
    let grid = MiningGrid::from_rolls(10, 10, &vec![0usize; 100]);
    let mut session = Expedition::new(grid, Stability::new(budget));
    assert!(session.place_treasure(&l_shape(), UPoint::new(5, 5)));
    session
}

fn catalog() -> LevelCatalog {
    LevelCatalog {
        areas: vec![AreaEntry {
            area: Area::TheCaves,
            info: AreaInfo {
                levels: vec![
                    LevelInfo { name: "Entrance".to_string(), size: (10, 10), stability: LevelStability::Normal },
                    LevelInfo { name: "Depths".to_string(), size: (12, 8), stability: LevelStability::Normal },
                ],
            },
        }],
    }
}

#[test]
fn treasure_is_discovered_when_its_last_cell_is_cleared() {
    let mut session = session_with_treasure(10000);
    let r1 = session.apply_tool_action(&ToolType::TinyHammer, UPoint::new(5, 5));
    assert_eq!(r1.destroyed, vec![55]);
    assert!(r1.discovered.is_empty());
    assert!(!session.treasures[0].is_discovered);
    let r2 = session.apply_tool_action(&ToolType::TinyHammer, UPoint::new(5, 4));
    assert!(r2.discovered.is_empty());
    assert_eq!(session.status, ExpeditionStatus::Mining);
    let r3 = session.apply_tool_action(&ToolType::TinyHammer, UPoint::new(6, 4));
    assert_eq!(r3.discovered, vec![0]);
    assert!(r3.cleared);
    assert!(session.treasures[0].is_discovered);
    assert_eq!(session.status, ExpeditionStatus::Cleared);
}

#[test]
fn clear_fires_once_and_detector_is_idempotent() {
    let mut session = session_with_treasure(10000);
    session.apply_tool_action(&HORIZONTAL, UPoint::new(5, 4));
    let report = session.apply_tool_action(&ToolType::TinyHammer, UPoint::new(5, 5));
    assert!(report.cleared);
    let (newly, cleared) = session.check_treasure_uncovered();
    assert!(newly.is_empty());
    assert!(!cleared);
    assert_eq!(session.status, ExpeditionStatus::Cleared);
    assert!(session.treasures[0].is_discovered);
}

#[test]
fn detector_leaves_covered_treasure_alone() {
    let mut session = session_with_treasure(10000);
    let (newly, cleared) = session.check_treasure_uncovered();
    assert!(newly.is_empty());
    assert!(!cleared);
    assert_eq!(session.status, ExpeditionStatus::Mining);
}

#[test]
fn session_without_treasures_clears_on_first_check() {
    let grid = MiningGrid::from_rolls(2, 2, &vec![0usize; 4]);
    let mut session = Expedition::new(grid, Stability::new(10));
    let (newly, cleared) = session.check_treasure_uncovered();
    assert!(newly.is_empty());
    assert!(cleared);
    assert_eq!(session.status, ExpeditionStatus::Cleared);
}

#[test]
fn stability_drains_by_tool_cost() {
    let mut session = session_with_treasure(100);
    let mut seen = vec![session.stability.remaining];
    for y in 0..3 {
        let report = session.apply_tool_action(&HORIZONTAL, UPoint::new(1, y));
        assert_eq!(report.stability_cost, 25);
        seen.push(session.stability.remaining);
    }
    assert_eq!(seen, vec![100, 75, 50, 25]);
}

#[test]
fn stability_may_go_negative() {
    let mut session = session_with_treasure(50);
    session.apply_tool_action(&ToolType::TinyHammer, UPoint::new(0, 0));
    assert_eq!(session.stability.remaining, -25);
}

#[test]
fn leaving_while_mining_skips_cleared() {
    let mut session = session_with_treasure(10000);
    assert!(session.leave());
    assert_eq!(session.status, ExpeditionStatus::Leaving);
    assert!(!session.treasures[0].is_discovered);
    assert!(!session.leave());
    assert_eq!(session.status, ExpeditionStatus::Leaving);
}

#[test]
fn leaving_after_clear_ends_the_session() {
    let mut session = session_with_treasure(10000);
    session.apply_tool_action(&HORIZONTAL, UPoint::new(5, 4));
    session.apply_tool_action(&ToolType::TinyHammer, UPoint::new(5, 5));
    assert_eq!(session.status, ExpeditionStatus::Cleared);
    assert!(session.leave());
    assert_eq!(session.status, ExpeditionStatus::Leaving);
}

#[test]
fn actions_are_ignored_unless_mining() {
    let mut session = session_with_treasure(100);
    session.leave();
    let report = session.apply_tool_action(&ToolType::TinyHammer, UPoint::new(3, 3));
    assert!(report.hits.is_empty());
    assert_eq!(report.stability_cost, 0);
    assert_eq!(session.stability.remaining, 100);
    assert_eq!(session.grid.query(33), Some(1));
}

#[test]
fn action_hitting_nothing_costs_nothing() {
    let mut session = session_with_treasure(100);
    session.grid.rock_tiles[33] = None;
    let report = session.apply_tool_action(&ToolType::TinyHammer, UPoint::new(3, 3));
    assert!(report.hits.is_empty());
    assert_eq!(report.stability_cost, 0);
    assert_eq!(session.stability.remaining, 100);
    let outside = session.apply_tool_action(&ToolType::TinyHammer, UPoint::new(40, 3));
    assert!(outside.hits.is_empty());
    assert_eq!(session.stability.remaining, 100);
}

#[test]
fn hammer_action_reports_hit_and_cost() {
    let mut session = session_with_treasure(1000);
    let report = session.apply_tool_action(&ToolType::TinyHammer, UPoint::new(3, 3));
    assert_eq!(report.hits, vec![33]);
    assert_eq!(report.destroyed, vec![33]);
    assert_eq!(report.stability_cost, 75);
    assert_eq!(session.stability.remaining, 925);
    assert_eq!(session.grid.query(33), Some(0));
}

#[test]
fn plan_uses_level_size_and_tier_budget() {
    let plan = setup_expedition(&catalog(), &LevelChange { area: Area::TheCaves, level_idx: 1 }).unwrap();
    assert_eq!((plan.init.size_x, plan.init.size_y), (12, 8));
    assert_eq!(plan.stability.remaining, 10000);
    assert!(setup_expedition(&catalog(), &LevelChange { area: Area::TheCaves, level_idx: 2 }).is_none());
    assert!(setup_expedition(&catalog(), &LevelChange { area: Area::TheCollapse, level_idx: 0 }).is_none());
}

#[test]
fn start_builds_a_mining_session() {
    let defs = vec![l_shape()];
    let session = Expedition::start(&catalog(), &defs, &LevelChange { area: Area::TheCaves, level_idx: 0 })
        .expect("level exists and the shape fits");
    assert_eq!((session.grid.width, session.grid.height), (10, 10));
    assert_eq!(session.stability.remaining, 10000);
    assert_eq!(session.status, ExpeditionStatus::Mining);
    assert_eq!(session.treasures.len(), TREASURE_COUNT);
    for tile in session.grid.rock_tiles.iter() {
        assert!((1..=4).contains(&tile.unwrap().hp));
    }
    let parts = &session.treasures[0].parts;
    assert_eq!(parts.len(), 3);
    for &p in parts.iter() {
        assert!(p < 100);
        assert_eq!(session.occupancy.treasures[p], Some(0));
    }
}

#[test]
fn start_of_unknown_level_is_dropped() {
    let defs = vec![l_shape()];
    let r = Expedition::start(&catalog(), &defs, &LevelChange { area: Area::TheCollapse, level_idx: 0 });
    assert_eq!(r.err(), Some(StartError::UnknownLevel));
}

#[test]
fn start_without_treasure_shapes_fails_placement() {
    let r = Expedition::start(&catalog(), &Vec::new(), &LevelChange { area: Area::TheCaves, level_idx: 0 });
    assert_eq!(r.err(), Some(StartError::PlacementFailed));
}

#[test]
fn only_first_start_request_of_a_tick_is_kept() {
    let mut slot = LevelChangeSlot::new();
    assert!(slot.offer(LevelChange { area: Area::TheCaves, level_idx: 0 }));
    assert!(!slot.offer(LevelChange { area: Area::TheCaves, level_idx: 1 }));
    assert_eq!(slot.take(), Some(LevelChange { area: Area::TheCaves, level_idx: 0 }));
    assert_eq!(slot.take(), None);
    assert!(slot.offer(LevelChange { area: Area::TheCaves, level_idx: 1 }));
}

#[test]
fn clicks_outside_grid_are_not_mining_actions() {
    assert_eq!(MineAction::from_click(3, 4, 10, 10), Some(MineAction { tile_x: 3, tile_y: 4 }));
    assert_eq!(MineAction::from_click(-1, 4, 10, 10), None);
    assert_eq!(MineAction::from_click(3, 10, 10, 10), None);
    assert_eq!(MineAction::from_click(10, 0, 10, 10), None);
}

#[test]
fn stability_damage_is_deducted() {
    let mut s = Stability::new(30);
    s.apply_damage(StabilityDamage::new(45));
    assert_eq!(s.remaining, -15);
    assert_eq!(Stability::default().remaining, 0);
    assert_eq!(LevelStability::Normal.budget(), 10000);
}

#[test]
fn area_names() {
    assert_eq!(Area::TheCaves.display_name(), "The Caves");
    assert_eq!(Area::TheCollapse.display_name(), "The Collapse");
}

#[test]
fn detector_does_nothing_after_the_clear() {
    let mut session = session_with_treasure(10000);
    session.apply_tool_action(&HORIZONTAL, UPoint::new(5, 4));
    session.apply_tool_action(&ToolType::TinyHammer, UPoint::new(5, 5));
    assert_eq!(session.status, ExpeditionStatus::Cleared);
    let gem = TreasureInfo { id: 9, name: "gem".to_string(), shape: vec![0], width: 1, height: 1 };
    assert!(session.place_treasure(&gem, UPoint::new(0, 0)));
    session.grid.damage(0, 4);
    let (newly, cleared) = session.check_treasure_uncovered();
    assert!(newly.is_empty());
    assert!(!cleared);
    assert!(!session.treasures[1].is_discovered);
    assert_eq!(session.status, ExpeditionStatus::Cleared);
}

#[test]
fn started_session_occupancy_matches_parts() {
    let defs = vec![l_shape()];
    let session = Expedition::start(&catalog(), &defs, &LevelChange { area: Area::TheCaves, level_idx: 1 })
        .expect("level exists and the shape fits");
    let parts = &session.treasures[0].parts;
    for (j, cell) in session.occupancy.treasures.iter().enumerate() {
        assert_eq!(cell.is_some(), parts.contains(&j));
    }
}
