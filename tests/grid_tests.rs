use underground_miner::border::get_border_atlas_idx;
use underground_miner::consts::{A_BORDER_LEFT, A_BORDER_TOP, A_CORNER_BL, A_CORNER_TR, A_DARK_GROUND};
use underground_miner::grid::{get_hit_stability, get_tile_hits, MiningGrid, MiningTile};
use underground_miner::point::{idx_to_xy, xy_to_idx, UPoint};
use underground_miner::tools::{PickaxeRotation, ToolType};

fn full_grid(width: usize, height: usize) -> MiningGrid {
    MiningGrid::from_rolls(width, height, &vec![0usize; width * height])
}

fn sorted(mut v: Vec<usize>) -> Vec<usize> {
    v.sort();
    v
}

const CROSS: ToolType = ToolType::Pickaxe { rotation: PickaxeRotation::Cross };
const HORIZONTAL: ToolType = ToolType::Pickaxe { rotation: PickaxeRotation::Horizontal };
const VERTICAL: ToolType = ToolType::Pickaxe { rotation: PickaxeRotation::Vertical };

#[test]
fn built_grid_has_every_tile_with_hp_one_to_four() {
    let grid = MiningGrid::build(7, 5);
    assert_eq!(grid.width, 7);
    assert_eq!(grid.height, 5);
    assert_eq!(grid.rock_tiles.len(), 35);
    for tile in grid.rock_tiles.iter() {
        let hp = tile.expect("every cell holds a tile").hp;
        assert!((1..=4).contains(&hp));
    }
}

#[test]
fn rolls_map_to_hit_points() {
    let grid = MiningGrid::from_rolls(3, 2, &vec![0, 1, 2, 3, 4, 7]);
    let hps: Vec<usize> = grid.rock_tiles.iter().map(|t| t.unwrap().hp).collect();
    assert_eq!(hps, vec![1, 2, 3, 4, 1, 4]);
}

#[test]
fn empty_grid_has_no_tiles() {
    let grid = MiningGrid::new(4, 3);
    assert_eq!(grid.rock_tiles.len(), 12);
    assert!(grid.rock_tiles.iter().all(|t| t.is_none()));
}

#[test]
fn damage_saturates_and_reports_reaching_zero() {
    let mut grid = MiningGrid::from_rolls(2, 1, &vec![2, 0]);
    assert_eq!(grid.query(0), Some(3));
    assert!(!grid.damage(0, 1));
    assert_eq!(grid.query(0), Some(2));
    assert!(grid.damage(0, 5));
    assert_eq!(grid.query(0), Some(0));
    assert!(!grid.damage(0, 1));
    assert_eq!(grid.query(0), Some(0));
    assert!(grid.damage(1, 1));
    assert!(!grid.damage(9, 1));
    assert_eq!(grid.query(9), None);
}

#[test]
fn damage_all_hits_each_index_once() {
    let mut grid = MiningGrid::from_rolls(3, 1, &vec![0, 1, 2]);
    let destroyed = grid.damage_all(&vec![0, 1]);
    assert_eq!(destroyed, vec![0]);
    assert_eq!(grid.query(0), Some(0));
    assert_eq!(grid.query(1), Some(1));
    assert_eq!(grid.query(2), Some(3));
}

#[test]
fn cross_at_interior_cell_hits_five_cells() {
    let grid = full_grid(10, 10);
    let hits = get_tile_hits(&CROSS, &UPoint::new(4, 4), &grid);
    assert_eq!(sorted(hits), vec![34, 43, 44, 45, 54]);
}

#[test]
fn horizontal_at_left_edge_hits_two_cells() {
    let grid = full_grid(10, 10);
    let hits = get_tile_hits(&HORIZONTAL, &UPoint::new(0, 3), &grid);
    assert_eq!(sorted(hits), vec![30, 31]);
}

#[test]
fn hammer_hits_target_only() {
    let grid = full_grid(10, 10);
    let hits = get_tile_hits(&ToolType::TinyHammer, &UPoint::new(3, 3), &grid);
    assert_eq!(hits, vec![33]);
    assert_eq!(get_hit_stability(&ToolType::TinyHammer, &hits), 75);
}

#[test]
fn cross_at_corner_is_clipped_to_three_cells() {
    let grid = full_grid(10, 10);
    let hits = get_tile_hits(&CROSS, &UPoint::new(0, 0), &grid);
    assert_eq!(sorted(hits.clone()), vec![0, 1, 10]);
    assert_eq!(get_hit_stability(&CROSS, &hits), 45);
}

#[test]
fn pickaxe_costs_do_not_depend_on_hits() {
    assert_eq!(get_hit_stability(&HORIZONTAL, &[]), 25);
    assert_eq!(get_hit_stability(&VERTICAL, &[1, 2, 3]), 25);
    assert_eq!(get_hit_stability(&CROSS, &[7]), 45);
}

#[test]
fn vertical_at_top_edge_is_clipped() {
    let grid = full_grid(4, 3);
    let hits = get_tile_hits(&VERTICAL, &UPoint::new(2, 2), &grid);
    assert_eq!(sorted(hits), vec![6, 10]);
}

#[test]
fn hammer_outside_grid_hits_nothing() {
    let grid = full_grid(10, 10);
    assert!(get_tile_hits(&ToolType::TinyHammer, &UPoint::new(12, 3), &grid).is_empty());
    assert!(get_tile_hits(&CROSS, &UPoint::new(10, 10), &grid).is_empty());
}

#[test]
fn empty_cells_are_not_hit() {
    let mut grid = full_grid(3, 3);
    grid.rock_tiles[4] = None;
    grid.rock_tiles[5] = None;
    assert!(get_tile_hits(&ToolType::TinyHammer, &UPoint::new(1, 1), &grid).is_empty());
    let hits = get_tile_hits(&HORIZONTAL, &UPoint::new(1, 1), &grid);
    assert_eq!(hits, vec![3]);
}

#[test]
fn tile_sprite_follows_hit_points() {
    assert_eq!(MiningTile::new(0).atlas_index(), None);
    assert_eq!(MiningTile::new(1).atlas_index(), Some(0));
    assert_eq!(MiningTile::new(4).atlas_index(), Some(3));
}

#[test]
fn index_mappings() {
    assert_eq!(xy_to_idx(3, 4, 10), 43);
    assert_eq!(UPoint::new(6, 4).as_idx(10), 46);
    let p = idx_to_xy(3, 2);
    assert_eq!((p.x, p.y), (1, 1));
    let q = idx_to_xy(7, 3);
    assert_eq!((q.x, q.y), (2, 1));
}

#[test]
fn border_pieces_frame_the_grid() {
    let size = (10, 8);
    assert_eq!(get_border_atlas_idx(-1, -1, size), A_CORNER_BL);
    assert_eq!(get_border_atlas_idx(10, 8, size), A_CORNER_TR);
    assert_eq!(get_border_atlas_idx(-1, 3, size), A_BORDER_LEFT);
    assert_eq!(get_border_atlas_idx(4, 8, size), A_BORDER_TOP);
    assert_eq!(get_border_atlas_idx(-2, 3, size), A_DARK_GROUND);
    assert_eq!(get_border_atlas_idx(3, 30, size), A_DARK_GROUND);
}
