use homestead::exploration::TileRect;
use homestead::forest::{
    forest_homestead_transition, forest_path, tree_cell, tree_placements, ForestLayout, ForestZone,
    MAP_TILES_H, MAP_TILES_W,
};

#[test]
fn trail_and_edges_grow_no_trees() {
    let layout = ForestLayout::generate();
    assert!(forest_path(3, 10));
    assert!(forest_path(6, 4));
    assert!(!forest_path(6, 5));
    assert!(forest_path(22, 28));
    assert_eq!(layout.tree_variant(3, 10), None);
    assert_eq!(layout.tree_variant(0, 5), None);
    assert_eq!(layout.tree_variant(10, MAP_TILES_H - 1), None);
}

#[test]
fn tree_hash_picks_variants() {
    let layout = ForestLayout::generate();
    // 37 * 1 + 91 * 1 = 128: 128 % 5 == 3, no tree.
    assert_eq!(layout.tree_variant(1, 1), None);
    // 37 * 10 + 91 * 10 = 1280: 1280 % 5 == 0, variant 1280 % 8 == 0.
    assert_eq!(layout.tree_variant(10, 10), Some(0));
    // 37 * 8 + 91 * 1 = 387: 387 % 5 == 2, no tree.
    assert_eq!(layout.tree_variant(8, 1), None);
    // 37 * 9 + 91 * 2 = 515: 515 % 5 == 0, variant 515 % 8 == 3.
    assert_eq!(layout.tree_variant(9, 2), Some(3));
}

#[test]
fn placements_match_tree_variants_in_row_order() {
    let layout = ForestLayout::generate();
    let trees = tree_placements(&layout);
    let mut expected = Vec::new();
    for ty in 1..MAP_TILES_H - 1 {
        for tx in 1..MAP_TILES_W - 1 {
            if let Some(v) = layout.tree_variant(tx, ty) {
                expected.push((tx, ty, v));
            }
        }
    }
    let got: Vec<(u32, u32, usize)> = trees.iter().map(|t| (t.tx, t.ty, t.variant)).collect();
    assert_eq!(got, expected);
    assert!(!got.is_empty());
}

#[test]
fn tree_cells_follow_the_sheet_grid() {
    assert_eq!(tree_cell(0), (0, 0));
    assert_eq!(tree_cell(3), (3, 0));
    assert_eq!(tree_cell(4), (0, 1));
    assert_eq!(tree_cell(7), (3, 1));
    assert_eq!(tree_cell(9), (1, 0));
}

#[test]
fn forest_layout_zones_and_walls() {
    let layout = ForestLayout::generate();
    assert_eq!(layout.zones.len(), 3);
    assert_eq!(layout.zones[0].zone, ForestZone::HomesteadReturn);
    assert_eq!(layout.zones[2].label, "Whispering Forest");
    assert_eq!(
        layout.solids,
        vec![
            TileRect { x0: 0, y0: 0, x1: 44, y1: 1 },
            TileRect { x0: 0, y0: 31, x1: 44, y1: 32 },
            TileRect { x0: 0, y0: 0, x1: 1, y1: 32 },
            TileRect { x0: 43, y0: 0, x1: 44, y1: 32 },
        ]
    );
    assert_eq!(
        forest_homestead_transition(),
        TileRect { x0: 2, y0: 0, x1: 5, y1: 2 }
    );
}
