//! The forest map: its zones, walls, trail and where trees grow.

use vstd::prelude::*;

use crate::exploration::{build_map_border, map_border, tile_rect, TileRect};

verus! {

pub const MAP_TILES_W: u32 = 44;
pub const MAP_TILES_H: u32 = 32;
pub const TREE_VARIANTS: usize = 8;
pub const TREE_SHEET_COLS: usize = 4;
pub const TREE_SHEET_ROWS: usize = 2;

#[derive(Clone, Copy, Debug, PartialEq, Eq, Structural)]
pub enum ForestZone {
    Woods,
    DeepWoods,
    HomesteadReturn,
}

#[derive(Clone, Copy, Debug)]
pub struct ZoneRect {
    pub zone: ForestZone,
    pub bounds: TileRect,
    pub label: &'static str,
}

/// The forest's walls and named zones; later zones lie on top of earlier ones.
pub struct ForestLayout {
    pub solids: Vec<TileRect>,
    pub zones: Vec<ZoneRect>,
}

/// Southern edge of the west trail: walking down into it returns to the
/// homestead.
pub fn forest_homestead_transition() -> (r: TileRect)
    ensures
        r == (TileRect { x0: 2, y0: 0, x1: 5, y1: 2 }),
{
    tile_rect(2, 0, 5, 2)
}

/// The west trail, its widened mouth and the central clearing run.
pub open spec fn on_forest_path(tx: u32, ty: u32) -> bool {
    (2 <= tx <= 4 && ty <= 30) || (2 <= tx <= 6 && ty <= 4) || (20 <= tx <= 24 && ty <= 28)
}

pub fn forest_path(tx: u32, ty: u32) -> (on_path: bool)
    ensures
        on_path == on_forest_path(tx, ty),
{
    (tx >= 2 && tx <= 4 && ty <= 30) || (tx >= 2 && tx <= 6 && ty <= 4) || (tx >= 20 && tx <= 24 && ty <= 28)
}

/// The tile hash that scatters trees: `37 tx + 91 ty`, wrapped to 32 bits.
pub open spec fn tree_hash(tx: u32, ty: u32) -> nat {
    ((tx * 37 + ty * 91) % 0x1_0000_0000) as nat
}

/// The tree on tile (`tx`, `ty`): none on the trail or the map's edge, none
/// where the hash modulo 5 is 2 or more, else the variant the hash picks.
pub open spec fn tree_variant_at(tx: u32, ty: u32) -> Option<usize> {
    if on_forest_path(tx, ty) || tx == 0 || ty == 0 || tx + 1 >= MAP_TILES_W || ty + 1 >= MAP_TILES_H {
        None
    } else if tree_hash(tx, ty) % 5 >= 2 {
        None
    } else {
        Some((tree_hash(tx, ty) % TREE_VARIANTS as nat) as usize)
    }
}

/// The zones, from the outermost.
pub open spec fn forest_zones() -> Seq<(ForestZone, TileRect, Seq<char>)> {
    seq![
        (ForestZone::HomesteadReturn, TileRect { x0: 1, y0: 0, x1: 8, y1: 6 }, "Homestead Trail"@),
        (ForestZone::DeepWoods, TileRect { x0: 10, y0: 18, x1: 34, y1: 31 }, "Deep Woods"@),
        (ForestZone::Woods, TileRect { x0: 0, y0: 0, x1: MAP_TILES_W, y1: MAP_TILES_H }, "Whispering Forest"@),
    ]
}

impl ForestLayout {
    pub fn generate() -> (layout: Self)
        ensures
            layout.solids@ == map_border(MAP_TILES_W, MAP_TILES_H),
            layout.zones@.len() == 3,
            forall|i: int| 0 <= i < 3 ==> (#[trigger] layout.zones@[i]).zone == forest_zones()[i].0
                && layout.zones@[i].bounds == forest_zones()[i].1 && layout.zones@[i].label@ == forest_zones()[i].2,
    {
        let mut solids: Vec<TileRect> = Vec::new();
        let mut zones: Vec<ZoneRect> = Vec::new();
        zones.push(ZoneRect { zone: ForestZone::HomesteadReturn, bounds: tile_rect(1, 0, 8, 6), label: "Homestead Trail" });
        zones.push(ZoneRect { zone: ForestZone::DeepWoods, bounds: tile_rect(10, 18, 34, 31), label: "Deep Woods" });
        zones.push(ZoneRect {
            zone: ForestZone::Woods,
            bounds: tile_rect(0, 0, MAP_TILES_W, MAP_TILES_H),
            label: "Whispering Forest",
        });
        build_map_border(&mut solids, MAP_TILES_W, MAP_TILES_H);
        proof {
            assert(solids@ =~= map_border(MAP_TILES_W, MAP_TILES_H));
        }
        ForestLayout { solids, zones }
    }

    pub fn tree_variant(&self, tx: u32, ty: u32) -> (variant: Option<usize>)
        ensures
            variant == tree_variant_at(tx, ty),
    {
        if forest_path(tx, ty) || tx == 0 || ty == 0 || tx >= MAP_TILES_W - 1 || ty >= MAP_TILES_H - 1 {
            return None;
        }
        let hash = tx.wrapping_mul(37).wrapping_add(ty.wrapping_mul(91));
        proof {
            lemma_tree_hash(tx, ty);
        }
        if hash % 5 >= 2 {
            return None;
        }
        Some(hash as usize % TREE_VARIANTS)
    }
}

proof fn lemma_tree_hash(tx: u32, ty: u32)
    ensures
        vstd::wrapping::u32_specs::wrapping_add(
            vstd::wrapping::u32_specs::wrapping_mul(tx, 37),
            vstd::wrapping::u32_specs::wrapping_mul(ty, 91),
        ) == tree_hash(tx, ty),
{
    let r: int = 0x1_0000_0000;
    let a: int = tx * 37;
    let b: int = ty * 91;
    vstd::arithmetic::div_mod::lemma_add_mod_noop(a, b, r);
    vstd::arithmetic::div_mod::lemma_mod_bound(a, r);
    vstd::arithmetic::div_mod::lemma_mod_bound(b, r);
    let sum: int = a % r + b % r;
    assert(vstd::wrapping::u32_specs::wrapping_mul(tx, 37) == a % r);
    assert(vstd::wrapping::u32_specs::wrapping_mul(ty, 91) == b % r);
    if sum >= r {
        vstd::arithmetic::div_mod::lemma_mod_sub_multiples_vanish(sum, r);
        vstd::arithmetic::div_mod::lemma_small_mod((sum - r) as nat, r as nat);
    } else {
        vstd::arithmetic::div_mod::lemma_small_mod(sum as nat, r as nat);
    }
}

/// Column and row of a tree variant's cell on the tree sheet.
pub open spec fn tree_cell_of(index: usize) -> (usize, usize) {
    (((index % TREE_VARIANTS) % TREE_SHEET_COLS) as usize, ((index % TREE_VARIANTS) / TREE_SHEET_COLS) as usize)
}

pub fn tree_cell(index: usize) -> (cell: (usize, usize))
    ensures
        cell == tree_cell_of(index),
        cell.0 < TREE_SHEET_COLS,
        cell.1 < TREE_SHEET_ROWS,
{
    let index = index % TREE_VARIANTS;
    (index % TREE_SHEET_COLS, index / TREE_SHEET_COLS)
}

/// A tree to draw: its tile and sheet variant.
#[derive(Clone, Copy, Debug, PartialEq, Eq, Structural)]
pub struct TreePlacement {
    pub tx: u32,
    pub ty: u32,
    pub variant: usize,
}

/// Row-major position of an interior tile.
pub open spec fn tile_order(tx: u32, ty: u32) -> int {
    ty * MAP_TILES_W + tx
}

/// The trees of the forest: one for each inside tile that grows one, in
/// row-major order from the bottom-left.
pub fn tree_placements(layout: &ForestLayout) -> (trees: Vec<TreePlacement>)
    ensures
        forall|i: int| 0 <= i < trees@.len() ==> {
            let t = #[trigger] trees@[i];
            &&& 1 <= t.tx < MAP_TILES_W - 1
            &&& 1 <= t.ty < MAP_TILES_H - 1
            &&& tree_variant_at(t.tx, t.ty) == Some(t.variant)
        },
        forall|i: int, j: int| 0 <= i < j < trees@.len() ==> tile_order(#[trigger] trees@[i].tx, trees@[i].ty) < tile_order(#[trigger] trees@[j].tx, trees@[j].ty),
        forall|tx: u32, ty: u32| 1 <= tx < MAP_TILES_W - 1 && 1 <= ty < MAP_TILES_H - 1 && (#[trigger] tree_variant_at(tx, ty)) is Some ==> exists|i: int| 0 <= i < trees@.len() && (#[trigger] trees@[i]).tx == tx && trees@[i].ty == ty,
{
    let mut trees: Vec<TreePlacement> = Vec::new();
    let mut ty: u32 = 1;
    while ty < MAP_TILES_H - 1
        invariant
            1 <= ty <= MAP_TILES_H - 1,
            forall|i: int| 0 <= i < trees@.len() ==> {
                let t = #[trigger] trees@[i];
                &&& 1 <= t.tx < MAP_TILES_W - 1
                &&& 1 <= t.ty < ty
                &&& tree_variant_at(t.tx, t.ty) == Some(t.variant)
            },
            forall|i: int, j: int| 0 <= i < j < trees@.len() ==> tile_order(#[trigger] trees@[i].tx, trees@[i].ty) < tile_order(#[trigger] trees@[j].tx, trees@[j].ty),
            forall|x: u32, y: u32| 1 <= x < MAP_TILES_W - 1 && 1 <= y < ty && (#[trigger] tree_variant_at(x, y)) is Some ==> exists|i: int| 0 <= i < trees@.len() && (#[trigger] trees@[i]).tx == x && trees@[i].ty == y,
        decreases MAP_TILES_H - 1 - ty,
    {
        let mut tx: u32 = 1;
        while tx < MAP_TILES_W - 1
            invariant
                1 <= ty < MAP_TILES_H - 1,
                1 <= tx <= MAP_TILES_W - 1,
                forall|i: int| 0 <= i < trees@.len() ==> {
                    let t = #[trigger] trees@[i];
                    &&& 1 <= t.tx < MAP_TILES_W - 1
                    &&& 1 <= t.ty <= ty
                    &&& (t.ty == ty ==> t.tx < tx)
                    &&& tree_variant_at(t.tx, t.ty) == Some(t.variant)
                },
                forall|i: int, j: int| 0 <= i < j < trees@.len() ==> tile_order(#[trigger] trees@[i].tx, trees@[i].ty) < tile_order(#[trigger] trees@[j].tx, trees@[j].ty),
                forall|x: u32, y: u32| 1 <= x < MAP_TILES_W - 1 && 1 <= y <= ty && (y < ty || x < tx) && (#[trigger] tree_variant_at(x, y)) is Some ==> exists|i: int| 0 <= i < trees@.len() && (#[trigger] trees@[i]).tx == x && trees@[i].ty == y,
            decreases MAP_TILES_W - 1 - tx,
        {
            if let Some(variant) = layout.tree_variant(tx, ty) {
                let placement = TreePlacement { tx, ty, variant };
                let ghost before = trees@;
                trees.push(placement);
                proof {
                    assert(trees@[before.len() as int] == placement);
                    assert forall|i: int| 0 <= i < before.len() implies trees@[i] == before[i] by {}
                    assert forall|x: u32, y: u32| 1 <= x < MAP_TILES_W - 1 && 1 <= y <= ty && (y < ty || x < tx + 1) && (#[trigger] tree_variant_at(x, y)) is Some implies exists|i: int| 0 <= i < trees@.len() && (#[trigger] trees@[i]).tx == x && trees@[i].ty == y by {
                        if x == tx && y == ty {
                            assert(trees@[before.len() as int].tx == x);
                        } else {
                            let i = choose|i: int| 0 <= i < before.len() && (#[trigger] before[i]).tx == x && before[i].ty == y;
                            assert(trees@[i] == before[i]);
                        }
                    }
                }
            }
            tx += 1;
        }
        ty += 1;
    }
    trees
}

} // verus!
