//! Tile-grid geometry shared by the explorable maps.

use vstd::prelude::*;

verus! {

/// Tiles `x0..x1` by `y0..y1`; the renderer scales it to world units.
#[derive(Clone, Copy, Debug, PartialEq, Eq, Structural)]
pub struct TileRect {
    pub x0: u32,
    pub y0: u32,
    pub x1: u32,
    pub y1: u32,
}

pub fn tile_rect(x0: u32, y0: u32, x1: u32, y1: u32) -> (r: TileRect)
    ensures
        r == (TileRect { x0, y0, x1, y1 }),
{
    TileRect { x0, y0, x1, y1 }
}

/// The four one-tile walls around a `map_tiles_w` by `map_tiles_h` map:
/// bottom, top, left, right.
pub open spec fn map_border(map_tiles_w: u32, map_tiles_h: u32) -> Seq<TileRect> {
    seq![
        TileRect { x0: 0, y0: 0, x1: map_tiles_w, y1: 1 },
        TileRect { x0: 0, y0: (map_tiles_h - 1) as u32, x1: map_tiles_w, y1: map_tiles_h },
        TileRect { x0: 0, y0: 0, x1: 1, y1: map_tiles_h },
        TileRect { x0: (map_tiles_w - 1) as u32, y0: 0, x1: map_tiles_w, y1: map_tiles_h },
    ]
}

/// Appends the map's border walls to `solids`.
pub fn build_map_border(solids: &mut Vec<TileRect>, map_tiles_w: u32, map_tiles_h: u32)
    requires
        map_tiles_w >= 1,
        map_tiles_h >= 1,
    ensures
        final(solids)@ == old(solids)@ + map_border(map_tiles_w, map_tiles_h),
{
    let ghost before = solids@;
    solids.push(tile_rect(0, 0, map_tiles_w, 1));
    solids.push(tile_rect(0, map_tiles_h - 1, map_tiles_w, map_tiles_h));
    solids.push(tile_rect(0, 0, 1, map_tiles_h));
    solids.push(tile_rect(map_tiles_w - 1, 0, map_tiles_w, map_tiles_h));
    proof {
        assert(solids@ =~= before + map_border(map_tiles_w, map_tiles_h));
    }
}

} // verus!
