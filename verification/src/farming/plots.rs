//! A crop plot: one tile of the homestead field and its growth stage.

use vstd::prelude::*;

use super::crops::{advance_plot_day, next_day, PlotStage};

verus! {

#[derive(Clone, Copy, Debug, PartialEq, Eq, Structural)]
pub struct CropPlot {
    pub tile_x: u32,
    pub tile_y: u32,
    pub stage: PlotStage,
}

/// Predicate: the plot stands on tile `(x, y)`.
pub open spec fn plot_at(x: u32, y: u32) -> spec_fn(CropPlot) -> bool {
    |p: CropPlot| p.tile_x == x && p.tile_y == y
}

/// No two plots share a tile.
pub open spec fn tiles_distinct(plots: Seq<CropPlot>) -> bool {
    forall|i: int, j: int|
        0 <= i < j < plots.len() ==> !(#[trigger] plots[i].tile_x == #[trigger] plots[j].tile_x
            && plots[i].tile_y == plots[j].tile_y)
}

/// Stage of the first plot on tile `(x, y)`; untouched soil where there is none.
pub open spec fn stage_at(plots: Seq<CropPlot>, x: u32, y: u32) -> PlotStage {
    let here = plots.filter(plot_at(x, y));
    if here.len() == 0 {
        PlotStage::Soil
    } else {
        here[0].stage
    }
}

/// Plot `i` is the first one on tile (`x`, `y`).
pub open spec fn first_plot_at(plots: Seq<CropPlot>, x: u32, y: u32, i: int) -> bool {
    &&& 0 <= i < plots.len()
    &&& plots[i].tile_x == x && plots[i].tile_y == y
    &&& forall|j: int| 0 <= j < i ==> !(#[trigger] plots[j].tile_x == x && plots[j].tile_y == y)
}

/// Index of the first plot on tile (`x`, `y`), if any.
pub(crate) fn find_plot(plots: &Vec<CropPlot>, x: u32, y: u32) -> (found: Option<usize>)
    ensures
        found is None <==> forall|i: int| 0 <= i < plots@.len() ==> !(#[trigger] plots@[i].tile_x == x && plots@[i].tile_y == y),
        found matches Some(i) ==> first_plot_at(plots@, x, y, i as int),
{
    let mut i: usize = 0;
    while i < plots.len()
        invariant
            i <= plots@.len(),
            forall|j: int| 0 <= j < i ==> !(#[trigger] plots@[j].tile_x == x && plots@[j].tile_y == y),
        decreases plots@.len() - i,
    {
        if plots[i].tile_x == x && plots[i].tile_y == y {
            return Some(i);
        }
        i += 1;
    }
    None
}

/// Sleeping advances every plot by one night, in place.
pub fn advance_all_plots_on_sleep(plots: &mut Vec<CropPlot>)
    ensures
        final(plots)@.len() == old(plots)@.len(),
        forall|i: int| 0 <= i < final(plots)@.len() ==> #[trigger] final(plots)@[i] == (CropPlot {
            stage: next_day(old(plots)@[i].stage),
            ..old(plots)@[i]
        }),
{
    let ghost before = plots@;
    let mut i: usize = 0;
    while i < plots.len()
        invariant
            i <= plots@.len(),
            plots@.len() == before.len(),
            forall|j: int| 0 <= j < i ==> #[trigger] plots@[j] == (CropPlot { stage: next_day(before[j].stage), ..before[j] }),
            forall|j: int| i <= j < plots@.len() ==> #[trigger] plots@[j] == before[j],
        decreases plots@.len() - i,
    {
        let plot = plots[i];
        plots.set(i, CropPlot { stage: advance_plot_day(plot.stage), ..plot });
        i += 1;
    }
}

/// Workable plots are every other tile of the field, like a chequerboard.
pub open spec fn workable_tile(tx: u32, ty: u32) -> bool {
    (tx + ty) % 2 == 0
}

/// Row-major position of a tile in a field `width` tiles wide from `min_tx`.
pub open spec fn field_order(p: CropPlot, min_tx: u32, width: int) -> int {
    p.tile_y * width + (p.tile_x - min_tx)
}

/// The field's plots over tiles `min_tx..max_tx` by `min_ty..max_ty`: one
/// untouched plot on each workable tile, row by row.
pub fn field_plots(min_tx: u32, max_tx: u32, min_ty: u32, max_ty: u32) -> (plots: Vec<CropPlot>)
    requires
        min_tx < max_tx && min_ty < max_ty ==> (max_tx - 1) + (max_ty - 1) <= u32::MAX,
    ensures
        forall|i: int| 0 <= i < plots@.len() ==> {
            let p = #[trigger] plots@[i];
            &&& min_tx <= p.tile_x < max_tx
            &&& min_ty <= p.tile_y < max_ty
            &&& workable_tile(p.tile_x, p.tile_y)
            &&& p.stage == PlotStage::Soil
        },
        forall|i: int, j: int| 0 <= i < j < plots@.len() ==> (#[trigger] plots@[i].tile_y < #[trigger] plots@[j].tile_y)
            || (plots@[i].tile_y == plots@[j].tile_y && plots@[i].tile_x < plots@[j].tile_x),
        forall|tx: u32, ty: u32| min_tx <= tx < max_tx && min_ty <= ty < max_ty && #[trigger] workable_tile(tx, ty)
            ==> exists|i: int| 0 <= i < plots@.len() && (#[trigger] plots@[i]).tile_x == tx && plots@[i].tile_y == ty,
{
    let mut plots: Vec<CropPlot> = Vec::new();
    let mut ty = min_ty;
    while ty < max_ty
        invariant
            min_ty <= ty,
            min_ty < max_ty ==> ty <= max_ty,
            min_ty >= max_ty ==> plots@.len() == 0,
            min_tx < max_tx && min_ty < max_ty ==> (max_tx - 1) + (max_ty - 1) <= u32::MAX,
            forall|i: int| 0 <= i < plots@.len() ==> {
                let p = #[trigger] plots@[i];
                &&& min_tx <= p.tile_x < max_tx
                &&& min_ty <= p.tile_y < ty
                &&& workable_tile(p.tile_x, p.tile_y)
                &&& p.stage == PlotStage::Soil
            },
            forall|i: int, j: int| 0 <= i < j < plots@.len() ==> (#[trigger] plots@[i].tile_y < #[trigger] plots@[j].tile_y)
                || (plots@[i].tile_y == plots@[j].tile_y && plots@[i].tile_x < plots@[j].tile_x),
            forall|x: u32, y: u32| min_tx <= x < max_tx && min_ty <= y < ty && #[trigger] workable_tile(x, y)
                ==> exists|i: int| 0 <= i < plots@.len() && (#[trigger] plots@[i]).tile_x == x && plots@[i].tile_y == y,
        decreases max_ty - ty,
    {
        let mut tx = min_tx;
        while tx < max_tx
            invariant
                min_ty <= ty < max_ty,
                min_tx <= tx,
                min_tx < max_tx ==> tx <= max_tx,
                min_tx < max_tx ==> (max_tx - 1) + (max_ty - 1) <= u32::MAX,
                forall|i: int| 0 <= i < plots@.len() ==> {
                    let p = #[trigger] plots@[i];
                    &&& min_tx <= p.tile_x < max_tx
                    &&& min_ty <= p.tile_y <= ty
                    &&& (p.tile_y == ty ==> p.tile_x < tx)
                    &&& workable_tile(p.tile_x, p.tile_y)
                    &&& p.stage == PlotStage::Soil
                },
                forall|i: int, j: int| 0 <= i < j < plots@.len() ==> (#[trigger] plots@[i].tile_y < #[trigger] plots@[j].tile_y)
                    || (plots@[i].tile_y == plots@[j].tile_y && plots@[i].tile_x < plots@[j].tile_x),
                forall|x: u32, y: u32| min_tx <= x < max_tx && min_ty <= y <= ty && (y < ty || x < tx) && #[trigger] workable_tile(x, y)
                    ==> exists|i: int| 0 <= i < plots@.len() && (#[trigger] plots@[i]).tile_x == x && plots@[i].tile_y == y,
            decreases max_tx - tx,
        {
            if (tx + ty) % 2 == 0 {
                let plot = CropPlot { tile_x: tx, tile_y: ty, stage: PlotStage::Soil };
                let ghost before = plots@;
                plots.push(plot);
                proof {
                    assert(plots@[before.len() as int] == plot);
                    assert forall|i: int| 0 <= i < before.len() implies plots@[i] == before[i] by {}
                    assert forall|x: u32, y: u32| min_tx <= x < max_tx && min_ty <= y <= ty && (y < ty || x < tx + 1) && #[trigger] workable_tile(x, y)
                        implies exists|i: int| 0 <= i < plots@.len() && (#[trigger] plots@[i]).tile_x == x && plots@[i].tile_y == y by {
                        if x == tx && y == ty {
                            assert(plots@[before.len() as int].tile_x == x);
                        } else {
                            let i = choose|i: int| 0 <= i < before.len() && (#[trigger] before[i]).tile_x == x && before[i].tile_y == y;
                            assert(plots@[i] == before[i]);
                        }
                    }
                }
            }
            tx += 1;
        }
        ty += 1;
    }
    plots
}

/// The plot the player works on: the one on the tile they face, else the one
/// they stand on, else the nearest one in reach (`nearest`, found by the
/// caller from world distances).
pub fn find_target_tile(
    plots: &[CropPlot],
    facing: (u32, u32),
    standing: (u32, u32),
    nearest: Option<(u32, u32)>,
) -> (target: Option<(u32, u32)>)
    ensures
        has_plot_at(plots@, facing) ==> target == Some(facing),
        !has_plot_at(plots@, facing) && has_plot_at(plots@, standing) ==> target == Some(standing),
        !has_plot_at(plots@, facing) && !has_plot_at(plots@, standing) ==> target == nearest,
{
    let mut on_facing = false;
    let mut on_standing = false;
    let mut i: usize = 0;
    while i < plots.len()
        invariant
            i <= plots@.len(),
            on_facing == exists|j: int| 0 <= j < i && #[trigger] plots@[j].tile_x == facing.0 && plots@[j].tile_y == facing.1,
            on_standing == exists|j: int| 0 <= j < i && #[trigger] plots@[j].tile_x == standing.0 && plots@[j].tile_y == standing.1,
        decreases plots@.len() - i,
    {
        let plot = plots[i];
        if plot.tile_x == facing.0 && plot.tile_y == facing.1 {
            on_facing = true;
        }
        if plot.tile_x == standing.0 && plot.tile_y == standing.1 {
            on_standing = true;
        }
        i += 1;
    }
    if on_facing {
        Some(facing)
    } else if on_standing {
        Some(standing)
    } else {
        nearest
    }
}

/// Some plot stands on `tile`.
pub open spec fn has_plot_at(plots: Seq<CropPlot>, tile: (u32, u32)) -> bool {
    exists|j: int| 0 <= j < plots.len() && #[trigger] plots[j].tile_x == tile.0 && plots[j].tile_y == tile.1
}

} // verus!
