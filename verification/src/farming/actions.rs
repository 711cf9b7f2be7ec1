//! Farm actions applied to a plot stage and the inventory.

use vstd::prelude::*;

use crate::items::{added, Inventory, MaterialId};

use super::plots::{find_plot, first_plot_at, CropPlot};
use super::crops::{
    harvest_plot, plant_plot, produce_of, seed_of, till_plot, water_plot, CropKind,
    FarmActionResult, PlotStage,
};
use super::tools::{first_available_seed_crop, HomesteadTool};

verus! {

/// `r` is an error carrying the message `text`.
pub open spec fn refused_with<T>(r: Result<T, &'static str>, text: Seq<char>) -> bool {
    r matches Err(msg) && msg@ == text
}

/// Seed the Seeds tool plants from a count table: turnip first, then potato.
pub open spec fn seed_choice(counts: Map<MaterialId, nat>) -> Option<CropKind> {
    if counts[MaterialId::TurnipSeed] > 0 {
        Some(CropKind::Turnip)
    } else if counts[MaterialId::PotatoSeed] > 0 {
        Some(CropKind::Potato)
    } else {
        None
    }
}

/// Any tool on a plot, as [`apply_tool`] states it tool by tool.
pub open spec fn tool_outcome(
    tool: HomesteadTool,
    stage: PlotStage,
    before: Map<MaterialId, nat>,
    after: Map<MaterialId, nat>,
    out: Result<(PlotStage, FarmActionResult), &'static str>,
) -> bool {
    match tool {
        HomesteadTool::Hoe => after == before && (if stage is Soil {
            out == Ok::<(PlotStage, FarmActionResult), &'static str>((PlotStage::Tilled, FarmActionResult::Tilled))
        } else {
            refused_with(out, "already worked soil"@)
        }),
        HomesteadTool::WateringCan => after == before && (match stage {
            PlotStage::Growing { crop, days, watered: false } => out == Ok::<(PlotStage, FarmActionResult), &'static str>(
                (PlotStage::Growing { crop, days, watered: true }, FarmActionResult::Watered),
            ),
            PlotStage::Growing { watered: true, .. } => refused_with(out, "already watered today"@),
            _ => refused_with(out, "nothing to water"@),
        }),
        HomesteadTool::Seeds => seeds_outcome(stage, before, after, out),
        HomesteadTool::Hand => hand_outcome(stage, before, after, out),
    }
}

pub fn apply_tool(tool: HomesteadTool, stage: PlotStage, inventory: &mut Inventory) -> (out: Result<
    (PlotStage, FarmActionResult),
    &'static str,
>)
    ensures
        tool == HomesteadTool::Hoe ==> final(inventory)@ == old(inventory)@ && (if stage is Soil {
            out == Ok::<(PlotStage, FarmActionResult), &'static str>((PlotStage::Tilled, FarmActionResult::Tilled))
        } else {
            refused_with(out, "already worked soil"@)
        }),
        tool == HomesteadTool::WateringCan ==> final(inventory)@ == old(inventory)@ && (
        match stage {
            PlotStage::Growing { crop, days, watered: false } => out == Ok::<(PlotStage, FarmActionResult), &'static str>(
                (PlotStage::Growing { crop, days, watered: true }, FarmActionResult::Watered),
            ),
            PlotStage::Growing { watered: true, .. } => refused_with(out, "already watered today"@),
            _ => refused_with(out, "nothing to water"@),
        }),
        tool == HomesteadTool::Seeds ==> seeds_outcome(stage, old(inventory)@, final(inventory)@, out),
        tool == HomesteadTool::Hand ==> hand_outcome(stage, old(inventory)@, final(inventory)@, out),
        tool_outcome(tool, stage, old(inventory)@, final(inventory)@, out),
{
    match tool {
        HomesteadTool::Hoe => ok_or_fail(till_plot(stage)),
        HomesteadTool::WateringCan => ok_or_fail(water_plot(stage)),
        HomesteadTool::Seeds => plant_first_seed(stage, inventory),
        HomesteadTool::Hand => harvest_with_hand(stage, inventory),
    }
}

/// A failed action becomes an error with its message; any other result passes.
fn ok_or_fail(pair: (PlotStage, FarmActionResult)) -> (out: Result<(PlotStage, FarmActionResult), &'static str>)
    ensures
        pair.1 matches FarmActionResult::Failed(msg) ==> out == Err::<(PlotStage, FarmActionResult), &'static str>(msg),
        !(pair.1 is Failed) ==> out == Ok::<(PlotStage, FarmActionResult), &'static str>(pair),
{
    let (next, result) = pair;
    match result {
        FarmActionResult::Failed(msg) => Err(msg),
        other => Ok((next, other)),
    }
}

/// Planting `crop` with the seeds of a count table.
pub open spec fn planting_outcome(
    stage: PlotStage,
    crop: CropKind,
    before: Map<MaterialId, nat>,
    after: Map<MaterialId, nat>,
    out: Result<(PlotStage, FarmActionResult), &'static str>,
) -> bool {
    if before[seed_of(crop)] == 0 {
        after == before && refused_with(out, "no seeds in inventory"@)
    } else if stage is Tilled {
        &&& after == before.insert(seed_of(crop), (before[seed_of(crop)] - 1) as nat)
        &&& out == Ok::<(PlotStage, FarmActionResult), &'static str>(
            (PlotStage::Growing { crop, days: 0, watered: false }, FarmActionResult::Planted(crop)),
        )
    } else {
        after == before && refused_with(out, "till before planting"@)
    }
}

/// The Seeds tool on a plot: plants the preferred seed held.
pub open spec fn seeds_outcome(
    stage: PlotStage,
    before: Map<MaterialId, nat>,
    after: Map<MaterialId, nat>,
    out: Result<(PlotStage, FarmActionResult), &'static str>,
) -> bool {
    match seed_choice(before) {
        None => after == before && refused_with(out, "no seeds in inventory"@),
        Some(crop) => planting_outcome(stage, crop, before, after, out),
    }
}

/// The bare hand on a plot: harvests a ready crop into the inventory.
pub open spec fn hand_outcome(
    stage: PlotStage,
    before: Map<MaterialId, nat>,
    after: Map<MaterialId, nat>,
    out: Result<(PlotStage, FarmActionResult), &'static str>,
) -> bool {
    match stage {
        PlotStage::Ready { crop } => {
            &&& after == added(before, produce_of(crop), 1)
            &&& out == Ok::<(PlotStage, FarmActionResult), &'static str>(
                (PlotStage::Soil, FarmActionResult::Harvested { crop, amount: 1 }),
            )
        },
        _ => after == before && refused_with(out, "not ready to harvest"@),
    }
}

/// Uses `tool` on the first plot standing on (`tile_x`, `tile_y`): the plot
/// takes the new stage when the tool works, and the action is returned for
/// the log. Without such a plot nothing changes.
pub fn apply_to_target(
    plots: &mut Vec<CropPlot>,
    tile_x: u32,
    tile_y: u32,
    tool: HomesteadTool,
    inventory: &mut Inventory,
) -> (out: Result<FarmActionResult, &'static str>)
    ensures
        (forall|i: int| 0 <= i < old(plots)@.len() ==> !(#[trigger] old(plots)@[i].tile_x == tile_x && old(plots)@[i].tile_y
            == tile_y)) ==> refused_with(out, "plot gone"@) && final(plots)@ == old(plots)@ && final(inventory)@ == old(
            inventory,
        )@,
        forall|i: int| #[trigger] first_plot_at(old(plots)@, tile_x, tile_y, i) ==> match out {
            Ok(action) => {
                &&& tool_outcome(tool, old(plots)@[i].stage, old(inventory)@, final(inventory)@, Ok((final(plots)@[i].stage, action)))
                &&& final(plots)@ == old(plots)@.update(i, CropPlot { stage: final(plots)@[i].stage, ..old(plots)@[i] })
            },
            Err(msg) => {
                &&& tool_outcome(tool, old(plots)@[i].stage, old(inventory)@, final(inventory)@, Err(msg))
                &&& final(plots)@ == old(plots)@
            },
        },
{
    let found = find_plot(plots, tile_x, tile_y);
    let i = match found {
        Some(i) => i,
        None => {
            return Err("plot gone");
        },
    };
    proof {
        let before = plots@;
        assert forall|k: int| #[trigger] first_plot_at(before, tile_x, tile_y, k) implies k == i by {
            if k < i {
                assert(!(before[k].tile_x == tile_x && before[k].tile_y == tile_y));
            } else if k > i {
                assert(!(before[i as int].tile_x == tile_x && before[i as int].tile_y == tile_y));
            }
        }
    }
    let plot = plots[i];
    match apply_tool(tool, plot.stage, inventory) {
        Ok((stage, action)) => {
            plots.set(i, CropPlot { stage, ..plot });
            Ok(action)
        },
        Err(msg) => Err(msg),
    }
}

fn plant_first_seed(stage: PlotStage, inventory: &mut Inventory) -> (out: Result<
    (PlotStage, FarmActionResult),
    &'static str,
>)
    ensures
        seeds_outcome(stage, old(inventory)@, final(inventory)@, out),
{
    let held = &*inventory;
    let has = |id: MaterialId| -> (b: bool)
        ensures
            b == (held@[id] > 0),
        { held.count(id) > 0 };
    let choice = first_available_seed_crop(has);
    let crop = match choice {
        Some(crop) => crop,
        None => {
            return Err("no seeds in inventory");
        },
    };
    plant_with_crop(stage, crop, inventory)
}

fn plant_with_crop(stage: PlotStage, crop: CropKind, inventory: &mut Inventory) -> (out: Result<
    (PlotStage, FarmActionResult),
    &'static str,
>)
    ensures
        planting_outcome(stage, crop, old(inventory)@, final(inventory)@, out),
{
    let ghost before = inventory@;
    if !inventory.try_remove(crop.seed_material(), 1) {
        return Err("no seeds in inventory");
    }
    match plant_plot(stage, crop) {
        (_next, FarmActionResult::Failed(msg)) => {
            inventory.try_add(crop.seed_material(), 1);
            proof {
                broadcast use crate::items::lemma_counts_total;
                assert(inventory@ =~= before);
            }
            Err(msg)
        },
        (next, other) => Ok((next, other)),
    }
}

fn harvest_with_hand(stage: PlotStage, inventory: &mut Inventory) -> (out: Result<
    (PlotStage, FarmActionResult),
    &'static str,
>)
    ensures
        hand_outcome(stage, old(inventory)@, final(inventory)@, out),
{
    match harvest_plot(stage) {
        (next, FarmActionResult::Harvested { crop, amount }) => {
            let _leftover = inventory.try_add(crop.harvest_material(), amount);
            Ok((next, FarmActionResult::Harvested { crop, amount }))
        },
        (_, FarmActionResult::Failed(msg)) => Err(msg),
        (next, other) => Ok((next, other)),
    }
}

} // verus!
