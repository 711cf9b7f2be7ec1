//! Homestead crop plots as stored in the player's save profile.
//!
//! Soil has no saved form: it is skipped on capture, and tiles without an
//! entry restore as soil.

use vstd::prelude::*;

use super::crops::{CropKind, PlotStage};
use super::plots::{plot_at, stage_at, tiles_distinct, CropPlot};

verus! {

#[derive(Clone, Copy, Debug, PartialEq, Eq, Structural)]
pub enum SavedCropKind {
    Turnip,
    Potato,
}

#[derive(Clone, Copy, Debug, PartialEq, Eq, Structural)]
pub enum SavedPlotStage {
    Tilled,
    Growing { crop: SavedCropKind, days: u8, watered: bool },
    Ready { crop: SavedCropKind },
}

#[derive(Clone, Copy, Debug, PartialEq, Eq, Structural)]
pub struct SavedCropPlot {
    pub tile_x: u32,
    pub tile_y: u32,
    pub stage: SavedPlotStage,
}

pub open spec fn saved_kind_of(kind: CropKind) -> SavedCropKind {
    match kind {
        CropKind::Turnip => SavedCropKind::Turnip,
        CropKind::Potato => SavedCropKind::Potato,
    }
}

pub open spec fn live_kind_of(kind: SavedCropKind) -> CropKind {
    match kind {
        SavedCropKind::Turnip => CropKind::Turnip,
        SavedCropKind::Potato => CropKind::Potato,
    }
}

/// Saved form of a stage; soil has none.
pub open spec fn saved_stage_of(stage: PlotStage) -> Option<SavedPlotStage> {
    match stage {
        PlotStage::Soil => None,
        PlotStage::Tilled => Some(SavedPlotStage::Tilled),
        PlotStage::Growing { crop, days, watered } => Some(
            SavedPlotStage::Growing { crop: saved_kind_of(crop), days, watered },
        ),
        PlotStage::Ready { crop } => Some(SavedPlotStage::Ready { crop: saved_kind_of(crop) }),
    }
}

pub open spec fn live_stage_of(stage: SavedPlotStage) -> PlotStage {
    match stage {
        SavedPlotStage::Tilled => PlotStage::Tilled,
        SavedPlotStage::Growing { crop, days, watered } => PlotStage::Growing {
            crop: live_kind_of(crop),
            days,
            watered,
        },
        SavedPlotStage::Ready { crop } => PlotStage::Ready { crop: live_kind_of(crop) },
    }
}

/// Saved entry for a plot; soil plots have none.
pub open spec fn saved_plot_of(plot: CropPlot) -> Option<SavedCropPlot> {
    match saved_stage_of(plot.stage) {
        Some(stage) => Some(SavedCropPlot { tile_x: plot.tile_x, tile_y: plot.tile_y, stage }),
        None => None,
    }
}

pub open spec fn to_saved() -> spec_fn(CropPlot) -> Option<SavedCropPlot> {
    |p: CropPlot| saved_plot_of(p)
}

/// Saved entries of the non-soil plots, in the plots' order.
pub open spec fn saved_plots(plots: Seq<CropPlot>) -> Seq<SavedCropPlot> {
    plots.filter_map(to_saved())
}

/// Predicate: the saved entry stands on tile `(x, y)`.
pub open spec fn saved_at(x: u32, y: u32) -> spec_fn(SavedCropPlot) -> bool {
    |p: SavedCropPlot| p.tile_x == x && p.tile_y == y
}

/// Row-major tile order: by `tile_y`, then by `tile_x`.
pub open spec fn tile_order_le(a: SavedCropPlot, b: SavedCropPlot) -> bool {
    a.tile_y < b.tile_y || (a.tile_y == b.tile_y && a.tile_x <= b.tile_x)
}

pub open spec fn sorted_by_tile(s: Seq<SavedCropPlot>) -> bool {
    forall|i: int, j: int| 0 <= i < j < s.len() ==> tile_order_le(#[trigger] s[i], #[trigger] s[j])
}

/// `saved` is the capture of `plots`: the saved entries of its non-soil plots,
/// stably sorted by tile (entries on one tile keep the plots' order).
pub open spec fn is_capture_of(saved: Seq<SavedCropPlot>, plots: Seq<CropPlot>) -> bool {
    &&& saved.len() == saved_plots(plots).len()
    &&& sorted_by_tile(saved)
    &&& forall|x: u32, y: u32|
        #[trigger] saved.filter(saved_at(x, y)) == saved_plots(plots).filter(saved_at(x, y))
}

/// Stage that the first saved entry on tile `(x, y)` restores; soil where there is none.
pub open spec fn restored_of(saved: Seq<SavedCropPlot>, x: u32, y: u32) -> PlotStage {
    let here = saved.filter(saved_at(x, y));
    if here.len() == 0 {
        PlotStage::Soil
    } else {
        live_stage_of(here[0].stage)
    }
}

pub fn saved_kind(kind: CropKind) -> (k: SavedCropKind)
    ensures
        k == saved_kind_of(kind),
{
    match kind {
        CropKind::Turnip => SavedCropKind::Turnip,
        CropKind::Potato => SavedCropKind::Potato,
    }
}

pub fn live_kind(kind: SavedCropKind) -> (k: CropKind)
    ensures
        k == live_kind_of(kind),
{
    match kind {
        SavedCropKind::Turnip => CropKind::Turnip,
        SavedCropKind::Potato => CropKind::Potato,
    }
}

pub fn saved_stage(stage: PlotStage) -> (s: Option<SavedPlotStage>)
    ensures
        s == saved_stage_of(stage),
{
    match stage {
        PlotStage::Soil => None,
        PlotStage::Tilled => Some(SavedPlotStage::Tilled),
        PlotStage::Growing { crop, days, watered } => Some(
            SavedPlotStage::Growing { crop: saved_kind(crop), days, watered },
        ),
        PlotStage::Ready { crop } => Some(SavedPlotStage::Ready { crop: saved_kind(crop) }),
    }
}

pub fn live_stage(stage: SavedPlotStage) -> (s: PlotStage)
    ensures
        s == live_stage_of(stage),
{
    match stage {
        SavedPlotStage::Tilled => PlotStage::Tilled,
        SavedPlotStage::Growing { crop, days, watered } => PlotStage::Growing {
            crop: live_kind(crop),
            days,
            watered,
        },
        SavedPlotStage::Ready { crop } => PlotStage::Ready { crop: live_kind(crop) },
    }
}

fn saved_from_plot(plot: &CropPlot) -> (s: Option<SavedCropPlot>)
    ensures
        s == saved_plot_of(*plot),
{
    match saved_stage(plot.stage) {
        Some(stage) => Some(SavedCropPlot { tile_x: plot.tile_x, tile_y: plot.tile_y, stage }),
        None => None,
    }
}

fn tile_le(a: &SavedCropPlot, b: &SavedCropPlot) -> (le: bool)
    ensures
        le == tile_order_le(*a, *b),
{
    a.tile_y < b.tile_y || (a.tile_y == b.tile_y && a.tile_x <= b.tile_x)
}

/// Inserting `e` just after every entry that sorts at or before it keeps the
/// sequence sorted and appends `e` to the entries of its own tile.
proof fn lemma_sorted_insert(s: Seq<SavedCropPlot>, p: int, e: SavedCropPlot)
    requires
        sorted_by_tile(s),
        0 <= p <= s.len(),
        forall|j: int| 0 <= j < p ==> tile_order_le(#[trigger] s[j], e),
        forall|j: int| p <= j < s.len() ==> !tile_order_le(#[trigger] s[j], e),
    ensures
        sorted_by_tile(s.insert(p, e)),
        forall|x: u32, y: u32|
            #[trigger] s.insert(p, e).filter(saved_at(x, y)) == (if saved_at(x, y)(e) {
                s.filter(saved_at(x, y)).push(e)
            } else {
                s.filter(saved_at(x, y))
            }),
{
    s.insert_ensures(p, e);
    let t = s.insert(p, e);
    assert forall|i: int, j: int| 0 <= i < j < t.len() implies tile_order_le(
        #[trigger] t[i],
        #[trigger] t[j],
    ) by {
        if i < p && j < p {
            assert(t[i] == s[i] && t[j] == s[j]);
        } else if i < p && j == p {
        } else if i < p {
            assert(t[i] == s[i] && t[j] == s[j - 1]);
        } else if i == p {
            assert(t[j] == s[j - 1]);
        } else {
            assert(t[i] == s[i - 1] && t[j] == s[j - 1]);
        }
    }
    assert forall|x: u32, y: u32|
        #[trigger] s.insert(p, e).filter(saved_at(x, y)) == (if saved_at(x, y)(e) {
            s.filter(saved_at(x, y)).push(e)
        } else {
            s.filter(saved_at(x, y))
        }) by {
        let f = saved_at(x, y);
        let front = s.subrange(0, p);
        let back = s.subrange(p, s.len() as int);
        assert(s =~= front + back);
        assert(t =~= front.push(e) + back);
        Seq::filter_distributes_over_add(front.push(e), back, f);
        Seq::filter_distributes_over_add(front, back, f);
        front.lemma_filter_push(e, f);
        if f(e) {
            assert forall|k: int| 0 <= k < back.len() implies !f(#[trigger] back[k]) by {
                assert(!tile_order_le(s[p + k], e));
            }
            assert(back.all(|z: SavedCropPlot| !f(z)));
            back.lemma_all_neg_filter_empty(f);
            assert(back.filter(f) =~= Seq::<SavedCropPlot>::empty());
            assert(s.filter(f) =~= front.filter(f));
            assert(t.filter(f) =~= front.filter(f).push(e));
        } else {
            assert(t.filter(f) =~= front.filter(f) + back.filter(f));
        }
    }
}

/// Saved entries of the plots, ordered by tile row, then column.
pub fn capture_plots(plots: &[CropPlot]) -> (saved: Vec<SavedCropPlot>)
    ensures
        is_capture_of(saved@, plots@),
{
    let mut saved: Vec<SavedCropPlot> = Vec::new();
    let mut i: usize = 0;
    while i < plots.len()
        invariant
            i <= plots@.len(),
            saved@.len() == saved_plots(plots@.take(i as int)).len(),
            sorted_by_tile(saved@),
            forall|x: u32, y: u32|
                #[trigger] saved@.filter(saved_at(x, y)) == saved_plots(plots@.take(i as int)).filter(
                    saved_at(x, y),
                ),
        decreases plots@.len() - i,
    {
        proof {
            plots@.lemma_filter_map_take_succ(to_saved(), i as int);
        }
        let ghost before = saved@;
        match saved_from_plot(&plots[i]) {
            Some(entry) => {
                let mut pos = saved.len();
                while pos > 0 && !tile_le(&saved[pos - 1], &entry)
                    invariant
                        pos <= saved@.len(),
                        saved@ == before,
                        sorted_by_tile(saved@),
                        forall|j: int| pos <= j < saved@.len() ==> !tile_order_le(#[trigger] saved@[j], entry),
                    decreases pos,
                {
                    pos = pos - 1;
                }
                proof {
                    assert forall|j: int| 0 <= j < pos implies tile_order_le(#[trigger] saved@[j], entry) by {
                        assert(tile_order_le(saved@[pos - 1], entry));
                        if j < pos - 1 {
                            assert(tile_order_le(saved@[j], saved@[pos - 1]));
                        }
                    }
                    lemma_sorted_insert(saved@, pos as int, entry);
                    assert forall|x: u32, y: u32| #[trigger] saved_plots(plots@.take(i + 1)).filter(saved_at(x, y))
                        == (if saved_at(x, y)(entry) {
                            saved_plots(plots@.take(i as int)).filter(saved_at(x, y)).push(entry)
                        } else {
                            saved_plots(plots@.take(i as int)).filter(saved_at(x, y))
                        }) by {
                        assert(saved_plots(plots@.take(i + 1)) =~= saved_plots(plots@.take(i as int)).push(entry));
                        saved_plots(plots@.take(i as int)).lemma_filter_push(entry, saved_at(x, y));
                    }
                }
                saved.insert(pos, entry);
            },
            None => {
                proof {
                    assert(saved_plots(plots@.take(i + 1)) =~= saved_plots(plots@.take(i as int)));
                }
            },
        }
        i = i + 1;
    }
    proof {
        assert(plots@.take(plots@.len() as int) =~= plots@);
    }
    saved
}

/// Restore by tile coordinates only. Missing tiles are soil.
pub fn restored_stage(saved: &[SavedCropPlot], tile_x: u32, tile_y: u32) -> (stage: PlotStage)
    ensures
        stage == restored_of(saved@, tile_x, tile_y),
{
    let ghost f = saved_at(tile_x, tile_y);
    let mut i: usize = 0;
    while i < saved.len()
        invariant
            i <= saved@.len(),
            f == saved_at(tile_x, tile_y),
            saved@.take(i as int).filter(f).len() == 0,
        decreases saved@.len() - i,
    {
        let plot = saved[i];
        proof {
            saved@.take(i as int).lemma_filter_push(plot, f);
            assert(saved@.take(i + 1) =~= saved@.take(i as int).push(plot));
        }
        if plot.tile_x == tile_x && plot.tile_y == tile_y {
            proof {
                let rest = saved@.subrange(i + 1, saved@.len() as int);
                assert(saved@ =~= saved@.take(i as int) + (seq![plot] + rest));
                Seq::filter_distributes_over_add(saved@.take(i as int), seq![plot] + rest, f);
                rest.lemma_filter_prepend(plot, f);
                assert(saved@.take(i as int).filter(f) =~= Seq::<SavedCropPlot>::empty());
                assert(saved@.filter(f)[0] == plot);
            }
            return live_stage(plot.stage);
        }
        i = i + 1;
    }
    proof {
        assert(saved@.take(saved@.len() as int) =~= saved@);
    }
    PlotStage::Soil
}

/// No two saved entries share a tile.
pub open spec fn saved_tiles_distinct(saved: Seq<SavedCropPlot>) -> bool {
    forall|i: int, j: int|
        0 <= i < j < saved.len() ==> !(#[trigger] saved[i].tile_x == #[trigger] saved[j].tile_x && saved[i].tile_y
            == saved[j].tile_y)
}

/// With distinct tiles, a tile restores from the one entry on it, or as soil.
proof fn lemma_restore_by_entry(saved: Seq<SavedCropPlot>, x: u32, y: u32)
    requires
        saved_tiles_distinct(saved),
    ensures
        forall|e: SavedCropPlot|
            saved.contains(e) && e.tile_x == x && e.tile_y == y ==> restored_of(saved, x, y) == live_stage_of(
                e.stage,
            ),
        (forall|e: SavedCropPlot| saved.contains(e) ==> !(e.tile_x == x && e.tile_y == y)) ==> restored_of(
            saved,
            x,
            y,
        ) == PlotStage::Soil,
{
    broadcast use vstd::seq_lib::group_filter_ensures;

    let f = saved_at(x, y);
    let here = saved.filter(f);
    if here.len() > 0 {
        assert(f(here[0]));
        saved.lemma_filter_contains_rev(f, here[0]);
        let j = choose|j: int| 0 <= j < saved.len() && saved[j] == here[0];
        assert forall|e: SavedCropPlot| saved.contains(e) && e.tile_x == x && e.tile_y == y implies restored_of(
            saved,
            x,
            y,
        ) == live_stage_of(e.stage) by {
            let i = choose|i: int| 0 <= i < saved.len() && saved[i] == e;
            if i < j {
                assert(!(saved[i].tile_x == saved[j].tile_x && saved[i].tile_y == saved[j].tile_y));
            } else if j < i {
                assert(!(saved[j].tile_x == saved[i].tile_x && saved[j].tile_y == saved[i].tile_y));
            }
        }
    } else {
        assert forall|e: SavedCropPlot| saved.contains(e) implies !(e.tile_x == x && e.tile_y == y) by {
            let i = choose|i: int| 0 <= i < saved.len() && saved[i] == e;
            if f(saved[i]) {
                assert(here.contains(saved[i]));
            }
        }
    }
}

/// Restoring goes by tile only, never by position: a save with distinct
/// tiles restores every tile alike from any reordering of its entries.
pub proof fn lemma_restore_ignores_order(saved: Seq<SavedCropPlot>, reordered: Seq<SavedCropPlot>, x: u32, y: u32)
    requires
        saved_tiles_distinct(saved),
        reordered.to_multiset() == saved.to_multiset(),
    ensures
        restored_of(reordered, x, y) == restored_of(saved, x, y),
{
    assert forall|e: SavedCropPlot| #[trigger] saved.contains(e) <==> reordered.contains(e) by {
        vstd::seq_lib::to_multiset_contains(saved, e);
        vstd::seq_lib::to_multiset_contains(reordered, e);
    }
    assert(saved.no_duplicates()) by {
        assert forall|i: int, j: int| 0 <= i < saved.len() && 0 <= j < saved.len() && i != j implies saved[i] != saved[j] by {
            if i < j {
                assert(!(saved[i].tile_x == saved[j].tile_x && saved[i].tile_y == saved[j].tile_y));
            } else {
                assert(!(saved[j].tile_x == saved[i].tile_x && saved[j].tile_y == saved[i].tile_y));
            }
        }
    }
    saved.lemma_multiset_has_no_duplicates();
    reordered.lemma_multiset_has_no_duplicates_conv();
    assert(saved_tiles_distinct(reordered)) by {
        assert forall|i: int, j: int| 0 <= i < j < reordered.len() implies !(#[trigger] reordered[i].tile_x
            == #[trigger] reordered[j].tile_x && reordered[i].tile_y == reordered[j].tile_y) by {
            if reordered[i].tile_x == reordered[j].tile_x && reordered[i].tile_y == reordered[j].tile_y {
                assert(reordered[i] != reordered[j]);
                assert(reordered.contains(reordered[i]) && reordered.contains(reordered[j]));
                assert(saved.contains(reordered[i]) && saved.contains(reordered[j]));
                let a = choose|a: int| 0 <= a < saved.len() && saved[a] == reordered[i];
                let b = choose|b: int| 0 <= b < saved.len() && saved[b] == reordered[j];
                if a < b {
                    assert(!(saved[a].tile_x == saved[b].tile_x && saved[a].tile_y == saved[b].tile_y));
                } else {
                    assert(!(saved[b].tile_x == saved[a].tile_x && saved[b].tile_y == saved[a].tile_y));
                }
            }
        }
    }
    lemma_restore_by_entry(saved, x, y);
    lemma_restore_by_entry(reordered, x, y);
    if exists|e: SavedCropPlot| saved.contains(e) && e.tile_x == x && e.tile_y == y {
        let e = choose|e: SavedCropPlot| saved.contains(e) && e.tile_x == x && e.tile_y == y;
        assert(reordered.contains(e));
    } else {
        assert forall|e: SavedCropPlot| reordered.contains(e) implies !(e.tile_x == x && e.tile_y == y) by {
            assert(saved.contains(e));
        }
    }
}

/// A plot's stage survives saving and restoring: the saved form of any
/// non-soil stage restores to that stage.
pub proof fn lemma_stage_roundtrip(stage: PlotStage)
    ensures
        saved_stage_of(stage) matches Some(saved) ==> live_stage_of(saved) == stage,
        saved_stage_of(stage) is None <==> stage == PlotStage::Soil,
{
}

/// Filtering the saved entries by tile commutes with saving.
proof fn lemma_saved_plots_at(plots: Seq<CropPlot>, x: u32, y: u32)
    ensures
        saved_plots(plots).filter(saved_at(x, y)) == saved_plots(plots.filter(plot_at(x, y))),
    decreases plots.len(),
{
    let f = saved_at(x, y);
    let g = plot_at(x, y);
    if plots.len() > 0 {
        let rest = plots.drop_last();
        let last = plots.last();
        lemma_saved_plots_at(rest, x, y);
        let tail: Seq<SavedCropPlot> = match saved_plot_of(last) {
            Some(s) => seq![s],
            None => Seq::empty(),
        };
        assert(saved_plots(plots) == saved_plots(rest) + tail);
        Seq::filter_distributes_over_add(saved_plots(rest), tail, f);
        reveal_with_fuel(Seq::filter, 2);
        if g(last) {
            assert(plots.filter(g) == rest.filter(g).push(last));
            assert(rest.filter(g).push(last).drop_last() =~= rest.filter(g));
            assert(saved_plots(rest.filter(g).push(last)) == saved_plots(rest.filter(g)) + tail);
            assert(tail.filter(f) =~= tail);
        } else {
            assert(plots.filter(g) == rest.filter(g));
            assert(tail.filter(f) =~= Seq::<SavedCropPlot>::empty());
        }
        assert(saved_plots(plots).filter(f) =~= saved_plots(plots.filter(g)));
    } else {
        assert(saved_plots(plots).filter(f) =~= saved_plots(plots.filter(g)));
    }
}

/// With distinct tiles, at most one plot stands on any tile.
proof fn lemma_at_most_one_here(plots: Seq<CropPlot>, x: u32, y: u32)
    requires
        tiles_distinct(plots),
    ensures
        plots.filter(plot_at(x, y)).len() <= 1,
    decreases plots.len(),
{
    let g = plot_at(x, y);
    if plots.len() > 0 {
        let rest = plots.drop_last();
        let last = plots.last();
        assert(tiles_distinct(rest)) by {
            assert forall|i: int, j: int| 0 <= i < j < rest.len() implies !(
            #[trigger] rest[i].tile_x == #[trigger] rest[j].tile_x && rest[i].tile_y == rest[j].tile_y) by {
                assert(rest[i] == plots[i] && rest[j] == plots[j]);
            }
        }
        lemma_at_most_one_here(rest, x, y);
        reveal_with_fuel(Seq::filter, 2);
        if g(last) {
            assert forall|k: int| 0 <= k < rest.len() implies !g(#[trigger] rest[k]) by {
                assert(rest[k] == plots[k]);
                assert(plots[plots.len() - 1] == last);
            }
            assert(rest.all(|z: CropPlot| !g(z)));
            rest.lemma_all_neg_filter_empty(g);
        }
    }
}

/// Save, tear down and reload: on a field where no two plots share a tile,
/// restoring any tile from a capture of the field gives back that tile's
/// stage, and tiles without a plot come back as soil.
pub proof fn lemma_capture_restore_roundtrip(
    plots: Seq<CropPlot>,
    saved: Seq<SavedCropPlot>,
    x: u32,
    y: u32,
)
    requires
        tiles_distinct(plots),
        is_capture_of(saved, plots),
    ensures
        restored_of(saved, x, y) == stage_at(plots, x, y),
{
    let f = saved_at(x, y);
    let g = plot_at(x, y);
    assert(saved.filter(f) == saved_plots(plots).filter(f));
    lemma_saved_plots_at(plots, x, y);
    lemma_at_most_one_here(plots, x, y);
    let here = plots.filter(g);
    if here.len() == 1 {
        let q = here[0];
        assert(here.drop_last() =~= Seq::<CropPlot>::empty());
        assert(saved_plots(here.drop_last()) =~= Seq::<SavedCropPlot>::empty());
        lemma_stage_roundtrip(q.stage);
    } else {
        assert(here.len() == 0);
        assert(saved_plots(here) =~= Seq::<SavedCropPlot>::empty());
    }
}

} // verus!
