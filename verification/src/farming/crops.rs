//! Crop kinds and the life of a single plot: soil, tilled, growing, ready.

use vstd::prelude::*;

use crate::items::MaterialId;

verus! {

#[derive(Clone, Copy, Debug, PartialEq, Eq, Hash, Structural)]
pub enum CropKind {
    Turnip,
    Potato,
}

/// Nights of watered growth a crop needs before it can be harvested.
pub open spec fn maturity_days(crop: CropKind) -> u8 {
    match crop {
        CropKind::Turnip => 2,
        CropKind::Potato => 3,
    }
}

pub open spec fn seed_of(crop: CropKind) -> MaterialId {
    match crop {
        CropKind::Turnip => MaterialId::TurnipSeed,
        CropKind::Potato => MaterialId::PotatoSeed,
    }
}

pub open spec fn produce_of(crop: CropKind) -> MaterialId {
    match crop {
        CropKind::Turnip => MaterialId::Turnip,
        CropKind::Potato => MaterialId::Potato,
    }
}

pub open spec fn crop_name(crop: CropKind) -> Seq<char> {
    match crop {
        CropKind::Turnip => "Turnip"@,
        CropKind::Potato => "Potato"@,
    }
}

/// The crop a seed material grows into.
pub open spec fn crop_from_seed(material: MaterialId) -> Option<CropKind> {
    match material {
        MaterialId::TurnipSeed => Some(CropKind::Turnip),
        MaterialId::PotatoSeed => Some(CropKind::Potato),
        _ => None,
    }
}

impl CropKind {
    pub fn seed_material(self) -> (m: MaterialId)
        ensures
            m == seed_of(self),
    {
        match self {
            Self::Turnip => MaterialId::TurnipSeed,
            Self::Potato => MaterialId::PotatoSeed,
        }
    }

    pub fn harvest_material(self) -> (m: MaterialId)
        ensures
            m == produce_of(self),
    {
        match self {
            Self::Turnip => MaterialId::Turnip,
            Self::Potato => MaterialId::Potato,
        }
    }

    pub fn days_to_mature(self) -> (days: u8)
        ensures
            days == maturity_days(self),
    {
        match self {
            Self::Turnip => 2,
            Self::Potato => 3,
        }
    }

    pub fn label(self) -> (s: &'static str)
        ensures
            s@ == crop_name(self),
    {
        match self {
            Self::Turnip => "Turnip",
            Self::Potato => "Potato",
        }
    }

    pub fn from_seed(material: MaterialId) -> (crop: Option<Self>)
        ensures
            crop == crop_from_seed(material),
    {
        match material {
            MaterialId::TurnipSeed => Some(Self::Turnip),
            MaterialId::PotatoSeed => Some(Self::Potato),
            _ => None,
        }
    }
}

#[derive(Clone, Copy, Debug, PartialEq, Eq, Structural)]
pub enum PlotStage {
    /// Untilled soil.
    Soil,
    /// Ready for seeds.
    Tilled,
    /// Growing crop (needs water each day to advance on sleep).
    Growing { crop: CropKind, days: u8, watered: bool },
    /// Ready to harvest.
    Ready { crop: CropKind },
}

impl Default for PlotStage {
    fn default() -> (s: Self)
        ensures
            s == PlotStage::Soil,
    {
        Self::Soil
    }
}

pub open spec fn hint_of(stage: PlotStage) -> Seq<char> {
    match stage {
        PlotStage::Soil => "untilled"@,
        PlotStage::Tilled => "tilled — plant seeds"@,
        PlotStage::Growing { watered: true, .. } => "growing (watered)"@,
        PlotStage::Growing { watered: false, .. } => "growing — needs water"@,
        PlotStage::Ready { .. } => "ready to harvest"@,
    }
}

impl PlotStage {
    pub fn display_hint(self) -> (s: &'static str)
        ensures
            s@ == hint_of(self),
    {
        match self {
            Self::Soil => "untilled",
            Self::Tilled => "tilled — plant seeds",
            Self::Growing { watered: true, .. } => "growing (watered)",
            Self::Growing { watered: false, .. } => "growing — needs water",
            Self::Ready { .. } => "ready to harvest",
        }
    }
}

/// Result of applying a farm action to a plot.
#[derive(Clone, Debug, PartialEq, Eq)]
pub enum FarmActionResult {
    Tilled,
    Planted(CropKind),
    Watered,
    Harvested { crop: CropKind, amount: u32 },
    Failed(&'static str),
}

/// `r` is a failure carrying the message `text`.
pub open spec fn failed_with(r: FarmActionResult, text: Seq<char>) -> bool {
    r matches FarmActionResult::Failed(msg) && msg@ == text
}

pub fn till_plot(stage: PlotStage) -> (out: (PlotStage, FarmActionResult))
    ensures
        stage is Soil ==> out.0 == PlotStage::Tilled && out.1 == FarmActionResult::Tilled,
        !(stage is Soil) ==> out.0 == stage && failed_with(out.1, "already worked soil"@),
{
    match stage {
        PlotStage::Soil => (PlotStage::Tilled, FarmActionResult::Tilled),
        _ => (stage, FarmActionResult::Failed("already worked soil")),
    }
}

pub fn plant_plot(stage: PlotStage, crop: CropKind) -> (out: (PlotStage, FarmActionResult))
    ensures
        stage is Tilled ==> out.0 == (PlotStage::Growing { crop, days: 0, watered: false })
            && out.1 == FarmActionResult::Planted(crop),
        !(stage is Tilled) ==> out.0 == stage && failed_with(out.1, "till before planting"@),
{
    match stage {
        PlotStage::Tilled => (
            PlotStage::Growing { crop, days: 0, watered: false },
            FarmActionResult::Planted(crop),
        ),
        _ => (stage, FarmActionResult::Failed("till before planting")),
    }
}

/// The stage after watering: an unwatered crop becomes watered; nothing else
/// changes.
pub open spec fn watered(stage: PlotStage) -> PlotStage {
    match stage {
        PlotStage::Growing { crop, days, watered: false } => PlotStage::Growing { crop, days, watered: true },
        _ => stage,
    }
}

pub fn water_plot(stage: PlotStage) -> (out: (PlotStage, FarmActionResult))
    ensures
        out.0 == watered(stage),
        stage matches PlotStage::Growing { crop, days, watered: false } ==> out.0 == (
        PlotStage::Growing { crop, days, watered: true }) && out.1 == FarmActionResult::Watered,
        stage matches PlotStage::Growing { watered: true, .. } ==> out.0 == stage && failed_with(
            out.1,
            "already watered today"@,
        ),
        !(stage is Growing) ==> out.0 == stage && failed_with(out.1, "nothing to water"@),
{
    match stage {
        PlotStage::Growing { crop, days, watered: false } => (
            PlotStage::Growing { crop, days, watered: true },
            FarmActionResult::Watered,
        ),
        PlotStage::Growing { watered: true, .. } => (
            stage,
            FarmActionResult::Failed("already watered today"),
        ),
        _ => (stage, FarmActionResult::Failed("nothing to water")),
    }
}

pub fn harvest_plot(stage: PlotStage) -> (out: (PlotStage, FarmActionResult))
    ensures
        stage matches PlotStage::Ready { crop } ==> out.0 == PlotStage::Soil && out.1 == (
        FarmActionResult::Harvested { crop, amount: 1 }),
        !(stage is Ready) ==> out.0 == stage && failed_with(out.1, "not ready to harvest"@),
{
    match stage {
        PlotStage::Ready { crop } => (
            PlotStage::Soil,
            FarmActionResult::Harvested { crop, amount: 1 },
        ),
        _ => (stage, FarmActionResult::Failed("not ready to harvest")),
    }
}

/// The stage a plot reaches overnight: a watered crop gains a day (and is
/// ready once it has grown its full days), an unwatered crop waits, and the
/// day's watering is used up; other stages stay as they are.
pub open spec fn next_day(stage: PlotStage) -> PlotStage {
    match stage {
        PlotStage::Growing { crop, days, watered: true } => {
            let grown = if days < 255 { (days + 1) as u8 } else { 255u8 };
            if grown >= maturity_days(crop) {
                PlotStage::Ready { crop }
            } else {
                PlotStage::Growing { crop, days: grown, watered: false }
            }
        },
        _ => stage,
    }
}

/// Night growth tick: watered crops gain a day; mature becomes ready; water resets.
pub fn advance_plot_day(stage: PlotStage) -> (next: PlotStage)
    ensures
        next == next_day(stage),
{
    match stage {
        PlotStage::Growing { crop, days, watered: true } => {
            let next_days = days.saturating_add(1);
            if next_days >= crop.days_to_mature() {
                PlotStage::Ready { crop }
            } else {
                PlotStage::Growing { crop, days: next_days, watered: false }
            }
        },
        PlotStage::Growing { crop, days, watered: false } => PlotStage::Growing {
            crop,
            days,
            watered: false,
        },
        other => other,
    }
}

/// The stage after `days` days of watering the plot and sleeping.
pub open spec fn tended(stage: PlotStage, days: nat) -> PlotStage
    decreases days,
{
    if days == 0 {
        stage
    } else {
        tended(next_day(watered(stage)), (days - 1) as nat)
    }
}

/// The stage after `nights` nights with no watering.
pub open spec fn left_alone(stage: PlotStage, nights: nat) -> PlotStage
    decreases nights,
{
    if nights == 0 {
        stage
    } else {
        left_alone(next_day(stage), (nights - 1) as nat)
    }
}

proof fn lemma_ready_stays(crop: CropKind, days: nat)
    ensures
        tended(PlotStage::Ready { crop }, days) == (PlotStage::Ready { crop }),
    decreases days,
{
    if days > 0 {
        lemma_ready_stays(crop, (days - 1) as nat);
    }
}

proof fn lemma_tended_from(crop: CropKind, start: nat, days: nat)
    requires
        start < maturity_days(crop),
        start + days <= maturity_days(crop),
    ensures
        start + days < maturity_days(crop) ==> tended(PlotStage::Growing { crop, days: start as u8, watered: false }, days)
            == (PlotStage::Growing { crop, days: (start + days) as u8, watered: false }),
        start + days == maturity_days(crop) ==> tended(PlotStage::Growing { crop, days: start as u8, watered: false }, days)
            == (PlotStage::Ready { crop }),
    decreases days,
{
    if days > 0 {
        if start + 1 < maturity_days(crop) {
            lemma_tended_from(crop, start + 1, (days - 1) as nat);
        } else {
            lemma_ready_stays(crop, (days - 1) as nat);
        }
    }
}

/// A newly planted crop that is watered every day is still growing, with one
/// more day each night, until its days to mature have passed; on that morning
/// it is ready to harvest, and it stays ready.
pub proof fn lemma_daily_watering_ripens(crop: CropKind, days: nat)
    ensures
        days < maturity_days(crop) ==> tended(PlotStage::Growing { crop, days: 0, watered: false }, days) == (
        PlotStage::Growing { crop, days: days as u8, watered: false }),
        days >= maturity_days(crop) ==> tended(PlotStage::Growing { crop, days: 0, watered: false }, days) == (
        PlotStage::Ready { crop }),
    decreases days,
{
    let m = maturity_days(crop) as nat;
    if days <= m {
        lemma_tended_from(crop, 0, days);
    } else {
        lemma_daily_watering_ripens(crop, (days - 1) as nat);
        lemma_tended_split(PlotStage::Growing { crop, days: 0, watered: false }, (days - 1) as nat);
        lemma_ready_stays(crop, 1);
    }
}

proof fn lemma_tended_split(stage: PlotStage, days: nat)
    ensures
        tended(stage, days + 1) == tended(tended(stage, days), 1),
    decreases days,
{
    if days > 0 {
        lemma_tended_split(next_day(watered(stage)), (days - 1) as nat);
    }
}

/// A plot nobody waters does not change, however many nights pass; in
/// particular an unwatered crop does not grow.
pub proof fn lemma_unwatered_plot_waits(stage: PlotStage, nights: nat)
    requires
        !(stage matches PlotStage::Growing { watered: true, .. }),
    ensures
        left_alone(stage, nights) == stage,
    decreases nights,
{
    if nights > 0 {
        lemma_unwatered_plot_waits(stage, (nights - 1) as nat);
    }
}

} // verus!
