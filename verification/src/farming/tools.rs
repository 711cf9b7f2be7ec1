//! Homestead tools. Equip with keys 1–4.

use vstd::prelude::*;

use crate::items::MaterialId;

use super::crops::CropKind;

verus! {

#[derive(Clone, Copy, Debug, PartialEq, Eq, Hash, Structural)]
pub enum HomesteadTool {
    Hoe,
    WateringCan,
    /// Plant first available seed type in inventory (turnip, then potato).
    Seeds,
    Hand,
}

pub open spec fn tool_name(tool: HomesteadTool) -> Seq<char> {
    match tool {
        HomesteadTool::Hoe => "Hoe"@,
        HomesteadTool::WateringCan => "Watering Can"@,
        HomesteadTool::Seeds => "Seeds"@,
        HomesteadTool::Hand => "Hand"@,
    }
}

pub open spec fn tool_hotkey(tool: HomesteadTool) -> Seq<char> {
    match tool {
        HomesteadTool::Hoe => "1"@,
        HomesteadTool::WateringCan => "2"@,
        HomesteadTool::Seeds => "3"@,
        HomesteadTool::Hand => "4"@,
    }
}

impl HomesteadTool {
    /// Every tool, in hotkey order.
    pub const ALL: [HomesteadTool; 4] = [
        HomesteadTool::Hoe,
        HomesteadTool::WateringCan,
        HomesteadTool::Seeds,
        HomesteadTool::Hand,
    ];

    pub fn label(self) -> (s: &'static str)
        ensures
            s@ == tool_name(self),
    {
        match self {
            Self::Hoe => "Hoe",
            Self::WateringCan => "Watering Can",
            Self::Seeds => "Seeds",
            Self::Hand => "Hand",
        }
    }

    /// The tool on digit key `digit` (1 to 4, top row or keypad).
    pub fn from_digit(digit: u8) -> (tool: Option<Self>)
        ensures
            digit == 1 ==> tool == Some(HomesteadTool::Hoe),
            digit == 2 ==> tool == Some(HomesteadTool::WateringCan),
            digit == 3 ==> tool == Some(HomesteadTool::Seeds),
            digit == 4 ==> tool == Some(HomesteadTool::Hand),
            !(1 <= digit <= 4) ==> tool is None,
    {
        match digit {
            1 => Some(Self::Hoe),
            2 => Some(Self::WateringCan),
            3 => Some(Self::Seeds),
            4 => Some(Self::Hand),
            _ => None,
        }
    }

    pub fn hotkey(self) -> (s: &'static str)
        ensures
            s@ == tool_hotkey(self),
    {
        match self {
            Self::Hoe => "1",
            Self::WateringCan => "2",
            Self::Seeds => "3",
            Self::Hand => "4",
        }
    }
}

impl Default for HomesteadTool {
    fn default() -> (t: Self)
        ensures
            t == HomesteadTool::Hoe,
    {
        HomesteadTool::Hoe
    }
}

/// Currently equipped homestead tool.
#[derive(Clone, Copy, Debug, PartialEq, Eq, Structural)]
pub struct EquippedTool(pub HomesteadTool);

/// Prefer turnip seeds, then potato.
pub fn first_available_seed_crop(has: impl Fn(MaterialId) -> bool) -> (crop: Option<CropKind>)
    requires
        call_requires(has, (MaterialId::TurnipSeed,)),
        call_requires(has, (MaterialId::PotatoSeed,)),
    ensures
        crop == Some(CropKind::Turnip) ==> call_ensures(has, (MaterialId::TurnipSeed,), true),
        crop == Some(CropKind::Potato) ==> call_ensures(has, (MaterialId::TurnipSeed,), false)
            && call_ensures(has, (MaterialId::PotatoSeed,), true),
        crop is None ==> call_ensures(has, (MaterialId::TurnipSeed,), false) && call_ensures(
            has,
            (MaterialId::PotatoSeed,),
            false,
        ),
{
    if has(MaterialId::TurnipSeed) {
        Some(CropKind::Turnip)
    } else if has(MaterialId::PotatoSeed) {
        Some(CropKind::Potato)
    } else {
        None
    }
}

} // verus!
