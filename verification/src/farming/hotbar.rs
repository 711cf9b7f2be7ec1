//! Homestead quickbar: five slots filled by dragging inventory items.

use vstd::prelude::*;

use crate::items::{display_name_of, short_label_of, MaterialId};

verus! {

pub const HOTBAR_SLOT_COUNT: usize = 5;

/// Inventory item assigned to a hotbar slot (or empty).
#[derive(Clone, Copy, Debug, PartialEq, Eq, Structural)]
pub enum HotbarEntry {
    Empty,
    Item(MaterialId),
}

pub open spec fn entry_material(entry: HotbarEntry) -> Option<MaterialId> {
    match entry {
        HotbarEntry::Empty => None,
        HotbarEntry::Item(m) => Some(m),
    }
}

pub open spec fn entry_label(entry: HotbarEntry) -> Seq<char> {
    match entry {
        HotbarEntry::Empty => "Empty"@,
        HotbarEntry::Item(m) => display_name_of(m),
    }
}

pub open spec fn entry_short_label(entry: HotbarEntry) -> Seq<char> {
    match entry {
        HotbarEntry::Empty => "—"@,
        HotbarEntry::Item(m) => short_label_of(m),
    }
}

impl Default for HotbarEntry {
    fn default() -> (e: Self)
        ensures
            e == HotbarEntry::Empty,
    {
        HotbarEntry::Empty
    }
}

impl HotbarEntry {
    pub fn material(self) -> (m: Option<MaterialId>)
        ensures
            m == entry_material(self),
    {
        match self {
            Self::Empty => None,
            Self::Item(m) => Some(m),
        }
    }

    pub fn label(self) -> (s: String)
        ensures
            s@ == entry_label(self),
    {
        match self {
            Self::Empty => "Empty".to_string(),
            Self::Item(material) => material.display_name().to_string(),
        }
    }

    pub fn short_label(self) -> (s: &'static str)
        ensures
            s@ == entry_short_label(self),
    {
        match self {
            Self::Empty => "—",
            Self::Item(material) => material.short_label(),
        }
    }
}

/// Bottom quickbar for the overworld. Starts empty; the player assigns slots.
#[derive(Clone, Copy, Debug, PartialEq, Eq)]
pub struct HomesteadHotbar {
    pub slots: [HotbarEntry; HOTBAR_SLOT_COUNT],
    /// Selected slot (highlighted): the active action.
    pub selected: usize,
}

impl Default for HomesteadHotbar {
    fn default() -> (bar: Self)
        ensures
            forall|i: int| 0 <= i < HOTBAR_SLOT_COUNT ==> bar.slots@[i] == HotbarEntry::Empty,
            bar.selected == 0,
    {
        HomesteadHotbar { slots: [HotbarEntry::Empty; HOTBAR_SLOT_COUNT], selected: 0 }
    }
}

impl HomesteadHotbar {
    /// Entry of the selected slot; a selection past the end reads the last slot.
    pub fn selected_entry(&self) -> (e: HotbarEntry)
        ensures
            e == self.slots@[if self.selected < HOTBAR_SLOT_COUNT {
                self.selected as int
            } else {
                HOTBAR_SLOT_COUNT - 1
            }],
    {
        let index = if self.selected < HOTBAR_SLOT_COUNT - 1 {
            self.selected
        } else {
            HOTBAR_SLOT_COUNT - 1
        };
        self.slots[index]
    }

    pub fn select(&mut self, index: usize)
        ensures
            index < HOTBAR_SLOT_COUNT ==> *final(self) == (HomesteadHotbar { selected: index, ..*old(self) }),
            index >= HOTBAR_SLOT_COUNT ==> *final(self) == *old(self),
    {
        if index < HOTBAR_SLOT_COUNT {
            self.selected = index;
        }
    }

    /// Puts `material` in slot `index` and selects that slot.
    pub fn assign(&mut self, index: usize, material: MaterialId)
        ensures
            index < HOTBAR_SLOT_COUNT ==> final(self).slots@ == old(self).slots@.update(
                index as int,
                HotbarEntry::Item(material),
            ) && final(self).selected == index,
            index >= HOTBAR_SLOT_COUNT ==> *final(self) == *old(self),
    {
        if index < HOTBAR_SLOT_COUNT {
            self.slots[index] = HotbarEntry::Item(material);
            self.selected = index;
        }
    }

    pub fn clear_slot(&mut self, index: usize)
        ensures
            index < HOTBAR_SLOT_COUNT ==> final(self).slots@ == old(self).slots@.update(
                index as int,
                HotbarEntry::Empty,
            ) && final(self).selected == old(self).selected,
            index >= HOTBAR_SLOT_COUNT ==> *final(self) == *old(self),
    {
        if index < HOTBAR_SLOT_COUNT {
            self.slots[index] = HotbarEntry::Empty;
        }
    }
}

} // verus!
