//! The forge's fixed recipe list and which recipe is selected.

use vstd::prelude::*;

use crate::items::MaterialId;
use crate::loadout::{consumed_by_upgrade, ArmorKind, WeaponKind, WeaponUpgradeTree};

verus! {

#[derive(Clone, Copy, Debug, PartialEq, Eq, Structural)]
pub enum RecipeOutput {
    Weapon(WeaponKind),
    Armor(ArmorKind),
}

#[derive(Clone, Copy, Debug)]
pub struct ForgeRecipe {
    pub name: &'static str,
    pub materials: &'static [(MaterialId, u32)],
    pub output: RecipeOutput,
}

/// The weapon that must be equipped to forge `output`: the one it upgrades.
pub open spec fn required_weapon_of(output: RecipeOutput) -> Option<WeaponKind> {
    match output {
        RecipeOutput::Weapon(weapon) => consumed_by_upgrade(weapon),
        RecipeOutput::Armor(_) => None,
    }
}

impl ForgeRecipe {
    pub fn required_weapon(&self) -> (w: Option<WeaponKind>)
        ensures
            w == required_weapon_of(self.output),
    {
        match self.output {
            RecipeOutput::Weapon(weapon) => WeaponUpgradeTree::consumes_weapon(weapon),
            RecipeOutput::Armor(_) => None,
        }
    }
}

pub struct ForgeRecipeBook {
    pub recipes: Vec<ForgeRecipe>,
    pub selected_index: usize,
}

/// Outputs of the standard forge recipes, in menu order.
pub open spec fn standard_outputs() -> Seq<RecipeOutput> {
    seq![
        RecipeOutput::Weapon(WeaponKind::IronSword),
        RecipeOutput::Weapon(WeaponKind::SlimeBlade),
        RecipeOutput::Weapon(WeaponKind::RustySpear),
        RecipeOutput::Armor(ArmorKind::SlimeHelm),
        RecipeOutput::Armor(ArmorKind::SlimeMail),
        RecipeOutput::Armor(ArmorKind::SlimeGauntlets),
        RecipeOutput::Armor(ArmorKind::SlimeGreaves),
    ]
}

impl Default for ForgeRecipeBook {
    fn default() -> (book: Self)
        ensures
            book.recipes@.len() == 7,
            forall|i: int| 0 <= i < 7 ==> #[trigger] book.recipes@[i].output == standard_outputs()[i],
            book.recipes@[0].materials@ == seq![(MaterialId::SlimeGel, 5u32), (MaterialId::IronScrap, 3u32)],
            book.recipes@[1].materials@ == seq![(MaterialId::SlimeCore, 2u32)],
            book.recipes@[2].materials@ == seq![(MaterialId::SlimeGel, 3u32), (MaterialId::Fang, 2u32)],
            book.recipes@[3].materials@ == seq![(MaterialId::SlimeGel, 4u32)],
            book.recipes@[4].materials@ == seq![(MaterialId::SlimeGel, 6u32), (MaterialId::SlimeCore, 1u32)],
            book.recipes@[5].materials@ == seq![(MaterialId::SlimeGel, 3u32)],
            book.recipes@[6].materials@ == seq![(MaterialId::SlimeGel, 4u32)],
            book.selected_index == 0,
    {
        let mut recipes: Vec<ForgeRecipe> = Vec::new();
        recipes.push(ForgeRecipe {
            name: "Iron Sword",
            materials: &[(MaterialId::SlimeGel, 5), (MaterialId::IronScrap, 3)],
            output: RecipeOutput::Weapon(WeaponKind::IronSword),
        });
        recipes.push(ForgeRecipe {
            name: "Slime Blade",
            materials: &[(MaterialId::SlimeCore, 2)],
            output: RecipeOutput::Weapon(WeaponKind::SlimeBlade),
        });
        recipes.push(ForgeRecipe {
            name: "Rusty Spear",
            materials: &[(MaterialId::SlimeGel, 3), (MaterialId::Fang, 2)],
            output: RecipeOutput::Weapon(WeaponKind::RustySpear),
        });
        recipes.push(ForgeRecipe {
            name: "Slime Helm",
            materials: &[(MaterialId::SlimeGel, 4)],
            output: RecipeOutput::Armor(ArmorKind::SlimeHelm),
        });
        recipes.push(ForgeRecipe {
            name: "Slime Mail",
            materials: &[(MaterialId::SlimeGel, 6), (MaterialId::SlimeCore, 1)],
            output: RecipeOutput::Armor(ArmorKind::SlimeMail),
        });
        recipes.push(ForgeRecipe {
            name: "Slime Gauntlets",
            materials: &[(MaterialId::SlimeGel, 3)],
            output: RecipeOutput::Armor(ArmorKind::SlimeGauntlets),
        });
        recipes.push(ForgeRecipe {
            name: "Slime Greaves",
            materials: &[(MaterialId::SlimeGel, 4)],
            output: RecipeOutput::Armor(ArmorKind::SlimeGreaves),
        });
        ForgeRecipeBook { recipes, selected_index: 0 }
    }
}

/// Selection after stepping forward through `len` recipes (wrapping).
pub open spec fn next_selection(index: int, len: int) -> int {
    if len == 0 { index } else { (index + 1) % len }
}

/// Selection after stepping back through `len` recipes (wrapping).
pub open spec fn previous_selection(index: int, len: int) -> int {
    if len == 0 { index } else if index == 0 { len - 1 } else { index - 1 }
}

/// Stepping forward then back, or back then forward, returns to the same
/// recipe, and a valid selection stays valid.
pub proof fn lemma_selection_steps_undo(index: int, len: int)
    requires
        0 <= index < len,
    ensures
        0 <= next_selection(index, len) < len,
        0 <= previous_selection(index, len) < len,
        previous_selection(next_selection(index, len), len) == index,
        next_selection(previous_selection(index, len), len) == index,
{
    if index + 1 < len {
        vstd::arithmetic::div_mod::lemma_small_mod((index + 1) as nat, len as nat);
    } else {
        vstd::arithmetic::div_mod::lemma_mod_self_0(len);
    }
    if index == 0 {
        vstd::arithmetic::div_mod::lemma_mod_self_0(len);
    } else {
        vstd::arithmetic::div_mod::lemma_small_mod(index as nat, len as nat);
    }
}

impl ForgeRecipeBook {
    pub fn selected_recipe(&self) -> (r: Option<&ForgeRecipe>)
        ensures
            self.selected_index < self.recipes@.len() ==> r == Some(&self.recipes@[self.selected_index as int]),
            self.selected_index >= self.recipes@.len() ==> r is None,
    {
        if self.selected_index < self.recipes.len() {
            Some(&self.recipes[self.selected_index])
        } else {
            None
        }
    }

    /// Selects the next recipe, wrapping to the first after the last.
    pub fn select_next(&mut self)
        requires
            old(self).recipes@.len() == 0 || old(self).selected_index < usize::MAX,
        ensures
            final(self).recipes == old(self).recipes,
            final(self).selected_index == next_selection(old(self).selected_index as int, old(self).recipes@.len() as int),
    {
        if self.recipes.len() == 0 {
            return;
        }
        self.selected_index = (self.selected_index + 1) % self.recipes.len();
    }

    /// Selects the previous recipe, wrapping to the last before the first.
    pub fn select_previous(&mut self)
        ensures
            final(self).recipes == old(self).recipes,
            final(self).selected_index == previous_selection(old(self).selected_index as int, old(self).recipes@.len() as int),
    {
        if self.recipes.len() == 0 {
            return;
        }
        if self.selected_index == 0 {
            self.selected_index = self.recipes.len() - 1;
        } else {
            self.selected_index = self.selected_index - 1;
        }
    }
}

} // verus!
