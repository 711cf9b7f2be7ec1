//! Crafting the forge's selected recipe.

use vstd::prelude::*;

use crate::items::{covers, remove_in_order, Inventory, MaterialId};
use crate::loadout::{wears, with_piece, ArmorKind, Loadout};

use super::recipe::{required_weapon_of, ForgeRecipe, ForgeRecipeBook, RecipeOutput};

verus! {

#[derive(Clone, Copy, Debug, PartialEq, Eq, Structural)]
pub enum CraftResult {
    Success,
    MissingMaterials,
    MissingWeapon,
    AlreadyOwned,
}

/// The loadout already has what the recipe makes.
pub open spec fn owns_output(output: RecipeOutput, loadout: Loadout) -> bool {
    match output {
        RecipeOutput::Weapon(weapon) => loadout.weapon == weapon,
        RecipeOutput::Armor(armor) => wears(loadout.armor, armor),
    }
}

/// The loadout with what the recipe makes equipped.
pub open spec fn equipped_with(output: RecipeOutput, loadout: Loadout) -> Loadout {
    match output {
        RecipeOutput::Weapon(weapon) => Loadout { weapon, ..loadout },
        RecipeOutput::Armor(armor) => Loadout { armor: with_piece(loadout.armor, armor), ..loadout },
    }
}

/// What forging a recipe does to the inventory and loadout, and its result.
pub open spec fn forge_outcome(
    recipe: ForgeRecipe,
    counts: Map<MaterialId, nat>,
    loadout: Loadout,
    result: CraftResult,
    counts_after: Map<MaterialId, nat>,
    loadout_after: Loadout,
) -> bool {
    if owns_output(recipe.output, loadout) {
        result == CraftResult::AlreadyOwned && counts_after == counts && loadout_after == loadout
    } else if required_weapon_of(recipe.output) matches Some(w) && loadout.weapon != w {
        result == CraftResult::MissingWeapon && counts_after == counts && loadout_after == loadout
    } else if !covers(counts, recipe.materials@) {
        result == CraftResult::MissingMaterials && counts_after == counts && loadout_after == loadout
    } else {
        &&& result == CraftResult::Success
        &&& counts_after == remove_in_order(counts, recipe.materials@).0
        &&& loadout_after == equipped_with(recipe.output, loadout)
    }
}

/// Forging never makes what the loadout already has: a recipe for a weapon
/// already equipped or a piece already worn is refused as already owned and
/// changes nothing, so forging a recipe right after it succeeded is refused.
/// A forged piece is worn afterwards, every other piece and the weapon as
/// they were; a forged weapon is equipped, the armor kept.
pub proof fn lemma_forge_refuses_what_is_owned(
    recipe: ForgeRecipe,
    counts: Map<MaterialId, nat>,
    loadout: Loadout,
    result: CraftResult,
    counts_after: Map<MaterialId, nat>,
    loadout_after: Loadout,
    result_again: CraftResult,
    counts_again: Map<MaterialId, nat>,
    loadout_again: Loadout,
    other: ArmorKind,
)
    requires
        forge_outcome(recipe, counts, loadout, result, counts_after, loadout_after),
    ensures
        recipe.output matches RecipeOutput::Armor(a) && wears(loadout.armor, a) ==> result == CraftResult::AlreadyOwned
            && counts_after == counts && loadout_after == loadout,
        recipe.output matches RecipeOutput::Weapon(w) && loadout.weapon == w ==> result == CraftResult::AlreadyOwned
            && counts_after == counts && loadout_after == loadout,
        result == CraftResult::Success ==> (recipe.output matches RecipeOutput::Armor(a) ==> wears(loadout_after.armor, a)
            && (other != a ==> wears(loadout_after.armor, other) == wears(loadout.armor, other))
            && loadout_after.weapon == loadout.weapon),
        result == CraftResult::Success ==> (recipe.output matches RecipeOutput::Weapon(w) ==> loadout_after.weapon == w
            && loadout_after.armor == loadout.armor),
        result == CraftResult::Success && forge_outcome(recipe, counts_after, loadout_after, result_again, counts_again, loadout_again)
            ==> result_again == CraftResult::AlreadyOwned && counts_again == counts_after && loadout_again == loadout_after,
{
    match recipe.output {
        RecipeOutput::Armor(a) => {
            crate::loadout::lemma_put_on_piece(loadout.armor, a, other);
        },
        RecipeOutput::Weapon(_) => {},
    }
}

pub fn try_craft_selected_recipe(
    recipe_book: &ForgeRecipeBook,
    inventory: &mut Inventory,
    loadout: &mut Loadout,
) -> (result: CraftResult)
    ensures
        recipe_book.selected_index >= recipe_book.recipes@.len() ==> result
            == CraftResult::MissingMaterials && final(inventory)@ == old(inventory)@ && *final(loadout)
            == *old(loadout),
        recipe_book.selected_index < recipe_book.recipes@.len() ==> forge_outcome(
            recipe_book.recipes@[recipe_book.selected_index as int],
            old(inventory)@,
            *old(loadout),
            result,
            final(inventory)@,
            *final(loadout),
        ),
{
    let recipe = match recipe_book.selected_recipe() {
        Some(recipe) => recipe,
        None => {
            return CraftResult::MissingMaterials;
        },
    };
    if recipe_already_owned(recipe.output, loadout) {
        return CraftResult::AlreadyOwned;
    }
    if let Some(required_weapon) = recipe.required_weapon() {
        if loadout.weapon != required_weapon {
            return CraftResult::MissingWeapon;
        }
    }
    if !inventory.has_materials(recipe.materials) {
        return CraftResult::MissingMaterials;
    }
    inventory.remove_costs(recipe.materials);
    apply_recipe_output(recipe.output, loadout);
    CraftResult::Success
}

fn recipe_already_owned(output: RecipeOutput, loadout: &Loadout) -> (owned: bool)
    ensures
        owned == owns_output(output, *loadout),
{
    match output {
        RecipeOutput::Weapon(weapon) => loadout.owns_weapon(weapon),
        RecipeOutput::Armor(armor) => loadout.owns_armor(armor),
    }
}

fn apply_recipe_output(output: RecipeOutput, loadout: &mut Loadout)
    ensures
        *final(loadout) == equipped_with(output, *old(loadout)),
{
    match output {
        RecipeOutput::Weapon(weapon) => loadout.equip_weapon(weapon),
        RecipeOutput::Armor(armor) => loadout.equip_armor(armor),
    }
}

} // verus!
