//! Forge recipes: what they cost, what they need equipped, and crafting them.

use vstd::prelude::*;

use crate::items::{
    added, cost_total, covers, display_name_of, lemma_add_back, lemma_counts_bounded,
    lemma_counts_total, lemma_distinct_costs_removable, lemma_removed_totals, materials_distinct,
    remove_in_order, total_table, Inventory, MaterialId, MAX_STACK,
};
use crate::loadout::{wears, with_piece, ArmorKind, Loadout, WeaponKind};
use crate::text::{decimal, decimal_text, joined};

verus! {

#[derive(Clone, Copy, Debug, PartialEq, Eq, Structural)]
pub enum RecipeOutput {
    Weapon(WeaponKind),
    Armor(ArmorKind),
    /// Tool or stackable material added to inventory.
    Item(MaterialId),
}

#[derive(Clone, Debug, PartialEq, Eq)]
pub struct Recipe {
    pub name: String,
    pub costs: Vec<(MaterialId, u32)>,
    pub output: RecipeOutput,
    pub requires_weapon: Option<WeaponKind>,
}

/// Runtime recipe list.
#[derive(Clone, Debug)]
pub struct RecipeBook {
    pub recipes: Vec<Recipe>,
}

impl RecipeBook {
    pub fn get(&self, index: usize) -> (r: Option<&Recipe>)
        ensures
            index < self.recipes@.len() ==> r == Some(&self.recipes@[index as int]),
            index >= self.recipes@.len() ==> r is None,
    {
        if index < self.recipes.len() {
            Some(&self.recipes[index])
        } else {
            None
        }
    }

    pub fn len(&self) -> (n: usize)
        ensures
            n == self.recipes@.len(),
    {
        self.recipes.len()
    }

    pub fn is_empty(&self) -> (empty: bool)
        ensures
            empty == (self.recipes@.len() == 0),
    {
        self.recipes.len() == 0
    }
}

pub open spec fn set_bonus_hint(output: RecipeOutput) -> Option<Seq<char>> {
    match output {
        RecipeOutput::Armor(_) => Some(
            "Set: 2pc +10% carve & −10% special CD · 4pc 35% KB resist & +10% attack"@,
        ),
        RecipeOutput::Item(MaterialId::Pickaxe) => Some(
            "Homestead tool — mine iron ore at the east rocks"@,
        ),
        RecipeOutput::Item(MaterialId::FishingRod) => Some(
            "Homestead tool — cast at the southeast dock"@,
        ),
        RecipeOutput::Item(_) => Some("Homestead tool — equip from inventory hotbar"@),
        _ => None,
    }
}

pub fn recipe_set_bonus_hint(recipe: &Recipe) -> (hint: Option<&'static str>)
    ensures
        hint is None <==> set_bonus_hint(recipe.output) is None,
        hint matches Some(h) ==> set_bonus_hint(recipe.output) == Some(h@),
{
    match recipe.output {
        RecipeOutput::Armor(_) => Some(
            "Set: 2pc +10% carve & −10% special CD · 4pc 35% KB resist & +10% attack",
        ),
        RecipeOutput::Item(MaterialId::Pickaxe) => Some(
            "Homestead tool — mine iron ore at the east rocks",
        ),
        RecipeOutput::Item(MaterialId::FishingRod) => Some(
            "Homestead tool — cast at the southeast dock",
        ),
        RecipeOutput::Item(_) => Some("Homestead tool — equip from inventory hotbar"),
        _ => None,
    }
}

/// The recipe's weapon requirement, if any, is the equipped weapon.
pub open spec fn weapon_requirement_met(loadout: Loadout, recipe: Recipe) -> bool {
    match recipe.requires_weapon {
        Some(w) => loadout.weapon == w,
        None => true,
    }
}

/// Every cost is held and the required weapon, if any, is equipped.
pub open spec fn craftable(counts: Map<MaterialId, nat>, loadout: Loadout, recipe: Recipe) -> bool {
    covers(counts, recipe.costs@) && weapon_requirement_met(loadout, recipe)
}

pub fn can_craft_recipe(inventory: &Inventory, loadout: &Loadout, recipe: &Recipe) -> (ok: bool)
    ensures
        ok == craftable(inventory@, *loadout, *recipe),
{
    if !inventory.has_materials(recipe.costs.as_slice()) {
        return false;
    }
    if let Some(required_weapon) = recipe.requires_weapon {
        if loadout.weapon != required_weapon {
            return false;
        }
    }
    true
}

/// What crafting `recipe` does: `crafted` and the inventory and loadout it leaves.
pub open spec fn craft_outcome(
    counts: Map<MaterialId, nat>,
    loadout: Loadout,
    recipe: Recipe,
    crafted: bool,
    counts_after: Map<MaterialId, nat>,
    loadout_after: Loadout,
) -> bool {
    if !craftable(counts, loadout, recipe) {
        !crafted && counts_after == counts && loadout_after == loadout
    } else {
        let (rest, all_removed) = remove_in_order(counts, recipe.costs@);
        if !all_removed {
            // A cost named twice can outrun the stock partway through.
            !crafted && counts_after == rest && loadout_after == loadout
        } else {
            match recipe.output {
                RecipeOutput::Weapon(w) => crafted && counts_after == rest && loadout_after == (
                Loadout { weapon: w, ..loadout }),
                RecipeOutput::Armor(a) => crafted && counts_after == rest && loadout_after == (
                Loadout { armor: with_piece(loadout.armor, a), ..loadout }),
                RecipeOutput::Item(m) => loadout_after == loadout && if rest[m] < MAX_STACK {
                    crafted && counts_after == added(rest, m, 1)
                } else {
                    // No room for the product: every cost is given back.
                    !crafted && counts_after == counts
                },
            }
        }
    }
}

/// Spends the costs and grants the output; returns whether the craft happened.
pub fn try_craft_recipe(inventory: &mut Inventory, loadout: &mut Loadout, recipe: &Recipe) -> (crafted: bool)
    ensures
        craft_outcome(
            old(inventory)@,
            *old(loadout),
            *recipe,
            crafted,
            final(inventory)@,
            *final(loadout),
        ),
{
    if !can_craft_recipe(inventory, loadout, recipe) {
        return false;
    }
    let ghost start = inventory@;
    let ghost costs = recipe.costs@;
    proof {
        use_type_invariant(&*inventory);
        lemma_counts_bounded(*inventory);
    }
    if !inventory.remove_costs(recipe.costs.as_slice()) {
        return false;
    }
    match recipe.output {
        RecipeOutput::Weapon(weapon) => loadout.weapon = weapon,
        RecipeOutput::Armor(armor) => loadout.armor.set(armor),
        RecipeOutput::Item(material) => {
            let ghost rest = inventory@;
            let ghost rest_inventory = *inventory;
            proof {
                use_type_invariant(&*inventory);
                lemma_counts_bounded(*inventory);
            }
            let left = inventory.try_add(material, 1);
            if left > 0 {
                proof {
                    lemma_counts_total(rest_inventory, material);
                    assert(inventory@ =~= rest);
                }
                // Rollback costs if inventory full.
                inventory.add_costs(recipe.costs.as_slice());
                proof {
                    broadcast use lemma_counts_total;
                    assert(total_table(start));
                    lemma_removed_totals(start, costs);
                    lemma_add_back(rest, costs, start);
                }
                return false;
            }
        },
    }
    true
}

/// A refused craft of a recipe that names each material once leaves the
/// inventory and the loadout as they were.
pub proof fn lemma_refused_craft_keeps_everything(
    counts: Map<MaterialId, nat>,
    loadout: Loadout,
    recipe: Recipe,
    counts_after: Map<MaterialId, nat>,
    loadout_after: Loadout,
)
    requires
        craft_outcome(counts, loadout, recipe, false, counts_after, loadout_after),
        materials_distinct(recipe.costs@),
    ensures
        counts_after == counts,
        loadout_after == loadout,
{
    if craftable(counts, loadout, recipe) {
        lemma_distinct_costs_removable(counts, recipe.costs@);
    }
}

/// A successful craft spends exactly the recipe's costs, and an item recipe
/// adds one unit of its product.
pub proof fn lemma_craft_spends_costs(
    counts: Map<MaterialId, nat>,
    loadout: Loadout,
    recipe: Recipe,
    counts_after: Map<MaterialId, nat>,
    loadout_after: Loadout,
    m: MaterialId,
)
    requires
        total_table(counts),
        craft_outcome(counts, loadout, recipe, true, counts_after, loadout_after),
    ensures
        counts_after[m] + cost_total(recipe.costs@, m) == counts[m] + (if recipe.output == RecipeOutput::Item(m) {
            1int
        } else {
            0int
        }),
{
    lemma_removed_totals(counts, recipe.costs@);
}

/// A crafted armor recipe leaves its piece worn in its own slot, every
/// other piece worn or not as before and the weapon kept; crafting the same
/// piece again would put on nothing new.
pub proof fn lemma_crafted_armor_is_worn(
    counts: Map<MaterialId, nat>,
    loadout: Loadout,
    recipe: Recipe,
    counts_after: Map<MaterialId, nat>,
    loadout_after: Loadout,
    piece: ArmorKind,
    other: ArmorKind,
)
    requires
        craft_outcome(counts, loadout, recipe, true, counts_after, loadout_after),
        recipe.output == RecipeOutput::Armor(piece),
    ensures
        wears(loadout_after.armor, piece),
        other != piece ==> wears(loadout_after.armor, other) == wears(loadout.armor, other),
        loadout_after.weapon == loadout.weapon,
        with_piece(loadout_after.armor, piece) == loadout_after.armor,
{
    crate::loadout::lemma_put_on_piece(loadout.armor, piece, other);
    crate::loadout::lemma_put_on_piece(loadout_after.armor, piece, other);
}

/// Metal-tier recipes that must be gated on mined ore (not dungeon scrap alone).
pub fn recipe_requires_mined_ore(recipe: &Recipe) -> (needs_ore: bool)
    ensures
        needs_ore == exists|i: int| 0 <= i < recipe.costs@.len() && #[trigger] recipe.costs@[i].0 == MaterialId::IronOre,
{
    let mut i: usize = 0;
    while i < recipe.costs.len()
        invariant
            i <= recipe.costs@.len(),
            forall|j: int| 0 <= j < i ==> #[trigger] recipe.costs@[j].0 != MaterialId::IronOre,
        decreases recipe.costs@.len() - i,
    {
        if recipe.costs[i].0 == MaterialId::IronOre {
            return true;
        }
        i = i + 1;
    }
    false
}

pub fn material_name(material: MaterialId) -> (name: &'static str)
    ensures
        name@ == display_name_of(material),
{
    material.display_name()
}

/// One cost as shown at the forge: material name, amount held / amount needed.
pub open spec fn cost_line(counts: Map<MaterialId, nat>, cost: (MaterialId, u32)) -> Seq<char> {
    display_name_of(cost.0) + " "@ + decimal_text(counts[cost.0]) + "/"@ + decimal_text(cost.1 as nat)
}

pub open spec fn cost_lines(counts: Map<MaterialId, nat>, costs: Seq<(MaterialId, u32)>) -> Seq<Seq<char>> {
    costs.map_values(|c: (MaterialId, u32)| cost_line(counts, c))
}

pub open spec fn cost_separator() -> Seq<char> {
    "  ·  "@
}

pub fn recipe_costs_text(inventory: &Inventory, recipe: &Recipe) -> (text: String)
    ensures
        text@ == joined(cost_lines(inventory@, recipe.costs@), cost_separator()),
{
    let ghost lines = cost_lines(inventory@, recipe.costs@);
    let mut text = String::new();
    let mut i: usize = 0;
    while i < recipe.costs.len()
        invariant
            i <= recipe.costs@.len(),
            lines == cost_lines(inventory@, recipe.costs@),
            text@ == joined(lines.take(i as int), cost_separator()),
        decreases recipe.costs@.len() - i,
    {
        let (material, amount) = recipe.costs[i];
        if i > 0 {
            text.append("  ·  ");
        }
        text.append(material_name(material));
        text.append(" ");
        let held = decimal(inventory.count(material));
        text.append(held.as_str());
        text.append("/");
        let needed = decimal(amount);
        text.append(needed.as_str());
        proof {
            assert(lines.take(i + 1).drop_last() =~= lines.take(i as int));
            assert(lines.take(i + 1).last() == lines[i as int]);
            if i == 0 {
                assert(text@ =~= lines[0]);
                assert(lines.take(1).len() == 1);
            } else {
                assert(text@ =~= joined(lines.take(i as int), cost_separator()) + cost_separator() + lines[i as int]);
            }
        }
        i = i + 1;
    }
    proof {
        assert(lines.take(recipe.costs@.len() as int) =~= lines);
    }
    text
}

pub open spec fn weapon_name(weapon: WeaponKind) -> Seq<char> {
    match weapon {
        WeaponKind::RustySword => "Rusty Sword"@,
        WeaponKind::RustySpear => "Rusty Spear"@,
        WeaponKind::IronSword => "Iron Sword"@,
        WeaponKind::SlimeBlade => "Slime Blade"@,
    }
}

fn weapon_label(weapon: WeaponKind) -> (label: &'static str)
    ensures
        label@ == weapon_name(weapon),
{
    match weapon {
        WeaponKind::RustySword => "Rusty Sword",
        WeaponKind::RustySpear => "Rusty Spear",
        WeaponKind::IronSword => "Iron Sword",
        WeaponKind::SlimeBlade => "Slime Blade",
    }
}

/// The weapon requirement line: marked ready when that weapon is equipped.
pub open spec fn requirement_line(loadout: Loadout, weapon: WeaponKind) -> Seq<char> {
    if loadout.weapon == weapon {
        "Requires equipped "@ + weapon_name(weapon) + " (ready)"@
    } else {
        "Requires equipped "@ + weapon_name(weapon)
    }
}

pub fn recipe_requirement_text(loadout: &Loadout, recipe: &Recipe) -> (text: Option<String>)
    ensures
        recipe.requires_weapon is None ==> text is None,
        recipe.requires_weapon matches Some(w) ==> text matches Some(t) && t@ == requirement_line(
            *loadout,
            w,
        ),
{
    match recipe.requires_weapon {
        None => None,
        Some(weapon) => {
            let label = weapon_label(weapon);
            let mut text = String::new();
            text.append("Requires equipped ");
            text.append(label);
            if loadout.weapon == weapon {
                text.append(" (ready)");
            }
            Some(text)
        },
    }
}

/// Forge status line for a recipe.
pub open spec fn status_line(counts: Map<MaterialId, nat>, loadout: Loadout, recipe: Recipe) -> Seq<char> {
    if craftable(counts, loadout, recipe) {
        recipe.name@ + " is ready to craft."@
    } else {
        match recipe.requires_weapon {
            Some(w) if loadout.weapon != w => requirement_line(loadout, w),
            _ => "Gather the required materials."@,
        }
    }
}

pub fn forge_status(inventory: &Inventory, loadout: &Loadout, recipe: &Recipe) -> (status: String)
    ensures
        status@ == status_line(inventory@, *loadout, *recipe),
{
    if can_craft_recipe(inventory, loadout, recipe) {
        let mut text = recipe.name.clone();
        text.append(" is ready to craft.");
        text
    } else if let Some(requirement) = recipe_requirement_text(loadout, recipe) {
        let required = match recipe.requires_weapon {
            Some(w) => w,
            None => loadout.weapon,
        };
        if loadout.weapon != required {
            requirement
        } else {
            "Gather the required materials.".to_string()
        }
    } else {
        "Gather the required materials.".to_string()
    }
}

} // verus!
