use homestead::forging::craft::{try_craft_selected_recipe, CraftResult};
use homestead::forging::recipe::{ForgeRecipe, ForgeRecipeBook, RecipeOutput};
use homestead::forging::recipes::{
    can_craft_recipe, forge_status, recipe_costs_text, recipe_requirement_text,
    recipe_requires_mined_ore, recipe_set_bonus_hint, try_craft_recipe, Recipe, RecipeBook,
    RecipeOutput as BookOutput,
};
use homestead::items::{Inventory, MaterialId, MAX_STACK};
use homestead::loadout::{ArmorKind, Loadout, WeaponKind};

#[test]
fn iron_sword_requires_materials() {
    let recipe_book = ForgeRecipeBook {
        recipes: vec![ForgeRecipe {
            name: "Iron Sword",
            materials: &[(MaterialId::SlimeGel, 5), (MaterialId::IronScrap, 3)],
            output: RecipeOutput::Weapon(WeaponKind::IronSword),
        }],
        selected_index: 0,
    };
    let mut inventory = Inventory::default();
    let mut loadout = Loadout::default();

    assert_eq!(
        try_craft_selected_recipe(&recipe_book, &mut inventory, &mut loadout),
        CraftResult::MissingMaterials
    );

    inventory.try_add(MaterialId::SlimeGel, 5);
    inventory.try_add(MaterialId::IronScrap, 3);

    assert_eq!(
        try_craft_selected_recipe(&recipe_book, &mut inventory, &mut loadout),
        CraftResult::Success
    );
    assert_eq!(loadout.weapon, WeaponKind::IronSword);
    assert_eq!(inventory.count(MaterialId::SlimeGel), 0);
    assert_eq!(
        try_craft_selected_recipe(&recipe_book, &mut inventory, &mut loadout),
        CraftResult::AlreadyOwned
    );
}

#[test]
fn slime_blade_needs_the_iron_sword_equipped() {
    let book = ForgeRecipeBook {
        selected_index: 1,
        ..ForgeRecipeBook::default()
    };
    let mut inventory = Inventory::new();
    inventory.try_add(MaterialId::SlimeCore, 2);
    let mut loadout = Loadout::default();
    assert_eq!(
        try_craft_selected_recipe(&book, &mut inventory, &mut loadout),
        CraftResult::MissingWeapon
    );
    assert_eq!(inventory.count(MaterialId::SlimeCore), 2);
    loadout.weapon = WeaponKind::IronSword;
    assert_eq!(
        try_craft_selected_recipe(&book, &mut inventory, &mut loadout),
        CraftResult::Success
    );
    assert_eq!(loadout.weapon, WeaponKind::SlimeBlade);
    assert_eq!(inventory.count(MaterialId::SlimeCore), 0);
}

#[test]
fn recipe_selection_wraps_both_ways() {
    let mut book = ForgeRecipeBook::default();
    assert_eq!(book.recipes.len(), 7);
    assert_eq!(book.selected_recipe().unwrap().name, "Iron Sword");
    book.select_previous();
    assert_eq!(book.selected_index, 6);
    book.select_next();
    assert_eq!(book.selected_index, 0);
    book.select_next();
    book.select_previous();
    assert_eq!(book.selected_index, 0);
    let mut empty = ForgeRecipeBook {
        recipes: Vec::new(),
        selected_index: 0,
    };
    empty.select_next();
    assert!(empty.selected_recipe().is_none());
}

fn pickaxe() -> Recipe {
    Recipe {
        name: "Pickaxe".to_string(),
        costs: vec![(MaterialId::IronOre, 2), (MaterialId::Fang, 1)],
        output: BookOutput::Item(MaterialId::Pickaxe),
        requires_weapon: None,
    }
}

fn slime_helm() -> Recipe {
    Recipe {
        name: "Slime Helm".to_string(),
        costs: vec![(MaterialId::SlimeGel, 4)],
        output: BookOutput::Armor(ArmorKind::SlimeHelm),
        requires_weapon: None,
    }
}

fn slime_blade() -> Recipe {
    Recipe {
        name: "Slime Blade".to_string(),
        costs: vec![(MaterialId::SlimeCore, 2), (MaterialId::RoyalSlimeCore, 1)],
        output: BookOutput::Weapon(WeaponKind::SlimeBlade),
        requires_weapon: Some(WeaponKind::IronSword),
    }
}

fn iron_sword() -> Recipe {
    Recipe {
        name: "Iron Sword".to_string(),
        costs: vec![(MaterialId::IronOre, 3), (MaterialId::SlimeGel, 5)],
        output: BookOutput::Weapon(WeaponKind::IronSword),
        requires_weapon: None,
    }
}

fn fishing_rod() -> Recipe {
    Recipe {
        name: "Fishing Rod".to_string(),
        costs: vec![(MaterialId::BoneShard, 2), (MaterialId::SlimeGel, 1)],
        output: BookOutput::Item(MaterialId::FishingRod),
        requires_weapon: None,
    }
}

fn pickaxe_from_scrap() -> Recipe {
    Recipe {
        name: "Pickaxe".to_string(),
        costs: vec![(MaterialId::IronScrap, 2), (MaterialId::SlimeGel, 1)],
        output: BookOutput::Item(MaterialId::Pickaxe),
        requires_weapon: None,
    }
}

/// The forge recipes the tests below rely on.
fn book() -> RecipeBook {
    RecipeBook {
        recipes: vec![iron_sword(), slime_blade(), pickaxe_from_scrap(), fishing_rod(), slime_helm()],
    }
}

fn recipe_named(book: &RecipeBook, name: &str) -> Recipe {
    book.recipes
        .iter()
        .find(|r| r.name == name)
        .cloned()
        .unwrap_or_else(|| panic!("missing recipe {name}"))
}

#[test]
fn iron_sword_requires_mined_ore_not_scrap_alone() {
    let iron = recipe_named(&book(), "Iron Sword");
    assert!(recipe_requires_mined_ore(&iron));
    assert!(
        iron.costs.iter().any(|(m, _)| *m == MaterialId::IronOre),
        "Iron Sword must cost IronOre"
    );
    assert!(
        !iron.costs.iter().any(|(m, _)| *m == MaterialId::IronScrap),
        "Iron Sword should not depend on dungeon IronScrap"
    );

    let mut inventory = Inventory::default();
    let mut loadout = Loadout::default();
    inventory.try_add(MaterialId::SlimeGel, 5);
    inventory.try_add(MaterialId::IronScrap, 3);
    assert!(
        !can_craft_recipe(&inventory, &loadout, &iron),
        "scrap alone must not craft iron sword"
    );

    inventory.try_add(MaterialId::IronOre, 3);
    assert!(try_craft_recipe(&mut inventory, &mut loadout, &iron));
    assert_eq!(loadout.weapon, WeaponKind::IronSword);
    assert_eq!(inventory.count(MaterialId::IronOre), 0);
}

#[test]
fn crafts_pickaxe_into_inventory() {
    let pick = recipe_named(&book(), "Pickaxe");
    let mut inventory = Inventory::default();
    let mut loadout = Loadout::default();
    inventory.try_add(MaterialId::IronScrap, 2);
    inventory.try_add(MaterialId::SlimeGel, 1);
    assert!(try_craft_recipe(&mut inventory, &mut loadout, &pick));
    assert_eq!(inventory.count(MaterialId::Pickaxe), 1);
}

#[test]
fn crafts_fishing_rod_into_inventory() {
    let rod = recipe_named(&book(), "Fishing Rod");
    let mut inventory = Inventory::default();
    let mut loadout = Loadout::default();
    inventory.try_add(MaterialId::BoneShard, 2);
    inventory.try_add(MaterialId::SlimeGel, 1);
    assert!(try_craft_recipe(&mut inventory, &mut loadout, &rod));
    assert_eq!(inventory.count(MaterialId::FishingRod), 1);
}

#[test]
fn slime_blade_requires_iron_sword_and_royal_core() {
    let blade = recipe_named(&book(), "Slime Blade");
    let mut inventory = Inventory::default();
    let mut loadout = Loadout::default();
    inventory.try_add(MaterialId::SlimeCore, 2);
    inventory.try_add(MaterialId::RoyalSlimeCore, 1);

    assert!(!try_craft_recipe(&mut inventory, &mut loadout, &blade));

    loadout.weapon = WeaponKind::IronSword;
    assert!(try_craft_recipe(&mut inventory, &mut loadout, &blade));
    assert_eq!(loadout.weapon, WeaponKind::SlimeBlade);
    assert_eq!(inventory.count(MaterialId::RoyalSlimeCore), 0);
}

#[test]
fn armor_piece_equips_into_slot() {
    let helm = recipe_named(&book(), "Slime Helm");
    let mut inventory = Inventory::default();
    let mut loadout = Loadout::default();
    inventory.try_add(MaterialId::SlimeGel, 4);

    assert!(try_craft_recipe(&mut inventory, &mut loadout, &helm));
    assert_eq!(loadout.armor.head, Some(ArmorKind::SlimeHelm));
}

#[test]
fn crafting_an_item_spends_costs_and_adds_output() {
    let mut inventory = Inventory::new();
    let mut loadout = Loadout::default();
    assert!(!try_craft_recipe(&mut inventory, &mut loadout, &pickaxe()));
    inventory.try_add(MaterialId::IronOre, 3);
    inventory.try_add(MaterialId::Fang, 1);
    assert!(can_craft_recipe(&inventory, &loadout, &pickaxe()));
    assert!(try_craft_recipe(&mut inventory, &mut loadout, &pickaxe()));
    assert_eq!(inventory.count(MaterialId::IronOre), 1);
    assert_eq!(inventory.count(MaterialId::Fang), 0);
    assert_eq!(inventory.count(MaterialId::Pickaxe), 1);
    assert!(recipe_requires_mined_ore(&pickaxe()));
    assert!(!recipe_requires_mined_ore(&slime_helm()));
    assert_eq!(book().len(), 5);
}

#[test]
fn refused_armor_keeps_materials() {
    let mut inventory = Inventory::new();
    inventory.try_add(MaterialId::SlimeGel, 3);
    let mut loadout = Loadout::default();
    assert!(!try_craft_recipe(&mut inventory, &mut loadout, &slime_helm()));
    assert_eq!(inventory.count(MaterialId::SlimeGel), 3);
    assert_eq!(loadout.armor.head, None);
}

#[test]
fn forge_texts() {
    let mut inventory = Inventory::new();
    inventory.try_add(MaterialId::IronOre, 1);
    assert_eq!(
        recipe_costs_text(&inventory, &pickaxe()),
        "Iron Ore 1/2  ·  Fang 0/1"
    );
    let loadout = Loadout::default();
    assert_eq!(
        recipe_requirement_text(&loadout, &slime_blade()).as_deref(),
        Some("Requires equipped Iron Sword")
    );
    assert_eq!(recipe_requirement_text(&loadout, &pickaxe()), None);
    assert_eq!(forge_status(&inventory, &loadout, &pickaxe()), "Gather the required materials.");
    assert_eq!(
        forge_status(&inventory, &loadout, &slime_blade()),
        "Requires equipped Iron Sword"
    );
    inventory.try_add(MaterialId::IronOre, 1);
    inventory.try_add(MaterialId::Fang, 1);
    assert_eq!(forge_status(&inventory, &loadout, &pickaxe()), "Pickaxe is ready to craft.");
    assert_eq!(
        recipe_set_bonus_hint(&pickaxe()),
        Some("Homestead tool — mine iron ore at the east rocks")
    );
    let book = RecipeBook {
        recipes: vec![pickaxe()],
    };
    assert_eq!(book.len(), 1);
    assert!(!book.is_empty());
    assert!(book.get(1).is_none());
}

#[test]
fn inventory_stacks_cap_at_max() {
    let mut inventory = Inventory::new();
    assert_eq!(inventory.try_add(MaterialId::Fang, MAX_STACK - 2), 0);
    assert_eq!(inventory.try_add(MaterialId::Fang, 5), 3);
    assert_eq!(inventory.count(MaterialId::Fang), MAX_STACK);
    assert!(inventory.try_remove(MaterialId::Fang, MAX_STACK));
    assert!(!inventory.try_remove(MaterialId::Fang, 1));
}
