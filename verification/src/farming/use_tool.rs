//! Keeping the homestead tools and starter seeds stocked.

use vstd::prelude::*;

use crate::items::{added, Inventory, MaterialId, MAX_STACK};

verus! {

/// Grants `amount` of `material` when none is held; says whether it granted.
fn grant_if_missing(inventory: &mut Inventory, material: MaterialId, amount: u32) -> (granted: bool)
    ensures
        granted == (old(inventory)@[material] == 0),
        granted ==> final(inventory)@ == added(old(inventory)@, material, amount as nat),
        !granted ==> final(inventory)@ == old(inventory)@,
{
    if inventory.count(material) == 0 {
        inventory.try_add(material, amount);
        true
    } else {
        false
    }
}

/// Counts after restocking: a hoe and a watering can where missing, and the
/// starter seeds (eight turnip, four potato) when no seed of either kind is held.
pub open spec fn restocked(counts: Map<MaterialId, nat>) -> Map<MaterialId, nat> {
    let with_hoe = if counts[MaterialId::Hoe] == 0 {
        added(counts, MaterialId::Hoe, 1)
    } else {
        counts
    };
    let with_can = if with_hoe[MaterialId::WateringCan] == 0 {
        added(with_hoe, MaterialId::WateringCan, 1)
    } else {
        with_hoe
    };
    if with_can[MaterialId::TurnipSeed] > 0 || with_can[MaterialId::PotatoSeed] > 0 {
        with_can
    } else {
        added(added(with_can, MaterialId::TurnipSeed, 8), MaterialId::PotatoSeed, 4)
    }
}

/// Restocking never grants a pickaxe or a fishing rod, and afterwards the
/// player holds a hoe, a watering can and seeds of at least one kind; a
/// second restock changes nothing.
pub proof fn lemma_restock_grants_only_starter_kit(counts: Map<MaterialId, nat>)
    requires
        forall|m: MaterialId| #[trigger] counts[m] <= MAX_STACK,
    ensures
        restocked(counts)[MaterialId::Pickaxe] == counts[MaterialId::Pickaxe],
        restocked(counts)[MaterialId::FishingRod] == counts[MaterialId::FishingRod],
        restocked(counts)[MaterialId::Hoe] >= 1,
        restocked(counts)[MaterialId::WateringCan] >= 1,
        restocked(counts)[MaterialId::TurnipSeed] >= 1 || restocked(counts)[MaterialId::PotatoSeed] >= 1,
        restocked(restocked(counts)) == restocked(counts),
{
}

/// Ensures hoe, can, and starter seeds exist for older saves; never grants a
/// pickaxe or rod. Says whether anything was granted.
pub fn ensure_starter_seeds(inventory: &mut Inventory) -> (changed: bool)
    ensures
        final(inventory)@ == restocked(old(inventory)@),
        changed == (old(inventory)@[MaterialId::Hoe] == 0 || old(inventory)@[MaterialId::WateringCan]
            == 0 || (old(inventory)@[MaterialId::TurnipSeed] == 0
            && old(inventory)@[MaterialId::PotatoSeed] == 0)),
{
    let mut changed = false;
    changed = grant_if_missing(inventory, MaterialId::Hoe, 1) || changed;
    changed = grant_if_missing(inventory, MaterialId::WateringCan, 1) || changed;
    let has_seed = inventory.count(MaterialId::TurnipSeed) > 0 || inventory.count(MaterialId::PotatoSeed) > 0;
    if !has_seed {
        inventory.try_add(MaterialId::TurnipSeed, 8);
        inventory.try_add(MaterialId::PotatoSeed, 4);
        changed = true;
    }
    changed
}

} // verus!
