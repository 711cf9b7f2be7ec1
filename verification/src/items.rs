//! Materials, the material inventory and the player's equipment loadout.

use vstd::prelude::*;

verus! {

/// Every stackable item the player can carry.
#[derive(Clone, Copy, Debug, PartialEq, Eq, Hash, Structural)]
pub enum MaterialId {
    TurnipSeed,
    PotatoSeed,
    Turnip,
    Potato,
    RiverFish,
    FishingRod,
    SlimeGel,
    IronScrap,
    SlimeCore,
    Fang,
    Pickaxe,
    IronOre,
    Hoe,
    WateringCan,
    LeatherWing,
    BoneShard,
    RotFlesh,
    RoyalSlimeCore,
    HeartyStew,
    SpicySashimi,
}

/// Number of distinct materials.
pub const MATERIAL_COUNT: usize = 20;

/// Most units of one material a single inventory can hold.
pub const MAX_STACK: u32 = 999;

/// Slot of a material in the inventory's count table.
pub open spec fn material_slot(m: MaterialId) -> int {
    match m {
        MaterialId::TurnipSeed => 0,
        MaterialId::PotatoSeed => 1,
        MaterialId::Turnip => 2,
        MaterialId::Potato => 3,
        MaterialId::RiverFish => 4,
        MaterialId::FishingRod => 5,
        MaterialId::SlimeGel => 6,
        MaterialId::IronScrap => 7,
        MaterialId::SlimeCore => 8,
        MaterialId::Fang => 9,
        MaterialId::Pickaxe => 10,
        MaterialId::IronOre => 11,
        MaterialId::Hoe => 12,
        MaterialId::WateringCan => 13,
        MaterialId::LeatherWing => 14,
        MaterialId::BoneShard => 15,
        MaterialId::RotFlesh => 16,
        MaterialId::RoyalSlimeCore => 17,
        MaterialId::HeartyStew => 18,
        MaterialId::SpicySashimi => 19,
    }
}

/// Material stored in a given slot of the count table.
pub open spec fn material_in_slot(i: int) -> MaterialId {
    if i == 0 { MaterialId::TurnipSeed }
    else if i == 1 { MaterialId::PotatoSeed }
    else if i == 2 { MaterialId::Turnip }
    else if i == 3 { MaterialId::Potato }
    else if i == 4 { MaterialId::RiverFish }
    else if i == 5 { MaterialId::FishingRod }
    else if i == 6 { MaterialId::SlimeGel }
    else if i == 7 { MaterialId::IronScrap }
    else if i == 8 { MaterialId::SlimeCore }
    else if i == 9 { MaterialId::Fang }
    else if i == 10 { MaterialId::Pickaxe }
    else if i == 11 { MaterialId::IronOre }
    else if i == 12 { MaterialId::Hoe }
    else if i == 13 { MaterialId::WateringCan }
    else if i == 14 { MaterialId::LeatherWing }
    else if i == 15 { MaterialId::BoneShard }
    else if i == 16 { MaterialId::RotFlesh }
    else if i == 17 { MaterialId::RoyalSlimeCore }
    else if i == 18 { MaterialId::HeartyStew }
    else { MaterialId::SpicySashimi }
}

/// Each material has its own slot, inside the table.
pub broadcast proof fn lemma_slot_roundtrip(m: MaterialId)
    ensures
        0 <= #[trigger] material_slot(m) < MATERIAL_COUNT,
        material_in_slot(material_slot(m)) == m,
{
}

impl MaterialId {
    pub fn slot(self) -> (i: usize)
        ensures
            i as int == material_slot(self),
            i < MATERIAL_COUNT,
    {
        match self {
            MaterialId::TurnipSeed => 0,
            MaterialId::PotatoSeed => 1,
            MaterialId::Turnip => 2,
            MaterialId::Potato => 3,
            MaterialId::RiverFish => 4,
            MaterialId::FishingRod => 5,
            MaterialId::SlimeGel => 6,
            MaterialId::IronScrap => 7,
            MaterialId::SlimeCore => 8,
            MaterialId::Fang => 9,
            MaterialId::Pickaxe => 10,
            MaterialId::IronOre => 11,
            MaterialId::Hoe => 12,
            MaterialId::WateringCan => 13,
            MaterialId::LeatherWing => 14,
            MaterialId::BoneShard => 15,
            MaterialId::RotFlesh => 16,
            MaterialId::RoyalSlimeCore => 17,
            MaterialId::HeartyStew => 18,
            MaterialId::SpicySashimi => 19,
        }
    }
}

/// Name shown to the player for a material.
pub open spec fn display_name_of(m: MaterialId) -> Seq<char> {
    match m {
        MaterialId::TurnipSeed => "Turnip Seed"@,
        MaterialId::PotatoSeed => "Potato Seed"@,
        MaterialId::Turnip => "Turnip"@,
        MaterialId::Potato => "Potato"@,
        MaterialId::RiverFish => "River Fish"@,
        MaterialId::FishingRod => "Fishing Rod"@,
        MaterialId::SlimeGel => "Slime Gel"@,
        MaterialId::IronScrap => "Iron Scrap"@,
        MaterialId::SlimeCore => "Slime Core"@,
        MaterialId::Fang => "Fang"@,
        MaterialId::Pickaxe => "Pickaxe"@,
        MaterialId::IronOre => "Iron Ore"@,
        MaterialId::Hoe => "Hoe"@,
        MaterialId::WateringCan => "Watering Can"@,
        MaterialId::LeatherWing => "Leather Wing"@,
        MaterialId::BoneShard => "Bone Shard"@,
        MaterialId::RotFlesh => "Rot Flesh"@,
        MaterialId::RoyalSlimeCore => "Royal Slime Core"@,
        MaterialId::HeartyStew => "Hearty Stew"@,
        MaterialId::SpicySashimi => "Spicy Sashimi"@,
    }
}

/// Three-letter tag for a material in tight UI slots.
pub open spec fn short_label_of(m: MaterialId) -> Seq<char> {
    match m {
        MaterialId::TurnipSeed => "TSd"@,
        MaterialId::PotatoSeed => "PSd"@,
        MaterialId::Turnip => "Trn"@,
        MaterialId::Potato => "Pot"@,
        MaterialId::RiverFish => "Fsh"@,
        MaterialId::FishingRod => "Rod"@,
        MaterialId::SlimeGel => "Gel"@,
        MaterialId::IronScrap => "Scr"@,
        MaterialId::SlimeCore => "Cor"@,
        MaterialId::Fang => "Fng"@,
        MaterialId::Pickaxe => "Pck"@,
        MaterialId::IronOre => "Ore"@,
        MaterialId::Hoe => "Hoe"@,
        MaterialId::WateringCan => "Can"@,
        MaterialId::LeatherWing => "Wng"@,
        MaterialId::BoneShard => "Bne"@,
        MaterialId::RotFlesh => "Rot"@,
        MaterialId::RoyalSlimeCore => "Ryl"@,
        MaterialId::HeartyStew => "Stw"@,
        MaterialId::SpicySashimi => "Ssh"@,
    }
}

impl MaterialId {
    pub fn display_name(self) -> (s: &'static str)
        ensures
            s@ == display_name_of(self),
    {
        match self {
            MaterialId::TurnipSeed => "Turnip Seed",
            MaterialId::PotatoSeed => "Potato Seed",
            MaterialId::Turnip => "Turnip",
            MaterialId::Potato => "Potato",
            MaterialId::RiverFish => "River Fish",
            MaterialId::FishingRod => "Fishing Rod",
            MaterialId::SlimeGel => "Slime Gel",
            MaterialId::IronScrap => "Iron Scrap",
            MaterialId::SlimeCore => "Slime Core",
            MaterialId::Fang => "Fang",
            MaterialId::Pickaxe => "Pickaxe",
            MaterialId::IronOre => "Iron Ore",
            MaterialId::Hoe => "Hoe",
            MaterialId::WateringCan => "Watering Can",
            MaterialId::LeatherWing => "Leather Wing",
            MaterialId::BoneShard => "Bone Shard",
            MaterialId::RotFlesh => "Rot Flesh",
            MaterialId::RoyalSlimeCore => "Royal Slime Core",
            MaterialId::HeartyStew => "Hearty Stew",
            MaterialId::SpicySashimi => "Spicy Sashimi",
        }
    }

    pub fn short_label(self) -> (s: &'static str)
        ensures
            s@ == short_label_of(self),
    {
        match self {
            MaterialId::TurnipSeed => "TSd",
            MaterialId::PotatoSeed => "PSd",
            MaterialId::Turnip => "Trn",
            MaterialId::Potato => "Pot",
            MaterialId::RiverFish => "Fsh",
            MaterialId::FishingRod => "Rod",
            MaterialId::SlimeGel => "Gel",
            MaterialId::IronScrap => "Scr",
            MaterialId::SlimeCore => "Cor",
            MaterialId::Fang => "Fng",
            MaterialId::Pickaxe => "Pck",
            MaterialId::IronOre => "Ore",
            MaterialId::Hoe => "Hoe",
            MaterialId::WateringCan => "Can",
            MaterialId::LeatherWing => "Wng",
            MaterialId::BoneShard => "Bne",
            MaterialId::RotFlesh => "Rot",
            MaterialId::RoyalSlimeCore => "Ryl",
            MaterialId::HeartyStew => "Stw",
            MaterialId::SpicySashimi => "Ssh",
        }
    }
}

/// Material counts the player carries, at most `MAX_STACK` of each.
pub struct Inventory {
    counts: Vec<u32>,
}

impl Inventory {
    /// One count per material, none above `MAX_STACK`.
    #[verifier::type_invariant]
    pub closed spec fn well_formed(self) -> bool {
        &&& self.counts.len() == MATERIAL_COUNT
        &&& forall|i: int| 0 <= i < MATERIAL_COUNT ==> #[trigger] self.counts[i] <= MAX_STACK
    }
}

impl View for Inventory {
    type V = Map<MaterialId, nat>;

    /// How many units of each material are held.
    closed spec fn view(&self) -> Map<MaterialId, nat> {
        Map::new(|m: MaterialId| true, |m: MaterialId| self.counts[material_slot(m)] as nat)
    }
}

/// An inventory's count table has an entry for every material.
pub broadcast proof fn lemma_counts_total(inv: Inventory, m: MaterialId)
    ensures
        #[trigger] inv@.contains_key(m),
{
}

/// A well-formed inventory holds at most `MAX_STACK` of each material.
pub proof fn lemma_counts_bounded(inv: Inventory)
    requires
        inv.well_formed(),
    ensures
        forall|m: MaterialId| #[trigger] inv@[m] <= MAX_STACK,
{
    broadcast use lemma_slot_roundtrip;
    assert forall|m: MaterialId| #[trigger] inv@[m] <= MAX_STACK by {
        assert(inv.counts[material_slot(m)] <= MAX_STACK);
    }
}

/// Units of `m` held according to a count table.
pub open spec fn held(counts: Map<MaterialId, nat>, m: MaterialId) -> nat {
    counts[m]
}

/// Count table after adding `amount` of `m`, as much as fits under `MAX_STACK`.
pub open spec fn added(counts: Map<MaterialId, nat>, m: MaterialId, amount: nat) -> Map<
    MaterialId,
    nat,
> {
    let room = MAX_STACK - counts[m];
    counts.insert(m, if amount <= room { counts[m] + amount } else { MAX_STACK as nat })
}

/// A count table with nothing in it.
pub open spec fn empty_counts() -> Map<MaterialId, nat> {
    Map::new(|m: MaterialId| true, |m: MaterialId| 0nat)
}

impl Inventory {
    /// An empty inventory.
    pub fn new() -> (inv: Self)
        ensures
            inv@ == empty_counts(),
    {
        let mut counts: Vec<u32> = Vec::new();
        let mut i: usize = 0;
        while i < MATERIAL_COUNT
            invariant
                i <= MATERIAL_COUNT,
                counts.len() == i,
                forall|j: int| 0 <= j < i ==> counts[j] == 0,
            decreases MATERIAL_COUNT - i,
        {
            counts.push(0);
            i = i + 1;
        }
        let inv = Inventory { counts };
        proof {
            broadcast use lemma_slot_roundtrip;
            assert(inv@ =~= empty_counts());
        }
        inv
    }

    /// Units of `material` held.
    pub fn count(&self, material: MaterialId) -> (n: u32)
        ensures
            n == self@[material],
            n <= MAX_STACK,
    {
        proof {
            use_type_invariant(self);
        }
        let i = material.slot();
        self.counts[i]
    }

    /// Adds up to `amount` units of `material`; returns how many did not fit.
    pub fn try_add(&mut self, material: MaterialId, amount: u32) -> (leftover: u32)
        ensures
            ({
                let room = MAX_STACK - old(self)@[material];
                let added = if amount <= room { amount as int } else { room };
                &&& leftover == amount - added
                &&& final(self)@ == old(self)@.insert(material, (old(self)@[material] + added) as nat)
            }),
    {
        proof {
            use_type_invariant(&*self);
        }
        let i = material.slot();
        let current = self.counts[i];
        let room = MAX_STACK - current;
        let added = if amount <= room { amount } else { room };
        let ghost before = self@;
        let mut counts = self.counts.clone();
        counts.set(i, current + added);
        *self = Inventory { counts };
        proof {
            broadcast use lemma_slot_roundtrip;
            assert(self@ =~= before.insert(material, (before[material] + added) as nat));
        }
        amount - added
    }

    /// Removes `amount` units of `material` when that many are held.
    pub fn try_remove(&mut self, material: MaterialId, amount: u32) -> (removed: bool)
        ensures
            removed == (old(self)@[material] >= amount),
            old(self)@[material] <= MAX_STACK,
            removed ==> final(self)@ == old(self)@.insert(material, (old(self)@[material] - amount) as nat),
            !removed ==> final(self)@ == old(self)@,
    {
        proof {
            use_type_invariant(&*self);
        }
        let i = material.slot();
        let current = self.counts[i];
        if current < amount {
            return false;
        }
        let ghost before = self@;
        let mut counts = self.counts.clone();
        counts.set(i, current - amount);
        *self = Inventory { counts };
        proof {
            broadcast use lemma_slot_roundtrip;
            assert(self@ =~= before.insert(material, (before[material] - amount) as nat));
        }
        true
    }
}

/// Whether every `(material, amount)` cost is covered by a count table.
pub open spec fn covers(counts: Map<MaterialId, nat>, costs: Seq<(MaterialId, u32)>) -> bool {
    forall|i: int| 0 <= i < costs.len() ==> costs[i].1 <= #[trigger] counts[costs[i].0]
}

/// Removes costs in order, stopping at the first one not covered.
/// Gives the counts reached and whether every cost was removed.
pub open spec fn remove_in_order(
    counts: Map<MaterialId, nat>,
    costs: Seq<(MaterialId, u32)>,
) -> (Map<MaterialId, nat>, bool)
    decreases costs.len(),
{
    if costs.len() == 0 {
        (counts, true)
    } else {
        let (m, n) = costs[0];
        if counts[m] >= n {
            remove_in_order(counts.insert(m, (counts[m] - n) as nat), costs.drop_first())
        } else {
            (counts, false)
        }
    }
}

/// Adds costs back in order, each as much as fits.
pub open spec fn add_in_order(counts: Map<MaterialId, nat>, costs: Seq<(MaterialId, u32)>) -> Map<
    MaterialId,
    nat,
>
    decreases costs.len(),
{
    if costs.len() == 0 {
        counts
    } else {
        add_in_order(added(counts, costs[0].0, costs[0].1 as nat), costs.drop_first())
    }
}

/// Units of `m` that `costs` ask for in total.
pub open spec fn cost_total(costs: Seq<(MaterialId, u32)>, m: MaterialId) -> nat
    decreases costs.len(),
{
    if costs.len() == 0 {
        0
    } else {
        (if costs[0].0 == m { costs[0].1 as nat } else { 0 }) + cost_total(costs.drop_first(), m)
    }
}

/// Every material appears at most once among the costs.
pub open spec fn materials_distinct(costs: Seq<(MaterialId, u32)>) -> bool {
    forall|i: int, j: int| 0 <= i < j < costs.len() ==> #[trigger] costs[i].0 != #[trigger] costs[j].0
}

/// A count table with an entry for every material.
pub open spec fn total_table(counts: Map<MaterialId, nat>) -> bool {
    forall|m: MaterialId| #[trigger] counts.contains_key(m)
}

/// When every removal succeeds, each material drops by exactly what the costs ask.
pub proof fn lemma_removed_totals(counts: Map<MaterialId, nat>, costs: Seq<(MaterialId, u32)>)
    requires
        total_table(counts),
        remove_in_order(counts, costs).1,
    ensures
        total_table(remove_in_order(counts, costs).0),
        forall|m: MaterialId|
            #[trigger] remove_in_order(counts, costs).0[m] + cost_total(costs, m) == counts[m],
    decreases costs.len(),
{
    if costs.len() > 0 {
        let (m0, n0) = costs[0];
        let next = counts.insert(m0, (counts[m0] - n0) as nat);
        lemma_removed_totals(next, costs.drop_first());
    }
}

/// Adding back what was removed restores the counts, as nothing goes over `MAX_STACK`.
pub proof fn lemma_add_back(
    reduced: Map<MaterialId, nat>,
    costs: Seq<(MaterialId, u32)>,
    counts: Map<MaterialId, nat>,
)
    requires
        total_table(reduced),
        total_table(counts),
        forall|m: MaterialId| #[trigger] counts[m] <= MAX_STACK,
        forall|m: MaterialId| #[trigger] reduced[m] + cost_total(costs, m) == counts[m],
    ensures
        add_in_order(reduced, costs) == counts,
    decreases costs.len(),
{
    if costs.len() == 0 {
        assert(reduced =~= counts);
    } else {
        let (m0, n0) = costs[0];
        let next = added(reduced, m0, n0 as nat);
        assert forall|m: MaterialId| #[trigger] next[m] + cost_total(costs.drop_first(), m) == counts[m] by {
            assert(reduced[m0] + cost_total(costs, m0) == counts[m0]);
        }
        lemma_add_back(next, costs.drop_first(), counts);
    }
}

/// Costs that name each material once and are all held can all be removed.
pub proof fn lemma_distinct_costs_removable(counts: Map<MaterialId, nat>, costs: Seq<(MaterialId, u32)>)
    requires
        covers(counts, costs),
        materials_distinct(costs),
    ensures
        remove_in_order(counts, costs).1,
    decreases costs.len(),
{
    if costs.len() > 0 {
        let (m0, n0) = costs[0];
        let next = counts.insert(m0, (counts[m0] - n0) as nat);
        let rest = costs.drop_first();
        assert(costs[0].1 <= counts[costs[0].0]);
        assert forall|i: int| 0 <= i < rest.len() implies rest[i].1 <= #[trigger] next[rest[i].0] by {
            assert(rest[i] == costs[i + 1]);
            assert(costs[i + 1].1 <= counts[costs[i + 1].0]);
        }
        assert forall|i: int, j: int| 0 <= i < j < rest.len() implies #[trigger] rest[i].0 != #[trigger] rest[j].0 by {
            assert(rest[i] == costs[i + 1] && rest[j] == costs[j + 1]);
        }
        lemma_distinct_costs_removable(next, rest);
    }
}

/// Starter kit of a fresh homestead: one hoe, one watering can, eight turnip
/// and four potato seeds.
pub open spec fn starter_counts() -> Map<MaterialId, nat> {
    empty_counts()
        .insert(MaterialId::Hoe, 1)
        .insert(MaterialId::WateringCan, 1)
        .insert(MaterialId::TurnipSeed, 8)
        .insert(MaterialId::PotatoSeed, 4)
}

impl Inventory {
    /// Inventory holding the starter kit.
    pub fn with_starter_seeds() -> (inv: Self)
        ensures
            inv@ == starter_counts(),
    {
        let mut inv = Inventory::new();
        inv.try_add(MaterialId::Hoe, 1);
        inv.try_add(MaterialId::WateringCan, 1);
        inv.try_add(MaterialId::TurnipSeed, 8);
        inv.try_add(MaterialId::PotatoSeed, 4);
        proof {
            assert(inv@ =~= starter_counts());
        }
        inv
    }

    /// True when every `(material, amount)` in `costs` is held.
    pub fn has_materials(&self, costs: &[(MaterialId, u32)]) -> (ok: bool)
        ensures
            ok == covers(self@, costs@),
    {
        let mut i: usize = 0;
        while i < costs.len()
            invariant
                i <= costs@.len(),
                forall|j: int| 0 <= j < i ==> costs@[j].1 <= #[trigger] self@[costs@[j].0],
            decreases costs@.len() - i,
        {
            let (material, amount) = costs[i];
            if self.count(material) < amount {
                return false;
            }
            i = i + 1;
        }
        true
    }
}

impl Inventory {
    /// Removes each `(material, amount)` in order, stopping at the first that
    /// is not held; says whether every one was removed.
    pub fn remove_costs(&mut self, costs: &[(MaterialId, u32)]) -> (all_removed: bool)
        ensures
            (final(self)@, all_removed) == remove_in_order(old(self)@, costs@),
    {
        let ghost start = self@;
        proof {
            assert(costs@.skip(0) =~= costs@);
        }
        let mut i: usize = 0;
        while i < costs.len()
            invariant
                i <= costs@.len(),
                start == old(self)@,
                remove_in_order(start, costs@) == remove_in_order(self@, costs@.skip(i as int)),
            decreases costs@.len() - i,
        {
            let (material, amount) = costs[i];
            proof {
                assert(costs@.skip(i as int)[0] == costs@[i as int]);
                assert(costs@.skip(i as int).drop_first() =~= costs@.skip(i + 1));
            }
            if !self.try_remove(material, amount) {
                return false;
            }
            i = i + 1;
        }
        proof {
            assert(costs@.skip(costs@.len() as int) =~= Seq::<(MaterialId, u32)>::empty());
        }
        true
    }

    /// Adds each `(material, amount)` in order, as much as fits.
    pub fn add_costs(&mut self, costs: &[(MaterialId, u32)])
        ensures
            final(self)@ == add_in_order(old(self)@, costs@),
    {
        let ghost start = self@;
        proof {
            assert(costs@.skip(0) =~= costs@);
        }
        let mut i: usize = 0;
        while i < costs.len()
            invariant
                i <= costs@.len(),
                start == old(self)@,
                add_in_order(start, costs@) == add_in_order(self@, costs@.skip(i as int)),
            decreases costs@.len() - i,
        {
            let (material, amount) = costs[i];
            proof {
                assert(costs@.skip(i as int)[0] == costs@[i as int]);
                assert(costs@.skip(i as int).drop_first() =~= costs@.skip(i + 1));
            }
            self.try_add(material, amount);
            i = i + 1;
        }
        proof {
            assert(costs@.skip(costs@.len() as int) =~= Seq::<(MaterialId, u32)>::empty());
        }
    }
}

impl Default for Inventory {
    fn default() -> (inv: Self)
        ensures
            inv@ == empty_counts(),
    {
        Inventory::new()
    }
}

} // verus!
