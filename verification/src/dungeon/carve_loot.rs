//! Carve loot: guaranteed parts plus weighted bonus rolls, stacked per material.

use vstd::prelude::*;

use rand::rngs::StdRng;

use crate::items::MaterialId;
use crate::rng::gen_index;

use super::enemy::EnemyKind;

verus! {

/// What is being carved: a pack enemy or the boss.
#[derive(Clone, Copy, Debug, PartialEq, Eq, Hash, Structural)]
pub enum CarveTarget {
    Pack(EnemyKind),
    KingSlime,
}

pub open spec fn target_label(target: CarveTarget) -> Seq<char> {
    match target {
        CarveTarget::Pack(EnemyKind::Slime) => "slime"@,
        CarveTarget::Pack(EnemyKind::Bat) => "bat"@,
        CarveTarget::Pack(EnemyKind::Goblin) => "goblin"@,
        CarveTarget::Pack(EnemyKind::Skeleton) => "skeleton"@,
        CarveTarget::Pack(EnemyKind::Zombie) => "zombie"@,
        CarveTarget::KingSlime => "king slime"@,
    }
}

impl CarveTarget {
    pub fn label(self) -> (text: &'static str)
        ensures
            text@ == target_label(self),
    {
        match self {
            CarveTarget::Pack(EnemyKind::Slime) => "slime",
            CarveTarget::Pack(EnemyKind::Bat) => "bat",
            CarveTarget::Pack(EnemyKind::Goblin) => "goblin",
            CarveTarget::Pack(EnemyKind::Skeleton) => "skeleton",
            CarveTarget::Pack(EnemyKind::Zombie) => "zombie",
            CarveTarget::KingSlime => "king slime",
        }
    }
}

/// Rarity band of a bonus carve part.
#[derive(Clone, Copy, Debug, PartialEq, Eq, PartialOrd, Ord, Hash, Structural)]
pub enum LootRarity {
    Common,
    Uncommon,
    Rare,
}

/// Integer weights for Common / Uncommon / Rare bonus rolls.
#[derive(Clone, Copy, Debug, PartialEq, Eq, Structural)]
pub struct RarityWeights {
    pub common: u32,
    pub uncommon: u32,
    pub rare: u32,
}

impl Default for RarityWeights {
    fn default() -> (weights: Self)
        ensures
            weights == (RarityWeights { common: 70, uncommon: 25, rare: 5 }),
    {
        RarityWeights { common: 70, uncommon: 25, rare: 5 }
    }
}

#[derive(Clone, Copy, Debug, PartialEq, Eq, Structural)]
pub struct BonusDrop {
    pub material: MaterialId,
    pub amount: u32,
    pub rarity: LootRarity,
}

/// Guaranteed drops are always granted; each bonus roll picks a rarity, then
/// a part of that rarity.
#[derive(Clone, Debug)]
pub struct LootTable {
    pub target: CarveTarget,
    pub guaranteed: Vec<(MaterialId, u32)>,
    pub bonus: Vec<BonusDrop>,
    pub rarity_weights: RarityWeights,
    pub bonus_rolls: u32,
}

/// Bonus rolls of a table that does not name its count.
pub fn default_bonus_rolls() -> (rolls: u32)
    ensures
        rolls == 1,
{
    1
}

/// Chooses the rarity band of one bonus roll from the table's weights,
/// drawing from `rng`; `None` when no band has weight.
pub trait RarityPicker {
    fn pick_rarity(&self, weights: RarityWeights, rng: &mut StdRng) -> Option<LootRarity>;
}

// ---------------------------------------------------------------------------
// Stacking drops per material.

/// Some entry carries material `m`.
pub open spec fn holds_material(drops: Seq<(MaterialId, u32)>, m: MaterialId) -> bool {
    exists|i: int| 0 <= i < drops.len() && #[trigger] drops[i].0 == m
}

/// Entry `i` is the first one that carries `m`.
pub open spec fn is_first_slot(drops: Seq<(MaterialId, u32)>, m: MaterialId, i: int) -> bool {
    &&& 0 <= i < drops.len()
    &&& drops[i].0 == m
    &&& forall|j: int| 0 <= j < i ==> #[trigger] drops[j].0 != m
}

pub open spec fn first_slot(drops: Seq<(MaterialId, u32)>, m: MaterialId) -> int {
    choose|i: int| is_first_slot(drops, m, i)
}

/// `drops` after adding `amount` of `m`: onto the first entry of `m`, or as a
/// new entry at the end.
pub open spec fn stacked(drops: Seq<(MaterialId, u32)>, m: MaterialId, amount: u32) -> Seq<(MaterialId, u32)> {
    if holds_material(drops, m) {
        let i = first_slot(drops, m);
        drops.update(i, (m, (drops[i].1 + amount) as u32))
    } else {
        drops.push((m, amount))
    }
}

/// The pairs stacked one after the other onto an empty list.
pub open spec fn stack_all(pairs: Seq<(MaterialId, u32)>) -> Seq<(MaterialId, u32)>
    decreases pairs.len(),
{
    if pairs.len() == 0 {
        Seq::empty()
    } else {
        stacked(stack_all(pairs.drop_last()), pairs.last().0, pairs.last().1)
    }
}

/// How much of `m` the entries carry in all.
pub open spec fn tally(drops: Seq<(MaterialId, u32)>, m: MaterialId) -> nat
    decreases drops.len(),
{
    if drops.len() == 0 {
        0
    } else {
        tally(drops.drop_last(), m) + if drops.last().0 == m { drops.last().1 as nat } else { 0 }
    }
}

/// No material has two entries.
pub open spec fn distinct_materials(drops: Seq<(MaterialId, u32)>) -> bool {
    forall|i: int, j: int| 0 <= i < j < drops.len() ==> #[trigger] drops[i].0 != #[trigger] drops[j].0
}

proof fn lemma_first_slot(drops: Seq<(MaterialId, u32)>, m: MaterialId)
    requires
        holds_material(drops, m),
    ensures
        is_first_slot(drops, m, first_slot(drops, m)),
    decreases drops.len(),
{
    let d = drops.drop_last();
    if holds_material(d, m) {
        lemma_first_slot(d, m);
        let k = first_slot(d, m);
        assert(is_first_slot(drops, m, k)) by {
            assert forall|j: int| 0 <= j < k implies #[trigger] drops[j].0 != m by {
                assert(drops[j] == d[j]);
            }
            assert(drops[k] == d[k]);
        }
    } else {
        let k = drops.len() - 1;
        assert(is_first_slot(drops, m, k)) by {
            assert forall|j: int| 0 <= j < k implies #[trigger] drops[j].0 != m by {
                assert(drops[j] == d[j]);
            }
            let w = choose|i: int| 0 <= i < drops.len() && #[trigger] drops[i].0 == m;
            if w < k {
                assert(d[w] == drops[w]);
            }
        }
    }
}

proof fn lemma_first_slot_unique(drops: Seq<(MaterialId, u32)>, m: MaterialId, i: int)
    requires
        is_first_slot(drops, m, i),
    ensures
        first_slot(drops, m) == i,
{
    let k = first_slot(drops, m);
    assert(is_first_slot(drops, m, k));
    if k < i {
        assert(drops[k].0 != m);
    } else if k > i {
        assert(drops[i].0 != m);
    }
}

proof fn lemma_tally_absent(drops: Seq<(MaterialId, u32)>, m: MaterialId)
    requires
        !holds_material(drops, m),
    ensures
        tally(drops, m) == 0,
    decreases drops.len(),
{
    if drops.len() > 0 {
        let d = drops.drop_last();
        assert(!holds_material(d, m)) by {
            if holds_material(d, m) {
                let w = choose|i: int| 0 <= i < d.len() && #[trigger] d[i].0 == m;
                assert(drops[w] == d[w]);
            }
        }
        lemma_tally_absent(d, m);
        assert(drops[drops.len() - 1].0 != m);
    }
}

proof fn lemma_tally_update(drops: Seq<(MaterialId, u32)>, i: int, v: (MaterialId, u32), x: MaterialId)
    requires
        0 <= i < drops.len(),
    ensures
        tally(drops.update(i, v), x) + (if drops[i].0 == x { drops[i].1 as int } else { 0 }) == tally(drops, x) + (
        if v.0 == x { v.1 as int } else { 0 }),
    decreases drops.len(),
{
    let u = drops.update(i, v);
    if i == drops.len() - 1 {
        assert(u.drop_last() =~= drops.drop_last());
    } else {
        lemma_tally_update(drops.drop_last(), i, v, x);
        assert(u.drop_last() =~= drops.drop_last().update(i, v));
    }
}

proof fn lemma_entry_is_tally(drops: Seq<(MaterialId, u32)>, i: int)
    requires
        distinct_materials(drops),
        0 <= i < drops.len(),
    ensures
        drops[i].1 == tally(drops, drops[i].0),
    decreases drops.len(),
{
    let d = drops.drop_last();
    let m = drops[i].0;
    assert(distinct_materials(d)) by {
        assert forall|a: int, b: int| 0 <= a < b < d.len() implies #[trigger] d[a].0 != #[trigger] d[b].0 by {
            assert(d[a] == drops[a] && d[b] == drops[b]);
        }
    }
    if i == drops.len() - 1 {
        assert(!holds_material(d, m)) by {
            if holds_material(d, m) {
                let w = choose|j: int| 0 <= j < d.len() && #[trigger] d[j].0 == m;
                assert(d[w] == drops[w]);
            }
        }
        lemma_tally_absent(d, m);
    } else {
        lemma_entry_is_tally(d, i);
        assert(d[i] == drops[i]);
    }
}

/// Stacking keeps each material in one entry, and adds exactly the stacked
/// amount to that material's total, leaving every other total alone.
pub proof fn lemma_stacking_adds_to_one_material(drops: Seq<(MaterialId, u32)>, m: MaterialId, amount: u32)
    requires
        distinct_materials(drops),
        tally(drops, m) + amount <= u32::MAX,
    ensures
        distinct_materials(stacked(drops, m, amount)),
        forall|x: MaterialId| #[trigger] tally(stacked(drops, m, amount), x) == tally(drops, x) + (if x == m { amount as nat } else { 0 }),
{
    let s = stacked(drops, m, amount);
    if holds_material(drops, m) {
        lemma_first_slot(drops, m);
        let i = first_slot(drops, m);
        lemma_entry_is_tally(drops, i);
        assert forall|x: MaterialId| #[trigger] tally(s, x) == tally(drops, x) + (if x == m { amount as nat } else { 0 }) by {
            lemma_tally_update(drops, i, (m, (drops[i].1 + amount) as u32), x);
        }
        assert forall|a: int, b: int| 0 <= a < b < s.len() implies #[trigger] s[a].0 != #[trigger] s[b].0 by {
            assert(s[a].0 == drops[a].0 && s[b].0 == drops[b].0);
        }
    } else {
        assert forall|x: MaterialId| #[trigger] tally(s, x) == tally(drops, x) + (if x == m { amount as nat } else { 0 }) by {
            assert(s.drop_last() =~= drops);
        }
        assert forall|a: int, b: int| 0 <= a < b < s.len() implies #[trigger] s[a].0 != #[trigger] s[b].0 by {
            if b == drops.len() {
                assert(s[a] == drops[a]);
            } else {
                assert(s[a] == drops[a] && s[b] == drops[b]);
            }
        }
    }
}

/// Stacking all of `pairs` gives one entry per material, each holding that
/// material's total over the pairs.
pub proof fn lemma_stack_all_totals(pairs: Seq<(MaterialId, u32)>)
    requires
        tallies_fit(pairs),
    ensures
        distinct_materials(stack_all(pairs)),
        forall|x: MaterialId| #[trigger] tally(stack_all(pairs), x) == tally(pairs, x),
    decreases pairs.len(),
{
    if pairs.len() > 0 {
        let d = pairs.drop_last();
        let (m, a) = pairs.last();
        assert(tallies_fit(d)) by {
            assert forall|x: MaterialId| #[trigger] tally(d, x) <= u32::MAX by {
                assert(tally(pairs, x) <= u32::MAX);
            }
        }
        lemma_stack_all_totals(d);
        assert(tally(pairs, m) <= u32::MAX);
        lemma_stacking_adds_to_one_material(stack_all(d), m, a);
    }
}

/// Each material's total over the pairs fits in a `u32`.
pub open spec fn tallies_fit(pairs: Seq<(MaterialId, u32)>) -> bool {
    forall|m: MaterialId| #[trigger] tally(pairs, m) <= u32::MAX
}

/// Index of the first entry that carries `material`, if any.
fn find_slot(drops: &Vec<(MaterialId, u32)>, material: MaterialId) -> (slot: Option<usize>)
    ensures
        slot is None <==> !holds_material(drops@, material),
        slot matches Some(i) ==> is_first_slot(drops@, material, i as int),
{
    let mut i: usize = 0;
    while i < drops.len()
        invariant
            i <= drops@.len(),
            forall|j: int| 0 <= j < i ==> #[trigger] drops@[j].0 != material,
        decreases drops@.len() - i,
    {
        if drops[i].0 == material {
            return Some(i);
        }
        i += 1;
    }
    None
}

/// Adds `amount` of `material` onto its first entry, or appends a new entry.
pub fn push_or_stack(drops: &mut Vec<(MaterialId, u32)>, material: MaterialId, amount: u32)
    requires
        forall|i: int| 0 <= i < old(drops)@.len() && #[trigger] old(drops)@[i].0 == material ==> old(drops)@[i].1 + amount <= u32::MAX,
    ensures
        final(drops)@ == stacked(old(drops)@, material, amount),
{
    match find_slot(drops, material) {
        Some(i) => {
            proof {
                lemma_first_slot_unique(drops@, material, i as int);
            }
            let total = drops[i].1;
            drops.set(i, (material, total + amount));
        },
        None => {
            drops.push((material, amount));
        },
    }
}

// ---------------------------------------------------------------------------
// Loot tables.

/// The guaranteed parts of a table, then its bonus parts, as pairs.
pub open spec fn every_part(table: LootTable) -> Seq<(MaterialId, u32)> {
    table.guaranteed@ + table.bonus@.map_values(|d: BonusDrop| (d.material, d.amount))
}

/// The bonus parts of one rarity, in table order.
pub open spec fn bonus_pool(bonus: Seq<BonusDrop>, rarity: LootRarity) -> Seq<BonusDrop> {
    bonus.filter(|d: BonusDrop| d.rarity == rarity)
}

/// The largest amount of `m` among the bonus parts (0 when none gives `m`).
pub open spec fn largest_bonus_of(bonus: Seq<BonusDrop>, m: MaterialId) -> nat
    decreases bonus.len(),
{
    if bonus.len() == 0 {
        0
    } else {
        let rest = largest_bonus_of(bonus.drop_last(), m);
        if bonus.last().material == m && bonus.last().amount > rest { bonus.last().amount as nat } else { rest }
    }
}

/// However `rolls` bonus rolls fall, no material's total can pass
/// `u32::MAX`: its guaranteed total plus one largest bonus part of it per
/// roll fits.
pub open spec fn rolls_fit_for(table: LootTable, rolls: nat) -> bool {
    forall|m: MaterialId|
        #[trigger] tally(table.guaranteed@, m) + rolls * largest_bonus_of(table.bonus@, m) <= u32::MAX
}

/// The table's own bonus rolls fit in `u32` for every material.
pub open spec fn rolls_fit(table: LootTable) -> bool {
    rolls_fit_for(table, table.bonus_rolls as nat)
}

proof fn lemma_largest_bonus_of(bonus: Seq<BonusDrop>, i: int)
    requires
        0 <= i < bonus.len(),
    ensures
        bonus[i].amount <= largest_bonus_of(bonus, bonus[i].material),
    decreases bonus.len(),
{
    if i < bonus.len() - 1 {
        lemma_largest_bonus_of(bonus.drop_last(), i);
        assert(bonus.drop_last()[i] == bonus[i]);
    }
}

/// What one bonus roll gives once its rarity came up as `rarity`: nothing
/// when no rarity came up or the table has no part of it, else one part of
/// that rarity from the table.
pub open spec fn pick_matches(bonus: Seq<BonusDrop>, rarity: Option<LootRarity>, pick: Option<BonusDrop>) -> bool {
    match rarity {
        None => pick is None,
        Some(r) => if bonus_pool(bonus, r).len() == 0 {
            pick is None
        } else {
            pick matches Some(d) && bonus_pool(bonus, r).contains(d) && d.rarity == r && bonus.contains(d)
        },
    }
}

/// The pairs of the parts the bonus rolls gave, in roll order; a roll that
/// gave nothing adds none.
pub open spec fn chosen_pairs(picks: Seq<Option<BonusDrop>>) -> Seq<(MaterialId, u32)>
    decreases picks.len(),
{
    if picks.len() == 0 {
        Seq::empty()
    } else {
        let front = chosen_pairs(picks.drop_last());
        match picks.last() {
            Some(d) => front.push((d.material, d.amount)),
            None => front,
        }
    }
}

/// Loot of one carve whose bonus rolls came up `rarities`, one per roll:
/// the guaranteed parts, then what each roll gave for its rarity, stacked
/// per material.
pub open spec fn rolled_with(table: LootTable, rarities: Seq<Option<LootRarity>>, drops: Seq<(MaterialId, u32)>) -> bool {
    exists|picks: Seq<Option<BonusDrop>>|
        #![trigger chosen_pairs(picks)]
        picks.len() == rarities.len() && (forall|k: int|
            0 <= k < picks.len() ==> #[trigger] pick_matches(table.bonus@, rarities[k], picks[k]))
            && drops == stack_all(table.guaranteed@ + chosen_pairs(picks))
}

/// One bonus part of `rarity`, drawn evenly from the table's parts of that
/// rarity; `None` when it has none.
fn pick_bonus(table: &LootTable, rarity: LootRarity, rng: &mut StdRng) -> (picked: Option<BonusDrop>)
    ensures
        picked is None <==> bonus_pool(table.bonus@, rarity).len() == 0,
        picked matches Some(d) ==> bonus_pool(table.bonus@, rarity).contains(d) && table.bonus@.contains(d)
            && d.rarity == rarity,
{
    let mut pool: Vec<BonusDrop> = Vec::new();
    let mut i: usize = 0;
    while i < table.bonus.len()
        invariant
            i <= table.bonus@.len(),
            pool@ == bonus_pool(table.bonus@.take(i as int), rarity),
            forall|k: int| 0 <= k < pool@.len() ==> table.bonus@.contains(#[trigger] pool@[k]) && pool@[k].rarity == rarity,
        decreases table.bonus@.len() - i,
    {
        let drop = table.bonus[i];
        proof {
            reveal(Seq::filter);
            assert(table.bonus@.take(i + 1).drop_last() =~= table.bonus@.take(i as int));
        }
        if drop.rarity == rarity {
            proof {
                assert(table.bonus@[i as int] == drop);
            }
            pool.push(drop);
        }
        i += 1;
    }
    proof {
        assert(table.bonus@.take(i as int) =~= table.bonus@);
    }
    if pool.len() == 0 {
        return None;
    }
    let index = gen_index(rng, pool.len());
    let chosen = pool[index];
    proof {
        assert(pool@[index as int] == chosen);
    }
    Some(chosen)
}

/// The guaranteed parts of a table, stacked per material.
fn stack_guaranteed(table: &LootTable) -> (drops: Vec<(MaterialId, u32)>)
    requires
        tallies_fit(table.guaranteed@),
    ensures
        drops@ == stack_all(table.guaranteed@),
        distinct_materials(drops@),
        forall|x: MaterialId| #[trigger] tally(drops@, x) == tally(table.guaranteed@, x),
{
    let mut drops: Vec<(MaterialId, u32)> = Vec::new();
    let mut g: usize = 0;
    while g < table.guaranteed.len()
        invariant
            g <= table.guaranteed@.len(),
            tallies_fit(table.guaranteed@),
            drops@ == stack_all(table.guaranteed@.take(g as int)),
            distinct_materials(drops@),
            forall|x: MaterialId| #[trigger] tally(drops@, x) == tally(table.guaranteed@.take(g as int), x),
        decreases table.guaranteed@.len() - g,
    {
        let (material, amount) = table.guaranteed[g];
        proof {
            assert(table.guaranteed@[g as int] == (material, amount));
            lemma_stack_step(table.guaranteed@, g as int, drops@);
        }
        push_or_stack(&mut drops, material, amount);
        g += 1;
    }
    proof {
        assert(table.guaranteed@.take(g as int) =~= table.guaranteed@);
    }
    drops
}

/// One bonus roll whose rarity came up as `rarity`: a part of that rarity,
/// drawn evenly from the table's parts of it, stacked onto `drops`; nothing
/// when no rarity came up or the table has no part of it.
fn bonus_roll(
    table: &LootTable,
    rarity: Option<LootRarity>,
    rng: &mut StdRng,
    drops: &mut Vec<(MaterialId, u32)>,
) -> (pick: Option<BonusDrop>)
    requires
        distinct_materials(old(drops)@),
        forall|m: MaterialId| #[trigger] tally(old(drops)@, m) + largest_bonus_of(table.bonus@, m) <= u32::MAX,
    ensures
        pick_matches(table.bonus@, rarity, pick),
        final(drops)@ == (match pick {
            Some(d) => stacked(old(drops)@, d.material, d.amount),
            None => old(drops)@,
        }),
        distinct_materials(final(drops)@),
        forall|x: MaterialId| #[trigger] tally(final(drops)@, x) == tally(old(drops)@, x) + (match pick {
            Some(d) => if x == d.material { d.amount as nat } else { 0nat },
            None => 0nat,
        }),
{
    let r = match rarity {
        Some(r) => r,
        None => return None,
    };
    let drop = match pick_bonus(table, r, rng) {
        Some(d) => d,
        None => return None,
    };
    proof {
        let idx = choose|k: int| 0 <= k < table.bonus@.len() && table.bonus@[k] == drop;
        lemma_largest_bonus_of(table.bonus@, idx);
        assert(tally(drops@, drop.material) + largest_bonus_of(table.bonus@, drop.material) <= u32::MAX);
        lemma_room_to_stack(drops@, drop.material, drop.amount);
        lemma_stacking_adds_to_one_material(drops@, drop.material, drop.amount);
    }
    push_or_stack(drops, drop.material, drop.amount);
    Some(drop)
}

/// `rarities` and `picks` are the first rolls of a carve and `drops` its
/// loot so far.
spec fn rolls_so_far(
    table: LootTable,
    rarities: Seq<Option<LootRarity>>,
    picks: Seq<Option<BonusDrop>>,
    drops: Seq<(MaterialId, u32)>,
) -> bool {
    &&& picks.len() == rarities.len()
    &&& forall|k: int| 0 <= k < picks.len() ==> #[trigger] pick_matches(table.bonus@, rarities[k], picks[k])
    &&& drops == stack_all(table.guaranteed@ + chosen_pairs(picks))
    &&& distinct_materials(drops)
    &&& forall|x: MaterialId| #[trigger] tally(drops, x) == tally(table.guaranteed@ + chosen_pairs(picks), x)
}

/// The part a roll gave, if any, is one of the table's bonus parts.
spec fn from_table(bonus: Seq<BonusDrop>, pick: Option<BonusDrop>) -> bool {
    pick matches Some(d) ==> bonus.contains(d)
}

proof fn lemma_rolls_start(table: LootTable, drops: Seq<(MaterialId, u32)>)
    requires
        drops == stack_all(table.guaranteed@),
        distinct_materials(drops),
        forall|x: MaterialId| #[trigger] tally(drops, x) == tally(table.guaranteed@, x),
    ensures
        rolls_so_far(table, Seq::empty(), Seq::empty(), drops),
{
    assert(chosen_pairs(Seq::<Option<BonusDrop>>::empty()) =~= Seq::<(MaterialId, u32)>::empty());
    assert(table.guaranteed@ + chosen_pairs(Seq::<Option<BonusDrop>>::empty()) =~= table.guaranteed@);
}

/// Before the last of `rolls` rolls, the loot has room for any bonus part.
proof fn lemma_room_for_roll(
    table: LootTable,
    rolls: nat,
    rarities: Seq<Option<LootRarity>>,
    picks: Seq<Option<BonusDrop>>,
    drops: Seq<(MaterialId, u32)>,
)
    requires
        rolls_fit_for(table, rolls),
        picks.len() < rolls,
        rolls_so_far(table, rarities, picks, drops),
    ensures
        forall|m: MaterialId| #[trigger] tally(drops, m) + largest_bonus_of(table.bonus@, m) <= u32::MAX,
{
    assert forall|k: int| 0 <= k < picks.len() implies #[trigger] from_table(table.bonus@, picks[k]) by {
        assert(pick_matches(table.bonus@, rarities[k], picks[k]));
    }
    assert forall|m: MaterialId| #[trigger] tally(drops, m) + largest_bonus_of(table.bonus@, m) <= u32::MAX by {
        let big = largest_bonus_of(table.bonus@, m);
        lemma_tally_concat(table.guaranteed@, chosen_pairs(picks), m);
        lemma_chosen_tally(picks, table.bonus@, m);
        lemma_scaled_bound(picks.len() as int, rolls as int, big as int);
        assert(tally(table.guaranteed@, m) + rolls * big <= u32::MAX);
    }
}

/// One more roll, `rarity` giving `pick`, extends the carve.
proof fn lemma_roll_step(
    table: LootTable,
    rarities: Seq<Option<LootRarity>>,
    picks: Seq<Option<BonusDrop>>,
    drops: Seq<(MaterialId, u32)>,
    rarity: Option<LootRarity>,
    pick: Option<BonusDrop>,
    next: Seq<(MaterialId, u32)>,
)
    requires
        rolls_so_far(table, rarities, picks, drops),
        pick_matches(table.bonus@, rarity, pick),
        next == (match pick {
            Some(d) => stacked(drops, d.material, d.amount),
            None => drops,
        }),
        distinct_materials(next),
        forall|x: MaterialId| #[trigger] tally(next, x) == tally(drops, x) + (match pick {
            Some(d) => if x == d.material { d.amount as nat } else { 0nat },
            None => 0nat,
        }),
    ensures
        rolls_so_far(table, rarities.push(rarity), picks.push(pick), next),
{
    let r2 = rarities.push(rarity);
    let p2 = picks.push(pick);
    let before = table.guaranteed@ + chosen_pairs(picks);
    assert(p2.drop_last() =~= picks);
    assert forall|k: int| 0 <= k < p2.len() implies #[trigger] pick_matches(table.bonus@, r2[k], p2[k]) by {
        if k < picks.len() {
            assert(r2[k] == rarities[k] && p2[k] == picks[k]);
        }
    }
    match pick {
        Some(d) => {
            let pair = (d.material, d.amount);
            assert(chosen_pairs(p2) == chosen_pairs(picks).push(pair));
            assert(table.guaranteed@ + chosen_pairs(p2) =~= before.push(pair));
            assert(before.push(pair).drop_last() =~= before);
            assert forall|x: MaterialId| #[trigger] tally(next, x) == tally(table.guaranteed@ + chosen_pairs(p2), x) by {
                assert(tally(before.push(pair), x) == tally(before, x) + (if pair.0 == x { pair.1 as nat } else { 0 }));
            }
        },
        None => {
            assert(chosen_pairs(p2) == chosen_pairs(picks));
        },
    }
}

/// Rolls one table: every guaranteed part, then `bonus_rolls` rolls that
/// each take a rarity from `picker` and then a part of it, skipping a roll
/// whose rarity is empty; parts of one material stack into one entry. The
/// rarities the picker gave come back beside the loot.
pub fn roll_table<R: RarityPicker>(
    table: &LootTable,
    rng: &mut StdRng,
    picker: &R,
) -> (out: (Vec<(MaterialId, u32)>, Ghost<Seq<Option<LootRarity>>>))
    requires
        rolls_fit(*table),
    ensures
        out.1@.len() == table.bonus_rolls,
        rolled_with(*table, out.1@, out.0@),
        distinct_materials(out.0@),
{
    proof {
        lemma_guaranteed_fit(*table, table.bonus_rolls as nat);
    }
    let mut drops = stack_guaranteed(table);
    let ghost mut rarities: Seq<Option<LootRarity>> = Seq::empty();
    let ghost mut picks: Seq<Option<BonusDrop>> = Seq::empty();
    proof {
        lemma_rolls_start(*table, drops@);
    }
    let mut roll: u32 = 0;
    while roll < table.bonus_rolls
        invariant
            roll <= table.bonus_rolls,
            rolls_fit_for(*table, table.bonus_rolls as nat),
            rarities.len() == roll,
            rolls_so_far(*table, rarities, picks, drops@),
        decreases table.bonus_rolls - roll,
    {
        let rarity = picker.pick_rarity(table.rarity_weights, rng);
        proof {
            lemma_room_for_roll(*table, table.bonus_rolls as nat, rarities, picks, drops@);
        }
        let ghost before = drops@;
        let pick = bonus_roll(table, rarity, rng, &mut drops);
        proof {
            lemma_roll_step(*table, rarities, picks, before, rarity, pick, drops@);
            rarities = rarities.push(rarity);
            picks = picks.push(pick);
        }
        roll += 1;
    }
    proof {
        assert(rolled_with(*table, rarities, drops@));
    }
    (drops, Ghost(rarities))
}

/// Rolls one table whose bonus rolls came up `rarities`, one roll per
/// entry: every guaranteed part, then for each roll a part of its rarity,
/// nothing for a roll with no rarity or an empty one; parts of one material
/// stack into one entry.
pub fn roll_from_rarities(
    table: &LootTable,
    rarities: &[Option<LootRarity>],
    rng: &mut StdRng,
) -> (drops: Vec<(MaterialId, u32)>)
    requires
        rolls_fit_for(*table, rarities@.len()),
    ensures
        rolled_with(*table, rarities@, drops@),
        distinct_materials(drops@),
{
    proof {
        lemma_guaranteed_fit(*table, rarities@.len());
    }
    let mut drops = stack_guaranteed(table);
    let ghost mut picks: Seq<Option<BonusDrop>> = Seq::empty();
    proof {
        lemma_rolls_start(*table, drops@);
    }
    let mut i: usize = 0;
    while i < rarities.len()
        invariant
            i <= rarities@.len(),
            rolls_fit_for(*table, rarities@.len()),
            rolls_so_far(*table, rarities@.take(i as int), picks, drops@),
        decreases rarities@.len() - i,
    {
        let rarity = rarities[i];
        proof {
            lemma_room_for_roll(*table, rarities@.len(), rarities@.take(i as int), picks, drops@);
        }
        let ghost before = drops@;
        let pick = bonus_roll(table, rarity, rng, &mut drops);
        proof {
            lemma_roll_step(*table, rarities@.take(i as int), picks, before, rarity, pick, drops@);
            assert(rarities@.take(i as int).push(rarity) =~= rarities@.take(i + 1));
            picks = picks.push(pick);
        }
        i += 1;
    }
    proof {
        assert(rarities@.take(i as int) =~= rarities@);
        assert(rolled_with(*table, rarities@, drops@));
    }
    drops
}

/// With room for `rolls` rolls, the guaranteed parts alone fit.
proof fn lemma_guaranteed_fit(table: LootTable, rolls: nat)
    requires
        rolls_fit_for(table, rolls),
    ensures
        tallies_fit(table.guaranteed@),
{
    assert forall|m: MaterialId| #[trigger] tally(table.guaranteed@, m) <= u32::MAX by {
        assert(tally(table.guaranteed@, m) + rolls * largest_bonus_of(table.bonus@, m) <= u32::MAX);
        assert(rolls * largest_bonus_of(table.bonus@, m) >= 0) by (nonlinear_arith);
    }
}

proof fn lemma_scaled_bound(n: int, rolls: int, largest: int)
    requires
        0 <= n < rolls,
        0 <= largest,
    ensures
        (n + 1) * largest <= rolls * largest,
        (n + 1) * largest == n * largest + largest,
        n * largest >= 0,
{
    assert((n + 1) * largest == n * largest + largest) by (nonlinear_arith);
    assert((n + 1) * largest <= rolls * largest) by (nonlinear_arith)
        requires
            0 <= n < rolls,
            0 <= largest,
    ;
    assert(n * largest >= 0) by (nonlinear_arith)
        requires
            0 <= n,
            0 <= largest,
    ;
}

proof fn lemma_tally_concat(a: Seq<(MaterialId, u32)>, b: Seq<(MaterialId, u32)>, m: MaterialId)
    ensures
        tally(a + b, m) == tally(a, m) + tally(b, m),
    decreases b.len(),
{
    if b.len() > 0 {
        lemma_tally_concat(a, b.drop_last(), m);
        assert((a + b).drop_last() =~= a + b.drop_last());
    } else {
        assert(a + b =~= a);
    }
}

proof fn lemma_chosen_tally(picks: Seq<Option<BonusDrop>>, bonus: Seq<BonusDrop>, m: MaterialId)
    requires
        forall|k: int| 0 <= k < picks.len() ==> #[trigger] from_table(bonus, picks[k]),
    ensures
        tally(chosen_pairs(picks), m) <= picks.len() * largest_bonus_of(bonus, m),
    decreases picks.len(),
{
    let big = largest_bonus_of(bonus, m);
    if picks.len() > 0 {
        let front = picks.drop_last();
        assert forall|k: int| 0 <= k < front.len() implies #[trigger] from_table(bonus, front[k]) by {
            assert(front[k] == picks[k]);
        }
        lemma_chosen_tally(front, bonus, m);
        lemma_scaled_bound(front.len() as int, front.len() as int + 1, big as int);
        assert(from_table(bonus, picks[picks.len() - 1]));
        match picks.last() {
            Some(d) => {
                let idx = choose|i: int| 0 <= i < bonus.len() && bonus[i] == d;
                lemma_largest_bonus_of(bonus, idx);
                assert(chosen_pairs(picks).drop_last() =~= chosen_pairs(front));
            },
            None => {},
        }
    } else {
        assert(picks.len() * big == 0) by (nonlinear_arith)
            requires
                picks.len() == 0,
        ;
    }
}

/// A carve always yields the table's guaranteed parts: whatever rarities
/// the bonus rolls came up, each material's total in the loot is at least
/// its total among the guaranteed parts, and no material has two entries.
pub proof fn lemma_roll_keeps_guaranteed(table: LootTable, rarities: Seq<Option<LootRarity>>, drops: Seq<(MaterialId, u32)>)
    requires
        rolled_with(table, rarities, drops),
        rolls_fit_for(table, rarities.len()),
    ensures
        distinct_materials(drops),
        forall|m: MaterialId| #[trigger] tally(drops, m) >= tally(table.guaranteed@, m),
{
    let picks = choose|picks: Seq<Option<BonusDrop>>|
        #![trigger chosen_pairs(picks)]
        picks.len() == rarities.len() && (forall|k: int|
            0 <= k < picks.len() ==> #[trigger] pick_matches(table.bonus@, rarities[k], picks[k]))
            && drops == stack_all(table.guaranteed@ + chosen_pairs(picks));
    let pairs = table.guaranteed@ + chosen_pairs(picks);
    assert forall|k: int| 0 <= k < picks.len() implies #[trigger] from_table(table.bonus@, picks[k]) by {
        assert(pick_matches(table.bonus@, rarities[k], picks[k]));
    }
    assert(tallies_fit(pairs)) by {
        assert forall|m: MaterialId| #[trigger] tally(pairs, m) <= u32::MAX by {
            lemma_chosen_tally(picks, table.bonus@, m);
            lemma_tally_concat(table.guaranteed@, chosen_pairs(picks), m);
            assert(tally(table.guaranteed@, m) + rarities.len() * largest_bonus_of(table.bonus@, m) <= u32::MAX);
        }
    }
    lemma_stack_all_totals(pairs);
    assert forall|m: MaterialId| #[trigger] tally(drops, m) >= tally(table.guaranteed@, m) by {
        lemma_tally_concat(table.guaranteed@, chosen_pairs(picks), m);
    }
}

/// With one entry per material, each entry holds its material's total, so
/// adding within the overall bound cannot overflow.
proof fn lemma_room_to_stack(drops: Seq<(MaterialId, u32)>, m: MaterialId, amount: u32)
    requires
        distinct_materials(drops),
        tally(drops, m) + amount <= u32::MAX,
    ensures
        forall|i: int| 0 <= i < drops.len() && #[trigger] drops[i].0 == m ==> drops[i].1 + amount <= u32::MAX,
{
    assert forall|i: int| 0 <= i < drops.len() && #[trigger] drops[i].0 == m implies drops[i].1 + amount <= u32::MAX by {
        lemma_entry_is_tally(drops, i);
    }
}

// ---------------------------------------------------------------------------
// The loot book.

/// Loot tables by target.
pub struct CarveLootBook {
    tables: Vec<LootTable>,
}

impl View for CarveLootBook {
    type V = Seq<LootTable>;

    closed spec fn view(&self) -> Seq<LootTable> {
        self.tables@
    }
}

/// Table `i` is the first one for `target`.
pub open spec fn first_table_for(tables: Seq<LootTable>, target: CarveTarget, i: int) -> bool {
    &&& 0 <= i < tables.len()
    &&& tables[i].target == target
    &&& forall|j: int| 0 <= j < i ==> #[trigger] tables[j].target != target
}

impl CarveLootBook {
    pub fn from_tables(tables: Vec<LootTable>) -> (book: Self)
        ensures
            book@ == tables@,
    {
        CarveLootBook { tables }
    }

    pub fn table_for(&self, target: CarveTarget) -> (found: Option<&LootTable>)
        ensures
            found is None <==> forall|i: int| 0 <= i < self@.len() ==> #[trigger] self@[i].target != target,
            found matches Some(t) ==> exists|i: int| first_table_for(self@, target, i) && #[trigger] self@[i] == *t,
    {
        let mut i: usize = 0;
        while i < self.tables.len()
            invariant
                i <= self.tables@.len(),
                forall|j: int| 0 <= j < i ==> #[trigger] self.tables@[j].target != target,
            decreases self.tables@.len() - i,
        {
            if self.tables[i].target == target {
                proof {
                    assert(first_table_for(self@, target, i as int));
                }
                return Some(&self.tables[i]);
            }
            i += 1;
        }
        None
    }

    /// Carve yields for a target through `picker`'s rarity choices, beside
    /// the rarities it gave; nothing without a table.
    pub fn roll_with<R: RarityPicker>(
        &self,
        target: CarveTarget,
        rng: &mut StdRng,
        picker: &R,
    ) -> (out: (Vec<(MaterialId, u32)>, Ghost<Seq<Option<LootRarity>>>))
        requires
            forall|i: int| #[trigger] first_table_for(self@, target, i) ==> rolls_fit(self@[i]),
        ensures
            (forall|i: int| 0 <= i < self@.len() ==> #[trigger] self@[i].target != target) ==> out.0@.len() == 0
                && out.1@.len() == 0,
            forall|i: int| first_table_for(self@, target, i) ==> out.1@.len() == (#[trigger] self@[i]).bonus_rolls
                && rolled_with(self@[i], out.1@, out.0@),
            distinct_materials(out.0@),
            forall|i: int, m: MaterialId| first_table_for(self@, target, i) ==> #[trigger] tally(out.0@, m) >= tally(
                #[trigger] self@[i].guaranteed@,
                m,
            ),
    {
        match self.table_for(target) {
            None => (Vec::new(), Ghost(Seq::empty())),
            Some(table) => {
                let (drops, rolled) = roll_table(table, rng, picker);
                proof {
                    lemma_roll_keeps_guaranteed(*table, rolled@, drops@);
                    assert forall|i: int, m: MaterialId| first_table_for(self@, target, i) implies #[trigger] tally(drops@, m)
                        >= tally(#[trigger] self@[i].guaranteed@, m) by {
                        let k = choose|k: int| first_table_for(self@, target, k) && #[trigger] self@[k] == *table;
                        if i < k {
                            assert(self@[i].target != target);
                        } else if i > k {
                            assert(self@[k].target != target);
                        }
                    }
                    assert forall|i: int| first_table_for(self@, target, i) implies rolled@.len() == (#[trigger] self@[i]).bonus_rolls
                        && rolled_with(self@[i], rolled@, drops@) by {
                        let k = choose|k: int| first_table_for(self@, target, k) && #[trigger] self@[k] == *table;
                        if i < k {
                            assert(self@[i].target != target);
                        } else if i > k {
                            assert(self@[k].target != target);
                        }
                    }
                }
                (drops, rolled)
            },
        }
    }

    /// Every guaranteed and bonus part of the target's table, stacked per
    /// material; nothing without a table.
    pub fn max_loot(&self, target: CarveTarget) -> (drops: Vec<(MaterialId, u32)>)
        requires
            forall|i: int| #[trigger] first_table_for(self@, target, i) ==> tallies_fit(every_part(self@[i])),
        ensures
            (forall|i: int| 0 <= i < self@.len() ==> #[trigger] self@[i].target != target) ==> drops@.len() == 0,
            forall|i: int| first_table_for(self@, target, i) ==> drops@ == stack_all(every_part(#[trigger] self@[i])),
    {
        match self.table_for(target) {
            None => Vec::new(),
            Some(table) => {
                let ghost parts = every_part(*table);
                proof {
                    let k = choose|k: int| first_table_for(self@, target, k) && #[trigger] self@[k] == *table;
                    assert(self@[k] == *table);
                }
                let mut drops: Vec<(MaterialId, u32)> = Vec::new();
                let ghost mut done: Seq<(MaterialId, u32)> = Seq::empty();
                let mut g: usize = 0;
                while g < table.guaranteed.len()
                    invariant
                        g <= table.guaranteed@.len(),
                        parts == every_part(*table),
                        tallies_fit(parts),
                        done == parts.take(g as int),
                        drops@ == stack_all(done),
                        distinct_materials(drops@),
                        forall|x: MaterialId| #[trigger] tally(drops@, x) == tally(done, x),
                    decreases table.guaranteed@.len() - g,
                {
                    let (material, amount) = table.guaranteed[g];
                    proof {
                        assert(parts[g as int] == (material, amount));
                        lemma_stack_step(parts, g as int, drops@);
                    }
                    push_or_stack(&mut drops, material, amount);
                    g += 1;
                    proof {
                        done = parts.take(g as int);
                    }
                }
                let mut b: usize = 0;
                while b < table.bonus.len()
                    invariant
                        b <= table.bonus@.len(),
                        parts == every_part(*table),
                        parts.len() == table.guaranteed@.len() + table.bonus@.len(),
                        tallies_fit(parts),
                        done == parts.take(table.guaranteed@.len() + b),
                        drops@ == stack_all(done),
                        distinct_materials(drops@),
                        forall|x: MaterialId| #[trigger] tally(drops@, x) == tally(done, x),
                    decreases table.bonus@.len() - b,
                {
                    let drop = table.bonus[b];
                    proof {
                        assert(parts[table.guaranteed@.len() + b] == (drop.material, drop.amount));
                        lemma_stack_step(parts, table.guaranteed@.len() + b, drops@);
                    }
                    push_or_stack(&mut drops, drop.material, drop.amount);
                    b += 1;
                    proof {
                        done = parts.take(table.guaranteed@.len() + b);
                    }
                }
                proof {
                    assert(done =~= parts);
                    assert forall|i: int| first_table_for(self@, target, i) implies drops@ == stack_all(every_part(#[trigger] self@[i])) by {
                        let k = choose|k: int| first_table_for(self@, target, k) && #[trigger] self@[k] == *table;
                        if i < k {
                            assert(self@[i].target != target);
                        } else if i > k {
                            assert(self@[k].target != target);
                        }
                    }
                }
                drops
            },
        }
    }
}

/// Stacking pair `g` of `parts` onto the stack of the pairs before it stays
/// within `u32` and gives the stack of the pairs up to it.
proof fn lemma_stack_step(parts: Seq<(MaterialId, u32)>, g: int, drops: Seq<(MaterialId, u32)>)
    requires
        0 <= g < parts.len(),
        tallies_fit(parts),
        drops == stack_all(parts.take(g)),
        distinct_materials(drops),
        forall|x: MaterialId| #[trigger] tally(drops, x) == tally(parts.take(g), x),
    ensures
        forall|i: int| 0 <= i < drops.len() && #[trigger] drops[i].0 == parts[g].0 ==> drops[i].1 + parts[g].1 <= u32::MAX,
        stacked(drops, parts[g].0, parts[g].1) == stack_all(parts.take(g + 1)),
        distinct_materials(stacked(drops, parts[g].0, parts[g].1)),
        forall|x: MaterialId| #[trigger] tally(stacked(drops, parts[g].0, parts[g].1), x) == tally(parts.take(g + 1), x),
{
    let (m, a) = parts[g];
    let next = parts.take(g + 1);
    assert(next.drop_last() =~= parts.take(g));
    assert(next + parts.skip(g + 1) =~= parts);
    lemma_tally_concat(next, parts.skip(g + 1), m);
    assert(tally(parts, m) <= u32::MAX);
    lemma_room_to_stack(drops, m, a);
    lemma_stacking_adds_to_one_material(drops, m, a);
}

} // verus!
