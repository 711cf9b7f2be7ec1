//! Carving corpses: what each enemy yields, storing it, and the loot log.

use vstd::prelude::*;

use crate::items::{added, display_name_of, lemma_counts_bounded, Inventory, MaterialId, MAX_STACK};
use crate::text::{decimal, decimal_text};

use super::enemy::EnemyKind;

verus! {

/// One line of the dungeon loot log.
#[derive(Clone, Debug)]
pub struct LootLogEntry {
    pub text: String,
}

/// Loot lines waiting to be shown.
pub struct LootLog {
    pub pending: Vec<LootLogEntry>,
}

impl Default for LootLog {
    fn default() -> (log: Self)
        ensures
            log.pending@.len() == 0,
    {
        LootLog { pending: Vec::new() }
    }
}

/// The texts of the log lines, in order.
pub open spec fn log_texts(entries: Seq<LootLogEntry>) -> Seq<Seq<char>> {
    entries.map_values(|e: LootLogEntry| e.text@)
}

pub open spec fn carved_line(name: Seq<char>, amount: u32) -> Seq<char> {
    "Carved "@ + decimal_text(amount as nat) + "× "@ + name
}

pub open spec fn missed_line(name: Seq<char>, amount: u32) -> Seq<char> {
    "Inventory full — lost "@ + decimal_text(amount as nat) + "× "@ + name
}

/// A line for a nonzero amount, nothing for zero.
pub open spec fn line_if_any(line: Seq<char>, amount: u32) -> Seq<Seq<char>> {
    if amount == 0 { Seq::empty() } else { seq![line] }
}

impl LootLog {
    pub fn push_carved(&mut self, display_name: &str, amount: u32)
        ensures
            log_texts(final(self).pending@) == log_texts(old(self).pending@) + line_if_any(
                carved_line(display_name@, amount),
                amount,
            ),
    {
        if amount == 0 {
            return;
        }
        let mut text = "Carved ".to_string();
        let count = decimal(amount);
        text.append(count.as_str());
        text.append("× ");
        text.append(display_name);
        self.push_line(text);
    }

    pub fn push_missed(&mut self, display_name: &str, amount: u32)
        ensures
            log_texts(final(self).pending@) == log_texts(old(self).pending@) + line_if_any(
                missed_line(display_name@, amount),
                amount,
            ),
    {
        if amount == 0 {
            return;
        }
        let mut text = "Inventory full — lost ".to_string();
        let count = decimal(amount);
        text.append(count.as_str());
        text.append("× ");
        text.append(display_name);
        self.push_line(text);
    }

    fn push_line(&mut self, text: String)
        ensures
            log_texts(final(self).pending@) == log_texts(old(self).pending@).push(text@),
    {
        let ghost before = log_texts(self.pending@);
        self.pending.push(LootLogEntry { text });
        proof {
            assert(log_texts(self.pending@) =~= before.push(text@));
        }
    }
}

/// What carving one corpse of each kind yields.
pub open spec fn carve_loot_of(kind: EnemyKind) -> Seq<(MaterialId, u32)> {
    match kind {
        EnemyKind::Slime => seq![(MaterialId::SlimeGel, 3u32), (MaterialId::SlimeCore, 1u32), (MaterialId::IronScrap, 1u32)],
        EnemyKind::Bat => seq![(MaterialId::LeatherWing, 1u32), (MaterialId::Fang, 1u32)],
        EnemyKind::Goblin => seq![(MaterialId::Fang, 1u32), (MaterialId::IronScrap, 1u32)],
        EnemyKind::Skeleton => seq![(MaterialId::IronScrap, 2u32)],
        EnemyKind::Zombie => seq![(MaterialId::IronScrap, 1u32), (MaterialId::SlimeGel, 1u32)],
    }
}

impl EnemyKind {
    pub fn carve_loot(self) -> (loot: &'static [(MaterialId, u32)])
        ensures
            loot@ == carve_loot_of(self),
    {
        match self {
            EnemyKind::Slime => &[(MaterialId::SlimeGel, 3), (MaterialId::SlimeCore, 1), (MaterialId::IronScrap, 1)],
            EnemyKind::Bat => &[(MaterialId::LeatherWing, 1), (MaterialId::Fang, 1)],
            EnemyKind::Goblin => &[(MaterialId::Fang, 1), (MaterialId::IronScrap, 1)],
            EnemyKind::Skeleton => &[(MaterialId::IronScrap, 2)],
            EnemyKind::Zombie => &[(MaterialId::IronScrap, 1), (MaterialId::SlimeGel, 1)],
        }
    }
}

/// How much of `amount` fits next to `counts[m]`.
pub open spec fn received_amount(counts: Map<MaterialId, nat>, m: MaterialId, amount: u32) -> u32 {
    if amount as int <= MAX_STACK - counts[m] { amount } else { (MAX_STACK - counts[m]) as u32 }
}

/// The log lines of storing `loot` in order into an inventory holding
/// `counts`: for each part, what was stored and, when it did not all fit, what
/// was lost.
pub open spec fn carve_log_lines(counts: Map<MaterialId, nat>, loot: Seq<(MaterialId, u32)>) -> Seq<Seq<char>>
    decreases loot.len(),
{
    if loot.len() == 0 {
        Seq::empty()
    } else {
        let (m, amount) = loot[0];
        let got = received_amount(counts, m, amount);
        let lost = (amount - got) as u32;
        line_if_any(carved_line(display_name_of(m), got), got) + line_if_any(missed_line(display_name_of(m), lost), lost)
            + carve_log_lines(added(counts, m, amount as nat), loot.drop_first())
    }
}

/// Stores what a corpse of `kind` yields, part by part, and logs what was
/// stored and what did not fit.
pub fn collect_carve_loot(inventory: &mut Inventory, log: &mut LootLog, kind: EnemyKind)
    ensures
        final(inventory)@ == crate::items::add_in_order(old(inventory)@, carve_loot_of(kind)),
        log_texts(final(log).pending@) == log_texts(old(log).pending@) + carve_log_lines(old(inventory)@, carve_loot_of(kind)),
{
    let loot = kind.carve_loot();
    let ghost start_counts = inventory@;
    let ghost start_lines = log_texts(log.pending@);
    let mut i: usize = 0;
    proof {
        assert(loot@.skip(0) =~= loot@);
    }
    while i < loot.len()
        invariant
            i <= loot@.len(),
            loot@ == carve_loot_of(kind),
            crate::items::add_in_order(inventory@, loot@.skip(i as int)) == crate::items::add_in_order(start_counts, loot@),
            log_texts(log.pending@) + carve_log_lines(inventory@, loot@.skip(i as int)) == start_lines + carve_log_lines(
                start_counts,
                loot@,
            ),
        decreases loot@.len() - i,
    {
        let (material, amount) = loot[i];
        let ghost counts = inventory@;
        let ghost rest = loot@.skip(i as int);
        proof {
            use_type_invariant(&*inventory);
            lemma_counts_bounded(*inventory);
            assert(rest[0] == (material, amount));
            assert(rest.drop_first() =~= loot@.skip(i + 1));
        }
        let leftover = inventory.try_add(material, amount);
        let received = amount - leftover;
        log.push_carved(material.display_name(), received);
        log.push_missed(material.display_name(), leftover);
        proof {
            assert(inventory@ == added(counts, material, amount as nat));
            assert(received == received_amount(counts, material, amount));
            let lines = line_if_any(carved_line(display_name_of(material), received), received) + line_if_any(
                missed_line(display_name_of(material), leftover),
                leftover,
            );
            assert(carve_log_lines(counts, rest) == lines + carve_log_lines(inventory@, loot@.skip(i + 1)));
            assert(log_texts(log.pending@) + carve_log_lines(inventory@, loot@.skip(i + 1)) =~= start_lines + carve_log_lines(
                start_counts,
                loot@,
            ));
        }
        i += 1;
    }
    proof {
        assert(loot@.skip(i as int) =~= Seq::<(MaterialId, u32)>::empty());
    }
}

/// What one frame of holding the carve key does.
#[derive(Clone, Copy, Debug, PartialEq, Eq, Structural)]
pub struct CarveDecision {
    /// The corpse being carved after this frame.
    pub target: Option<u64>,
    /// Start the carve timer over.
    pub restart_timer: bool,
    /// Advance the carve timer this frame (and carve when it runs out).
    pub advance_timer: bool,
}

/// Chooses the carve target for a frame: a hit cancels and restarts the
/// timer; no corpse in reach clears the target; letting go of the key clears
/// it and restarts the timer; a new nearest corpse becomes the target with a
/// fresh timer; holding on the same corpse keeps the timer running.
pub fn carve_decision(current: Option<u64>, hit_flash: bool, nearest: Option<u64>, holding: bool) -> (d: CarveDecision)
    ensures
        hit_flash ==> d == (CarveDecision { target: None, restart_timer: true, advance_timer: false }),
        !hit_flash && nearest is None ==> d == (CarveDecision { target: None, restart_timer: false, advance_timer: false }),
        !hit_flash && nearest is Some && !holding ==> d == (CarveDecision { target: None, restart_timer: true, advance_timer: false }),
        !hit_flash && nearest is Some && holding ==> d == (CarveDecision {
            target: nearest,
            restart_timer: current != nearest,
            advance_timer: true,
        }),
{
    if hit_flash {
        return CarveDecision { target: None, restart_timer: true, advance_timer: false };
    }
    match nearest {
        None => CarveDecision { target: None, restart_timer: false, advance_timer: false },
        Some(corpse) => {
            if !holding {
                CarveDecision { target: None, restart_timer: true, advance_timer: false }
            } else {
                let fresh = match current {
                    Some(c) => c != corpse,
                    None => true,
                };
                CarveDecision { target: Some(corpse), restart_timer: fresh, advance_timer: true }
            }
        },
    }
}

} // verus!
