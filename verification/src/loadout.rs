//! Weapons, armor pieces and what the player has equipped.

use vstd::prelude::*;

verus! {

#[derive(Clone, Copy, Debug, PartialEq, Eq, Hash, Structural)]
pub enum WeaponKind {
    RustySword,
    RustySpear,
    IronSword,
    SlimeBlade,
}

#[derive(Clone, Copy, Debug, PartialEq, Eq, Hash, Structural)]
pub enum ArmorKind {
    SlimeHelm,
    SlimeMail,
    SlimeGauntlets,
    SlimeGreaves,
}

/// Equipped armor, one piece per body slot.
#[derive(Clone, Copy, Debug, PartialEq, Eq, Structural)]
pub struct ArmorSet {
    pub head: Option<ArmorKind>,
    pub chest: Option<ArmorKind>,
    pub hands: Option<ArmorKind>,
    pub legs: Option<ArmorKind>,
}

/// Armor set with `piece` placed in its own slot and the other slots kept.
pub open spec fn with_piece(set: ArmorSet, piece: ArmorKind) -> ArmorSet {
    match piece {
        ArmorKind::SlimeHelm => ArmorSet { head: Some(piece), ..set },
        ArmorKind::SlimeMail => ArmorSet { chest: Some(piece), ..set },
        ArmorKind::SlimeGauntlets => ArmorSet { hands: Some(piece), ..set },
        ArmorKind::SlimeGreaves => ArmorSet { legs: Some(piece), ..set },
    }
}

/// Whether `piece` is worn in its slot.
pub open spec fn wears(set: ArmorSet, piece: ArmorKind) -> bool {
    match piece {
        ArmorKind::SlimeHelm => set.head == Some(piece),
        ArmorKind::SlimeMail => set.chest == Some(piece),
        ArmorKind::SlimeGauntlets => set.hands == Some(piece),
        ArmorKind::SlimeGreaves => set.legs == Some(piece),
    }
}

/// Putting on a piece wears it in its own slot (the helm on the head, the
/// mail on the chest, the gauntlets on the hands, the greaves on the legs)
/// and leaves whether any other piece is worn as it was: two different
/// pieces put on one after the other are both worn, and putting on a piece
/// already worn changes nothing.
pub proof fn lemma_put_on_piece(set: ArmorSet, piece: ArmorKind, other: ArmorKind)
    ensures
        wears(with_piece(set, piece), piece),
        other != piece ==> wears(with_piece(set, piece), other) == wears(set, other),
        other != piece ==> wears(with_piece(with_piece(set, piece), other), piece) && wears(
            with_piece(with_piece(set, piece), other),
            other,
        ),
        wears(set, piece) ==> with_piece(set, piece) == set,
        piece == ArmorKind::SlimeHelm ==> with_piece(set, piece).head == Some(piece),
        piece == ArmorKind::SlimeMail ==> with_piece(set, piece).chest == Some(piece),
        piece == ArmorKind::SlimeGauntlets ==> with_piece(set, piece).hands == Some(piece),
        piece == ArmorKind::SlimeGreaves ==> with_piece(set, piece).legs == Some(piece),
{
}

impl ArmorSet {
    pub fn empty() -> (set: Self)
        ensures
            set.head is None && set.chest is None && set.hands is None && set.legs is None,
    {
        ArmorSet { head: None, chest: None, hands: None, legs: None }
    }

    /// Puts `piece` in its slot, replacing what was there.
    pub fn set(&mut self, piece: ArmorKind)
        ensures
            *final(self) == with_piece(*old(self), piece),
    {
        match piece {
            ArmorKind::SlimeHelm => self.head = Some(piece),
            ArmorKind::SlimeMail => self.chest = Some(piece),
            ArmorKind::SlimeGauntlets => self.hands = Some(piece),
            ArmorKind::SlimeGreaves => self.legs = Some(piece),
        }
    }

    pub fn contains(&self, piece: ArmorKind) -> (worn: bool)
        ensures
            worn == wears(*self, piece),
    {
        match piece {
            ArmorKind::SlimeHelm => self.head == Some(piece),
            ArmorKind::SlimeMail => self.chest == Some(piece),
            ArmorKind::SlimeGauntlets => self.hands == Some(piece),
            ArmorKind::SlimeGreaves => self.legs == Some(piece),
        }
    }
}

/// Equipped weapon and armor.
#[derive(Clone, Copy, Debug, PartialEq, Eq, Structural)]
pub struct Loadout {
    pub weapon: WeaponKind,
    pub armor: ArmorSet,
}

impl Loadout {
    /// Whether `weapon` is the equipped weapon.
    pub fn owns_weapon(&self, weapon: WeaponKind) -> (owned: bool)
        ensures
            owned == (self.weapon == weapon),
    {
        self.weapon == weapon
    }

    /// Whether `armor` is worn in its slot.
    pub fn owns_armor(&self, armor: ArmorKind) -> (owned: bool)
        ensures
            owned == wears(self.armor, armor),
    {
        self.armor.contains(armor)
    }

    pub fn equip_weapon(&mut self, weapon: WeaponKind)
        ensures
            *final(self) == (Loadout { weapon, ..*old(self) }),
    {
        self.weapon = weapon;
    }

    pub fn equip_armor(&mut self, armor: ArmorKind)
        ensures
            *final(self) == (Loadout { armor: with_piece(old(self).armor, armor), ..*old(self) }),
    {
        self.armor.set(armor);
    }
}

impl Default for Loadout {
    /// A new hunter carries the rusty sword and no armor.
    fn default() -> (l: Self)
        ensures
            l.weapon == WeaponKind::RustySword,
            l.armor == (ArmorSet { head: None, chest: None, hands: None, legs: None }),
    {
        Loadout { weapon: WeaponKind::RustySword, armor: ArmorSet::empty() }
    }
}

/// The weapon an upgrade recipe for `weapon` consumes, if any.
pub open spec fn consumed_by_upgrade(weapon: WeaponKind) -> Option<WeaponKind> {
    match weapon {
        WeaponKind::SlimeBlade => Some(WeaponKind::IronSword),
        _ => None,
    }
}

/// Which weapon each forged weapon is upgraded from.
pub struct WeaponUpgradeTree;

impl WeaponUpgradeTree {
    pub fn consumes_weapon(weapon: WeaponKind) -> (base: Option<WeaponKind>)
        ensures
            base == consumed_by_upgrade(weapon),
    {
        match weapon {
            WeaponKind::SlimeBlade => Some(WeaponKind::IronSword),
            _ => None,
        }
    }
}

} // verus!
