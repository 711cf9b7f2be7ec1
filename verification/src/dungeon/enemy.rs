//! Dungeon enemy kinds and how they move.

use vstd::prelude::*;

verus! {

#[derive(Clone, Copy, Debug, PartialEq, Eq, Hash, Structural)]
pub enum EnemyKind {
    Slime,
    Bat,
    Goblin,
    Skeleton,
    Zombie,
}

#[derive(Clone, Copy, Debug, PartialEq, Eq, Structural)]
pub enum EnemyMovement {
    Ground,
    Flying,
}

/// Bats fly; every other enemy walks the floor.
pub open spec fn movement_of(kind: EnemyKind) -> EnemyMovement {
    match kind {
        EnemyKind::Bat => EnemyMovement::Flying,
        _ => EnemyMovement::Ground,
    }
}

impl EnemyKind {
    pub fn movement(self) -> (m: EnemyMovement)
        ensures
            m == movement_of(self),
    {
        match self {
            EnemyKind::Bat => EnemyMovement::Flying,
            _ => EnemyMovement::Ground,
        }
    }

    pub fn is_airborne(self) -> (flies: bool)
        ensures
            flies == (movement_of(self) == EnemyMovement::Flying),
    {
        self.movement() == EnemyMovement::Flying
    }
}

} // verus!
