//! The hand-made first floor, kept for tests and as a fallback layout.

use vstd::prelude::*;

use super::enemy::EnemyKind;
use super::level::{BatSpawn, BossSpawn, EnemySpawn, GeneratedFloor, PlatformSpec};

verus! {

pub const FLOOR_ONE_WIDTH_TILES: u32 = 72;
pub const FLOOR_ONE_LADDER_TILE: u32 = 69;

/// Floor 1 as authored: one floor strip over the whole width, two floating
/// platforms, five floor enemies, two bats and the King Slime's arena.
pub fn floor_one() -> (floor: GeneratedFloor)
    ensures
        floor.width_tiles == FLOOR_ONE_WIDTH_TILES,
        floor.backdrop_rows == 6,
        floor.ground_segments@ == seq![PlatformSpec { left_tile: 0, width_tiles: FLOOR_ONE_WIDTH_TILES, height_tiles: 0 }],
        floor.pitfalls@.len() == 0,
        floor.platforms@ == seq![
            PlatformSpec { left_tile: 18, width_tiles: 6, height_tiles: 5 },
            PlatformSpec { left_tile: 36, width_tiles: 8, height_tiles: 6 },
        ],
        floor.enemies@ == seq![
            EnemySpawn { kind: EnemyKind::Slime, x_half_tiles: 24, height_tiles: 0 },
            EnemySpawn { kind: EnemyKind::Slime, x_half_tiles: 44, height_tiles: 0 },
            EnemySpawn { kind: EnemyKind::Goblin, x_half_tiles: 64, height_tiles: 0 },
            EnemySpawn { kind: EnemyKind::Skeleton, x_half_tiles: 84, height_tiles: 0 },
            EnemySpawn { kind: EnemyKind::Zombie, x_half_tiles: 100, height_tiles: 0 },
        ],
        floor.bats@ == seq![
            BatSpawn { x_half_tiles: 40, height_tiles: 4 },
            BatSpawn { x_half_tiles: 80, height_tiles: 5 },
        ],
        floor.boss == (BossSpawn { x_half_tiles: 117, height_tiles: 0, patrol_min_tile: 54, patrol_max_tile: 66 }),
        floor.has_boss,
        floor.player_start_half_tiles == 5,
        floor.ladder_tile == FLOOR_ONE_LADDER_TILE,
{
    let boss_tile: u32 = 58;
    GeneratedFloor {
        width_tiles: FLOOR_ONE_WIDTH_TILES,
        backdrop_rows: 6,
        ground_segments: vec![PlatformSpec { left_tile: 0, width_tiles: FLOOR_ONE_WIDTH_TILES, height_tiles: 0 }],
        pitfalls: Vec::new(),
        platforms: vec![
            PlatformSpec { left_tile: 18, width_tiles: 6, height_tiles: 5 },
            PlatformSpec { left_tile: 36, width_tiles: 8, height_tiles: 6 },
        ],
        enemies: vec![
            EnemySpawn { kind: EnemyKind::Slime, x_half_tiles: 24, height_tiles: 0 },
            EnemySpawn { kind: EnemyKind::Slime, x_half_tiles: 44, height_tiles: 0 },
            EnemySpawn { kind: EnemyKind::Goblin, x_half_tiles: 64, height_tiles: 0 },
            EnemySpawn { kind: EnemyKind::Skeleton, x_half_tiles: 84, height_tiles: 0 },
            EnemySpawn { kind: EnemyKind::Zombie, x_half_tiles: 100, height_tiles: 0 },
        ],
        bats: vec![
            BatSpawn { x_half_tiles: 40, height_tiles: 4 },
            BatSpawn { x_half_tiles: 80, height_tiles: 5 },
        ],
        boss: BossSpawn {
            x_half_tiles: 2 * boss_tile + 1,
            height_tiles: 0,
            patrol_min_tile: 54,
            patrol_max_tile: 66,
        },
        has_boss: true,
        player_start_half_tiles: 5,
        ladder_tile: FLOOR_ONE_LADDER_TILE,
    }
}

} // verus!
