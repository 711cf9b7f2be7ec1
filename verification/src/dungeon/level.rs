//! Dungeon floor layout on the tile grid.
//!
//! Horizontal positions are tile indices (`*_tile`) or half tiles
//! (`*_half_tiles`, for points at tile centres); heights count tiles above the
//! floor line. Rendering turns these into world units.

use vstd::prelude::*;

use super::enemy::EnemyKind;

verus! {

/// A horizontal walkable strip: `width_tiles` tiles from `left_tile`, standing
/// `height_tiles` above the floor line (0 for the floor itself).
#[derive(Clone, Copy, Debug, PartialEq, Eq, Structural)]
pub struct PlatformSpec {
    pub left_tile: u32,
    pub width_tiles: u32,
    pub height_tiles: u32,
}

/// A gap in the floor.
#[derive(Clone, Copy, Debug, PartialEq, Eq, Structural)]
pub struct PitfallSpec {
    pub left_tile: u32,
    pub width_tiles: u32,
}

#[derive(Clone, Copy, Debug, PartialEq, Eq, Structural)]
pub struct EnemySpawn {
    pub kind: EnemyKind,
    pub x_half_tiles: u32,
    pub height_tiles: u32,
}

#[derive(Clone, Copy, Debug, PartialEq, Eq, Structural)]
pub struct BatSpawn {
    pub x_half_tiles: u32,
    pub height_tiles: u32,
}

#[derive(Clone, Copy, Debug, PartialEq, Eq, Structural)]
pub struct BossSpawn {
    pub x_half_tiles: u32,
    pub height_tiles: u32,
    pub patrol_min_tile: u32,
    pub patrol_max_tile: u32,
}

#[derive(Clone, Debug, PartialEq, Eq)]
pub struct GeneratedFloor {
    pub width_tiles: u32,
    pub backdrop_rows: u32,
    pub ground_segments: Vec<PlatformSpec>,
    pub pitfalls: Vec<PitfallSpec>,
    pub platforms: Vec<PlatformSpec>,
    pub enemies: Vec<EnemySpawn>,
    pub bats: Vec<BatSpawn>,
    pub boss: BossSpawn,
    pub has_boss: bool,
    pub player_start_half_tiles: u32,
    pub ladder_tile: u32,
}

/// Tile `t` lies on the strip.
pub open spec fn spans_tile(segment: PlatformSpec, t: int) -> bool {
    segment.left_tile <= t < segment.left_tile + segment.width_tiles
}

/// Tile `t` lies in the pit.
pub open spec fn pit_spans_tile(pit: PitfallSpec, t: int) -> bool {
    pit.left_tile <= t < pit.left_tile + pit.width_tiles
}

/// Some floor strip covers tile `t`.
pub open spec fn on_ground(ground: Seq<PlatformSpec>, t: int) -> bool {
    exists|i: int| 0 <= i < ground.len() && spans_tile(#[trigger] ground[i], t)
}

/// Some pit covers tile `t`.
pub open spec fn over_pit(pits: Seq<PitfallSpec>, t: int) -> bool {
    exists|k: int| 0 <= k < pits.len() && pit_spans_tile(#[trigger] pits[k], t)
}

/// Tiles `0..end` are each either floor or pit, never both, and nothing lies
/// outside them.
pub open spec fn laid_out(ground: Seq<PlatformSpec>, pits: Seq<PitfallSpec>, end: int) -> bool {
    &&& forall|t: int| 0 <= t < end ==> #[trigger] on_ground(ground, t) != over_pit(pits, t)
    &&& forall|t: int| (t < 0 || t >= end) ==> !#[trigger] on_ground(ground, t) && !over_pit(pits, t)
}

/// Every pit has floor right before and right after it.
pub open spec fn pits_flanked(ground: Seq<PlatformSpec>, pits: Seq<PitfallSpec>) -> bool {
    forall|k: int|
        0 <= k < pits.len() ==> #[trigger] pits[k].left_tile >= 1 && on_ground(ground, pits[k].left_tile - 1)
            && on_ground(ground, pits[k].left_tile + pits[k].width_tiles)
}

/// Every floor strip lies on the floor line.
pub open spec fn all_on_floor_line(ground: Seq<PlatformSpec>) -> bool {
    forall|i: int| 0 <= i < ground.len() ==> #[trigger] ground[i].height_tiles == 0
}

/// Some strip on the floor line covers tile `t`.
pub open spec fn on_floor_line(segments: Seq<PlatformSpec>, t: int) -> bool {
    exists|i: int| 0 <= i < segments.len() && #[trigger] segments[i].height_tiles == 0 && spans_tile(segments[i], t)
}

/// Distance between two points, in half tiles.
pub open spec fn half_tile_gap(a: int, b: int) -> int {
    if a >= b { a - b } else { b - a }
}

/// Some enemy already stands closer than `min_gap` half tiles to `x_half_tiles`.
pub open spec fn crowded(enemies: Seq<EnemySpawn>, x_half_tiles: int, min_gap: int) -> bool {
    exists|i: int| 0 <= i < enemies.len() && half_tile_gap(#[trigger] enemies[i].x_half_tiles as int, x_half_tiles) < min_gap
}

/// Any two enemies stand at least `min_gap` half tiles apart.
pub open spec fn spaced(enemies: Seq<EnemySpawn>, min_gap: int) -> bool {
    forall|i: int, j: int|
        0 <= i < j < enemies.len() ==> half_tile_gap(#[trigger] enemies[i].x_half_tiles as int, #[trigger] enemies[j].x_half_tiles as int) >= min_gap
}

/// The enemy stands at the centre of a floor tile between `lo` (inclusive) and
/// `hi` (exclusive).
pub open spec fn stands_on_floor(ground: Seq<PlatformSpec>, e: EnemySpawn, lo: int, hi: int) -> bool {
    &&& e.x_half_tiles % 2 == 1
    &&& e.height_tiles == 0
    &&& lo <= e.x_half_tiles / 2 < hi
    &&& on_floor_line(ground, (e.x_half_tiles / 2) as int)
}

/// The bat hovers at the centre of one of the platforms, at its height.
pub open spec fn over_some_platform(platforms: Seq<PlatformSpec>, b: BatSpawn) -> bool {
    exists|i: int|
        0 <= i < platforms.len() && 2 * #[trigger] platforms[i].left_tile + platforms[i].width_tiles == b.x_half_tiles
            && platforms[i].height_tiles == b.height_tiles
}

/// Covering tile `t` after adding a strip: covered before, or by the new strip.
pub proof fn lemma_on_ground_push(ground: Seq<PlatformSpec>, s: PlatformSpec, t: int)
    ensures
        on_ground(ground.push(s), t) == (on_ground(ground, t) || spans_tile(s, t)),
{
    let g2 = ground.push(s);
    if on_ground(ground, t) {
        let i = choose|i: int| 0 <= i < ground.len() && spans_tile(#[trigger] ground[i], t);
        assert(g2[i] == ground[i]);
    }
    if spans_tile(s, t) {
        assert(g2[ground.len() as int] == s);
    }
    if on_ground(g2, t) {
        let i = choose|i: int| 0 <= i < g2.len() && spans_tile(#[trigger] g2[i], t);
        if i < ground.len() {
            assert(g2[i] == ground[i]);
        }
    }
}

/// Covering tile `t` after adding a pit: covered before, or by the new pit.
pub proof fn lemma_over_pit_push(pits: Seq<PitfallSpec>, p: PitfallSpec, t: int)
    ensures
        over_pit(pits.push(p), t) == (over_pit(pits, t) || pit_spans_tile(p, t)),
{
    let p2 = pits.push(p);
    if over_pit(pits, t) {
        let k = choose|k: int| 0 <= k < pits.len() && pit_spans_tile(#[trigger] pits[k], t);
        assert(p2[k] == pits[k]);
    }
    if pit_spans_tile(p, t) {
        assert(p2[pits.len() as int] == p);
    }
    if over_pit(p2, t) {
        let k = choose|k: int| 0 <= k < p2.len() && pit_spans_tile(#[trigger] p2[k], t);
        if k < pits.len() {
            assert(p2[k] == pits[k]);
        }
    }
}

} // verus!
