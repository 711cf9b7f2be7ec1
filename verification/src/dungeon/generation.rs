//! Procedural dungeon floors from a seed.

use vstd::prelude::*;

use rand::rngs::StdRng;

use crate::rng::{gen_range_inclusive, gen_ratio, seeded_rng};
pub use crate::rng::random_seed;

use super::enemy::EnemyKind;
use super::level::{
    all_on_floor_line, crowded, half_tile_gap, laid_out, lemma_on_ground_push, lemma_over_pit_push,
    on_floor_line, on_ground, over_pit, over_some_platform, pit_spans_tile, pits_flanked, spaced,
    spans_tile, stands_on_floor, BatSpawn, BossSpawn, EnemySpawn, GeneratedFloor, PitfallSpec,
    PlatformSpec,
};

verus! {

pub const BACKDROP_ROWS: u32 = 6;
/// The player starts a tile and a half from the left edge.
pub const PLAYER_START_HALF_TILES: u32 = 3;
pub const ENTRANCE_TILES: u32 = 8;
pub const BOSS_ARENA_TILES: u32 = 12;
pub const LADDER_PAD_TILES: u32 = 3;
pub const MIN_WIDTH_TILES: u32 = 180;
pub const MIN_PIT_TILES: u32 = 4;
pub const MAX_PIT_TILES: u32 = 8;
pub const MIN_PLATFORM_HEIGHT_TILES: u32 = 5;
pub const MAX_PLATFORM_HEIGHT_TILES: u32 = 10;
pub const MIN_BRIDGE_HEIGHT_TILES: u32 = 4;
pub const MAX_BRIDGE_HEIGHT_TILES: u32 = 7;
pub const MIN_PLATFORM_WIDTH_TILES: u32 = 6;
pub const MAX_PLATFORM_WIDTH_TILES: u32 = 12;
pub const MIN_ENEMY_SPACING_TILES: u32 = 8;
pub const MAX_ENEMY_SPAWN_ATTEMPTS: u32 = 16;

/// Chooses which kind of enemy walks a stretch of floor. The game's own
/// picker weighs the kinds by how far into the floor the stretch lies,
/// `progress_num / progress_den`, drawing its roll from `rng`.
pub trait GroundEnemyPicker {
    fn pick_ground_enemy(&self, rng: &mut StdRng, progress_num: u32, progress_den: u32) -> EnemyKind;
}

/// Tile `tile` lies on a strip of the floor line.
fn is_on_floor(tile: u32, segments: &[PlatformSpec]) -> (found: bool)
    ensures
        found == on_floor_line(segments@, tile as int),
{
    let mut i: usize = 0;
    while i < segments.len()
        invariant
            i <= segments@.len(),
            forall|j: int| 0 <= j < i ==> !(#[trigger] segments@[j].height_tiles == 0 && spans_tile(segments@[j], tile as int)),
        decreases segments@.len() - i,
    {
        let segment = segments[i];
        if segment.height_tiles == 0 && segment.left_tile <= tile && (tile as u64) < segment.left_tile as u64 + segment.width_tiles as u64 {
            return true;
        }
        i += 1;
    }
    proof {
        assert forall|j: int| 0 <= j < segments@.len() implies !(#[trigger] segments@[j].height_tiles == 0 && spans_tile(segments@[j], tile as int)) by {}
    }
    false
}

/// Some enemy already stands within the minimum spacing of `x_half_tiles`.
fn enemies_too_close(existing: &[EnemySpawn], x_half_tiles: u32) -> (close: bool)
    ensures
        close == crowded(existing@, x_half_tiles as int, 2 * MIN_ENEMY_SPACING_TILES as int),
{
    let min_gap: u32 = 2 * MIN_ENEMY_SPACING_TILES;
    let mut i: usize = 0;
    while i < existing.len()
        invariant
            i <= existing@.len(),
            min_gap == 2 * MIN_ENEMY_SPACING_TILES,
            forall|j: int| 0 <= j < i ==> half_tile_gap(#[trigger] existing@[j].x_half_tiles as int, x_half_tiles as int) >= min_gap,
        decreases existing@.len() - i,
    {
        let x = existing[i].x_half_tiles;
        let gap = if x >= x_half_tiles { x - x_half_tiles } else { x_half_tiles - x };
        if gap < min_gap {
            return true;
        }
        i += 1;
    }
    false
}

/// Every tile of `lo..hi` is on the floor line, and an enemy at its centre
/// would keep the minimum spacing from each of `enemies`.
pub open spec fn spawn_range_clear(ground: Seq<PlatformSpec>, enemies: Seq<EnemySpawn>, lo: int, hi: int) -> bool {
    forall|t: int|
        lo <= t < hi ==> #[trigger] on_floor_line(ground, t) && !crowded(
            enemies,
            2 * t + 1,
            2 * MIN_ENEMY_SPACING_TILES as int,
        )
}

/// Up to sixteen draws of a tile in `min_tile..max_tile`; the first one on the
/// floor and clear of the other enemies gets an enemy of the kind the picker
/// gives for the progress `progress_num / progress_den`. When every tile of
/// the range qualifies, the first draw does, so an enemy is always placed.
/// Beside the enemy comes what the picker was asked and answered.
fn try_spawn_enemy<P: GroundEnemyPicker>(
    rng: &mut StdRng,
    min_tile: u32,
    max_tile: u32,
    progress_num: u32,
    progress_den: u32,
    ground: &[PlatformSpec],
    existing: &[EnemySpawn],
    picker: &P,
) -> (out: (Option<EnemySpawn>, Ghost<Option<(u32, u32, EnemyKind)>>))
    requires
        max_tile <= u32::MAX / 4,
    ensures
        ({
            let (spawn, asked) = out;
            &&& max_tile <= min_tile ==> spawn is None
            &&& spawn matches Some(e) ==> stands_on_floor(ground@, e, min_tile as int, max_tile as int)
                && !crowded(existing@, e.x_half_tiles as int, 2 * MIN_ENEMY_SPACING_TILES as int)
                && asked@ == Some((progress_num, progress_den, e.kind))
            &&& min_tile < max_tile && spawn_range_clear(ground@, existing@, min_tile as int, max_tile as int) ==> spawn is Some
        }),
{
    if max_tile <= min_tile {
        return (None, Ghost(None));
    }
    let ghost all_clear = spawn_range_clear(ground@, existing@, min_tile as int, max_tile as int);
    let mut attempt: u32 = 0;
    while attempt < MAX_ENEMY_SPAWN_ATTEMPTS
        invariant
            attempt <= MAX_ENEMY_SPAWN_ATTEMPTS,
            min_tile < max_tile <= u32::MAX / 4,
            all_clear == spawn_range_clear(ground@, existing@, min_tile as int, max_tile as int),
            all_clear ==> attempt == 0,
        decreases MAX_ENEMY_SPAWN_ATTEMPTS - attempt,
    {
        attempt += 1;
        let tile = gen_range_inclusive(rng, min_tile, max_tile - 1);
        let x_half_tiles = 2 * tile + 1;
        if !is_on_floor(tile, ground) || enemies_too_close(existing, x_half_tiles) {
            proof {
                if all_clear {
                    assert(on_floor_line(ground@, tile as int));
                }
            }
            continue;
        }
        let kind = picker.pick_ground_enemy(rng, progress_num, progress_den);
        let e = EnemySpawn { kind, x_half_tiles, height_tiles: 0 };
        assert(e.x_half_tiles / 2 == tile);
        return (Some(e), Ghost(Some((progress_num, progress_den, kind))));
    }
    (None, Ghost(None))
}

/// The stretch widths added up.
pub open spec fn width_sum(widths: Seq<u32>) -> int
    decreases widths.len(),
{
    if widths.len() == 0 {
        0
    } else {
        width_sum(widths.drop_last()) + widths.last()
    }
}

/// The floor is as wide as the entrance, 8 to 12 drawn stretches of 18 to 26
/// tiles, the boss arena and the ladder pad together, or 180 tiles if that is
/// more.
pub open spec fn width_from_draws(widths: Seq<u32>, width: int) -> bool {
    let drawn = ENTRANCE_TILES + width_sum(widths) + BOSS_ARENA_TILES + LADDER_PAD_TILES;
    &&& 8 <= widths.len() <= 12
    &&& forall|k: int| 0 <= k < widths.len() ==> 18 <= #[trigger] widths[k] <= 26
    &&& width == if drawn < MIN_WIDTH_TILES { MIN_WIDTH_TILES as int } else { drawn }
}

/// What every generated floor is: wide enough, a boss arena and ladder at the
/// far end, floor and pits tiling the whole width with floor on both sides of
/// each pit, platforms and pits within their size bounds, enemies on the
/// floor and spaced apart, bats over platforms.
pub open spec fn sound_floor(floor: GeneratedFloor) -> bool {
    let ground = floor.ground_segments@;
    let pits = floor.pitfalls@;
    let arena_start = floor.width_tiles - BOSS_ARENA_TILES - LADDER_PAD_TILES;
    &&& MIN_WIDTH_TILES <= floor.width_tiles <= ENTRANCE_TILES + 12 * 26 + BOSS_ARENA_TILES + LADDER_PAD_TILES
    &&& floor.backdrop_rows == BACKDROP_ROWS
    &&& floor.player_start_half_tiles == PLAYER_START_HALF_TILES
    &&& floor.ladder_tile == floor.width_tiles - LADDER_PAD_TILES
    &&& floor.has_boss
    &&& floor.boss == boss_in_arena(arena_start)
    &&& ground.len() > 0
    &&& ground[0] == (PlatformSpec { left_tile: 0, width_tiles: ENTRANCE_TILES, height_tiles: 0 })
    &&& all_on_floor_line(ground)
    &&& laid_out(ground, pits, floor.width_tiles as int)
    &&& pits_flanked(ground, pits)
    &&& forall|t: int| arena_start <= t < floor.width_tiles ==> on_ground(ground, t)
    &&& forall|k: int| 0 <= k < pits.len() ==> MIN_PIT_TILES <= #[trigger] pits[k].width_tiles <= MAX_PIT_TILES
    &&& forall|i: int| 0 <= i < floor.platforms@.len() ==> MIN_PLATFORM_WIDTH_TILES <= #[trigger] floor.platforms@[i].width_tiles <= MAX_PLATFORM_WIDTH_TILES
    &&& spaced(floor.enemies@, 2 * MIN_ENEMY_SPACING_TILES as int)
    &&& forall|i: int| 0 <= i < floor.enemies@.len() ==> stands_on_floor(ground, #[trigger] floor.enemies@[i], ENTRANCE_TILES as int, arena_start)
    &&& forall|i: int| 0 <= i < floor.bats@.len() ==> over_some_platform(floor.platforms@, #[trigger] floor.bats@[i])
}

/// The platform is a bridge over one of the pits: at the pit's left tile,
/// two tiles wider than it (within the platform widths), four to seven
/// tiles up.
pub open spec fn bridges_some_pit(pits: Seq<PitfallSpec>, p: PlatformSpec) -> bool {
    exists|k: int|
        0 <= k < pits.len() && #[trigger] pits[k].left_tile == p.left_tile && p.width_tiles == clamped_bridge_width(
            pits[k].width_tiles as int,
        ) && MIN_BRIDGE_HEIGHT_TILES <= p.height_tiles <= MAX_BRIDGE_HEIGHT_TILES
}

/// Builds a floor from `seed`: 8 to 12 stretches of 18 to 26 tiles after the
/// entrance, then the boss arena and the ladder pad, at least 180 tiles in
/// all; floor runs and pits, floating platforms, enemies of the kinds
/// `picker` gives for their stretches, bats, and a bridge over some pits.
/// Beside the floor comes, for each enemy, what the picker was asked and
/// answered.
pub fn generate_floor<P: GroundEnemyPicker>(seed: u64, picker: &P) -> (out: (GeneratedFloor, Ghost<Seq<(u32, u32, EnemyKind)>>))
    ensures
        sound_floor(out.0),
        exists|widths: Seq<u32>| #[trigger] width_from_draws(widths, out.0.width_tiles as int),
        exists|b: Seq<int>|
            #[trigger] enemy_stretches(
                b,
                ENTRANCE_TILES as int,
                out.0.width_tiles - BOSS_ARENA_TILES - LADDER_PAD_TILES,
                out.0.enemies@,
                out.1@,
            ),
        forall|i: int|
            0 <= i < out.0.platforms@.len() ==> floating_platform_ok(
                #[trigger] out.0.platforms@[i],
                ENTRANCE_TILES as int,
                out.0.width_tiles - BOSS_ARENA_TILES - LADDER_PAD_TILES,
            ) || bridges_some_pit(out.0.pitfalls@, out.0.platforms@[i]),
{
    let mut rng = seeded_rng(seed);
    let segment_count = gen_range_inclusive(&mut rng, 8, 12);

    let mut width_tiles: u32 = ENTRANCE_TILES;
    let ghost mut widths: Seq<u32> = Seq::empty();
    let mut i: u32 = 0;
    while i < segment_count
        invariant
            i <= segment_count <= 12,
            8 <= segment_count,
            widths.len() == i,
            forall|k: int| 0 <= k < widths.len() ==> 18 <= #[trigger] widths[k] <= 26,
            width_tiles == ENTRANCE_TILES + width_sum(widths),
            ENTRANCE_TILES + 18 * i <= width_tiles <= ENTRANCE_TILES + 26 * i,
        decreases segment_count - i,
    {
        let drawn = gen_range_inclusive(&mut rng, 18, 26);
        proof {
            assert(widths.push(drawn).drop_last() =~= widths);
            widths = widths.push(drawn);
        }
        width_tiles += drawn;
        i += 1;
    }
    width_tiles += BOSS_ARENA_TILES + LADDER_PAD_TILES;
    if width_tiles < MIN_WIDTH_TILES {
        width_tiles = MIN_WIDTH_TILES;
    }

    let boss_arena_start = width_tiles - BOSS_ARENA_TILES - LADDER_PAD_TILES;
    let (mut ground_segments, pitfalls) = generate_ground_segments(&mut rng, ENTRANCE_TILES, boss_arena_start);
    let arena = PlatformSpec {
        left_tile: boss_arena_start,
        width_tiles: width_tiles - boss_arena_start,
        height_tiles: 0,
    };
    proof {
        lemma_close_with_arena(ground_segments@, pitfalls@, boss_arena_start as int, arena);
        assert(ground_segments@.push(arena)[0] == ground_segments@[0]);
    }
    ground_segments.push(arena);

    let (mut platforms, enemies, bats, asked) = generate_segments(
        &mut rng,
        ENTRANCE_TILES,
        boss_arena_start,
        ground_segments.as_slice(),
        picker,
    );
    let ghost stretches = choose|b: Seq<int>|
        #[trigger] segments_plan(b, ENTRANCE_TILES as int, boss_arena_start as int, ground_segments@, platforms@, enemies@, bats@)
            && kinds_asked(b, ENTRANCE_TILES as int, boss_arena_start as int, enemies@, asked@);
    assert(enemy_stretches(stretches, ENTRANCE_TILES as int, boss_arena_start as int, enemies@, asked@));

    let mut k: usize = 0;
    while k < pitfalls.len()
        invariant
            k <= pitfalls@.len(),
            forall|j: int| 0 <= j < pitfalls@.len() ==> MIN_PIT_TILES <= #[trigger] pitfalls@[j].width_tiles <= MAX_PIT_TILES,
            forall|j: int| 0 <= j < platforms@.len() ==> MIN_PLATFORM_WIDTH_TILES <= #[trigger] platforms@[j].width_tiles <= MAX_PLATFORM_WIDTH_TILES,
            forall|j: int| 0 <= j < bats@.len() ==> over_some_platform(platforms@, #[trigger] bats@[j]),
            forall|j: int|
                0 <= j < platforms@.len() ==> floating_platform_ok(#[trigger] platforms@[j], ENTRANCE_TILES as int, boss_arena_start as int)
                    || bridges_some_pit(pitfalls@, platforms@[j]),
        decreases pitfalls@.len() - k,
    {
        if gen_ratio(&mut rng, 55, 100) {
            let bridge = bridge_over_pit(&mut rng, &pitfalls[k]);
            proof {
                let p2 = platforms@.push(bridge);
                assert(p2[platforms@.len() as int] == bridge);
                assert(bridges_some_pit(pitfalls@, bridge)) by {
                    assert(pitfalls@[k as int].left_tile == bridge.left_tile);
                }
                assert forall|j: int| 0 <= j < p2.len() implies floating_platform_ok(#[trigger] p2[j], ENTRANCE_TILES as int, boss_arena_start as int)
                    || bridges_some_pit(pitfalls@, p2[j]) by {
                    if j < platforms@.len() {
                        assert(p2[j] == platforms@[j]);
                    }
                }
                assert forall|j: int| 0 <= j < bats@.len() implies over_some_platform(p2, #[trigger] bats@[j]) by {
                    let m = choose|m: int| 0 <= m < platforms@.len() && 2 * #[trigger] platforms@[m].left_tile + platforms@[m].width_tiles == bats@[j].x_half_tiles && platforms@[m].height_tiles == bats@[j].height_tiles;
                    assert(p2[m] == platforms@[m]);
                }
            }
            platforms.push(bridge);
        }
        k += 1;
    }
    proof {
        assert forall|j: int| 0 <= j < platforms@.len() implies MIN_PLATFORM_WIDTH_TILES <= #[trigger] platforms@[j].width_tiles <= MAX_PLATFORM_WIDTH_TILES by {}
    }

    proof {
        assert(width_from_draws(widths, width_tiles as int));
    }
    let boss = boss_spawn(boss_arena_start);
    let ladder_tile = width_tiles - LADDER_PAD_TILES;

    let floor = GeneratedFloor {
        width_tiles,
        backdrop_rows: BACKDROP_ROWS,
        ground_segments,
        pitfalls,
        platforms,
        enemies,
        bats,
        boss,
        has_boss: true,
        player_start_half_tiles: PLAYER_START_HALF_TILES,
        ladder_tile,
    };
    let out = (floor, asked);
    assert(enemy_stretches(
        stretches,
        ENTRANCE_TILES as int,
        out.0.width_tiles - BOSS_ARENA_TILES - LADDER_PAD_TILES,
        out.0.enemies@,
        out.1@,
    ));
    out
}

/// Closing the floor with the arena strip from `arena_start` keeps floor and
/// pits tiling everything up to the strip's end, each pit still flanked.
proof fn lemma_close_with_arena(ground: Seq<PlatformSpec>, pits: Seq<PitfallSpec>, arena_start: int, arena: PlatformSpec)
    requires
        laid_out(ground, pits, arena_start),
        pits_flanked(ground, pits),
        all_on_floor_line(ground),
        arena.left_tile == arena_start,
        arena.width_tiles > 0,
        arena.height_tiles == 0,
    ensures
        laid_out(ground.push(arena), pits, arena_start + arena.width_tiles),
        pits_flanked(ground.push(arena), pits),
        all_on_floor_line(ground.push(arena)),
        forall|t: int| arena_start <= t < arena_start + arena.width_tiles ==> on_ground(ground.push(arena), t),
{
    let g2 = ground.push(arena);
    assert forall|t: int| #[trigger] on_ground(g2, t) == (on_ground(ground, t) || spans_tile(arena, t)) by {
        lemma_on_ground_push(ground, arena, t);
    }
    assert forall|k: int| 0 <= k < pits.len() implies #[trigger] pits[k].left_tile + pits[k].width_tiles <= arena_start by {
        assert(on_ground(ground, pits[k].left_tile + pits[k].width_tiles));
    }
    lemma_push_strip(ground, pits, arena_start, arena);
    assert forall|i: int| 0 <= i < g2.len() implies #[trigger] g2[i].height_tiles == 0 by {
        if i < ground.len() {
            assert(g2[i] == ground[i]);
        }
    }
}

/// Alternates floor runs and pits from `start_tile` to `end_tile`, after an
/// entrance strip over `0..start_tile`.
fn generate_ground_segments(rng: &mut StdRng, start_tile: u32, end_tile: u32) -> (out: (
    Vec<PlatformSpec>,
    Vec<PitfallSpec>,
))
    requires
        0 < start_tile <= end_tile <= u32::MAX / 2,
    ensures
        laid_out(out.0@, out.1@, end_tile as int),
        pits_flanked(out.0@, out.1@),
        all_on_floor_line(out.0@),
        out.0@.len() > 0,
        out.0@[0] == (PlatformSpec { left_tile: 0, width_tiles: start_tile, height_tiles: 0 }),
        forall|k: int|
            0 <= k < out.1@.len() ==> MIN_PIT_TILES <= #[trigger] out.1@[k].width_tiles <= MAX_PIT_TILES,
{
    let mut segments: Vec<PlatformSpec> = Vec::new();
    let mut pitfalls: Vec<PitfallSpec> = Vec::new();

    let entrance = PlatformSpec { left_tile: 0, width_tiles: start_tile, height_tiles: 0 };
    proof {
        assert forall|t: int| #[trigger] on_ground(segments@.push(entrance), t) == spans_tile(entrance, t) by {
            lemma_on_ground_push(segments@, entrance, t);
        }
    }
    segments.push(entrance);

    let mut cursor = start_tile;

    while cursor + MIN_PIT_TILES + 8 < end_tile
        invariant_except_break
            0 < cursor <= end_tile <= u32::MAX / 2,
            laid_out(segments@, pitfalls@, cursor as int),
            pits_flanked_before(segments@, pitfalls@, cursor as int),
            all_on_floor_line(segments@),
            segments@.len() > 0,
            segments@[0] == entrance,
            forall|k: int|
                0 <= k < pitfalls@.len() ==> MIN_PIT_TILES <= #[trigger] pitfalls@[k].width_tiles
                    <= MAX_PIT_TILES,
            forall|k: int|
                0 <= k < pitfalls@.len() ==> #[trigger] pitfalls@[k].left_tile + pitfalls@[k].width_tiles
                    < end_tile,
        ensures
            0 < cursor <= end_tile <= u32::MAX / 2,
            laid_out(segments@, pitfalls@, cursor as int),
            pits_flanked_before(segments@, pitfalls@, cursor as int),
            all_on_floor_line(segments@),
            segments@.len() > 0,
            segments@[0] == entrance,
            forall|k: int|
                0 <= k < pitfalls@.len() ==> MIN_PIT_TILES <= #[trigger] pitfalls@[k].width_tiles
                    <= MAX_PIT_TILES,
            forall|k: int|
                0 <= k < pitfalls@.len() ==> #[trigger] pitfalls@[k].left_tile + pitfalls@[k].width_tiles
                    < end_tile,
        decreases end_tile - cursor,
    {
        let max_run = (end_tile - cursor).saturating_sub(MIN_PIT_TILES + 3);
        if max_run < 6 {
            break;
        }
        let drawn = gen_range_inclusive(rng, 8, 17);
        let run_tiles = if drawn < max_run { drawn } else { max_run };
        let run = PlatformSpec { left_tile: cursor, width_tiles: run_tiles, height_tiles: 0 };
        proof {
            lemma_push_strip(segments@, pitfalls@, cursor as int, run);
        }
        segments.push(run);
        cursor = cursor + run_tiles;

        if cursor + MIN_PIT_TILES + 6 >= end_tile {
            break;
        }

        if gen_ratio(rng, 44, 100) {
            let room = (end_tile - cursor).saturating_sub(3);
            let max_pit = if room < MAX_PIT_TILES { room } else { MAX_PIT_TILES };
            if max_pit >= MIN_PIT_TILES {
                let pit_width = gen_range_inclusive(rng, MIN_PIT_TILES, max_pit);
                let pit = PitfallSpec { left_tile: cursor, width_tiles: pit_width };
                proof {
                    lemma_push_pit(segments@, pitfalls@, cursor as int, pit);
                }
                pitfalls.push(pit);
                cursor = cursor + pit_width;
            }
        }
    }

    if cursor < end_tile {
        let last = PlatformSpec { left_tile: cursor, width_tiles: end_tile - cursor, height_tiles: 0 };
        proof {
            lemma_push_strip(segments@, pitfalls@, cursor as int, last);
        }
        segments.push(last);
    }
    proof {
        assert forall|k: int| 0 <= k < pitfalls@.len() implies #[trigger] pitfalls@[k].left_tile >= 1
            && on_ground(segments@, pitfalls@[k].left_tile - 1) && on_ground(
            segments@,
            pitfalls@[k].left_tile + pitfalls@[k].width_tiles,
        ) by {
            let e = pitfalls@[k].left_tile + pitfalls@[k].width_tiles;
            assert(0 <= e < end_tile);
            if !on_ground(segments@, e) {
                assert(over_pit(pitfalls@, e));
                let j = choose|j: int| 0 <= j < pitfalls@.len() && pit_spans_tile(#[trigger] pitfalls@[j], e);
                assert(e < cursor) by {
                    if e >= cursor {
                        assert(!over_pit(pitfalls@, e));
                    }
                }
            }
        }
    }
    (segments, pitfalls)
}

/// A floating platform as the generator draws them: width within bounds,
/// clear of the stretch's edges, between `lo` and `hi`.
pub open spec fn floating_platform_ok(p: PlatformSpec, lo: int, hi: int) -> bool {
    &&& MIN_PLATFORM_WIDTH_TILES <= p.width_tiles <= MAX_PLATFORM_WIDTH_TILES
    &&& lo < p.left_tile
    &&& p.left_tile + p.width_tiles < hi
    &&& MIN_PLATFORM_HEIGHT_TILES <= p.height_tiles <= MAX_PLATFORM_HEIGHT_TILES + 4
}

/// Tile an enemy stands on.
pub open spec fn enemy_tile(e: EnemySpawn) -> int {
    (e.x_half_tiles / 2) as int
}

/// Width of stretch `k` of the bounds `b`.
pub open spec fn stretch_width(b: Seq<int>, k: int) -> int {
    b[k + 1] - b[k]
}

/// Tile `t` lies in stretch `k` of `b`, at least `pad` tiles from both ends.
pub open spec fn in_stretch(b: Seq<int>, k: int, pad: int, t: int) -> bool {
    0 <= k < b.len() - 1 && b[k] + pad <= t < b[k + 1] - pad
}

/// The platform lies strictly inside stretch `k` of `b`.
pub open spec fn platform_in_stretch(b: Seq<int>, k: int, p: PlatformSpec) -> bool {
    0 <= k < b.len() - 1 && b[k] < p.left_tile && p.left_tile + p.width_tiles < b[k + 1]
}

/// The enemy stands on a spawn tile of some stretch of `b`.
pub open spec fn enemy_in_some_stretch(b: Seq<int>, e: EnemySpawn) -> bool {
    exists|k: int| #[trigger] in_stretch(b, k, 2, enemy_tile(e))
}

/// The platform lies inside some stretch of `b`.
pub open spec fn platform_in_some_stretch(b: Seq<int>, p: PlatformSpec) -> bool {
    exists|k: int| #[trigger] platform_in_stretch(b, k, p)
}

/// Some enemy stands on a tile of `lo..hi`.
pub open spec fn has_enemy_between(enemies: Seq<EnemySpawn>, lo: int, hi: int) -> bool {
    exists|i: int| 0 <= i < enemies.len() && lo <= #[trigger] enemy_tile(enemies[i]) < hi
}

/// Every spawn tile of the stretch `lo..hi` (two tiles in from each end) is
/// on the floor line and at the minimum spacing from every enemy placed left
/// of the stretch.
pub open spec fn stretch_clear(ground: Seq<PlatformSpec>, enemies: Seq<EnemySpawn>, lo: int, hi: int) -> bool {
    forall|t: int|
        lo + 2 <= t < hi - 2 ==> #[trigger] on_floor_line(ground, t) && forall|i: int|
            0 <= i < enemies.len() && enemy_tile(enemies[i]) < lo ==> half_tile_gap(
                #[trigger] enemies[i].x_half_tiles as int,
                2 * t + 1,
            ) >= 2 * MIN_ENEMY_SPACING_TILES
}

/// The enemies come stretch by stretch, and no four of them share one:
/// each stretch has at most three.
pub open spec fn enemies_by_stretch(b: Seq<int>, enemies: Seq<EnemySpawn>) -> bool {
    &&& forall|i: int, j: int, k1: int, k2: int|
        0 <= i < j < enemies.len() && #[trigger] in_stretch(b, k1, 2, enemy_tile(enemies[i])) && #[trigger] in_stretch(
            b,
            k2,
            2,
            enemy_tile(enemies[j]),
        ) ==> k1 <= k2
    &&& forall|i: int, k: int|
        0 <= i && i + 3 < enemies.len() && #[trigger] in_stretch(b, k, 2, enemy_tile(enemies[i])) ==> !in_stretch(
            b,
            k,
            2,
            enemy_tile(enemies[i + 3]),
        )
}

/// The floating platforms come stretch by stretch, and no three of them
/// share one: each stretch has at most two.
pub open spec fn platforms_by_stretch(b: Seq<int>, platforms: Seq<PlatformSpec>) -> bool {
    &&& forall|i: int, j: int, k1: int, k2: int|
        0 <= i < j < platforms.len() && #[trigger] platform_in_stretch(b, k1, platforms[i])
            && #[trigger] platform_in_stretch(b, k2, platforms[j]) ==> k1 <= k2
    &&& forall|i: int, k: int|
        0 <= i && i + 2 < platforms.len() && #[trigger] platform_in_stretch(b, k, platforms[i])
            ==> !platform_in_stretch(b, k, platforms[i + 2])
}

/// How the stretches from `start` at bounds `b` were filled: stretches of 18
/// to 28 tiles; each enemy on a spawn tile of one stretch, each platform
/// inside one; a stretch whose spawn tiles are all floor and clear of the
/// earlier enemies got at least one enemy; at most three enemies and two
/// platforms per stretch, and no more bats than platforms.
pub open spec fn stretch_plan(
    b: Seq<int>,
    start: int,
    ground: Seq<PlatformSpec>,
    platforms: Seq<PlatformSpec>,
    enemies: Seq<EnemySpawn>,
    bats: Seq<BatSpawn>,
) -> bool {
    &&& b.len() >= 1
    &&& b[0] == start
    &&& forall|k: int| 0 <= k < b.len() - 1 ==> 18 <= #[trigger] stretch_width(b, k) <= 28
    &&& forall|i: int| 0 <= i < enemies.len() ==> #[trigger] enemy_in_some_stretch(b, enemies[i])
    &&& forall|i: int| 0 <= i < platforms.len() ==> #[trigger] platform_in_some_stretch(b, platforms[i])
    &&& forall|k: int|
        0 <= k < b.len() - 1 && #[trigger] stretch_clear(ground, enemies, b[k], b[k + 1]) ==> has_enemy_between(
            enemies,
            b[k] + 2,
            b[k + 1] - 2,
        )
    &&& enemies.len() <= 3 * (b.len() - 1)
    &&& platforms.len() <= 2 * (b.len() - 1)
    &&& enemies_by_stretch(b, enemies)
    &&& platforms_by_stretch(b, platforms)
    &&& bats.len() <= platforms.len()
}

/// The stretch plan covers `start..end` up to a last stretch too short to fill.
pub open spec fn segments_plan(
    b: Seq<int>,
    start: int,
    end: int,
    ground: Seq<PlatformSpec>,
    platforms: Seq<PlatformSpec>,
    enemies: Seq<EnemySpawn>,
    bats: Seq<BatSpawn>,
) -> bool {
    &&& stretch_plan(b, start, ground, platforms, enemies, bats)
    &&& b[b.len() - 1] <= end <= b[b.len() - 1] + 18
}

/// The stretch count the progress of a stretch is measured against: the
/// width of `start..end`, or one tile if that is less.
pub open spec fn stretch_span(start: int, end: int) -> int {
    if end - start > 1 {
        end - start
    } else {
        1
    }
}

/// Each enemy's kind is what the picker answered, `asked[i]`, when asked for
/// the progress of the enemy's stretch `k` of `start..end`: the stretch's
/// middle, `2 * (b[k] - start) + width`, over `2 * span`.
pub open spec fn kinds_asked(
    b: Seq<int>,
    start: int,
    end: int,
    enemies: Seq<EnemySpawn>,
    asked: Seq<(u32, u32, EnemyKind)>,
) -> bool {
    &&& asked.len() == enemies.len()
    &&& forall|i: int, k: int|
        0 <= i < enemies.len() && #[trigger] in_stretch(b, k, 2, enemy_tile(enemies[i])) ==> {
            &&& asked[i].0 == 2 * (b[k] - start) + stretch_width(b, k)
            &&& asked[i].1 == 2 * stretch_span(start, end)
            &&& asked[i].2 == enemies[i].kind
        }
}

/// The enemies of a floor between `start` and `end`: stretches of 18 to 28
/// tiles from `start` up to a last one too short to fill, each enemy on a
/// spawn tile of one stretch, of the kind the picker gave for its stretch.
pub open spec fn enemy_stretches(
    b: Seq<int>,
    start: int,
    end: int,
    enemies: Seq<EnemySpawn>,
    asked: Seq<(u32, u32, EnemyKind)>,
) -> bool {
    &&& b.len() >= 1
    &&& b[0] == start
    &&& b[b.len() - 1] <= end <= b[b.len() - 1] + 18
    &&& forall|k: int| 0 <= k < b.len() - 1 ==> 18 <= #[trigger] stretch_width(b, k) <= 28
    &&& forall|i: int| 0 <= i < enemies.len() ==> #[trigger] enemy_in_some_stretch(b, enemies[i])
    &&& enemies_by_stretch(b, enemies)
    &&& kinds_asked(b, start, end, enemies, asked)
}

/// Filling one more stretch `b.last()..hi` with enemies asked for its
/// progress keeps each enemy's kind tied to its own stretch.
proof fn lemma_extend_kinds(
    b: Seq<int>,
    start: int,
    end: int,
    e0: Seq<EnemySpawn>,
    a0: Seq<(u32, u32, EnemyKind)>,
    e1: Seq<EnemySpawn>,
    a1: Seq<(u32, u32, EnemyKind)>,
    hi: int,
)
    requires
        b.len() >= 1,
        kinds_asked(b, start, end, e0, a0),
        forall|j: int| 0 <= j < b.len() ==> #[trigger] b[j] <= b[b.len() - 1],
        b[b.len() - 1] < hi,
        e0.len() <= e1.len(),
        a1.len() == e1.len(),
        forall|i: int| 0 <= i < e0.len() ==> e1[i] == e0[i] && a1[i] == a0[i],
        forall|i: int| 0 <= i < e0.len() ==> #[trigger] enemy_tile(e0[i]) < b[b.len() - 1],
        forall|i: int| e0.len() <= i < e1.len() ==> b[b.len() - 1] + 2 <= #[trigger] enemy_tile(e1[i]) < hi - 2,
        forall|i: int| e0.len() <= i < e1.len() ==> #[trigger] a1[i] == (
            (2 * (b[b.len() - 1] - start) + (hi - b[b.len() - 1])) as u32,
            (2 * stretch_span(start, end)) as u32,
            e1[i].kind,
        ),
        0 <= 2 * (b[b.len() - 1] - start) + (hi - b[b.len() - 1]) <= u32::MAX,
        0 <= 2 * stretch_span(start, end) <= u32::MAX,
    ensures
        kinds_asked(b.push(hi), start, end, e1, a1),
{
    let n = b.len() as int;
    let b2 = b.push(hi);
    assert(b2[n] == hi);
    assert forall|i: int, k: int| 0 <= i < e1.len() && #[trigger] in_stretch(b2, k, 2, enemy_tile(e1[i])) implies {
        &&& a1[i].0 == 2 * (b2[k] - start) + stretch_width(b2, k)
        &&& a1[i].1 == 2 * stretch_span(start, end)
        &&& a1[i].2 == e1[i].kind
    } by {
        if i < e0.len() {
            assert(e1[i] == e0[i]);
            if k == n - 1 {
                assert(b2[k] == b[n - 1]);
                assert(false);
            }
            assert(b2[k] == b[k] && b2[k + 1] == b[k + 1]);
            assert(in_stretch(b, k, 2, enemy_tile(e0[i])));
        } else {
            if k < n - 1 {
                assert(b2[k + 1] == b[k + 1]);
                assert(b[k + 1] <= b[n - 1]);
                assert(false);
            }
            assert(b2[k] == b[n - 1]);
        }
    }
}

/// Filling one more stretch `b.last()..hi` keeps enemies and platforms in
/// stretch order, at most three and two to a stretch.
proof fn lemma_extend_by_stretch(
    b: Seq<int>,
    start: int,
    ground: Seq<PlatformSpec>,
    p0: Seq<PlatformSpec>,
    e0: Seq<EnemySpawn>,
    bats0: Seq<BatSpawn>,
    p1: Seq<PlatformSpec>,
    e1: Seq<EnemySpawn>,
    hi: int,
)
    requires
        stretch_plan(b, start, ground, p0, e0, bats0),
        b[b.len() - 1] < hi,
        e0.len() <= e1.len() <= e0.len() + 3,
        forall|i: int| 0 <= i < e0.len() ==> e1[i] == e0[i],
        forall|i: int| 0 <= i < e0.len() ==> #[trigger] enemy_tile(e0[i]) < b[b.len() - 1],
        forall|i: int| e0.len() <= i < e1.len() ==> b[b.len() - 1] + 2 <= #[trigger] enemy_tile(e1[i]) < hi - 2,
        p0.len() <= p1.len() <= p0.len() + 2,
        forall|i: int| 0 <= i < p0.len() ==> p1[i] == p0[i],
        forall|i: int| p0.len() <= i < p1.len() ==> b[b.len() - 1] < (#[trigger] p1[i]).left_tile && p1[i].left_tile + p1[i].width_tiles < hi,
        forall|j: int| 0 <= j < b.len() ==> #[trigger] b[j] <= b[b.len() - 1],
    ensures
        enemies_by_stretch(b.push(hi), e1),
        platforms_by_stretch(b.push(hi), p1),
{
    let n = b.len() as int;
    let b2 = b.push(hi);
    assert(b2[n] == hi && b2[n - 1] == b[n - 1]);
    assert forall|i: int, k: int| 0 <= i < e0.len() && #[trigger] in_stretch(b2, k, 2, enemy_tile(e1[i])) implies k < n - 1
        && in_stretch(b, k, 2, enemy_tile(e0[i])) by {
        assert(e1[i] == e0[i]);
        if k == n - 1 {
            assert(false);
        }
        assert(b2[k] == b[k] && b2[k + 1] == b[k + 1]);
    }
    assert forall|i: int, k: int| e0.len() <= i < e1.len() && #[trigger] in_stretch(b2, k, 2, enemy_tile(e1[i])) implies k == n
        - 1 by {
        if k < n - 1 {
            assert(b2[k + 1] == b[k + 1]);
            assert(b[k + 1] <= b[n - 1]);
        }
    }
    assert forall|i: int, k: int| 0 <= i < p0.len() && #[trigger] platform_in_stretch(b2, k, p1[i]) implies k < n - 1
        && platform_in_stretch(b, k, p0[i]) by {
        assert(p1[i] == p0[i]);
        assert(platform_in_some_stretch(b, p0[i]));
        let k0 = choose|k0: int| #[trigger] platform_in_stretch(b, k0, p0[i]);
        assert(b[k0 + 1] <= b[n - 1]);
        if k == n - 1 {
            assert(false);
        }
        assert(b2[k] == b[k] && b2[k + 1] == b[k + 1]);
    }
    assert forall|i: int, k: int| p0.len() <= i < p1.len() && #[trigger] platform_in_stretch(b2, k, p1[i]) implies k == n
        - 1 by {
        if k < n - 1 {
            assert(b2[k + 1] == b[k + 1]);
            assert(b[k + 1] <= b[n - 1]);
        }
    }
    assert forall|i: int, j: int, k1: int, k2: int|
        0 <= i < j < e1.len() && #[trigger] in_stretch(b2, k1, 2, enemy_tile(e1[i])) && #[trigger] in_stretch(
            b2,
            k2,
            2,
            enemy_tile(e1[j]),
        ) implies k1 <= k2 by {
        if j < e0.len() {
            assert(in_stretch(b, k1, 2, enemy_tile(e0[i])) && in_stretch(b, k2, 2, enemy_tile(e0[j])));
        }
    }
    assert forall|i: int, k: int|
        0 <= i && i + 3 < e1.len() && #[trigger] in_stretch(b2, k, 2, enemy_tile(e1[i])) implies !in_stretch(
        b2,
        k,
        2,
        enemy_tile(e1[i + 3]),
    ) by {
        if i + 3 < e0.len() {
            assert(in_stretch(b, k, 2, enemy_tile(e0[i])));
            if in_stretch(b2, k, 2, enemy_tile(e1[i + 3])) {
                assert(in_stretch(b, k, 2, enemy_tile(e0[i + 3])));
            }
        } else if i < e0.len() {
            assert(k < n - 1);
        }
    }
    assert forall|i: int, j: int, k1: int, k2: int|
        0 <= i < j < p1.len() && #[trigger] platform_in_stretch(b2, k1, p1[i]) && #[trigger] platform_in_stretch(
            b2,
            k2,
            p1[j],
        ) implies k1 <= k2 by {
        if j < p0.len() {
            assert(platform_in_stretch(b, k1, p0[i]) && platform_in_stretch(b, k2, p0[j]));
        }
    }
    assert forall|i: int, k: int|
        0 <= i && i + 2 < p1.len() && #[trigger] platform_in_stretch(b2, k, p1[i]) implies !platform_in_stretch(
        b2,
        k,
        p1[i + 2],
    ) by {
        if i + 2 < p0.len() {
            assert(platform_in_stretch(b, k, p0[i]));
            if platform_in_stretch(b2, k, p1[i + 2]) {
                assert(platform_in_stretch(b, k, p0[i + 2]));
            }
        } else if i < p0.len() {
            assert(k < n - 1);
        }
    }
}

/// Filling one more stretch `b.last()..hi` keeps the plan.
proof fn lemma_extend_plan(
    b: Seq<int>,
    start: int,
    ground: Seq<PlatformSpec>,
    p0: Seq<PlatformSpec>,
    e0: Seq<EnemySpawn>,
    bats0: Seq<BatSpawn>,
    p1: Seq<PlatformSpec>,
    e1: Seq<EnemySpawn>,
    bats1: Seq<BatSpawn>,
    hi: int,
)
    requires
        stretch_plan(b, start, ground, p0, e0, bats0),
        18 <= hi - b[b.len() - 1] <= 28,
        e0.len() <= e1.len() <= e0.len() + 3,
        forall|i: int| 0 <= i < e0.len() ==> e1[i] == e0[i],
        forall|i: int| 0 <= i < e0.len() ==> #[trigger] enemy_tile(e0[i]) < b[b.len() - 1],
        forall|i: int| e0.len() <= i < e1.len() ==> b[b.len() - 1] + 2 <= #[trigger] enemy_tile(e1[i]) < hi - 2,
        p0.len() <= p1.len() <= p0.len() + 2,
        forall|i: int| 0 <= i < p0.len() ==> p1[i] == p0[i],
        forall|i: int| p0.len() <= i < p1.len() ==> b[b.len() - 1] < (#[trigger] p1[i]).left_tile && p1[i].left_tile + p1[i].width_tiles < hi,
        bats1.len() <= p1.len(),
        spawn_range_clear(ground, e0, b[b.len() - 1] + 2, hi - 2) ==> has_enemy_between(e1, b[b.len() - 1] + 2, hi - 2),
        forall|j: int| 0 <= j < b.len() ==> #[trigger] b[j] <= b[b.len() - 1],
    ensures
        stretch_plan(b.push(hi), start, ground, p1, e1, bats1),
{
    lemma_extend_by_stretch(b, start, ground, p0, e0, bats0, p1, e1, hi);
    let lo = b[b.len() - 1];
    let b2 = b.push(hi);
    let n = b.len();
    assert(b2[n as int] == hi);
    assert forall|k: int| 0 <= k < b2.len() - 1 implies 18 <= #[trigger] stretch_width(b2, k) <= 28 by {
        if k < n - 1 {
            assert(stretch_width(b, k) == stretch_width(b2, k));
        }
    }
    assert forall|i: int| 0 <= i < e1.len() implies #[trigger] enemy_in_some_stretch(b2, e1[i]) by {
        if i < e0.len() {
            assert(e1[i] == e0[i]);
            assert(enemy_in_some_stretch(b, e0[i]));
            let k = choose|k: int| #[trigger] in_stretch(b, k, 2, enemy_tile(e0[i]));
            assert(in_stretch(b2, k, 2, enemy_tile(e1[i])));
        } else {
            assert(in_stretch(b2, n - 1, 2, enemy_tile(e1[i])));
        }
    }
    assert forall|i: int| 0 <= i < p1.len() implies #[trigger] platform_in_some_stretch(b2, p1[i]) by {
        if i < p0.len() {
            assert(p1[i] == p0[i]);
            assert(platform_in_some_stretch(b, p0[i]));
            let k = choose|k: int| #[trigger] platform_in_stretch(b, k, p0[i]);
            assert(platform_in_stretch(b2, k, p1[i]));
        } else {
            assert(platform_in_stretch(b2, n - 1, p1[i]));
        }
    }
    assert forall|k: int| 0 <= k < b2.len() - 1 && #[trigger] stretch_clear(ground, e1, b2[k], b2[k + 1]) implies has_enemy_between(
        e1,
        b2[k] + 2,
        b2[k + 1] - 2,
    ) by {
        if k < n - 1 {
            assert(b2[k] == b[k] && b2[k + 1] == b[k + 1]);
            assert(stretch_clear(ground, e0, b[k], b[k + 1])) by {
                assert forall|t: int| b[k] + 2 <= t < b[k + 1] - 2 implies #[trigger] on_floor_line(ground, t) && forall|i: int|
                    0 <= i < e0.len() && enemy_tile(e0[i]) < b[k] ==> half_tile_gap(
                        #[trigger] e0[i].x_half_tiles as int,
                        2 * t + 1,
                    ) >= 2 * MIN_ENEMY_SPACING_TILES by {
                    assert(on_floor_line(ground, t));
                    assert forall|i: int| 0 <= i < e0.len() && enemy_tile(e0[i]) < b[k] implies half_tile_gap(
                        #[trigger] e0[i].x_half_tiles as int,
                        2 * t + 1,
                    ) >= 2 * MIN_ENEMY_SPACING_TILES by {
                        assert(e1[i] == e0[i]);
                        assert(half_tile_gap(e1[i].x_half_tiles as int, 2 * t + 1) >= 2 * MIN_ENEMY_SPACING_TILES);
                    }
                }
            }
            let w = choose|w: int| 0 <= w < e0.len() && b[k] + 2 <= #[trigger] enemy_tile(e0[w]) < b[k + 1] - 2;
            assert(e1[w] == e0[w]);
            assert(b[k] + 2 <= enemy_tile(e1[w]) < b[k + 1] - 2);
        } else {
            assert(b2[k] == lo && b2[k + 1] == hi);
            assert(spawn_range_clear(ground, e0, lo + 2, hi - 2)) by {
                assert forall|t: int| lo + 2 <= t < hi - 2 implies #[trigger] on_floor_line(ground, t) && !crowded(
                    e0,
                    2 * t + 1,
                    2 * MIN_ENEMY_SPACING_TILES as int,
                ) by {
                    assert(on_floor_line(ground, t));
                    if crowded(e0, 2 * t + 1, 2 * MIN_ENEMY_SPACING_TILES as int) {
                        let i = choose|i: int| 0 <= i < e0.len() && half_tile_gap(
                            #[trigger] e0[i].x_half_tiles as int,
                            2 * t + 1,
                        ) < 2 * MIN_ENEMY_SPACING_TILES;
                        assert(enemy_tile(e0[i]) < lo);
                        assert(e1[i] == e0[i]);
                        assert(half_tile_gap(e1[i].x_half_tiles as int, 2 * t + 1) >= 2 * MIN_ENEMY_SPACING_TILES);
                    }
                }
            }
        }
    }
}

/// Splits `start_tile..end_tile` into stretches of 18 to 28 tiles and fills
/// each with up to three floor enemies and one or two floating platforms,
/// with a bat over some platforms. Beside them comes, for each enemy, what
/// the picker was asked and answered.
#[verifier::spinoff_prover]
#[verifier::rlimit(40)]
fn generate_segments<P: GroundEnemyPicker>(
    rng: &mut StdRng,
    start_tile: u32,
    end_tile: u32,
    ground: &[PlatformSpec],
    picker: &P,
) -> (out: (Vec<PlatformSpec>, Vec<EnemySpawn>, Vec<BatSpawn>, Ghost<Seq<(u32, u32, EnemyKind)>>))
    requires
        0 < start_tile <= end_tile <= u32::MAX / 4,
    ensures
        forall|i: int| 0 <= i < out.0@.len() ==> floating_platform_ok(#[trigger] out.0@[i], start_tile as int, end_tile as int),
        spaced(out.1@, 2 * MIN_ENEMY_SPACING_TILES as int),
        forall|i: int| 0 <= i < out.1@.len() ==> stands_on_floor(ground@, #[trigger] out.1@[i], start_tile as int, end_tile as int),
        forall|i: int| 0 <= i < out.2@.len() ==> over_some_platform(out.0@, #[trigger] out.2@[i]),
        exists|b: Seq<int>|
            #[trigger] segments_plan(b, start_tile as int, end_tile as int, ground@, out.0@, out.1@, out.2@)
                && kinds_asked(b, start_tile as int, end_tile as int, out.1@, out.3@),
{
    let mut platforms: Vec<PlatformSpec> = Vec::new();
    let mut enemies: Vec<EnemySpawn> = Vec::new();
    let mut bats: Vec<BatSpawn> = Vec::new();
    let mut cursor = start_tile;
    let span = if end_tile - start_tile > 1 { end_tile - start_tile } else { 1 };
    let ghost min_gap = 2 * MIN_ENEMY_SPACING_TILES as int;
    let ghost mut bounds: Seq<int> = seq![start_tile as int];
    let ghost mut asked: Seq<(u32, u32, EnemyKind)> = Seq::empty();

    while cursor + 18 < end_tile
        invariant
            0 < start_tile <= cursor <= end_tile <= u32::MAX / 4,
            1 <= span <= end_tile,
            min_gap == 2 * MIN_ENEMY_SPACING_TILES as int,
            forall|i: int| 0 <= i < platforms@.len() ==> floating_platform_ok(#[trigger] platforms@[i], start_tile as int, end_tile as int),
            spaced(enemies@, min_gap),
            forall|i: int| 0 <= i < enemies@.len() ==> stands_on_floor(ground@, #[trigger] enemies@[i], start_tile as int, end_tile as int),
            forall|i: int| 0 <= i < bats@.len() ==> over_some_platform(platforms@, #[trigger] bats@[i]),
            stretch_plan(bounds, start_tile as int, ground@, platforms@, enemies@, bats@),
            bounds[bounds.len() - 1] == cursor,
            forall|j: int| 0 <= j < bounds.len() ==> #[trigger] bounds[j] <= cursor,
            forall|i: int| 0 <= i < enemies@.len() ==> #[trigger] enemy_tile(enemies@[i]) < cursor,
            span == stretch_span(start_tile as int, end_tile as int),
            kinds_asked(bounds, start_tile as int, end_tile as int, enemies@, asked),
        decreases end_tile - cursor,
    {
        let ghost e0 = enemies@;
        let ghost a0 = asked;
        let ghost p0 = platforms@;
        let ghost bats0 = bats@;
        let drawn = gen_range_inclusive(rng, 18, 28);
        let segment_width = if drawn < end_tile - cursor { drawn } else { end_tile - cursor };
        let segment_end = cursor + segment_width;
        let progress_num = 2 * (cursor - start_tile) + segment_width;
        let progress_den = 2 * span;

        let enemy_count = gen_range_inclusive(rng, 1, 3);
        let mut e: u32 = 0;
        while e < enemy_count
            invariant
                e <= enemy_count,
                0 < start_tile <= cursor < segment_end <= end_tile <= u32::MAX / 4,
                min_gap == 2 * MIN_ENEMY_SPACING_TILES as int,
                spaced(enemies@, min_gap),
                forall|i: int| 0 <= i < enemies@.len() ==> stands_on_floor(ground@, #[trigger] enemies@[i], start_tile as int, end_tile as int),
                1 <= enemy_count <= 3,
                segment_end == cursor + segment_width,
                18 <= segment_width <= 28,
                e0.len() <= enemies@.len() <= e0.len() + e,
                forall|i: int| 0 <= i < e0.len() ==> enemies@[i] == e0[i],
                forall|i: int| e0.len() <= i < enemies@.len() ==> cursor + 2 <= #[trigger] enemy_tile(enemies@[i]) < segment_end - 2,
                e >= 1 && spawn_range_clear(ground@, e0, cursor + 2, segment_end - 2) ==> has_enemy_between(
                    enemies@,
                    cursor + 2,
                    segment_end - 2,
                ),
                progress_num == 2 * (cursor - start_tile) + segment_width,
                progress_den == 2 * span,
                asked.len() == enemies@.len(),
                forall|i: int| 0 <= i < e0.len() ==> asked[i] == a0[i],
                forall|i: int| e0.len() <= i < enemies@.len() ==> #[trigger] asked[i] == (progress_num, progress_den, enemies@[i].kind),
            ensures
                e >= 1,
            decreases enemy_count - e,
        {
            proof {
                if e == 0 {
                    assert(enemies@ =~= e0);
                }
            }
            e += 1;
            if segment_end <= cursor + 4 {
                break;
            }
            let (spawned, asked_one) = try_spawn_enemy(
                rng,
                cursor + 2,
                segment_end - 2,
                progress_num,
                progress_den,
                ground,
                enemies.as_slice(),
                picker,
            );
            if let Some(spawn) = spawned {
                proof {
                    let s2 = enemies@.push(spawn);
                    assert forall|i: int, j: int| 0 <= i < j < s2.len() implies half_tile_gap(#[trigger] s2[i].x_half_tiles as int, #[trigger] s2[j].x_half_tiles as int) >= min_gap by {
                        if j < enemies@.len() {
                            assert(s2[i] == enemies@[i] && s2[j] == enemies@[j]);
                        } else {
                            assert(s2[i] == enemies@[i]);
                            assert(!(half_tile_gap(enemies@[i].x_half_tiles as int, spawn.x_half_tiles as int) < min_gap));
                        }
                    }
                    assert forall|i: int| 0 <= i < s2.len() implies stands_on_floor(ground@, #[trigger] s2[i], start_tile as int, end_tile as int) by {
                        if i < enemies@.len() {
                            assert(s2[i] == enemies@[i]);
                        }
                    }
                    assert(s2[enemies@.len() as int] == spawn);
                    assert(cursor + 2 <= enemy_tile(s2[enemies@.len() as int]) < segment_end - 2);
                    if has_enemy_between(enemies@, cursor + 2, segment_end - 2) {
                        let w = choose|w: int| 0 <= w < enemies@.len() && cursor + 2 <= #[trigger] enemy_tile(enemies@[w]) < segment_end - 2;
                        assert(s2[w] == enemies@[w]);
                    }
                    assert(has_enemy_between(s2, cursor + 2, segment_end - 2));
                    let a2 = asked.push((progress_num, progress_den, spawn.kind));
                    assert forall|i: int| e0.len() <= i < s2.len() implies #[trigger] a2[i] == (progress_num, progress_den, s2[i].kind) by {
                        if i < enemies@.len() {
                            assert(a2[i] == asked[i] && s2[i] == enemies@[i]);
                        }
                    }
                    asked = a2;
                }
                enemies.push(spawn);
            }
        }

        let floats = gen_ratio(rng, 88, 100);
        if floats && segment_end > cursor + 6 {
            let platform_count: u32 = if gen_ratio(rng, 22, 100) { 2 } else { 1 };
            let mut step: u32 = 0;
            while step < platform_count
                invariant
                    step <= platform_count <= 2,
                    0 < start_tile <= cursor < segment_end <= end_tile <= u32::MAX / 4,
                    p0.len() <= platforms@.len() <= p0.len() + step,
                    forall|i: int| 0 <= i < p0.len() ==> platforms@[i] == p0[i],
                    forall|i: int| p0.len() <= i < platforms@.len() ==> cursor < (#[trigger] platforms@[i]).left_tile
                        && platforms@[i].left_tile + platforms@[i].width_tiles < segment_end,
                    bats@.len() <= platforms@.len(),
                    forall|i: int| 0 <= i < platforms@.len() ==> floating_platform_ok(#[trigger] platforms@[i], start_tile as int, end_tile as int),
                    forall|i: int| 0 <= i < bats@.len() ==> over_some_platform(platforms@, #[trigger] bats@[i]),
                decreases platform_count - step,
            {
                let plat_width = gen_range_inclusive(rng, MIN_PLATFORM_WIDTH_TILES, MAX_PLATFORM_WIDTH_TILES);
                let max_left = segment_end.saturating_sub(plat_width + 1);
                if max_left <= cursor + 1 {
                    step += 1;
                    continue;
                }
                let plat_left = gen_range_inclusive(rng, cursor + 1, max_left);
                let base_height = gen_range_inclusive(rng, MIN_PLATFORM_HEIGHT_TILES, MAX_PLATFORM_HEIGHT_TILES);
                let lift = gen_range_inclusive(rng, 2, 4);
                assert(step * lift <= 4) by (nonlinear_arith)
                    requires
                        step <= 1,
                        lift <= 4,
                ;
                let height_tiles = base_height + step * lift;
                let platform = PlatformSpec { left_tile: plat_left, width_tiles: plat_width, height_tiles };
                proof {
                    let p2 = platforms@.push(platform);
                    assert(p2[platforms@.len() as int] == platform);
                    assert(floating_platform_ok(platform, start_tile as int, end_tile as int));
                    assert forall|i: int| 0 <= i < p2.len() implies floating_platform_ok(#[trigger] p2[i], start_tile as int, end_tile as int) by {
                        if i < platforms@.len() {
                            assert(p2[i] == platforms@[i]);
                        } else {
                            assert(p2[i] == platform);
                        }
                    }
                    assert forall|i: int| 0 <= i < bats@.len() implies over_some_platform(p2, #[trigger] bats@[i]) by {
                        let k = choose|k: int| 0 <= k < platforms@.len() && 2 * #[trigger] platforms@[k].left_tile + platforms@[k].width_tiles == bats@[i].x_half_tiles && platforms@[k].height_tiles == bats@[i].height_tiles;
                        assert(p2[k] == platforms@[k]);
                    }
                }
                platforms.push(platform);

                if gen_ratio(rng, 6, 10) {
                    let bat = BatSpawn { x_half_tiles: 2 * plat_left + plat_width, height_tiles };
                    proof {
                        let b2 = bats@.push(bat);
                        let last = (platforms@.len() - 1) as int;
                        assert(platforms@[last] == platform);
                        assert forall|i: int| 0 <= i < b2.len() implies over_some_platform(platforms@, #[trigger] b2[i]) by {
                            if i < bats@.len() {
                                assert(b2[i] == bats@[i]);
                            } else {
                                assert(b2[i] == bat);
                            }
                        }
                    }
                    bats.push(bat);
                }
                step += 1;
            }
        }

        proof {
            assert forall|i: int| p0.len() <= i < platforms@.len() implies cursor < (#[trigger] platforms@[i]).left_tile
                && platforms@[i].left_tile + platforms@[i].width_tiles < segment_end by {}
            assert forall|j: int| 0 <= j < bounds.len() implies #[trigger] bounds[j] <= bounds[bounds.len() - 1] by {}
            lemma_extend_plan(
                bounds,
                start_tile as int,
                ground@,
                p0,
                e0,
                bats0,
                platforms@,
                enemies@,
                bats@,
                segment_end as int,
            );
            lemma_extend_kinds(bounds, start_tile as int, end_tile as int, e0, a0, enemies@, asked, segment_end as int);
            bounds = bounds.push(segment_end as int);
            assert forall|i: int| 0 <= i < enemies@.len() implies #[trigger] enemy_tile(enemies@[i]) < segment_end by {
                if i < e0.len() {
                    assert(enemies@[i] == e0[i]);
                }
            }
        }
        cursor = segment_end;
    }
    let out = (platforms, enemies, bats, Ghost(asked));
    proof {
        assert(segments_plan(bounds, start_tile as int, end_tile as int, ground@, out.0@, out.1@, out.2@));
    }
    out
}

/// A platform over a pit, two tiles wider than it (within the platform
/// bounds), four to seven tiles up.
fn bridge_over_pit(rng: &mut StdRng, pit: &PitfallSpec) -> (bridge: PlatformSpec)
    requires
        pit.width_tiles <= MAX_PLATFORM_WIDTH_TILES,
    ensures
        bridge.left_tile == pit.left_tile,
        bridge.width_tiles == clamped_bridge_width(pit.width_tiles as int),
        MIN_BRIDGE_HEIGHT_TILES <= bridge.height_tiles <= MAX_BRIDGE_HEIGHT_TILES,
{
    let wanted = pit.width_tiles + 2;
    let width = if wanted < MIN_PLATFORM_WIDTH_TILES {
        MIN_PLATFORM_WIDTH_TILES
    } else if wanted > MAX_PLATFORM_WIDTH_TILES {
        MAX_PLATFORM_WIDTH_TILES
    } else {
        wanted
    };
    let height_tiles = gen_range_inclusive(rng, MIN_BRIDGE_HEIGHT_TILES, MAX_BRIDGE_HEIGHT_TILES);
    PlatformSpec { left_tile: pit.left_tile, width_tiles: width, height_tiles }
}

/// The pit's width plus two, held within the platform widths.
pub open spec fn clamped_bridge_width(pit_width: int) -> int {
    if pit_width + 2 < MIN_PLATFORM_WIDTH_TILES {
        MIN_PLATFORM_WIDTH_TILES as int
    } else if pit_width + 2 > MAX_PLATFORM_WIDTH_TILES {
        MAX_PLATFORM_WIDTH_TILES as int
    } else {
        pit_width + 2
    }
}

/// The boss, centred in the arena that starts at `arena_start`, patrolling
/// all of it but its outer tiles.
pub open spec fn boss_in_arena(arena_start: int) -> BossSpawn {
    BossSpawn {
        x_half_tiles: (2 * (arena_start + BOSS_ARENA_TILES / 2) + 1) as u32,
        height_tiles: 0,
        patrol_min_tile: (arena_start + 1) as u32,
        patrol_max_tile: (arena_start + BOSS_ARENA_TILES - 1) as u32,
    }
}

/// The boss of a generated floor starts at the centre of the arena, the
/// twelve tiles before the ladder pad, on the floor line and inside its own
/// patrol range, which is the arena without its outer tiles and stops short
/// of the ladder.
pub proof fn lemma_boss_starts_mid_arena(floor: GeneratedFloor)
    requires
        sound_floor(floor),
    ensures
        ({
            let arena_start = floor.width_tiles - BOSS_ARENA_TILES - LADDER_PAD_TILES;
            &&& floor.boss.x_half_tiles == 2 * arena_start + BOSS_ARENA_TILES + 1
            &&& floor.boss.height_tiles == 0
            &&& floor.boss.patrol_min_tile == arena_start + 1
            &&& floor.boss.patrol_max_tile == arena_start + BOSS_ARENA_TILES - 1
            &&& 2 * floor.boss.patrol_min_tile <= floor.boss.x_half_tiles <= 2 * floor.boss.patrol_max_tile + 1
            &&& arena_start < floor.boss.patrol_min_tile
            &&& floor.boss.patrol_max_tile < arena_start + BOSS_ARENA_TILES
            &&& floor.boss.patrol_max_tile < floor.ladder_tile
        }),
{
}

fn boss_spawn(arena_start: u32) -> (boss: BossSpawn)
    requires
        arena_start <= u32::MAX / 4,
    ensures
        boss == boss_in_arena(arena_start as int),
{
    let center_tile = arena_start + BOSS_ARENA_TILES / 2;
    BossSpawn {
        x_half_tiles: 2 * center_tile + 1,
        height_tiles: 0,
        patrol_min_tile: arena_start + 1,
        patrol_max_tile: arena_start + BOSS_ARENA_TILES - 1,
    }
}

/// Pits are flanked by floor, except that a pit may end exactly at `cursor`,
/// where the next strip is yet to be laid.
pub open spec fn pits_flanked_before(ground: Seq<PlatformSpec>, pits: Seq<PitfallSpec>, cursor: int) -> bool {
    forall|k: int|
        0 <= k < pits.len() ==> #[trigger] pits[k].left_tile >= 1 && on_ground(ground, pits[k].left_tile - 1)
            && pits[k].left_tile + pits[k].width_tiles <= cursor && (pits[k].left_tile
            + pits[k].width_tiles < cursor ==> on_ground(ground, pits[k].left_tile + pits[k].width_tiles))
}

/// Laying a floor strip right at the cursor keeps the layout exact up to its end.
proof fn lemma_push_strip(ground: Seq<PlatformSpec>, pits: Seq<PitfallSpec>, cursor: int, s: PlatformSpec)
    requires
        laid_out(ground, pits, cursor),
        pits_flanked_before(ground, pits, cursor),
        s.left_tile == cursor,
        s.width_tiles > 0,
    ensures
        laid_out(ground.push(s), pits, cursor + s.width_tiles),
        pits_flanked_before(ground.push(s), pits, cursor + s.width_tiles),
{
    let g2 = ground.push(s);
    assert forall|t: int| #[trigger] on_ground(g2, t) == (on_ground(ground, t) || spans_tile(s, t)) by {
        lemma_on_ground_push(ground, s, t);
    }
    assert forall|t: int| 0 <= t < cursor + s.width_tiles implies #[trigger] on_ground(g2, t) != over_pit(pits, t) by {
        if t < cursor {
            assert(on_ground(ground, t) != over_pit(pits, t));
        } else {
            assert(!on_ground(ground, t) && !over_pit(pits, t));
        }
    }
    assert forall|t: int| (t < 0 || t >= cursor + s.width_tiles) implies !#[trigger] on_ground(g2, t)
        && !over_pit(pits, t) by {
        assert(!on_ground(ground, t) && !over_pit(pits, t));
    }
    assert forall|k: int| 0 <= k < pits.len() implies #[trigger] pits[k].left_tile >= 1 && on_ground(
        g2,
        pits[k].left_tile - 1,
    ) && pits[k].left_tile + pits[k].width_tiles <= cursor + s.width_tiles && (pits[k].left_tile
        + pits[k].width_tiles < cursor + s.width_tiles ==> on_ground(
        g2,
        pits[k].left_tile + pits[k].width_tiles,
    )) by {
        assert(on_ground(ground, pits[k].left_tile - 1));
    }
}

/// Opening a pit right after a floor strip keeps the layout exact up to its end.
proof fn lemma_push_pit(ground: Seq<PlatformSpec>, pits: Seq<PitfallSpec>, cursor: int, p: PitfallSpec)
    requires
        laid_out(ground, pits, cursor),
        pits_flanked_before(ground, pits, cursor),
        cursor >= 1,
        on_ground(ground, cursor - 1),
        forall|k: int| 0 <= k < pits.len() ==> #[trigger] pits[k].width_tiles > 0,
        p.left_tile == cursor,
        p.width_tiles > 0,
    ensures
        laid_out(ground, pits.push(p), cursor + p.width_tiles),
        pits_flanked_before(ground, pits.push(p), cursor + p.width_tiles),
{
    let p2 = pits.push(p);
    assert forall|t: int| #[trigger] over_pit(p2, t) == (over_pit(pits, t) || pit_spans_tile(p, t)) by {
        lemma_over_pit_push(pits, p, t);
    }
    assert forall|t: int| 0 <= t < cursor + p.width_tiles implies #[trigger] on_ground(ground, t) != over_pit(p2, t) by {
        if t < cursor {
            assert(on_ground(ground, t) != over_pit(pits, t));
        } else {
            assert(!on_ground(ground, t) && !over_pit(pits, t));
        }
    }
    assert forall|t: int| (t < 0 || t >= cursor + p.width_tiles) implies !#[trigger] on_ground(ground, t)
        && !over_pit(p2, t) by {
        assert(!on_ground(ground, t) && !over_pit(pits, t));
    }
    assert forall|k: int| 0 <= k < p2.len() implies #[trigger] p2[k].left_tile >= 1 && on_ground(
        ground,
        p2[k].left_tile - 1,
    ) && p2[k].left_tile + p2[k].width_tiles <= cursor + p.width_tiles && (p2[k].left_tile
        + p2[k].width_tiles < cursor + p.width_tiles ==> on_ground(
        ground,
        p2[k].left_tile + p2[k].width_tiles,
    )) by {
        if k < pits.len() {
            assert(p2[k] == pits[k]);
            let e = pits[k].left_tile + pits[k].width_tiles;
            if e == cursor {
                assert(on_ground(ground, cursor - 1));
                assert(over_pit(pits, cursor - 1)) by {
                    assert(pit_spans_tile(pits[k], cursor - 1));
                }
            }
        }
    }
}

} // verus!
