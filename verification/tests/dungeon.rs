use homestead::dungeon::boss::{attack_pool, pick_attack, BossAction, BossAttackKind, BossAttackPlan, BossFrame, BossTint};
use homestead::dungeon::carve::{carve_decision, collect_carve_loot, CarveDecision, LootLog};
use homestead::dungeon::carve_loot::{
    default_bonus_rolls, push_or_stack, roll_from_rarities, roll_table, BonusDrop, CarveLootBook, CarveTarget,
    LootRarity, LootTable, RarityPicker, RarityWeights,
};
use homestead::dungeon::enemy::{EnemyKind, EnemyMovement};
use homestead::dungeon::floor1::floor_one;
use homestead::dungeon::jump::{jump_decision, JumpInput, JumpKind, MAX_AIR_JUMPS};
use homestead::dungeon::generation::{
    generate_floor, GroundEnemyPicker, MAX_PIT_TILES, MAX_PLATFORM_WIDTH_TILES,
    MIN_ENEMY_SPACING_TILES, MIN_PIT_TILES, MIN_PLATFORM_WIDTH_TILES, MIN_WIDTH_TILES,
};
use homestead::items::{Inventory, MaterialId, MAX_STACK};
use rand::rngs::StdRng;
use rand::{Rng, SeedableRng};
use std::cell::RefCell;

/// The game's floor-enemy weights: mostly slimes early, zombies late.
struct WeightedPicker;

impl GroundEnemyPicker for WeightedPicker {
    fn pick_ground_enemy(&self, rng: &mut StdRng, progress_num: u32, progress_den: u32) -> EnemyKind {
        let progress = progress_num as f32 / progress_den as f32;
        let roll: f32 = rng.gen();
        if progress < 0.25 {
            if roll < 0.65 {
                EnemyKind::Slime
            } else if roll < 0.9 {
                EnemyKind::Goblin
            } else {
                EnemyKind::Skeleton
            }
        } else if progress < 0.6 {
            if roll < 0.28 {
                EnemyKind::Slime
            } else if roll < 0.52 {
                EnemyKind::Goblin
            } else if roll < 0.78 {
                EnemyKind::Skeleton
            } else {
                EnemyKind::Zombie
            }
        } else if roll < 0.12 {
            EnemyKind::Slime
        } else if roll < 0.38 {
            EnemyKind::Goblin
        } else if roll < 0.68 {
            EnemyKind::Skeleton
        } else {
            EnemyKind::Zombie
        }
    }
}

#[test]
fn generated_floor_always_has_boss_and_ladder_at_end() {
    for seed in [1, 42, 999, 12_345, 98_765] {
        let floor = generate_floor(seed, &WeightedPicker).0;
        assert!(floor.ladder_tile < floor.width_tiles);
        assert!(floor.boss.patrol_max_tile < floor.ladder_tile);
        assert!(floor.width_tiles >= MIN_WIDTH_TILES);
        assert!(!floor.ground_segments.is_empty());
    }
}

#[test]
fn pitfalls_are_at_least_min_width() {
    for seed in [1, 42, 999, 12_345, 98_765] {
        let floor = generate_floor(seed, &WeightedPicker).0;
        for pit in &floor.pitfalls {
            assert!(pit.width_tiles >= MIN_PIT_TILES);
            assert!(pit.width_tiles <= MAX_PIT_TILES);
        }
    }
}

#[test]
fn floating_platforms_are_wider() {
    for seed in [1, 42, 999, 12_345, 98_765] {
        let floor = generate_floor(seed, &WeightedPicker).0;
        for platform in &floor.platforms {
            assert!(platform.width_tiles >= MIN_PLATFORM_WIDTH_TILES);
            assert!(platform.width_tiles <= MAX_PLATFORM_WIDTH_TILES);
        }
    }
}

#[test]
fn enemies_spawn_with_minimum_spacing() {
    let min_dist = 2 * MIN_ENEMY_SPACING_TILES;
    for seed in [1, 42, 999, 12_345, 98_765] {
        let floor = generate_floor(seed, &WeightedPicker).0;
        for (i, left) in floor.enemies.iter().enumerate() {
            for right in floor.enemies.iter().skip(i + 1) {
                assert!(
                    left.x_half_tiles.abs_diff(right.x_half_tiles) >= min_dist,
                    "seed {seed}: enemies at {} and {} are too close",
                    left.x_half_tiles,
                    right.x_half_tiles
                );
            }
        }
    }
}

#[test]
fn generated_floor_tiles_every_column_once() {
    for seed in [7, 2024] {
        let floor = generate_floor(seed, &WeightedPicker).0;
        for t in 0..floor.width_tiles {
            let ground = floor
                .ground_segments
                .iter()
                .filter(|s| s.left_tile <= t && t < s.left_tile + s.width_tiles)
                .count();
            let pits = floor
                .pitfalls
                .iter()
                .filter(|p| p.left_tile <= t && t < p.left_tile + p.width_tiles)
                .count();
            assert_eq!(ground + pits, 1, "seed {seed}: tile {t}");
        }
        for e in &floor.enemies {
            let tile = e.x_half_tiles / 2;
            assert_eq!(e.x_half_tiles % 2, 1);
            assert!(floor
                .ground_segments
                .iter()
                .any(|s| s.left_tile <= tile && tile < s.left_tile + s.width_tiles));
        }
    }
}

#[test]
fn same_seed_same_floor() {
    assert_eq!(generate_floor(5, &WeightedPicker).0, generate_floor(5, &WeightedPicker).0);
}

#[test]
fn floor_one_layout() {
    let floor = floor_one();
    assert_eq!(floor.width_tiles, 72);
    assert_eq!(floor.ladder_tile, 69);
    assert_eq!(floor.enemies.len(), 5);
    assert_eq!(floor.enemies[2].kind, EnemyKind::Goblin);
    assert_eq!(floor.enemies[2].x_half_tiles, 64);
    assert_eq!(floor.boss.x_half_tiles, 117);
    assert_eq!(floor.bats.len(), 2);
    assert!(floor.pitfalls.is_empty());
    assert!(floor.has_boss);
}

#[test]
fn bats_fly_others_walk() {
    assert_eq!(EnemyKind::Bat.movement(), EnemyMovement::Flying);
    assert!(EnemyKind::Bat.is_airborne());
    assert!(!EnemyKind::Zombie.is_airborne());
}

/// Rarity rolls as the game makes them: a unit roll across the weights.
struct UnitRollPicker {
    rare_multiplier: f32,
}

impl RarityPicker for UnitRollPicker {
    fn pick_rarity(&self, weights: RarityWeights, rng: &mut StdRng) -> Option<LootRarity> {
        let unit_roll: f32 = rng.gen();
        let common = weights.common as f64;
        let uncommon = weights.uncommon as f64;
        let rare = (weights.rare as f64) * (self.rare_multiplier.max(0.0) as f64);
        let total = common + uncommon + rare;
        if total <= 0.0 {
            return None;
        }
        let bands = [
            (LootRarity::Common, common),
            (LootRarity::Uncommon, uncommon),
            (LootRarity::Rare, rare),
        ];
        let target = (unit_roll.clamp(0.0, 1.0) as f64) * total;
        let mut acc = 0.0;
        for (rarity, weight) in bands {
            acc += weight;
            if target < acc {
                return Some(rarity);
            }
        }
        bands
            .iter()
            .rev()
            .find(|(_, weight)| *weight > 0.0)
            .map(|(rarity, _)| *rarity)
    }
}

#[test]
fn empty_rarity_bucket_skips_that_bonus_roll() {
    let table = LootTable {
        target: CarveTarget::Pack(EnemyKind::Slime),
        guaranteed: vec![(MaterialId::SlimeGel, 1)],
        bonus: vec![BonusDrop {
            material: MaterialId::SlimeGel,
            amount: 1,
            rarity: LootRarity::Common,
        }],
        rarity_weights: RarityWeights {
            common: 0,
            uncommon: 0,
            rare: 100,
        },
        bonus_rolls: 1,
    };
    let mut rng = StdRng::seed_from_u64(7);
    for _ in 0..20 {
        let drops = roll_table(&table, &mut rng, &UnitRollPicker { rare_multiplier: 1.0 }).0;
        assert_eq!(drops, vec![(MaterialId::SlimeGel, 1)]);
    }
}

#[test]
fn missing_table_returns_empty() {
    let book = CarveLootBook::from_tables(Vec::new());
    let mut rng = StdRng::seed_from_u64(3);
    assert!(book
        .roll_with(CarveTarget::KingSlime, &mut rng, &UnitRollPicker { rare_multiplier: 1.0 })
        .0
        .is_empty());
}

fn slime_table() -> LootTable {
    LootTable {
        target: CarveTarget::Pack(EnemyKind::Slime),
        guaranteed: vec![(MaterialId::SlimeGel, 2), (MaterialId::SlimeCore, 1)],
        bonus: vec![
            BonusDrop {
                material: MaterialId::SlimeGel,
                amount: 1,
                rarity: LootRarity::Common,
            },
            BonusDrop {
                material: MaterialId::IronScrap,
                amount: 1,
                rarity: LootRarity::Uncommon,
            },
            BonusDrop {
                material: MaterialId::SlimeCore,
                amount: 2,
                rarity: LootRarity::Rare,
            },
        ],
        rarity_weights: RarityWeights::default(),
        bonus_rolls: default_bonus_rolls(),
    }
}

#[test]
fn max_loot_stacks_each_material_once() {
    let book = CarveLootBook::from_tables(vec![slime_table()]);
    let max = book.max_loot(CarveTarget::Pack(EnemyKind::Slime));
    assert_eq!(
        max,
        vec![
            (MaterialId::SlimeGel, 3),
            (MaterialId::SlimeCore, 3),
            (MaterialId::IronScrap, 1)
        ]
    );
    assert!(book.max_loot(CarveTarget::KingSlime).is_empty());
}

#[test]
fn max_loot_stacks_same_materials() {
    let book = CarveLootBook::from_tables(vec![slime_table()]);
    let max = book.max_loot(CarveTarget::Pack(EnemyKind::Slime));
    let gel_entries = max
        .iter()
        .filter(|(m, _)| *m == MaterialId::SlimeGel)
        .count();
    assert_eq!(gel_entries, 1, "same materials should stack into one entry");
}

#[test]
fn large_tables_roll_when_each_material_fits() {
    let mut table = slime_table();
    table.guaranteed = vec![(MaterialId::SlimeGel, 3_000_000_000), (MaterialId::Fang, 1_000_000_000)];
    table.bonus = vec![BonusDrop {
        material: MaterialId::IronScrap,
        amount: 1_000_000_000,
        rarity: LootRarity::Common,
    }];
    table.bonus_rolls = 2;
    table.rarity_weights = RarityWeights {
        common: 1,
        uncommon: 0,
        rare: 0,
    };
    let book = CarveLootBook::from_tables(vec![table]);
    let mut rng = StdRng::seed_from_u64(9);
    let drops = book.roll_with(
        CarveTarget::Pack(EnemyKind::Slime),
        &mut rng,
        &UnitRollPicker { rare_multiplier: 1.0 },
    )
    .0;
    assert_eq!(drops[0], (MaterialId::SlimeGel, 3_000_000_000));
    assert_eq!(drops[1], (MaterialId::Fang, 1_000_000_000));
    assert_eq!(drops[2], (MaterialId::IronScrap, 2_000_000_000));
    assert_eq!(
        book.max_loot(CarveTarget::Pack(EnemyKind::Slime)),
        vec![
            (MaterialId::SlimeGel, 3_000_000_000),
            (MaterialId::Fang, 1_000_000_000),
            (MaterialId::IronScrap, 1_000_000_000)
        ]
    );
}

#[test]
fn rolls_always_include_guaranteed_parts() {
    let book = CarveLootBook::from_tables(vec![slime_table()]);
    let mut rng = StdRng::seed_from_u64(42);
    for _ in 0..20 {
        let drops = book.roll_with(
            CarveTarget::Pack(EnemyKind::Slime),
            &mut rng,
            &UnitRollPicker { rare_multiplier: 1.0 },
        )
        .0;
        let gel: u32 = drops
            .iter()
            .filter(|(m, _)| *m == MaterialId::SlimeGel)
            .map(|(_, n)| *n)
            .sum();
        assert!(gel >= 2);
        let total: u32 = drops.iter().map(|(_, n)| *n).sum();
        assert!((3..=5).contains(&total));
        assert!(drops.iter().filter(|(m, _)| *m == MaterialId::SlimeCore).count() == 1);
    }
}

#[test]
fn table_lookup_finds_the_first_table_for_a_target() {
    let mut boss = slime_table();
    boss.target = CarveTarget::KingSlime;
    boss.bonus_rolls = 3;
    let book = CarveLootBook::from_tables(vec![slime_table(), boss]);
    assert_eq!(book.table_for(CarveTarget::KingSlime).unwrap().bonus_rolls, 3);
    assert!(book.table_for(CarveTarget::Pack(EnemyKind::Bat)).is_none());
    assert_eq!(CarveTarget::KingSlime.label(), "king slime");
    assert_eq!(CarveTarget::Pack(EnemyKind::Goblin).label(), "goblin");
}

#[test]
fn stacking_adds_onto_the_existing_entry() {
    let mut drops = vec![(MaterialId::Fang, 1), (MaterialId::SlimeGel, 2)];
    push_or_stack(&mut drops, MaterialId::SlimeGel, 5);
    assert_eq!(drops, vec![(MaterialId::Fang, 1), (MaterialId::SlimeGel, 7)]);
    push_or_stack(&mut drops, MaterialId::BoneShard, 1);
    assert_eq!(
        drops,
        vec![
            (MaterialId::Fang, 1),
            (MaterialId::SlimeGel, 7),
            (MaterialId::BoneShard, 1)
        ]
    );
}

#[test]
fn carving_a_slime_stores_and_logs_its_parts() {
    let mut inventory = Inventory::new();
    let mut log = LootLog::default();
    collect_carve_loot(&mut inventory, &mut log, EnemyKind::Slime);
    assert_eq!(inventory.count(MaterialId::SlimeGel), 3);
    assert_eq!(inventory.count(MaterialId::SlimeCore), 1);
    assert_eq!(inventory.count(MaterialId::IronScrap), 1);
    let lines: Vec<&str> = log.pending.iter().map(|e| e.text.as_str()).collect();
    assert_eq!(
        lines,
        vec!["Carved 3× Slime Gel", "Carved 1× Slime Core", "Carved 1× Iron Scrap"]
    );
}

#[test]
fn full_inventory_logs_what_was_lost() {
    let mut inventory = Inventory::new();
    inventory.try_add(MaterialId::IronScrap, MAX_STACK - 1);
    let mut log = LootLog::default();
    collect_carve_loot(&mut inventory, &mut log, EnemyKind::Skeleton);
    assert_eq!(inventory.count(MaterialId::IronScrap), MAX_STACK);
    let lines: Vec<&str> = log.pending.iter().map(|e| e.text.as_str()).collect();
    assert_eq!(
        lines,
        vec!["Carved 1× Iron Scrap", "Inventory full — lost 1× Iron Scrap"]
    );
    log.push_carved("Fang", 0);
    log.push_missed("Fang", 0);
    assert_eq!(log.pending.len(), 2);
}

#[test]
fn carve_targets_follow_the_key_and_the_nearest_corpse() {
    assert_eq!(
        carve_decision(Some(4), true, Some(4), true),
        CarveDecision {
            target: None,
            restart_timer: true,
            advance_timer: false
        }
    );
    assert_eq!(
        carve_decision(Some(4), false, None, true),
        CarveDecision {
            target: None,
            restart_timer: false,
            advance_timer: false
        }
    );
    assert_eq!(
        carve_decision(Some(4), false, Some(4), false),
        CarveDecision {
            target: None,
            restart_timer: true,
            advance_timer: false
        }
    );
    assert_eq!(
        carve_decision(Some(4), false, Some(9), true),
        CarveDecision {
            target: Some(9),
            restart_timer: true,
            advance_timer: true
        }
    );
    assert_eq!(
        carve_decision(Some(9), false, Some(9), true),
        CarveDecision {
            target: Some(9),
            restart_timer: false,
            advance_timer: true
        }
    );
}

#[test]
fn boss_never_repeats_its_last_attack_unless_enraged() {
    let pool = attack_pool(Some(BossAttackKind::SlimeBolt), false);
    assert_eq!(pool.len(), 5);
    assert!(!pool.contains(&BossAttackKind::SlimeBolt));
    let enraged = attack_pool(Some(BossAttackKind::SlimeRain), true);
    assert_eq!(enraged.len(), 8);
    assert_eq!(
        enraged[5..].to_vec(),
        vec![
            BossAttackKind::RingBurst,
            BossAttackKind::SlimeRain,
            BossAttackKind::GroundSlam
        ]
    );
    assert_eq!(attack_pool(None, false).to_vec(), BossAttackKind::all().to_vec());
    for _ in 0..20 {
        assert_ne!(pick_attack(Some(BossAttackKind::RoyalCharge), false), BossAttackKind::RoyalCharge);
    }
}

#[test]
fn boss_cycle_rests_winds_up_and_releases() {
    let mut plan = BossAttackPlan::new();
    let idle = BossFrame {
        knocked_back: false,
        charging: false,
        timer_done: false,
        in_range: true,
        low_health: false,
    };
    assert_eq!(plan.step(idle), BossAction::Hold(BossTint::Idle));
    let ready = BossFrame {
        timer_done: true,
        ..idle
    };
    let kind = match plan.step(ready) {
        BossAction::BeginWindup(kind) => kind,
        other => panic!("expected a windup, got {other:?}"),
    };
    assert!(plan.winding_up);
    assert_eq!(plan.runs_windup(false, false), Some(true));
    assert_eq!(plan.step(idle), BossAction::Hold(BossTint::Windup));
    assert_eq!(plan.step(ready), BossAction::Release(Some(kind)));
    assert_eq!(plan.last_kind, Some(kind));
    assert!(!plan.winding_up);
    let hit = BossFrame {
        knocked_back: true,
        ..ready
    };
    assert_eq!(plan.step(hit), BossAction::Hold(BossTint::Idle));
    let far = BossFrame {
        in_range: false,
        ..ready
    };
    assert_eq!(plan.step(far), BossAction::Hold(BossTint::Idle));
    assert_eq!(plan.runs_windup(false, true), None);
}

/// Answers each ask with the next kind of a fixed cycle and keeps what it
/// was asked.
struct CyclingPicker {
    asks: RefCell<Vec<(u32, u32, EnemyKind)>>,
}

impl GroundEnemyPicker for CyclingPicker {
    fn pick_ground_enemy(&self, _rng: &mut StdRng, progress_num: u32, progress_den: u32) -> EnemyKind {
        let kinds = [EnemyKind::Bat, EnemyKind::Zombie, EnemyKind::Goblin, EnemyKind::Skeleton];
        let mut asks = self.asks.borrow_mut();
        let kind = kinds[asks.len() % kinds.len()];
        asks.push((progress_num, progress_den, kind));
        kind
    }
}

#[test]
fn floor_enemies_take_the_kinds_the_picker_gives() {
    for seed in [3, 17, 2024] {
        let picker = CyclingPicker { asks: RefCell::new(Vec::new()) };
        let floor = generate_floor(seed, &picker).0;
        let asks = picker.asks.into_inner();
        assert_eq!(asks.len(), floor.enemies.len());
        let span = floor.width_tiles - 15 - 8;
        for (enemy, (num, den, kind)) in floor.enemies.iter().zip(asks.iter()) {
            assert_eq!(enemy.kind, *kind);
            assert_eq!(*den, 2 * span);
            let tile = (enemy.x_half_tiles / 2) as i64;
            assert!((*num as i64 - 2 * (tile - 8)).abs() <= 24);
        }
    }
}

/// Always answers the same rarity.
struct FixedRarity(Option<LootRarity>);

impl RarityPicker for FixedRarity {
    fn pick_rarity(&self, _weights: RarityWeights, _rng: &mut StdRng) -> Option<LootRarity> {
        self.0
    }
}

#[test]
fn a_rolled_rarity_with_no_parts_adds_nothing() {
    let mut table = slime_table();
    table.bonus.retain(|d| d.rarity != LootRarity::Rare);
    let mut rng = StdRng::seed_from_u64(11);
    let only_rare = [Some(LootRarity::Rare)];
    assert_eq!(
        roll_from_rarities(&table, &only_rare, &mut rng),
        vec![(MaterialId::SlimeGel, 2), (MaterialId::SlimeCore, 1)]
    );
    let (drops, _) = roll_table(&table, &mut rng, &FixedRarity(Some(LootRarity::Rare)));
    assert_eq!(drops, vec![(MaterialId::SlimeGel, 2), (MaterialId::SlimeCore, 1)]);
    let (none, _) = roll_table(&table, &mut rng, &FixedRarity(None));
    assert_eq!(none, vec![(MaterialId::SlimeGel, 2), (MaterialId::SlimeCore, 1)]);
}

#[test]
fn each_bonus_roll_gives_a_part_of_its_rarity() {
    let table = slime_table();
    let mut rng = StdRng::seed_from_u64(5);
    let rolls = [Some(LootRarity::Uncommon), None, Some(LootRarity::Rare), Some(LootRarity::Common)];
    assert_eq!(
        roll_from_rarities(&table, &rolls, &mut rng),
        vec![(MaterialId::SlimeGel, 3), (MaterialId::SlimeCore, 3), (MaterialId::IronScrap, 1)]
    );
    let (drops, _) = roll_table(&table, &mut rng, &FixedRarity(Some(LootRarity::Uncommon)));
    assert_eq!(drops, vec![(MaterialId::SlimeGel, 2), (MaterialId::SlimeCore, 1), (MaterialId::IronScrap, 1)]);
}

#[test]
fn one_ground_jump_then_one_air_jump() {
    let press = JumpInput {
        under_knockback: false,
        jump_blocked: false,
        jump_pressed: true,
        grounded: true,
        air_jumps_remaining: 0,
    };
    assert_eq!(jump_decision(press), (Some(JumpKind::Ground), MAX_AIR_JUMPS));
    let in_air = JumpInput { grounded: false, air_jumps_remaining: MAX_AIR_JUMPS, ..press };
    assert_eq!(jump_decision(in_air), (Some(JumpKind::Air), 0));
    let spent = JumpInput { air_jumps_remaining: 0, ..in_air };
    assert_eq!(jump_decision(spent), (None, 0));
    assert_eq!(jump_decision(JumpInput { under_knockback: true, ..press }), (None, 0));
    assert_eq!(jump_decision(JumpInput { jump_blocked: true, ..in_air }), (None, MAX_AIR_JUMPS));
    assert_eq!(jump_decision(JumpInput { jump_pressed: false, ..in_air }), (None, MAX_AIR_JUMPS));
}
