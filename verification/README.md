# homestead

The rules of a small farming-and-dungeon game, verified with Verus.

- `src/` is the verified library: crops and plot persistence, the material
  inventory and loadout, forge recipes and crafting, carve loot and the loot
  log, dungeon floor generation and the hand-made first floor, the boss's
  attack cycle, the player's jumps, fishing feedback, rod use and cast
  stages, and the forest map.
  Random draws come from `rand` through a few trusted wrappers in `src/rng.rs`.
- `app/` is ordinary Rust around it: the floating-point parts (fishing
  timing, rarity rolls, enemy weights and tuning, boss and jump timers,
  world-unit geometry) and loading the RON data files through serde copies
  of the library's types.
- `tests/` exercises the library on concrete values.
