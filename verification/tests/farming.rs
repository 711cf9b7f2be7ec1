use homestead::farming::actions::{apply_to_target, apply_tool};
use homestead::farming::crops::{
    advance_plot_day, harvest_plot, plant_plot, till_plot, water_plot, CropKind, FarmActionResult,
    PlotStage,
};
use homestead::farming::hotbar::{HomesteadHotbar, HotbarEntry};
use homestead::farming::hud::hud_text;
use homestead::farming::persist::{
    capture_plots, live_kind, live_stage, restored_stage, saved_kind, saved_stage, SavedCropKind,
    SavedPlotStage,
};
use homestead::farming::plots::{
    advance_all_plots_on_sleep, field_plots, find_target_tile, CropPlot,
};
use homestead::farming::tools::HomesteadTool;
use homestead::farming::use_tool::ensure_starter_seeds;
use homestead::items::{Inventory, MaterialId};

#[test]
fn full_grow_cycle_turnip() {
    let (s, r) = till_plot(PlotStage::Soil);
    assert_eq!(r, FarmActionResult::Tilled);
    let (s, r) = plant_plot(s, CropKind::Turnip);
    assert!(matches!(r, FarmActionResult::Planted(CropKind::Turnip)));
    let (s, r) = water_plot(s);
    assert_eq!(r, FarmActionResult::Watered);
    let s = advance_plot_day(s);
    assert!(matches!(
        s,
        PlotStage::Growing {
            days: 1,
            watered: false,
            ..
        }
    ));
    let (s, _) = water_plot(s);
    let s = advance_plot_day(s);
    assert_eq!(s, PlotStage::Ready { crop: CropKind::Turnip });
    let (s, r) = harvest_plot(s);
    assert_eq!(s, PlotStage::Soil);
    assert_eq!(
        r,
        FarmActionResult::Harvested {
            crop: CropKind::Turnip,
            amount: 1
        }
    );
}

#[test]
fn unwatered_crop_does_not_grow() {
    let (s, _) = till_plot(PlotStage::Soil);
    let (s, _) = plant_plot(s, CropKind::Potato);
    let s = advance_plot_day(s);
    assert!(matches!(
        s,
        PlotStage::Growing {
            days: 0,
            watered: false,
            ..
        }
    ));
}

#[test]
fn potato_watered_daily_is_ready_on_third_morning() {
    let (s, _) = plant_plot(PlotStage::Tilled, CropKind::Potato);
    let mut s = s;
    for day in 1..=3u8 {
        let (watered, r) = water_plot(s);
        assert_eq!(r, FarmActionResult::Watered);
        s = advance_plot_day(watered);
        if day < 3 {
            assert_eq!(
                s,
                PlotStage::Growing {
                    crop: CropKind::Potato,
                    days: day,
                    watered: false
                }
            );
        }
    }
    assert_eq!(s, PlotStage::Ready { crop: CropKind::Potato });
    assert_eq!(advance_plot_day(s), PlotStage::Ready { crop: CropKind::Potato });
}

#[test]
fn unwatered_plots_wait_for_many_nights() {
    let start = PlotStage::Growing {
        crop: CropKind::Turnip,
        days: 1,
        watered: false,
    };
    let mut s = start;
    for _ in 0..10 {
        s = advance_plot_day(s);
    }
    assert_eq!(s, start);
    assert_eq!(advance_plot_day(PlotStage::Tilled), PlotStage::Tilled);
    assert_eq!(advance_plot_day(PlotStage::Soil), PlotStage::Soil);
}

#[test]
fn farm_action_failures_carry_their_message() {
    assert_eq!(
        till_plot(PlotStage::Tilled).1,
        FarmActionResult::Failed("already worked soil")
    );
    assert_eq!(
        plant_plot(PlotStage::Soil, CropKind::Turnip).1,
        FarmActionResult::Failed("till before planting")
    );
    let watered = PlotStage::Growing {
        crop: CropKind::Turnip,
        days: 0,
        watered: true,
    };
    assert_eq!(water_plot(watered).1, FarmActionResult::Failed("already watered today"));
    assert_eq!(water_plot(PlotStage::Soil).1, FarmActionResult::Failed("nothing to water"));
    assert_eq!(
        harvest_plot(PlotStage::Tilled).1,
        FarmActionResult::Failed("not ready to harvest")
    );
}

#[test]
fn plant_requires_tilled_soil() {
    let mut inv = Inventory::with_starter_seeds();
    let err = apply_tool(HomesteadTool::Seeds, PlotStage::Soil, &mut inv).unwrap_err();
    assert!(err.contains("till"));
    assert_eq!(inv.count(MaterialId::TurnipSeed), 8);
}

#[test]
fn plant_uses_turnip_then_potato() {
    let mut inv = Inventory::with_starter_seeds();
    let (stage, result) = apply_tool(HomesteadTool::Seeds, PlotStage::Tilled, &mut inv).unwrap();
    assert!(matches!(
        stage,
        PlotStage::Growing {
            crop: CropKind::Turnip,
            days: 0,
            ..
        }
    ));
    assert!(matches!(result, FarmActionResult::Planted(CropKind::Turnip)));
    assert_eq!(inv.count(MaterialId::TurnipSeed), 7);
    assert_eq!(inv.count(MaterialId::PotatoSeed), 4);
}

#[test]
fn hoe_tills_soil() {
    let mut inv = Inventory::with_starter_seeds();
    let (stage, result) = apply_tool(HomesteadTool::Hoe, PlotStage::Soil, &mut inv).unwrap();
    assert_eq!(stage, PlotStage::Tilled);
    assert_eq!(result, FarmActionResult::Tilled);
    assert_eq!(inv.count(MaterialId::Hoe), 1);
    assert_eq!(inv.count(MaterialId::WateringCan), 1);
    assert_eq!(inv.count(MaterialId::TurnipSeed), 8);
    assert_eq!(inv.count(MaterialId::PotatoSeed), 4);
}

#[test]
fn seeds_fall_back_to_potato_and_refuse_without_any() {
    let mut inv = Inventory::new();
    inv.try_add(MaterialId::PotatoSeed, 1);
    let (stage, result) = apply_tool(HomesteadTool::Seeds, PlotStage::Tilled, &mut inv).unwrap();
    assert_eq!(
        stage,
        PlotStage::Growing {
            crop: CropKind::Potato,
            days: 0,
            watered: false
        }
    );
    assert_eq!(result, FarmActionResult::Planted(CropKind::Potato));
    assert_eq!(inv.count(MaterialId::PotatoSeed), 0);
    let err = apply_tool(HomesteadTool::Seeds, PlotStage::Tilled, &mut inv).unwrap_err();
    assert_eq!(err, "no seeds in inventory");
}

#[test]
fn hand_harvests_produce_into_inventory() {
    let mut inv = Inventory::new();
    let (stage, result) = apply_tool(
        HomesteadTool::Hand,
        PlotStage::Ready {
            crop: CropKind::Potato,
        },
        &mut inv,
    )
    .unwrap();
    assert_eq!(stage, PlotStage::Soil);
    assert_eq!(
        result,
        FarmActionResult::Harvested {
            crop: CropKind::Potato,
            amount: 1
        }
    );
    assert_eq!(inv.count(MaterialId::Potato), 1);
    assert_eq!(
        apply_tool(HomesteadTool::Hand, PlotStage::Tilled, &mut inv).unwrap_err(),
        "not ready to harvest"
    );
}

#[test]
fn tool_on_missing_plot_is_refused() {
    let mut plots = vec![CropPlot {
        tile_x: 1,
        tile_y: 1,
        stage: PlotStage::Soil,
    }];
    let mut inv = Inventory::new();
    assert_eq!(
        apply_to_target(&mut plots, 2, 2, HomesteadTool::Hoe, &mut inv),
        Err("plot gone")
    );
    assert_eq!(plots[0].stage, PlotStage::Soil);
}

#[test]
fn tool_on_target_updates_that_plot_only() {
    let mut plots = vec![
        CropPlot {
            tile_x: 1,
            tile_y: 1,
            stage: PlotStage::Soil,
        },
        CropPlot {
            tile_x: 3,
            tile_y: 1,
            stage: PlotStage::Soil,
        },
    ];
    let mut inv = Inventory::new();
    assert_eq!(
        apply_to_target(&mut plots, 3, 1, HomesteadTool::Hoe, &mut inv),
        Ok(FarmActionResult::Tilled)
    );
    assert_eq!(plots[0].stage, PlotStage::Soil);
    assert_eq!(plots[1].stage, PlotStage::Tilled);
    assert_eq!(
        apply_to_target(&mut plots, 3, 1, HomesteadTool::Hoe, &mut inv),
        Err("already worked soil")
    );
    assert_eq!(plots[1].stage, PlotStage::Tilled);
}

#[test]
fn sleeping_advances_every_plot() {
    let mut plots = vec![
        CropPlot {
            tile_x: 0,
            tile_y: 0,
            stage: PlotStage::Growing {
                crop: CropKind::Turnip,
                days: 1,
                watered: true,
            },
        },
        CropPlot {
            tile_x: 2,
            tile_y: 0,
            stage: PlotStage::Growing {
                crop: CropKind::Potato,
                days: 0,
                watered: true,
            },
        },
        CropPlot {
            tile_x: 4,
            tile_y: 0,
            stage: PlotStage::Tilled,
        },
    ];
    advance_all_plots_on_sleep(&mut plots);
    assert_eq!(plots[0].stage, PlotStage::Ready { crop: CropKind::Turnip });
    assert_eq!(
        plots[1].stage,
        PlotStage::Growing {
            crop: CropKind::Potato,
            days: 1,
            watered: false
        }
    );
    assert_eq!(plots[2].stage, PlotStage::Tilled);
    assert_eq!(plots[2].tile_x, 4);
}

#[test]
fn field_is_a_chequerboard_of_soil_plots() {
    let plots = field_plots(2, 5, 1, 3);
    let tiles: Vec<(u32, u32)> = plots.iter().map(|p| (p.tile_x, p.tile_y)).collect();
    assert_eq!(tiles, vec![(3, 1), (2, 2), (4, 2)]);
    assert!(plots.iter().all(|p| p.stage == PlotStage::Soil));
    assert!(field_plots(3, 3, 0, 4).is_empty());
}

#[test]
fn target_prefers_facing_then_standing_then_nearest() {
    let plots = vec![
        CropPlot {
            tile_x: 1,
            tile_y: 1,
            stage: PlotStage::Soil,
        },
        CropPlot {
            tile_x: 2,
            tile_y: 1,
            stage: PlotStage::Soil,
        },
    ];
    assert_eq!(find_target_tile(&plots, (2, 1), (1, 1), None), Some((2, 1)));
    assert_eq!(find_target_tile(&plots, (5, 5), (1, 1), None), Some((1, 1)));
    assert_eq!(find_target_tile(&plots, (5, 5), (6, 6), Some((2, 1))), Some((2, 1)));
    assert_eq!(find_target_tile(&plots, (5, 5), (6, 6), None), None);
}

#[test]
fn hud_marks_the_equipped_tool() {
    assert_eq!(
        hud_text(HomesteadTool::Seeds),
        "1 Hoe  ·  2 Watering Can  ·  [3 Seeds]  ·  4 Hand"
    );
    assert_eq!(
        hud_text(HomesteadTool::Hoe),
        "[1 Hoe]  ·  2 Watering Can  ·  3 Seeds  ·  4 Hand"
    );
}

#[test]
fn digit_keys_pick_tools() {
    assert_eq!(HomesteadTool::from_digit(1), Some(HomesteadTool::Hoe));
    assert_eq!(HomesteadTool::from_digit(4), Some(HomesteadTool::Hand));
    assert_eq!(HomesteadTool::from_digit(0), None);
    assert_eq!(HomesteadTool::from_digit(5), None);
}

#[test]
fn starter_kit_is_restocked_only_when_missing() {
    let mut inv = Inventory::new();
    assert!(ensure_starter_seeds(&mut inv));
    assert_eq!(inv.count(MaterialId::Hoe), 1);
    assert_eq!(inv.count(MaterialId::WateringCan), 1);
    assert_eq!(inv.count(MaterialId::TurnipSeed), 8);
    assert_eq!(inv.count(MaterialId::PotatoSeed), 4);
    assert_eq!(inv.count(MaterialId::Pickaxe), 0);
    assert!(!ensure_starter_seeds(&mut inv));
    assert_eq!(inv.count(MaterialId::TurnipSeed), 8);
}

fn growing_turnip() -> CropPlot {
    CropPlot {
        tile_x: 4,
        tile_y: 7,
        stage: PlotStage::Growing {
            crop: CropKind::Turnip,
            days: 1,
            watered: true,
        },
    }
}

fn tilled() -> CropPlot {
    CropPlot {
        tile_x: 5,
        tile_y: 7,
        stage: PlotStage::Tilled,
    }
}

fn ready_potato() -> CropPlot {
    CropPlot {
        tile_x: 6,
        tile_y: 7,
        stage: PlotStage::Ready {
            crop: CropKind::Potato,
        },
    }
}

fn soil_at(tile_x: u32, tile_y: u32) -> CropPlot {
    CropPlot {
        tile_x,
        tile_y,
        stage: PlotStage::Soil,
    }
}

#[test]
fn soil_is_not_persisted() {
    let live = vec![soil_at(4, 7), tilled(), soil_at(8, 8)];
    let saved = capture_plots(&live);
    assert_eq!(saved.len(), 1);
    assert_eq!(saved[0].tile_x, 5);
    assert_eq!(saved[0].tile_y, 7);
    assert_eq!(saved[0].stage, SavedPlotStage::Tilled);
    assert_eq!(restored_stage(&saved, 4, 7), PlotStage::Soil);
    assert_eq!(restored_stage(&saved, 8, 8), PlotStage::Soil);
}

#[test]
fn harvest_back_to_soil_drops_entry() {
    let before = vec![
        CropPlot {
            tile_x: 4,
            tile_y: 7,
            stage: PlotStage::Ready {
                crop: CropKind::Turnip,
            },
        },
        tilled(),
    ];
    let saved = capture_plots(&before);
    assert_eq!(saved.len(), 2);

    let after = vec![soil_at(4, 7), tilled()];
    let saved = capture_plots(&after);
    assert_eq!(saved.len(), 1);
    assert_eq!(saved[0].tile_x, 5);
    assert_eq!(saved[0].tile_y, 7);
    assert_eq!(saved[0].stage, SavedPlotStage::Tilled);
    assert_eq!(restored_stage(&saved, 4, 7), PlotStage::Soil);
}

#[test]
fn empty_vec_is_virgin_field() {
    assert!(capture_plots(&[]).is_empty());
    assert_eq!(restored_stage(&[], 0, 0), PlotStage::Soil);
}

#[test]
fn captured_plots_restore_their_stages() {
    let live = vec![ready_potato(), growing_turnip(), tilled()];
    let saved = capture_plots(&live);
    assert_eq!(saved.len(), 3);
    let tiles: Vec<u32> = saved.iter().map(|p| p.tile_x).collect();
    assert_eq!(tiles, vec![4, 5, 6]);
    assert_eq!(
        restored_stage(&saved, 4, 7),
        PlotStage::Growing {
            crop: CropKind::Turnip,
            days: 1,
            watered: true,
        }
    );
    assert_eq!(restored_stage(&saved, 5, 7), PlotStage::Tilled);
    assert_eq!(
        restored_stage(&saved, 6, 7),
        PlotStage::Ready {
            crop: CropKind::Potato,
        }
    );
    assert_eq!(restored_stage(&[], 4, 7), PlotStage::Soil);
    assert_eq!(restored_stage(&saved, 99, 99), PlotStage::Soil);
}

#[test]
fn restoring_goes_by_tile_not_position() {
    let saved = capture_plots(&[growing_turnip(), tilled(), ready_potato()]);
    let mut reordered = saved.clone();
    reordered.reverse();
    for (x, y) in [(4, 7), (5, 7), (6, 7), (0, 0)] {
        assert_eq!(restored_stage(&reordered, x, y), restored_stage(&saved, x, y));
    }
    assert_eq!(saved_stage(PlotStage::Soil), None);
    let ready = PlotStage::Ready {
        crop: CropKind::Potato,
    };
    assert_eq!(live_stage(saved_stage(ready).unwrap()), ready);
    assert_eq!(saved_kind(CropKind::Turnip), SavedCropKind::Turnip);
    assert_eq!(live_kind(SavedCropKind::Potato), CropKind::Potato);
}

#[test]
fn hotbar_starts_empty_and_assigns_slots() {
    let mut bar = HomesteadHotbar::default();
    assert_eq!(bar.selected_entry(), HotbarEntry::Empty);
    assert_eq!(bar.selected_entry().label(), "Empty");
    assert_eq!(bar.selected_entry().short_label(), "—");
    bar.assign(2, MaterialId::FishingRod);
    assert_eq!(bar.selected, 2);
    assert_eq!(bar.selected_entry().material(), Some(MaterialId::FishingRod));
    assert_eq!(bar.selected_entry().label(), "Fishing Rod");
    bar.select(9);
    assert_eq!(bar.selected, 2);
    bar.clear_slot(2);
    assert_eq!(bar.selected_entry(), HotbarEntry::Empty);
}
