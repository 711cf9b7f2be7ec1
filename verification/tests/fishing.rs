use homestead::fishing::{
    rod_use_decision, CastEvent, CastOutcome, CastStage, CatchQuality, CatchResult, RodInput, RodUse,
};
use homestead::items::MaterialId;
use homestead::text::decimal;

fn pressed_with_rod() -> RodInput {
    RodInput {
        window_open: false,
        casting: false,
        cancel_pressed: false,
        use_pressed: true,
        rod_selected: true,
        rod_held: true,
        near_dock: true,
        can_afford: true,
    }
}

#[test]
fn rod_casts_only_with_everything_in_place() {
    assert_eq!(rod_use_decision(pressed_with_rod()), RodUse::Cast);
    assert_eq!(
        rod_use_decision(RodInput { rod_held: false, ..pressed_with_rod() }),
        RodUse::RodMissing
    );
    assert_eq!(
        rod_use_decision(RodInput { near_dock: false, ..pressed_with_rod() }),
        RodUse::NoDockNearby
    );
    assert_eq!(
        rod_use_decision(RodInput { can_afford: false, ..pressed_with_rod() }),
        RodUse::TooTired
    );
    assert_eq!(
        rod_use_decision(RodInput { rod_selected: false, ..pressed_with_rod() }),
        RodUse::Ignore
    );
    assert_eq!(RodUse::TooTired.message(), Some("Not enough energy to fish."));
    assert_eq!(
        RodUse::Cast.message(),
        Some("Casting… hold Space when the fish bites to keep it in the green bar.")
    );
    assert_eq!(RodUse::Ignore.message(), None);
}

#[test]
fn running_cast_can_only_be_cancelled() {
    let casting = RodInput { casting: true, ..pressed_with_rod() };
    assert_eq!(rod_use_decision(casting), RodUse::Ignore);
    assert_eq!(
        rod_use_decision(RodInput { cancel_pressed: true, ..casting }),
        RodUse::Cancel
    );
    assert_eq!(
        rod_use_decision(RodInput { window_open: true, ..casting }),
        RodUse::CancelQuietly
    );
    assert_eq!(
        rod_use_decision(RodInput { window_open: true, ..pressed_with_rod() }),
        RodUse::Ignore
    );
}

#[test]
fn catch_feedback_labels() {
    let perfect = CatchResult::Caught {
        fish: MaterialId::RiverFish,
        amount: 2,
        quality: CatchQuality::Perfect,
    };
    assert_eq!(perfect.quality(), CatchQuality::Perfect);
    assert_eq!(perfect.feedback_label(), "Perfect catch!");
    assert_eq!(CatchResult::Miss.quality(), CatchQuality::Miss);
    assert_eq!(CatchResult::Miss.feedback_label(), "Miss — fish got away");
    assert_eq!(CastOutcome::Cancelled.feedback_label(), "Cast cancelled");
    assert_eq!(CastOutcome::Catch(perfect).feedback_label(), "Perfect catch!");
}

#[test]
fn decimal_writes_digits_without_leading_zeros() {
    assert_eq!(decimal(0), "0");
    assert_eq!(decimal(7), "7");
    assert_eq!(decimal(10), "10");
    assert_eq!(decimal(4096), "4096");
    assert_eq!(decimal(u32::MAX), "4294967295");
}

#[test]
fn cast_stages_start_only_from_idle_and_return_there() {
    assert_eq!(CastStage::Idle.step(CastEvent::Start), Some(CastStage::Waiting));
    assert_eq!(CastStage::Waiting.step(CastEvent::Start), None);
    assert_eq!(CastStage::ShowingResult.step(CastEvent::Start), None);
    assert_eq!(CastStage::Idle.step(CastEvent::Reel), None);
    assert_eq!(CastStage::Idle.step(CastEvent::Cancel), None);
    assert_eq!(CastStage::Waiting.step(CastEvent::Reel), Some(CastStage::ShowingResult));
    assert_eq!(CastStage::Waiting.step(CastEvent::Cancel), Some(CastStage::ShowingResult));
    assert_eq!(CastStage::Waiting.step(CastEvent::ResultShown), None);
    assert_eq!(CastStage::ShowingResult.step(CastEvent::Reel), None);
    assert_eq!(CastStage::ShowingResult.step(CastEvent::ResultShown), Some(CastStage::Idle));
    for stage in [CastStage::Idle, CastStage::Waiting, CastStage::ShowingResult] {
        assert_eq!(stage.step(CastEvent::ForceIdle), Some(CastStage::Idle));
    }
}
