//! Fishing catch results and the feedback shown for them.

use vstd::prelude::*;

use crate::items::MaterialId;

verus! {

#[derive(Clone, Copy, Debug, PartialEq, Eq, Structural)]
pub enum CatchQuality {
    Perfect,
    Good,
    Miss,
}

#[derive(Clone, Copy, Debug, PartialEq, Eq, Structural)]
pub enum CatchResult {
    Caught { fish: MaterialId, amount: u32, quality: CatchQuality },
    Miss,
}

pub open spec fn quality_of(result: CatchResult) -> CatchQuality {
    match result {
        CatchResult::Caught { quality, .. } => quality,
        CatchResult::Miss => CatchQuality::Miss,
    }
}

pub open spec fn catch_feedback(result: CatchResult) -> Seq<char> {
    match quality_of(result) {
        CatchQuality::Perfect => "Perfect catch!"@,
        CatchQuality::Good => "Good catch!"@,
        CatchQuality::Miss => "Miss — fish got away"@,
    }
}

impl CatchResult {
    pub fn quality(&self) -> (q: CatchQuality)
        ensures
            q == quality_of(*self),
    {
        match self {
            Self::Caught { quality, .. } => *quality,
            Self::Miss => CatchQuality::Miss,
        }
    }

    pub fn feedback_label(&self) -> (s: &'static str)
        ensures
            s@ == catch_feedback(*self),
    {
        match self {
            Self::Caught { quality: CatchQuality::Perfect, .. } => "Perfect catch!",
            Self::Caught { quality: CatchQuality::Good, .. } => "Good catch!",
            Self::Miss | Self::Caught { quality: CatchQuality::Miss, .. } => "Miss — fish got away",
        }
    }
}

/// Terminal outcome shown on the result banner (includes cancel).
#[derive(Clone, Copy, Debug, PartialEq, Eq, Structural)]
pub enum CastOutcome {
    Catch(CatchResult),
    Cancelled,
}

pub open spec fn outcome_feedback(outcome: CastOutcome) -> Seq<char> {
    match outcome {
        CastOutcome::Catch(result) => catch_feedback(result),
        CastOutcome::Cancelled => "Cast cancelled"@,
    }
}

impl CastOutcome {
    pub fn feedback_label(&self) -> (s: &'static str)
        ensures
            s@ == outcome_feedback(*self),
    {
        match self {
            Self::Catch(result) => result.feedback_label(),
            Self::Cancelled => "Cast cancelled",
        }
    }
}

/// What the player's input does to the fishing rod this frame.
#[derive(Clone, Copy, Debug, PartialEq, Eq, Structural)]
pub enum RodUse {
    /// Nothing happens.
    Ignore,
    /// A window opened over a running cast: cancel it quietly.
    CancelQuietly,
    /// The player cancelled the running cast.
    Cancel,
    /// The rod is selected but not in the inventory.
    RodMissing,
    /// No fishing dock in reach.
    NoDockNearby,
    /// Not enough energy for a cast.
    TooTired,
    /// Spend the energy and cast.
    Cast,
}

/// What the frame saw, as the rod system reads it.
#[derive(Clone, Copy, Debug, PartialEq, Eq, Structural)]
pub struct RodInput {
    /// The inventory or forge window is open.
    pub window_open: bool,
    /// A cast is running.
    pub casting: bool,
    pub cancel_pressed: bool,
    pub use_pressed: bool,
    /// The selected hotbar slot holds the fishing rod.
    pub rod_selected: bool,
    /// The inventory holds a fishing rod.
    pub rod_held: bool,
    pub near_dock: bool,
    /// The energy pool covers a cast.
    pub can_afford: bool,
}

/// Decides the rod's use: open windows cancel a running cast; a running cast
/// can only be cancelled; otherwise a press with the rod selected casts when
/// the rod is held, a dock is near and the energy suffices, and says which
/// of these was missing.
pub fn rod_use_decision(input: RodInput) -> (action: RodUse)
    ensures
        input.window_open ==> action == (if input.casting { RodUse::CancelQuietly } else { RodUse::Ignore }),
        !input.window_open && input.casting ==> action == (if input.cancel_pressed { RodUse::Cancel } else { RodUse::Ignore }),
        !input.window_open && !input.casting && !(input.use_pressed && input.rod_selected) ==> action == RodUse::Ignore,
        !input.window_open && !input.casting && input.use_pressed && input.rod_selected ==> action == (
        if !input.rod_held {
            RodUse::RodMissing
        } else if !input.near_dock {
            RodUse::NoDockNearby
        } else if !input.can_afford {
            RodUse::TooTired
        } else {
            RodUse::Cast
        }),
{
    if input.window_open {
        if input.casting {
            return RodUse::CancelQuietly;
        }
        return RodUse::Ignore;
    }
    if input.casting {
        if input.cancel_pressed {
            return RodUse::Cancel;
        }
        return RodUse::Ignore;
    }
    if !input.use_pressed || !input.rod_selected {
        return RodUse::Ignore;
    }
    if !input.rod_held {
        return RodUse::RodMissing;
    }
    if !input.near_dock {
        return RodUse::NoDockNearby;
    }
    if !input.can_afford {
        return RodUse::TooTired;
    }
    RodUse::Cast
}

pub open spec fn rod_use_message(action: RodUse) -> Option<Seq<char>> {
    match action {
        RodUse::Cancel => Some("Cast cancelled."@),
        RodUse::RodMissing => Some("Fishing rod not in inventory."@),
        RodUse::NoDockNearby => Some("Move to a fishing dock to cast (try the lake path east)."@),
        RodUse::TooTired => Some("Not enough energy to fish."@),
        RodUse::Cast => Some("Casting… hold Space when the fish bites to keep it in the green bar."@),
        _ => None,
    }
}

impl RodUse {
    /// The line the game logs for the decision, if any.
    pub fn message(self) -> (text: Option<&'static str>)
        ensures
            text is None <==> rod_use_message(self) is None,
            text matches Some(t) ==> rod_use_message(self) == Some(t@),
    {
        match self {
            RodUse::Cancel => Some("Cast cancelled."),
            RodUse::RodMissing => Some("Fishing rod not in inventory."),
            RodUse::NoDockNearby => Some("Move to a fishing dock to cast (try the lake path east)."),
            RodUse::TooTired => Some("Not enough energy to fish."),
            RodUse::Cast => Some("Casting… hold Space when the fish bites to keep it in the green bar."),
            _ => None,
        }
    }
}

/// Where the fishing minigame stands; its timers run with the caller.
#[derive(Clone, Copy, Debug, PartialEq, Eq, Structural)]
pub enum CastStage {
    Idle,
    /// The line is out and the timing cursor moves.
    Waiting,
    /// The outcome is on show before the minigame returns to idle.
    ShowingResult,
}

/// What happens to the minigame.
#[derive(Clone, Copy, Debug, PartialEq, Eq, Structural)]
pub enum CastEvent {
    /// Cast the line.
    Start,
    /// Take the line back in without a catch.
    Cancel,
    /// Reel at the cursor.
    Reel,
    /// The outcome has been on show long enough.
    ResultShown,
    /// Leave the minigame at once.
    ForceIdle,
}

/// The stage `event` leads to, or `None` when it does not apply: a cast
/// starts only from idle, is cancelled or reeled only while the line is
/// out (both show an outcome), an outcome on show gives way to idle, and
/// any stage can be left for idle at once.
pub open spec fn cast_transition(stage: CastStage, event: CastEvent) -> Option<CastStage> {
    match event {
        CastEvent::Start => if stage == CastStage::Idle { Some(CastStage::Waiting) } else { None },
        CastEvent::Cancel | CastEvent::Reel => if stage == CastStage::Waiting {
            Some(CastStage::ShowingResult)
        } else {
            None
        },
        CastEvent::ResultShown => if stage == CastStage::ShowingResult { Some(CastStage::Idle) } else { None },
        CastEvent::ForceIdle => Some(CastStage::Idle),
    }
}

impl CastStage {
    /// The stage after `event`; `None` leaves the minigame as it was.
    pub fn step(self, event: CastEvent) -> (next: Option<CastStage>)
        ensures
            next == cast_transition(self, event),
    {
        match event {
            CastEvent::Start => match self {
                CastStage::Idle => Some(CastStage::Waiting),
                _ => None,
            },
            CastEvent::Cancel | CastEvent::Reel => match self {
                CastStage::Waiting => Some(CastStage::ShowingResult),
                _ => None,
            },
            CastEvent::ResultShown => match self {
                CastStage::ShowingResult => Some(CastStage::Idle),
                _ => None,
            },
            CastEvent::ForceIdle => Some(CastStage::Idle),
        }
    }
}

/// Each event acts only in its own stage and leaves every other stage as it
/// was: a cast starts only from idle, is cancelled or reeled only while the
/// line is out, and an outcome gives way to idle only while on show; leaving
/// goes to idle from anywhere.
pub proof fn lemma_cast_events_act_in_their_stage(stage: CastStage, event: CastEvent)
    ensures
        (event == CastEvent::Cancel || event == CastEvent::Reel) ==> (cast_transition(stage, event) is Some
            <==> stage == CastStage::Waiting),
        (event == CastEvent::Cancel || event == CastEvent::Reel) && stage == CastStage::Waiting ==> cast_transition(
            stage,
            event,
        ) == Some(CastStage::ShowingResult),
        event == CastEvent::Start ==> (cast_transition(stage, event) is Some <==> stage == CastStage::Idle),
        event == CastEvent::ResultShown ==> (cast_transition(stage, event) is Some <==> stage
            == CastStage::ShowingResult),
        event == CastEvent::ForceIdle ==> cast_transition(stage, event) == Some(CastStage::Idle),
        cast_transition(stage, event) == Some(stage) ==> stage == CastStage::Idle && event == CastEvent::ForceIdle,
{
}

/// Every cast ends where it began: from idle, a start and then a cancel or
/// a reel, once the outcome has been shown, is back at idle, and no other
/// first step but leaving does anything from idle.
pub proof fn lemma_cast_round_trip(finish: CastEvent, other: CastEvent)
    requires
        finish == CastEvent::Cancel || finish == CastEvent::Reel,
        other != CastEvent::Start && other != CastEvent::ForceIdle,
    ensures
        cast_transition(CastStage::Idle, CastEvent::Start) == Some(CastStage::Waiting),
        cast_transition(CastStage::Waiting, finish) == Some(CastStage::ShowingResult),
        cast_transition(CastStage::ShowingResult, CastEvent::ResultShown) == Some(CastStage::Idle),
        cast_transition(CastStage::Idle, other) is None,
{
}

} // verus!
