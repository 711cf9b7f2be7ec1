//! The dungeon player's jumps: one from the ground, then a limited number of
//! air jumps until the next landing.

use vstd::prelude::*;

verus! {

/// Air jumps the player gets after leaving the ground.
pub const MAX_AIR_JUMPS: u8 = 1;

/// Which jump a press makes.
#[derive(Clone, Copy, Debug, PartialEq, Eq, Structural)]
pub enum JumpKind {
    /// From the ground, at full jump speed.
    Ground,
    /// In the air, at the reduced air-jump speed.
    Air,
}

/// What the frame saw, as the jump rule reads it.
#[derive(Clone, Copy, Debug, PartialEq, Eq, Structural)]
pub struct JumpInput {
    pub under_knockback: bool,
    /// An attack, a block or a charge is running.
    pub jump_blocked: bool,
    /// The jump key went down this frame.
    pub jump_pressed: bool,
    pub grounded: bool,
    pub air_jumps_remaining: u8,
}

/// The jump a frame makes and the air jumps left after it: a press jumps
/// unless knocked back or busy; from the ground it refills the air jumps,
/// in the air it spends one, and with none left nothing happens.
pub open spec fn jump_rule(input: JumpInput) -> (Option<JumpKind>, u8) {
    if input.under_knockback || input.jump_blocked || !input.jump_pressed {
        (None, input.air_jumps_remaining)
    } else if input.grounded {
        (Some(JumpKind::Ground), MAX_AIR_JUMPS)
    } else if input.air_jumps_remaining > 0 {
        (Some(JumpKind::Air), (input.air_jumps_remaining - 1) as u8)
    } else {
        (None, 0)
    }
}

/// Decides the frame's jump by [`jump_rule`].
pub fn jump_decision(input: JumpInput) -> (out: (Option<JumpKind>, u8))
    ensures
        out == jump_rule(input),
{
    if input.under_knockback || input.jump_blocked || !input.jump_pressed {
        return (None, input.air_jumps_remaining);
    }
    if input.grounded {
        (Some(JumpKind::Ground), MAX_AIR_JUMPS)
    } else if input.air_jumps_remaining > 0 {
        (Some(JumpKind::Air), input.air_jumps_remaining - 1)
    } else {
        (None, 0)
    }
}

/// Between two landings the player makes at most one ground jump and
/// `MAX_AIR_JUMPS` air jumps: an air jump needs one left, and only a ground
/// jump or a landing refills them.
pub proof fn lemma_air_jumps_bounded(input: JumpInput)
    requires
        input.air_jumps_remaining <= MAX_AIR_JUMPS,
    ensures
        jump_rule(input).1 <= MAX_AIR_JUMPS,
        !input.under_knockback && !input.jump_blocked && input.jump_pressed && !input.grounded
            && input.air_jumps_remaining > 0 ==> jump_rule(input).0 == Some(JumpKind::Air),
        jump_rule(input).0 == Some(JumpKind::Air) ==> jump_rule(input).1 < input.air_jumps_remaining,
        !input.grounded ==> jump_rule(input).1 <= input.air_jumps_remaining,
{
}

/// A frame that makes no jump leaves the air jumps as they were: knocked
/// back, busy with an attack, block or charge, or without a press, the
/// player neither jumps nor gains or loses an air jump. A ground jump
/// refills the air jumps, and in the air a press with one left makes an air
/// jump that spends exactly one.
pub proof fn lemma_air_jumps_change_only_by_jumping(input: JumpInput)
    ensures
        input.under_knockback ==> jump_rule(input) == (None::<JumpKind>, input.air_jumps_remaining),
        input.jump_blocked ==> jump_rule(input) == (None::<JumpKind>, input.air_jumps_remaining),
        !input.jump_pressed ==> jump_rule(input) == (None::<JumpKind>, input.air_jumps_remaining),
        !input.under_knockback && !input.jump_blocked && input.jump_pressed && input.grounded ==> jump_rule(input) == (
            Some(JumpKind::Ground),
            MAX_AIR_JUMPS,
        ),
        !input.under_knockback && !input.jump_blocked && input.jump_pressed && !input.grounded
            && input.air_jumps_remaining > 0 ==> jump_rule(input).0 == Some(JumpKind::Air),
        jump_rule(input).0 == Some(JumpKind::Air) ==> !input.grounded && jump_rule(input).1 + 1 == input.air_jumps_remaining,
        jump_rule(input).0 is None ==> jump_rule(input).1 == input.air_jumps_remaining,
{
}

} // verus!
