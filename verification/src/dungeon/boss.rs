//! The King Slime's attack choice and its attack cycle: rest, wind up, release.

use vstd::prelude::*;

use crate::rng::thread_index;

verus! {

#[derive(Clone, Copy, Debug, PartialEq, Eq, Structural)]
pub enum BossAttackKind {
    SlimeBolt,
    TripleSpread,
    SlimeRain,
    RingBurst,
    GroundSlam,
    RoyalCharge,
}

pub open spec fn all_attacks() -> Seq<BossAttackKind> {
    seq![
        BossAttackKind::SlimeBolt,
        BossAttackKind::TripleSpread,
        BossAttackKind::SlimeRain,
        BossAttackKind::RingBurst,
        BossAttackKind::GroundSlam,
        BossAttackKind::RoyalCharge,
    ]
}

/// The attacks the boss draws from: every attack but the last one used, and,
/// when its health is low, one more chance each at Ring Burst, Slime Rain and
/// Ground Slam.
pub open spec fn attack_pool_of(last: Option<BossAttackKind>, low_health: bool) -> Seq<BossAttackKind> {
    let fresh = all_attacks().filter(|k: BossAttackKind| Some(k) != last);
    let base = if fresh.len() == 0 { all_attacks() } else { fresh };
    if low_health {
        base + seq![BossAttackKind::RingBurst, BossAttackKind::SlimeRain, BossAttackKind::GroundSlam]
    } else {
        base
    }
}

impl BossAttackKind {
    pub fn all() -> (kinds: [BossAttackKind; 6])
        ensures
            kinds@ == all_attacks(),
    {
        [
            BossAttackKind::SlimeBolt,
            BossAttackKind::TripleSpread,
            BossAttackKind::SlimeRain,
            BossAttackKind::RingBurst,
            BossAttackKind::GroundSlam,
            BossAttackKind::RoyalCharge,
        ]
    }
}

/// The pool of [`attack_pool_of`], in the order listed there.
pub fn attack_pool(last: Option<BossAttackKind>, low_health: bool) -> (pool: Vec<BossAttackKind>)
    ensures
        pool@ == attack_pool_of(last, low_health),
        pool@.len() > 0,
{
    let all = BossAttackKind::all();
    let mut pool: Vec<BossAttackKind> = Vec::new();
    let mut i: usize = 0;
    while i < 6
        invariant
            i <= 6,
            all@ == all_attacks(),
            pool@ == all_attacks().take(i as int).filter(|k: BossAttackKind| Some(k) != last),
        decreases 6 - i,
    {
        let kind = all[i];
        proof {
            reveal(Seq::filter);
            assert(all_attacks().take(i + 1).drop_last() =~= all_attacks().take(i as int));
        }
        if Some(kind) != last {
            pool.push(kind);
        }
        i += 1;
    }
    proof {
        assert(all_attacks().take(6) =~= all_attacks());
    }
    if pool.len() == 0 {
        pool = vec![
            BossAttackKind::SlimeBolt,
            BossAttackKind::TripleSpread,
            BossAttackKind::SlimeRain,
            BossAttackKind::RingBurst,
            BossAttackKind::GroundSlam,
            BossAttackKind::RoyalCharge,
        ];
        proof {
            assert(pool@ =~= all_attacks());
        }
    }
    if low_health {
        let ghost base = pool@;
        pool.push(BossAttackKind::RingBurst);
        pool.push(BossAttackKind::SlimeRain);
        pool.push(BossAttackKind::GroundSlam);
        proof {
            assert(pool@ =~= base + seq![BossAttackKind::RingBurst, BossAttackKind::SlimeRain, BossAttackKind::GroundSlam]);
        }
    }
    pool
}

/// Unless its health is low, the boss never draws the attack it released
/// last (there is always another one to draw).
pub proof fn lemma_calm_boss_never_repeats(last: BossAttackKind)
    ensures
        attack_pool_of(Some(last), false).len() > 0,
        !attack_pool_of(Some(last), false).contains(last),
{
    broadcast use vstd::seq_lib::group_filter_ensures;

    let pred = |k: BossAttackKind| Some(k) != Some(last);
    let all = all_attacks();
    let fresh = all.filter(pred);
    let other = if last == BossAttackKind::SlimeBolt { 1int } else { 0int };
    assert(pred(all[other]));
    assert(fresh.contains(all[other]));
    assert(fresh.len() > 0);
    if fresh.contains(last) {
        let i = choose|i: int| 0 <= i < fresh.len() && fresh[i] == last;
        assert(pred(fresh[i]));
    }
}

/// One attack drawn evenly from the pool, by the thread's generator.
pub fn pick_attack(last: Option<BossAttackKind>, low_health: bool) -> (kind: BossAttackKind)
    ensures
        attack_pool_of(last, low_health).contains(kind),
{
    let pool = attack_pool(last, low_health);
    let index = thread_index(pool.len());
    let kind = pool[index];
    proof {
        assert(pool@[index as int] == kind);
    }
    kind
}

/// Tint of the boss sprite.
#[derive(Clone, Copy, Debug, PartialEq, Eq, Structural)]
pub enum BossTint {
    Idle,
    Windup,
    Release,
}

/// Where the boss is in its attack cycle.
#[derive(Clone, Copy, Debug, PartialEq, Eq, Structural)]
pub struct BossAttackPlan {
    /// The attack being wound up.
    pub pending: Option<BossAttackKind>,
    /// The attack released last.
    pub last_kind: Option<BossAttackKind>,
    /// A windup is running (otherwise the boss rests).
    pub winding_up: bool,
}

/// What the boss's frame saw, the running timer already advanced.
#[derive(Clone, Copy, Debug, PartialEq, Eq, Structural)]
pub struct BossFrame {
    pub knocked_back: bool,
    pub charging: bool,
    /// The timer that runs in this phase (the windup while winding up, the
    /// rest otherwise) has run out.
    pub timer_done: bool,
    /// The player is within attack range.
    pub in_range: bool,
    pub low_health: bool,
}

/// What the boss does this frame.
#[derive(Clone, Copy, Debug, PartialEq, Eq, Structural)]
pub enum BossAction {
    /// Nothing but the tint.
    Hold(BossTint),
    /// The windup is over: release the pending attack, if any, and rest anew.
    Release(Option<BossAttackKind>),
    /// Start winding up this attack and restart the rest timer.
    BeginWindup(BossAttackKind),
}

impl BossAttackPlan {
    pub fn new() -> (plan: Self)
        ensures
            plan == (BossAttackPlan { pending: None, last_kind: None, winding_up: false }),
    {
        BossAttackPlan { pending: None, last_kind: None, winding_up: false }
    }

    /// Whether the windup timer (rather than the rest timer) runs this frame:
    /// neither runs while knocked back or charging.
    pub fn runs_windup(&self, knocked_back: bool, charging: bool) -> (windup: Option<bool>)
        ensures
            windup == (if knocked_back || charging { None::<bool> } else { Some(self.winding_up) }),
    {
        if knocked_back || charging {
            None
        } else {
            Some(self.winding_up)
        }
    }

    /// One frame of the attack cycle.
    pub fn step(&mut self, frame: BossFrame) -> (action: BossAction)
        ensures
            frame.knocked_back ==> action == BossAction::Hold(BossTint::Idle) && *final(self) == *old(self),
            !frame.knocked_back && frame.charging ==> action == BossAction::Hold(BossTint::Release) && *final(self)
                == *old(self),
            !frame.knocked_back && !frame.charging && old(self).winding_up && !frame.timer_done ==> action
                == BossAction::Hold(BossTint::Windup) && *final(self) == *old(self),
            !frame.knocked_back && !frame.charging && old(self).winding_up && frame.timer_done ==> action
                == BossAction::Release(old(self).pending) && *final(self) == (BossAttackPlan {
                pending: None,
                last_kind: if old(self).pending is Some { old(self).pending } else { old(self).last_kind },
                winding_up: false,
            }),
            !frame.knocked_back && !frame.charging && !old(self).winding_up && !(frame.timer_done && frame.in_range)
                ==> action == BossAction::Hold(BossTint::Idle) && *final(self) == *old(self),
            !frame.knocked_back && !frame.charging && !old(self).winding_up && frame.timer_done && frame.in_range
                ==> (action matches BossAction::BeginWindup(kind) && attack_pool_of(old(self).last_kind, frame.low_health).contains(kind)
                && *final(self) == (BossAttackPlan { pending: Some(kind), last_kind: old(self).last_kind, winding_up: true })),
    {
        if frame.knocked_back {
            return BossAction::Hold(BossTint::Idle);
        }
        if frame.charging {
            return BossAction::Hold(BossTint::Release);
        }
        if self.winding_up {
            if !frame.timer_done {
                return BossAction::Hold(BossTint::Windup);
            }
            let released = self.pending;
            if let Some(kind) = released {
                self.last_kind = Some(kind);
            }
            self.pending = None;
            self.winding_up = false;
            return BossAction::Release(released);
        }
        if !frame.timer_done || !frame.in_range {
            return BossAction::Hold(BossTint::Idle);
        }
        let kind = pick_attack(self.last_kind, frame.low_health);
        self.pending = Some(kind);
        self.winding_up = true;
        BossAction::BeginWindup(kind)
    }
}

} // verus!
