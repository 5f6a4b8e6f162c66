//! The reusable time-window gate: a forced trigger fires only when the
//! cooldown interval has strictly elapsed since the last fire; a passive
//! opportunity fires unconditionally once the quiet period has strictly
//! elapsed, and otherwise by chance, still subject to the cooldown. The
//! timestamp of the last fire is committed together with the decision.
//!
//! Instants are plain numbers in the unit of the caller's clock; they are
//! only compared and subtracted here.

use vstd::prelude::*;

verus! {

/// One part per million: the denominator of every chance.
pub const CHANCE_DENOMINATOR: u32 = 1_000_000;

/// The outcome of a forced trigger: fired, or still inside the cooldown
/// window. Still cooling is a normal outcome, not an error.
#[derive(Clone, Copy, Debug, PartialEq, Eq, Structural)]
pub enum CooldownOutcome {
    Fired,
    Cooling,
}

/// The cooldown state. `interval` is the minimum spacing of forced fires, `quiet` the
/// span after which a passive opportunity always fires, and `chance_ppm`
/// the probability of a passive fire in parts per million.
pub struct CooldownGate {
    pub interval: u64,
    pub quiet: u64,
    pub chance_ppm: u32,
    pub last: Option<u64>,
}

impl CooldownGate {
    /// A well-formed gate never holds a chance above one.
    pub open spec fn wf(&self) -> bool {
        self.chance_ppm <= CHANCE_DENOMINATOR
    }

    /// Whether a forced trigger at `now` may fire: never fired yet, or the
    /// interval has strictly elapsed.
    pub open spec fn forced_open(&self, now: u64) -> bool {
        match self.last {
            Option::None => true,
            Option::Some(l) => l + self.interval < now,
        }
    }

    /// Whether the quiet override applies at `now`: a fire exists and the
    /// quiet period has strictly elapsed since it.
    pub open spec fn quiet_open(&self, now: u64) -> bool {
        match self.last {
            Option::None => false,
            Option::Some(l) => l + self.quiet < now,
        }
    }

    /// The cooldown state as it looks right after firing at `now`.
    pub open spec fn fired_at(&self, now: u64) -> CooldownGate {
        CooldownGate { last: Some(now), ..*self }
    }

    /// A fresh gate that has never fired.
    pub fn new(interval: u64, quiet: u64, chance_ppm: u32) -> (r: CooldownGate)
        requires
            chance_ppm <= CHANCE_DENOMINATOR,
        ensures
            r == (CooldownGate { interval, quiet, chance_ppm, last: None }),
            r.wf(),
    {
        CooldownGate { interval, quiet, chance_ppm, last: None }
    }

    /// How long a forced trigger at `now` still has to wait; absent when
    /// open. A result of zero still blocks: the interval must
    /// strictly elapse.
    pub fn next_open_time(&self, now: u64) -> (r: Option<u64>)
        ensures
            r is Some <==> !self.forced_open(now),
            r matches Some(d) ==> {
                &&& self.last matches Some(l)
                &&& d == self.interval - (if now >= l {
                    now - l
                } else {
                    0
                })
            },
    {
        match self.last {
            Some(l) => {
                let elapsed = if now >= l {
                    now - l
                } else {
                    0
                };
                if elapsed <= self.interval {
                    Some(self.interval - elapsed)
                } else {
                    None
                }
            },
            None => None,
        }
    }

    /// A forced trigger at `now`: fires exactly when the cooldown window has passed, and
    /// then commits `now` as the last fire in the same step.
    pub fn trigger(&mut self, now: u64) -> (r: CooldownOutcome)
        ensures
            r == CooldownOutcome::Fired <==> old(self).forced_open(now),
            r == CooldownOutcome::Fired ==> *final(self) == old(self).fired_at(now),
            r == CooldownOutcome::Cooling ==> *final(self) == *old(self),
    {
        match self.next_open_time(now) {
            Some(_) => CooldownOutcome::Cooling,
            None => {
                self.last = Some(now);
                CooldownOutcome::Fired
            },
        }
    }

    /// A passive opportunity at `now`, judged against a chance sample in
    /// parts per million: fires unconditionally when the quiet period has
    /// strictly elapsed since the last fire, and otherwise exactly when the
    /// sample passes the chance and the cooldown is open. A fire commits
    /// `now` in the same step; a miss changes nothing.
    pub fn passive(&mut self, now: u64, sample_ppm: u32) -> (fired: bool)
        ensures
            fired <==> (old(self).quiet_open(now) || (sample_ppm < old(self).chance_ppm && old(
                self,
            ).forced_open(now))),
            fired ==> *final(self) == old(self).fired_at(now),
            !fired ==> *final(self) == *old(self),
    {
        let quiet_now = match self.last {
            Some(l) => now >= l && now - l > self.quiet,
            None => false,
        };
        if quiet_now {
            self.last = Some(now);
            return true;
        }
        if sample_ppm < self.chance_ppm {
            match self.trigger(now) {
                CooldownOutcome::Fired => true,
                CooldownOutcome::Cooling => false,
            }
        } else {
            false
        }
    }

    /// A passive opportunity at `now` with a fresh random sample. Whatever
    /// the sample, the quiet override always fires; a certain chance fires
    /// whenever the cooldown is open; a chance of zero fires only by the
    /// quiet override; a gate that is neither quiet-open nor cooldown-open
    /// never fires. A fire commits `now`; a miss changes nothing.
    pub fn passive_entropy(&mut self, now: u64) -> (fired: bool)
        requires
            old(self).wf(),
        ensures
            fired ==> *final(self) == old(self).fired_at(now),
            !fired ==> *final(self) == *old(self),
            old(self).quiet_open(now) ==> fired,
            old(self).chance_ppm == CHANCE_DENOMINATOR && old(self).forced_open(now) ==> fired,
            !old(self).quiet_open(now) && old(self).chance_ppm == 0 ==> !fired,
            !old(self).quiet_open(now) && !old(self).forced_open(now) ==> !fired,
    {
        let sample = draw_ppm();
        self.passive(now, sample)
    }
}

/// Relies on `rand::random_range`: the sample is uniform in the half-open
/// range, so strictly below the denominator.
#[verifier::external_body]
fn draw_ppm() -> (r: u32)
    ensures
        r < CHANCE_DENOMINATOR,
{
    rand::random_range(0..CHANCE_DENOMINATOR)
}

/// Law: once the quiet period has strictly elapsed since the last fire, a
/// passive opportunity fires regardless of the chance and of the sample
/// drawn against it.
pub proof fn lemma_quiet_override(gate: CooldownGate, now: u64, sample_ppm: u32)
    requires
        gate.last matches Some(l) && l + gate.quiet < now,
    ensures
        gate.quiet_open(now) || (sample_ppm < gate.chance_ppm && gate.forced_open(now)),
{
}

} // verus!

