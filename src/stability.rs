//! The stability meter: a signed pool that tool actions drain.
use vstd::prelude::*;

verus! {

/// The level tiers that seed the stability budget.
#[derive(Debug, Copy, Clone, PartialEq, Eq, Structural)]
pub enum LevelStability {
    Normal,
}

/// Budget of a session on a level of the normal tier.
pub const NORMAL_STABILITY: i32 = 10000;

/// Remaining stability of the session; it may go below zero.
#[derive(Debug, Copy, Clone, PartialEq, Eq, Structural)]
pub struct Stability {
    pub remaining: i32,
}

/// A charge against the stability pool.
#[derive(Debug, Copy, Clone, PartialEq, Eq, Structural)]
pub struct StabilityDamage {
    pub amt: u32,
}

pub open spec fn spec_budget(tier: LevelStability) -> i32 {
    match tier {
        LevelStability::Normal => NORMAL_STABILITY,
    }
}

impl LevelStability {
    /// The stability budget that a level of this tier starts with.
    pub fn budget(&self) -> (b: i32)
        ensures
            b == spec_budget(*self),
    {
        match self {
            LevelStability::Normal => NORMAL_STABILITY,
        }
    }
}

impl Stability {
    pub fn new(value: i32) -> (r: Self)
        ensures
            r.remaining == value,
    {
        Self { remaining: value }
    }

    /// Deducts `damage.amt`; the pool has no floor.
    pub fn apply_damage(&mut self, damage: StabilityDamage)
        requires
            old(self).remaining - damage.amt >= i32::MIN,
        ensures
            final(self).remaining == old(self).remaining - damage.amt,
    {
        self.remaining = (self.remaining as i64 - damage.amt as i64) as i32;
    }
}

impl Default for Stability {
    fn default() -> (r: Self)
        ensures
            r.remaining == 0,
    {
        Self { remaining: 0 }
    }
}

impl StabilityDamage {
    pub fn new(value: u32) -> (r: Self)
        ensures
            r.amt == value,
    {
        Self { amt: value }
    }
}

} // verus!
