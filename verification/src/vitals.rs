//! The vitals engine: pure arithmetic on a decaying level.
//!
//! Each vital is a pair `(level, last_updated_block)`. Reading it at a later
//! block subtracts `elapsed * decay_rate`, saturating at zero; an action
//! refills it by a fixed increment, saturating at `MAX_LEVEL`.

use vstd::arithmetic::mul::{lemma_mul_inequality, lemma_mul_upper_bound};
use vstd::prelude::*;

verus! {

/// The ceiling of every vital level.
pub const MAX_LEVEL: u64 = 10000;

/// How much fullness is lost per block.
pub const HUNGER_PER_BLOCK: u64 = 1;

/// How much entertainment is lost per block.
pub const BOREDOM_PER_BLOCK: u64 = 2;

/// How much rest is lost per block.
pub const ENERGY_PER_BLOCK: u64 = 2;

/// How much fullness one feeding adds.
pub const FILL_PER_FEED: u64 = 1000;

/// How much entertainment one play adds.
pub const FILL_PER_ENTERTAINMENT: u64 = 1000;

/// How much rest one sleep adds.
pub const FILL_PER_SLEEP: u64 = 1000;

/// The level of a vital after `elapsed` blocks of decay at `rate` per block,
/// saturating at zero.
pub open spec fn spec_decayed(level: u64, elapsed: u64, rate: u64) -> u64 {
    if level >= elapsed * rate {
        (level - elapsed * rate) as u64
    } else {
        0
    }
}

/// The level of a vital read at block `now`, having last been updated at
/// block `last` with stored `level`.
pub open spec fn spec_level_at(level: u64, last: u64, now: u64, rate: u64) -> u64
    recommends
        last <= now,
{
    spec_decayed(level, (now - last) as u64, rate)
}

/// The stored level after an action at block `now` refills the vital by
/// `fill`: the decayed value plus the increment, clamped to `MAX_LEVEL`.
pub open spec fn spec_refilled(level: u64, last: u64, now: u64, rate: u64, fill: u64) -> u64
    recommends
        last <= now,
        level <= MAX_LEVEL,
        fill <= MAX_LEVEL,
{
    if spec_level_at(level, last, now, rate) + fill >= MAX_LEVEL {
        MAX_LEVEL
    } else {
        (spec_level_at(level, last, now, rate) + fill) as u64
    }
}

/// Reads a vital: the stored `level` decayed over `now - last` blocks.
pub fn level_at(level: u64, last: u64, now: u64, rate: u64) -> (r: u64)
    requires
        last <= now,
    ensures
        r == spec_level_at(level, last, now, rate),
        r <= level,
{
    let elapsed: u64 = now - last;
    proof {
        lemma_mul_upper_bound(elapsed as int, u64::MAX as int, rate as int, u64::MAX as int);
    }
    let lost: u128 = (elapsed as u128) * (rate as u128);
    if (level as u128) >= lost {
        level - (lost as u64)
    } else {
        0
    }
}

/// Applies an action to a vital at block `now`: decay, then refill by
/// `fill`, clamped to `MAX_LEVEL`.
pub fn refill(level: u64, last: u64, now: u64, rate: u64, fill: u64) -> (r: u64)
    requires
        last <= now,
        level <= MAX_LEVEL,
        fill <= MAX_LEVEL,
    ensures
        r == spec_refilled(level, last, now, rate, fill),
        r <= MAX_LEVEL,
{
    let decayed = level_at(level, last, now, rate);
    if decayed + fill >= MAX_LEVEL {
        MAX_LEVEL
    } else {
        decayed + fill
    }
}

/// A vital read never goes below zero nor above the stored level, and a
/// stored level within bounds keeps every read within bounds.
pub proof fn lemma_level_bounds(level: u64, last: u64, now: u64, rate: u64)
    requires
        last <= now,
    ensures
        spec_level_at(level, last, now, rate) <= level,
        level <= MAX_LEVEL ==> spec_level_at(level, last, now, rate) <= MAX_LEVEL,
{
}

/// Monotonic decay: with no intervening action, reading a vital at a later
/// block never yields a larger value.
pub proof fn lemma_decay_monotonic(level: u64, last: u64, b1: u64, b2: u64, rate: u64)
    requires
        last <= b1 <= b2,
    ensures
        spec_level_at(level, last, b2, rate) <= spec_level_at(level, last, b1, rate),
{
    let e1 = (b1 - last) as u64;
    let e2 = (b2 - last) as u64;
    lemma_mul_inequality(e1 as int, e2 as int, rate as int);
}

} // verus!
